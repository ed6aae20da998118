use owl_tracker::rankings::Standing;
use owl_tracker::schedule::{
    get_current_stage, get_next_match_in_schedule, has_next_match, next_match_in_season, next_match_is_readable,
    schedule_is_readable, stages_can_be_scanned, ScheduledMatch, Stage, NO_STAGE,
};

fn game(state: Option<&str>, first: &str, second: &str, date: &str) -> ScheduledMatch {
    ScheduledMatch {
        state: state.map(|s| s.to_string()),
        first: first.to_string(),
        second: second.to_string(),
        start_date: date.to_string(),
    }
}

fn done() -> ScheduledMatch {
    game(Some("CONCLUDED"), "A", "B", "2019-02-14T00:00:00.000Z")
}

fn standings() -> Vec<Standing> {
    vec![
        Standing { name: "Seoul Dynasty".to_string(), placement: "1".to_string() },
        Standing { name: "London Spitfire".to_string(), placement: "2".to_string() },
    ]
}

fn stage(matches: Vec<ScheduledMatch>) -> Stage {
    Stage { matches }
}

#[test]
fn current_stage_is_the_first_open_one() {
    let open = || stage(vec![done(), game(Some("PENDING"), "A", "B", "x y z")]);
    let closed = || stage(vec![done(), done()]);
    let stages = vec![closed(), closed(), open(), open()];
    assert!(stages_can_be_scanned(&stages));
    assert_eq!(get_current_stage(&stages), 2);
    let stages = vec![open(), closed()];
    assert_eq!(get_current_stage(&stages), 0);
    let stages = vec![closed(), closed(), closed(), closed()];
    assert_eq!(get_current_stage(&stages), NO_STAGE);
    // a last match without a state string is not concluded
    let stages = vec![stage(vec![game(None, "A", "B", "null")])];
    assert_eq!(get_current_stage(&stages), 0);
}

#[test]
fn stages_that_cannot_be_scanned() {
    assert!(!stages_can_be_scanned(&Vec::new()));
    assert!(!stages_can_be_scanned(&vec![stage(Vec::new())]));
    assert!(!stages_can_be_scanned(&vec![stage(vec![done()])]));
    // once an open stage is found, the rest is not looked at
    assert!(stages_can_be_scanned(&vec![stage(vec![game(Some("PENDING"), "A", "B", "d")])]));
}

#[test]
fn next_match_in_schedule_reads() {
    let s = stage(vec![
        done(),
        done(),
        done(),
        game(Some("PENDING"), "Seoul Dynasty", "London Spitfire", "2019-02-15T00:00:00.000Z"),
        game(Some("PENDING"), "X", "Y", "2019-02-15T02:00:00.000Z"),
    ]);
    assert!(schedule_is_readable(&s));
    assert_eq!(
        get_next_match_in_schedule(&s, &standings()),
        "The next match is Seoul Dynasty(League Rank 1) vs London Spitfire(League Rank 2) on February 15th, 2019 "
    );
}

#[test]
fn a_pending_match_is_passed_over_when_its_day_has_ended() {
    let s = stage(vec![
        game(Some("PENDING"), "P", "Q", "2019-03-01T00:00:00Z"),
        done(),
        done(),
        done(),
    ]);
    assert_eq!(get_next_match_in_schedule(&s, &standings()), "Failed to find match_id");
}

#[test]
fn schedule_replies_without_a_match() {
    assert_eq!(get_next_match_in_schedule(&stage(Vec::new()), &standings()), "Failed to find match_id");
    let s = stage(vec![game(Some("PENDING"), "null", "B", "2019-03-01T00:00:00Z")]);
    assert_eq!(get_next_match_in_schedule(&s, &standings()), "Error getting new match information");
    let s = stage(vec![game(Some("PENDING"), "A", "B", "null")]);
    assert!(schedule_is_readable(&s));
    assert_eq!(get_next_match_in_schedule(&s, &standings()), "Error getting new match information");
    let s = stage(vec![game(Some("PENDING"), "A", "B", "2019")]);
    assert!(!schedule_is_readable(&s));
}

#[test]
fn next_match_of_the_season() {
    let closed = || stage(vec![done()]);
    let open = stage(vec![done(), game(Some("PENDING"), "Seoul Dynasty", "Z", "2019-06-03T00:00:00Z")]);
    let stages = vec![closed(), open];
    assert!(next_match_is_readable(&stages));
    assert_eq!(
        next_match_in_season(&stages, &standings()),
        "The next match is Seoul Dynasty(League Rank 1) vs Z(League Rank 22) on June 3rd, 2019 "
    );
    let stages = vec![closed(), closed(), closed(), closed()];
    assert!(next_match_is_readable(&stages));
    assert_eq!(next_match_in_season(&stages, &standings()), "Failed to find match_id");
    assert!(!next_match_is_readable(&vec![closed()]));
}

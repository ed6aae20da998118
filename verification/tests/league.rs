use owl_tracker::data::{parse_document, DataError};
use owl_tracker::league::{
    get_all_rankings, get_next_match, get_ranking, schedule_has_next_match, get_team_info, next_match_can_be_told,
    read_live_match, read_next_contenders, read_stages, read_standings, read_team,
};
use owl_tracker::live::get_current_match;

const RANKINGS: &str = r#"{"content":[
    {"competitor":{"name":"Vancouver Titans"},"placement":1},
    {"competitor":{"name":"San Francisco Shock"},"placement":2}
]}"#;

const LIVE: &str = r#"{"data":{
    "live_match":{
        "competitors":[{"name":"Shanghai Dragons"},{"name":"Hangzhou Spark"}],
        "scores":[{"value":2},{"value":1}],
        "round":3,
        "games":[{},{},{"attributes":{"map":"Busan"}}],
        "liveStatus":"LIVE",
        "timeToMatch":0
    },
    "next_match":{"competitors":[{"name":"Paris Eternal"},{"name":"Boston Uprising"}]}
}}"#;

const SCHEDULE: &str = r#"{"data":{"stages":[
    {"matches":[{"state":"CONCLUDED"}]},
    {"matches":[
        {"state":"CONCLUDED","competitors":[{"name":"A"},{"name":"B"}],"startDate":"2019-02-14T00:00:00.000Z"},
        {"state":"PENDING","competitors":[{"name":"Vancouver Titans"},{"name":"Dallas Fuel"}],"startDate":"2019-05-02T00:00:00.000Z"}
    ]}
]}}"#;

#[test]
fn text_that_is_not_json_is_refused() {
    assert_eq!(parse_document("not json").err(), Some(DataError::NotJson));
    assert_eq!(parse_document("{\"a\":").err(), Some(DataError::NotJson));
    assert!(parse_document("{}").is_ok());
}

#[test]
fn rankings_document_reads() {
    let doc = parse_document(RANKINGS).unwrap();
    let standings = read_standings(&doc);
    assert_eq!(standings.len(), 2);
    assert_eq!(standings[1].name, "San Francisco Shock");
    assert_eq!(standings[1].placement, "2");
    assert_eq!(
        get_all_rankings(&doc),
        "Current Overwatch League Rankings:\n Vancouver Titans:  Rank 1\n San Francisco Shock:  Rank 2"
    );
    assert_eq!(get_ranking("San Francisco Shock", &doc), 2);
    assert_eq!(get_ranking("null", &doc), 3);
    assert_eq!(get_ranking("Dallas Fuel", &doc), 22);
}

#[test]
fn rankings_document_with_gaps_reads_null() {
    let doc = parse_document(r#"{"content":[{"placement":1}]}"#).unwrap();
    let standings = read_standings(&doc);
    assert_eq!(standings[0].name, "null");
    assert_eq!(get_ranking("null", &doc), 1);
    let doc = parse_document("{}").unwrap();
    assert_eq!(read_standings(&doc).len(), 0);
    assert_eq!(get_all_rankings(&doc), "Current Overwatch League Rankings:");
}

#[test]
fn team_document_reads() {
    let team = parse_document(
        r#"{"description":"Dallas Fuel","ranking":{"matchWin":10,"matchLoss":4,"matchDraw":0,"gameWin":35,"gameLoss":20,"gameTie":2}}"#,
    )
    .unwrap();
    let rankings = parse_document(RANKINGS).unwrap();
    let record = read_team(&team);
    assert_eq!(record.name, "Dallas Fuel");
    assert_eq!(record.game_ties, "2");
    assert_eq!(
        get_team_info(&team, &rankings),
        "Dallas Fuel is currently 22 place in the league.\n    During the current/last stage they had 10 match wins,4 match losses, and 0 match ties.\n    During that time they had won 35 maps, lost 20 maps, and tied on 2 maps"
    );
}

#[test]
fn live_document_reads() {
    let doc = parse_document(LIVE).unwrap();
    let live = read_live_match(&doc);
    assert_eq!(live.map, "Busan");
    assert_eq!(live.round, "3");
    assert_eq!(live.time_to_match, "0");
    assert_eq!(
        get_current_match(&live, "", "NEXT"),
        "The current match is Shanghai Dragons vs Hangzhou Spark on Busan round 3 \n Shanghai Dragons is currently winning with 2 points to 1 \n NEXT "
    );
    let (first, second) = read_next_contenders(&doc);
    assert_eq!(first, "Paris Eternal");
    assert_eq!(second, "Boston Uprising");
    let empty = parse_document("{}").unwrap();
    let (first, second) = read_next_contenders(&empty);
    assert_eq!(first, "null");
    assert_eq!(second, "null");
    assert_eq!(read_live_match(&empty).live_status, "null");
}

#[test]
fn schedule_document_reads() {
    let schedule = parse_document(SCHEDULE).unwrap();
    let rankings = parse_document(RANKINGS).unwrap();
    let stages = read_stages(&schedule);
    assert_eq!(stages.len(), 2);
    assert_eq!(stages[1].matches.len(), 2);
    assert_eq!(stages[0].matches[0].state, Some("CONCLUDED".to_string()));
    assert_eq!(stages[0].matches[0].first, "null");
    assert!(next_match_can_be_told(&schedule));
    assert!(schedule_has_next_match(&schedule));
    assert_eq!(
        get_next_match(&schedule, &rankings),
        "The next match is Vancouver Titans(League Rank 1) vs Dallas Fuel(League Rank 22) on May 2nd, 2019 "
    );
}

#[test]
fn schedule_states_that_are_not_strings_are_no_state() {
    let schedule = parse_document(r#"{"data":{"stages":[{"matches":[{"state":5}]}]}}"#).unwrap();
    let stages = read_stages(&schedule);
    assert_eq!(stages[0].matches[0].state, None);
}

#[test]
fn schedules_whose_next_match_cannot_be_told() {
    let no_stages = parse_document(r#"{"data":{"stages":[]}}"#).unwrap();
    assert!(!next_match_can_be_told(&no_stages));
    assert!(!schedule_has_next_match(&no_stages));
    let bad_date = parse_document(
        r#"{"data":{"stages":[{"matches":[{"state":"PENDING","competitors":[{"name":"A"},{"name":"B"}],"startDate":"soon"}]}]}}"#,
    )
    .unwrap();
    assert!(!next_match_can_be_told(&bad_date));
}

use owl_tracker::rankings::{list_rankings, rank_in, Standing};

fn standing(name: &str, placement: &str) -> Standing {
    Standing { name: name.to_string(), placement: placement.to_string() }
}

fn league() -> Vec<Standing> {
    vec![
        standing("Vancouver Titans", "1"),
        standing("San Francisco Shock", "2"),
        standing("New York Excelsior", "3"),
    ]
}

#[test]
fn rankings_list_one_line_per_team() {
    assert_eq!(
        list_rankings(&league()),
        "Current Overwatch League Rankings:\n Vancouver Titans:  Rank 1\n San Francisco Shock:  Rank 2\n New York Excelsior:  Rank 3"
    );
    assert_eq!(list_rankings(&Vec::new()), "Current Overwatch League Rankings:");
}

#[test]
fn rank_is_one_more_than_the_place() {
    let l = league();
    assert_eq!(rank_in("Vancouver Titans", &l), 1);
    assert_eq!(rank_in("New York Excelsior", &l), 3);
    assert_eq!(rank_in("Dallas Fuel", &l), 22);
    // past the end of the rankings every place reads `null`
    assert_eq!(rank_in("null", &l), 4);
}

#[test]
fn rank_search_stops_at_the_first_place_and_the_twenty_first() {
    let mut l: Vec<Standing> = Vec::new();
    for i in 0..30 {
        l.push(standing(&format!("Team {}", i), &format!("{}", i + 1)));
    }
    l.push(standing("Team 3", "31"));
    assert_eq!(rank_in("Team 3", &l), 4);
    assert_eq!(rank_in("Team 20", &l), 21);
    assert_eq!(rank_in("Team 21", &l), 22);
    assert_eq!(rank_in("Team 29", &l), 22);
}

#[test]
fn rankings_have_a_line_per_team() {
    let l = league();
    let text = list_rankings(&l);
    let lines: Vec<&str> = text.split('\n').collect();
    assert_eq!(lines.len(), l.len() + 1);
    assert_eq!(lines[0], "Current Overwatch League Rankings:");
    for (i, s) in l.iter().enumerate() {
        assert_eq!(lines[i + 1], format!(" {}:  Rank {}", s.name, s.placement));
    }
}

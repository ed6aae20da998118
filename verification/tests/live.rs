use owl_tracker::live::{get_current_match, get_todays_next_match, has_contenders, needs_countdown, LiveMatch};
use owl_tracker::rankings::Standing;

fn live(status: &str, first_score: &str, second_score: &str, time: &str) -> LiveMatch {
    LiveMatch {
        first: "Shanghai Dragons".to_string(),
        second: "Hangzhou Spark".to_string(),
        first_score: first_score.to_string(),
        second_score: second_score.to_string(),
        round: "3".to_string(),
        map: "Busan".to_string(),
        live_status: status.to_string(),
        time_to_match: time.to_string(),
    }
}

#[test]
fn live_match_with_the_first_team_ahead() {
    let m = live("LIVE", "2", "1", "null");
    assert!(!needs_countdown(&m));
    assert_eq!(
        get_current_match(&m, "", "NEXT"),
        "The current match is Shanghai Dragons vs Hangzhou Spark on Busan round 3 \n Shanghai Dragons is currently winning with 2 points to 1 \n NEXT "
    );
}

#[test]
fn live_match_tied() {
    let m = live("LIVE", "1", "1", "null");
    assert_eq!(
        get_current_match(&m, "", "NEXT"),
        "The current match is Shanghai Dragons vs Hangzhou Spark on Busan round 3 \n the teams being tied is currently winning with 1 points to 1 \n NEXT "
    );
}

#[test]
fn live_match_with_the_second_team_ahead() {
    let m = live("LIVE", "0", "3", "null");
    assert_eq!(
        get_current_match(&m, "", "NEXT"),
        "The current match is Shanghai Dragons vs Hangzhou Spark on Busan round 3 \n Hangzhou Spark is currently winning with 3 points to 0 \n NEXT "
    );
    // scores are compared as text
    let m = live("LIVE", "10", "9", "null");
    assert_eq!(
        get_current_match(&m, "", "N"),
        "The current match is Shanghai Dragons vs Hangzhou Spark on Busan round 3 \n Hangzhou Spark is currently winning with 9 points to 10 \n N "
    );
}

#[test]
fn upcoming_match_tells_the_countdown() {
    let m = live("UPCOMING", "0", "0", "1002313231");
    assert!(needs_countdown(&m));
    assert_eq!(
        get_current_match(&m, "278 hours and 25 minutes", "NEXT"),
        "The next match is Shanghai Dragons agasint Hangzhou Spark in 278 hours and 25 minutes \n NEXT "
    );
}

#[test]
fn upcoming_match_without_a_time_says_nothing_of_it() {
    let m = live("UPCOMING", "0", "0", "null");
    assert!(!needs_countdown(&m));
    assert_eq!(get_current_match(&m, "ignored", "NEXT"), " \n NEXT ");
}

#[test]
fn todays_next_match() {
    let standings = vec![
        Standing { name: "Shanghai Dragons".to_string(), placement: "1".to_string() },
        Standing { name: "Hangzhou Spark".to_string(), placement: "2".to_string() },
    ];
    assert!(has_contenders("Shanghai Dragons", "Hangzhou Spark"));
    assert_eq!(
        get_todays_next_match("Shanghai Dragons", "Hangzhou Spark", &standings),
        "The next match will be between Shanghai Dragons(League Rank 1) and Hangzhou Spark(League Rank 2)"
    );
    assert!(!has_contenders("null", "Hangzhou Spark"));
    assert_eq!(
        get_todays_next_match("null", "Hangzhou Spark", &standings),
        "There are no more matches today,check back in tomorrow!"
    );
    assert_eq!(
        get_todays_next_match("Shanghai Dragons", "null", &Vec::new()),
        "There are no more matches today,check back in tomorrow!"
    );
}

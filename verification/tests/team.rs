use owl_tracker::rankings::Standing;
use owl_tracker::team::{team_report, team_info_url, TeamRecord};

#[test]
fn menu_numbers_name_teams() {
    assert_eq!(team_info_url(1), Ok("https://api.overwatchleague.com/teams/7698".to_string()));
    assert_eq!(team_info_url(4), Ok("https://api.overwatchleague.com/teams/4523".to_string()));
    assert_eq!(team_info_url(20), Ok("https://api.overwatchleague.com/teams/7697".to_string()));
    assert_eq!(team_info_url(0), Err("That is not a valid team".to_string()));
    assert_eq!(team_info_url(21), Err("That is not a valid team".to_string()));
    assert_eq!(team_info_url(1000000000), Err("That is not a valid team".to_string()));
}

#[test]
fn team_record_reads() {
    let team = TeamRecord {
        name: "Dallas Fuel".to_string(),
        match_wins: "10".to_string(),
        match_losses: "4".to_string(),
        match_draws: "0".to_string(),
        game_wins: "35".to_string(),
        game_losses: "20".to_string(),
        game_ties: "2".to_string(),
    };
    let standings = vec![
        Standing { name: "Vancouver Titans".to_string(), placement: "1".to_string() },
        Standing { name: "Dallas Fuel".to_string(), placement: "2".to_string() },
    ];
    assert_eq!(
        team_report(&team, &standings),
        "Dallas Fuel is currently 2 place in the league.\n    During the current/last stage they had 10 match wins,4 match losses, and 0 match ties.\n    During that time they had won 35 maps, lost 20 maps, and tied on 2 maps"
    );
    assert_eq!(
        team_report(&team, &Vec::new()),
        "Dallas Fuel is currently 22 place in the league.\n    During the current/last stage they had 10 match wins,4 match losses, and 0 match ties.\n    During that time they had won 35 maps, lost 20 maps, and tied on 2 maps"
    );
}

//! One team's record: which team a menu number names, where its record is
//! found, and how the record reads.
use vstd::prelude::*;

use crate::rankings::{league_rank, rank_in, standings_view, Standing};
use crate::text::{decimal, push_decimal};

verus! {

/// The league's identifiers of the 20 teams, in the order of the team menu.
pub open spec fn team_ids() -> Seq<u32> {
    seq![
        7698u32, 4402, 7692, 4523, 4407, 7699, 7693, 4525, 4410, 4406, 4405, 4403, 7694, 4524, 4404,
        4409, 4408, 7695, 7696, 7697,
    ]
}

/// The identifier of the team that a menu number names (1 to 20).
pub open spec fn team_id_of(choice: u32) -> Option<u32> {
    if 1 <= choice <= 20 {
        Some(team_ids()[choice - 1])
    } else {
        None
    }
}

/// Where the record of the team with identifier `id` is found.
pub open spec fn team_url(id: u32) -> Seq<char> {
    "https://api.overwatchleague.com/teams/"@ + decimal(id as nat)
}

/// The reply to a number that names no team.
pub open spec fn not_a_team() -> Seq<char> {
    "That is not a valid team"@
}

/// Where to find the record of the team that a menu number names, or, for
/// a number that names none, the reply to it.
pub fn team_info_url(choice: u32) -> (r: Result<String, String>)
    ensures
        match team_id_of(choice) {
            Some(id) => r is Ok && r->Ok_0@ == team_url(id),
            None => r is Err && r->Err_0@ == not_a_team(),
        },
{
    if choice <= 0 || choice > 20 {
        return Err(String::from_str("That is not a valid team"));
    }
    let ids: [u32; 20] = [
        7698, 4402, 7692, 4523, 4407, 7699, 7693, 4525, 4410, 4406, 4405, 4403, 7694, 4524, 4404,
        4409, 4408, 7695, 7696, 7697,
    ];
    assert(ids@ =~= team_ids());
    let id = ids[(choice - 1) as usize];
    let mut url = String::from_str("https://api.overwatchleague.com/teams/");
    push_decimal(&mut url, id as usize);
    Ok(url)
}

/// A team's record, each field as the text the league's data holds for it.
pub struct TeamRecord {
    pub name: String,
    pub match_wins: String,
    pub match_losses: String,
    pub match_draws: String,
    pub game_wins: String,
    pub game_losses: String,
    pub game_ties: String,
}

/// What a `TeamRecord` holds, as text.
pub ghost struct TeamRecordView {
    pub name: Seq<char>,
    pub match_wins: Seq<char>,
    pub match_losses: Seq<char>,
    pub match_draws: Seq<char>,
    pub game_wins: Seq<char>,
    pub game_losses: Seq<char>,
    pub game_ties: Seq<char>,
}

impl View for TeamRecord {
    type V = TeamRecordView;

    open spec fn view(&self) -> TeamRecordView {
        TeamRecordView {
            name: self.name@,
            match_wins: self.match_wins@,
            match_losses: self.match_losses@,
            match_draws: self.match_draws@,
            game_wins: self.game_wins@,
            game_losses: self.game_losses@,
            game_ties: self.game_ties@,
        }
    }
}

/// How a team's record reads, with its rank in the league.
pub open spec fn team_info_text(team: TeamRecordView, rank: int) -> Seq<char> {
    team.name + " is currently "@ + decimal(rank as nat) + " place in the league.\n    During the current/last stage they had "@
        + team.match_wins + " match wins,"@ + team.match_losses + " match losses, and "@
        + team.match_draws + " match ties.\n    During that time they had won "@
        + team.game_wins + " maps, lost "@ + team.game_losses + " maps, and tied on "@
        + team.game_ties + " maps"@
}

/// How a team's record reads, with its rank in the rankings `standings`.
pub fn team_report(team: &TeamRecord, standings: &Vec<Standing>) -> (r: String)
    ensures
        r@ == team_info_text(team@, league_rank(team.name@, standings_view(standings@))),
{
    let rank = rank_in(team.name.as_str(), standings);
    let mut r = String::from_str(team.name.as_str());
    r.append(" is currently ");
    push_decimal(&mut r, rank);
    r.append(" place in the league.\n    During the current/last stage they had ");
    r.append(team.match_wins.as_str());
    r.append(" match wins,");
    r.append(team.match_losses.as_str());
    r.append(" match losses, and ");
    r.append(team.match_draws.as_str());
    r.append(" match ties.\n    During that time they had won ");
    r.append(team.game_wins.as_str());
    r.append(" maps, lost ");
    r.append(team.game_losses.as_str());
    r.append(" maps, and tied on ");
    r.append(team.game_ties.as_str());
    r.append(" maps");
    r
}

/// The team menu lists the teams in this order, and each number names the
/// league's identifier at that place: 1 is 7698 (Atlanta Reign), 2 is 4402
/// (Boston Uprising), 3 is 7692 (Chengdu Hunters), and so on to 20, 7697
/// (Washington Justice). No other number names a team, and the record of a
/// team is found under `teams/` followed by its identifier in decimal.
pub proof fn law_menu_numbers_name_the_listed_teams(choice: u32)
    ensures
        1 <= choice <= 20 ==> team_id_of(choice) == Some(
            seq![
                7698u32, 4402u32, 7692u32, 4523u32, 4407u32, 7699u32, 7693u32, 4525u32, 4410u32,
                4406u32, 4405u32, 4403u32, 7694u32, 4524u32, 4404u32, 4409u32, 4408u32, 7695u32,
                7696u32, 7697u32,
            ][choice - 1],
        ),
        !(1 <= choice <= 20) ==> team_id_of(choice) is None,
        team_id_of(2) == Some(4402u32),
        team_id_of(3) == Some(7692u32),
        forall|id: u32| #[trigger] team_url(id) == "https://api.overwatchleague.com/teams/"@ + decimal(id as nat),
{
    assert(team_ids() =~= seq![
        7698u32, 4402u32, 7692u32, 4523u32, 4407u32, 7699u32, 7693u32, 4525u32, 4410u32,
        4406u32, 4405u32, 4403u32, 7694u32, 4524u32, 4404u32, 4409u32, 4408u32, 7695u32,
        7696u32, 7697u32,
    ]);
}

/// A team's record reads its name, its rank, then its match wins, losses and
/// draws, then its map wins, losses and ties, each in its own place.
pub proof fn law_team_record_reads(team: TeamRecordView, rank: int)
    ensures
        team_info_text(team, rank) == team.name + " is currently "@ + decimal(rank as nat)
            + " place in the league.\n    During the current/last stage they had "@
            + team.match_wins + " match wins,"@ + team.match_losses + " match losses, and "@
            + team.match_draws + " match ties.\n    During that time they had won "@
            + team.game_wins + " maps, lost "@ + team.game_losses + " maps, and tied on "@
            + team.game_ties + " maps"@,
{
}

} // verus!

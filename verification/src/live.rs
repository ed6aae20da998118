//! The match that is live now, and the next match of the day.
use vstd::prelude::*;

use crate::rankings::{league_rank, rank_in, standings_view, Standing, StandingView};
use crate::text::{decimal, push_decimal, seq_lt, str_eq, str_lt};

verus! {

/// The live match as the league reports it, each field as the text its data
/// holds (`null` where it holds nothing).
pub struct LiveMatch {
    pub first: String,
    pub second: String,
    pub first_score: String,
    pub second_score: String,
    pub round: String,
    pub map: String,
    /// `LIVE` while the match is being played.
    pub live_status: String,
    /// Milliseconds until the match starts.
    pub time_to_match: String,
}

/// What a `LiveMatch` holds, as text.
pub ghost struct LiveMatchView {
    pub first: Seq<char>,
    pub second: Seq<char>,
    pub first_score: Seq<char>,
    pub second_score: Seq<char>,
    pub round: Seq<char>,
    pub map: Seq<char>,
    pub live_status: Seq<char>,
    pub time_to_match: Seq<char>,
}

impl View for LiveMatch {
    type V = LiveMatchView;

    open spec fn view(&self) -> LiveMatchView {
        LiveMatchView {
            first: self.first@,
            second: self.second@,
            first_score: self.first_score@,
            second_score: self.second_score@,
            round: self.round@,
            map: self.map@,
            live_status: self.live_status@,
            time_to_match: self.time_to_match@,
        }
    }
}

/// Whether the match is being played.
pub open spec fn is_live(m: LiveMatchView) -> bool {
    m.live_status == "LIVE"@
}

/// Whether the report of a match that is not live tells how long until it
/// starts: it does when the data gives that time and both teams.
pub open spec fn countdown_shown(m: LiveMatchView) -> bool {
    &&& !is_live(m)
    &&& m.time_to_match != "null"@
    &&& m.first != "null"@
    &&& m.second != "null"@
}

/// How a live match reads: who plays, where, and who leads with what score.
/// The second number is the trailing team's score.
pub open spec fn live_score_line(m: LiveMatchView) -> Seq<char> {
    let (leader, leader_score, other_score) = if m.first_score == m.second_score {
        ("the teams being tied"@, m.first_score, m.second_score)
    } else if seq_lt(m.second_score, m.first_score) {
        (m.first, m.first_score, m.second_score)
    } else {
        (m.second, m.second_score, m.first_score)
    };
    "The current match is "@ + m.first + " vs "@ + m.second + " on "@ + m.map + " round "@
        + m.round + " \n "@ + leader + " is currently winning with "@ + leader_score
        + " points to "@ + other_score
}

/// What the report says of the live match; `countdown` is how the time until
/// the match reads.
pub open spec fn live_match_line(m: LiveMatchView, countdown: Seq<char>) -> Seq<char> {
    if is_live(m) {
        live_score_line(m)
    } else if countdown_shown(m) {
        "The next match is "@ + m.first + " agasint "@ + m.second + " in "@ + countdown
    } else {
        Seq::empty()
    }
}

/// The report on the live match, followed by what the schedule says of its
/// next match.
pub open spec fn current_match_text(
    m: LiveMatchView,
    countdown: Seq<char>,
    next_match: Seq<char>,
) -> Seq<char> {
    live_match_line(m, countdown) + " \n "@ + next_match + " "@
}

/// Whether the report on `live_match` tells how long until it starts, so
/// that the time must be read.
pub fn needs_countdown(live_match: &LiveMatch) -> (r: bool)
    ensures
        r == countdown_shown(live_match@),
{
    !str_eq(live_match.live_status.as_str(), "LIVE") && !str_eq(
        live_match.time_to_match.as_str(),
        "null",
    ) && !str_eq(live_match.first.as_str(), "null") && !str_eq(live_match.second.as_str(), "null")
}

/// The report on the live match: its score when it is being played, the time
/// until it starts (`countdown`) when it is not, followed by `next_match`.
pub fn get_current_match(live_match: &LiveMatch, countdown: &str, next_match: &str) -> (r: String)
    ensures
        r@ == current_match_text(live_match@, countdown@, next_match@),
{
    let m = live_match;
    let mut result = String::new();
    if str_eq(m.live_status.as_str(), "LIVE") {
        let leader: &str;
        let leader_score: &str;
        let other_score: &str;
        if str_eq(m.first_score.as_str(), m.second_score.as_str()) {
            leader = "the teams being tied";
            leader_score = m.first_score.as_str();
            other_score = m.second_score.as_str();
        } else if str_lt(m.second_score.as_str(), m.first_score.as_str()) {
            leader = m.first.as_str();
            leader_score = m.first_score.as_str();
            other_score = m.second_score.as_str();
        } else {
            leader = m.second.as_str();
            leader_score = m.second_score.as_str();
            other_score = m.first_score.as_str();
        }
        result.append("The current match is ");
        result.append(m.first.as_str());
        result.append(" vs ");
        result.append(m.second.as_str());
        result.append(" on ");
        result.append(m.map.as_str());
        result.append(" round ");
        result.append(m.round.as_str());
        result.append(" \n ");
        result.append(leader);
        result.append(" is currently winning with ");
        result.append(leader_score);
        result.append(" points to ");
        result.append(other_score);
    } else if needs_countdown(m) {
        result.append("The next match is ");
        result.append(m.first.as_str());
        result.append(" agasint ");
        result.append(m.second.as_str());
        result.append(" in ");
        result.append(countdown);
    }
    assert(result@ =~= live_match_line(m@, countdown@));
    result.append(" \n ");
    result.append(next_match);
    result.append(" ");
    result
}

/// Whether the data names both teams of the day's next match.
pub open spec fn contenders_named(first: Seq<char>, second: Seq<char>) -> bool {
    first != "null"@ && second != "null"@
}

/// What the report says of the day's next match between `first` and
/// `second`, with their ranks in `standings`.
pub open spec fn todays_next_match_text(
    first: Seq<char>,
    second: Seq<char>,
    standings: Seq<StandingView>,
) -> Seq<char> {
    if contenders_named(first, second) {
        "The next match will be between "@ + first + "(League Rank "@ + decimal(
            league_rank(first, standings) as nat,
        ) + ") and "@ + second + "(League Rank "@ + decimal(
            league_rank(second, standings) as nat,
        ) + ")"@
    } else {
        "There are no more matches today,check back in tomorrow!"@
    }
}

/// Whether the data names both teams of the day's next match, so that their
/// ranks are wanted.
pub fn has_contenders(first: &str, second: &str) -> (r: bool)
    ensures
        r == contenders_named(first@, second@),
{
    !str_eq(first, "null") && !str_eq(second, "null")
}

/// What the report says of the day's next match, with both teams' ranks in
/// `standings`, or that no match is left today.
pub fn get_todays_next_match(first: &str, second: &str, standings: &Vec<Standing>) -> (r: String)
    ensures
        r@ == todays_next_match_text(first@, second@, standings_view(standings@)),
{
    if has_contenders(first, second) {
        let first_rank = rank_in(first, standings);
        let second_rank = rank_in(second, standings);
        let mut r = String::from_str("The next match will be between ");
        r.append(first);
        r.append("(League Rank ");
        push_decimal(&mut r, first_rank);
        r.append(") and ");
        r.append(second);
        r.append("(League Rank ");
        push_decimal(&mut r, second_rank);
        r.append(")");
        r
    } else {
        String::from_str("There are no more matches today,check back in tomorrow!")
    }
}

proof fn lemma_seq_lt_strict(a: Seq<char>, b: Seq<char>)
    ensures
        seq_lt(a, b) ==> a != b && !seq_lt(b, a),
    decreases a.len(),
{
    if a.len() > 0 && b.len() > 0 && a[0] == b[0] {
        lemma_seq_lt_strict(a.drop_first(), b.drop_first());
        if a == b {
            assert(a.drop_first() == b.drop_first());
        }
    }
}

/// The report on a live match names as leader the team whose score sorts
/// strictly above the other's, and gives its score and then the other
/// team's; with equal scores it says "the teams being tied" (a 0-0 match
/// among them). The report is followed by the next match.
pub proof fn law_live_report_names_the_leader(
    m: LiveMatchView,
    countdown: Seq<char>,
    next_match: Seq<char>,
)
    requires
        m.live_status == "LIVE"@,
    ensures
        m.first_score == m.second_score ==> current_match_text(m, countdown, next_match)
            == "The current match is "@ + m.first + " vs "@ + m.second + " on "@ + m.map
            + " round "@ + m.round + " \n "@ + "the teams being tied"@
            + " is currently winning with "@ + m.first_score + " points to "@ + m.second_score
            + " \n "@ + next_match + " "@,
        seq_lt(m.second_score, m.first_score) ==> current_match_text(m, countdown, next_match)
            == "The current match is "@ + m.first + " vs "@ + m.second + " on "@ + m.map
            + " round "@ + m.round + " \n "@ + m.first + " is currently winning with "@
            + m.first_score + " points to "@ + m.second_score + " \n "@ + next_match + " "@,
        seq_lt(m.first_score, m.second_score) ==> current_match_text(m, countdown, next_match)
            == "The current match is "@ + m.first + " vs "@ + m.second + " on "@ + m.map
            + " round "@ + m.round + " \n "@ + m.second + " is currently winning with "@
            + m.second_score + " points to "@ + m.first_score + " \n "@ + next_match + " "@,
{
    lemma_seq_lt_strict(m.first_score, m.second_score);
    lemma_seq_lt_strict(m.second_score, m.first_score);
}

/// The day's next match reads with each team's own league rank, whichever
/// order the teams come in: the number after a team's name is its place in
/// the rankings (among the first 21) plus one, or 22.
pub proof fn law_todays_match_shows_each_teams_rank(
    first: Seq<char>,
    second: Seq<char>,
    standings: Seq<StandingView>,
)
    requires
        first != "null"@,
        second != "null"@,
    ensures
        todays_next_match_text(first, second, standings) == "The next match will be between "@
            + first + "(League Rank "@ + decimal(league_rank(first, standings) as nat)
            + ") and "@ + second + "(League Rank "@ + decimal(league_rank(second, standings) as nat)
            + ")"@,
        todays_next_match_text(second, first, standings) == "The next match will be between "@
            + second + "(League Rank "@ + decimal(league_rank(second, standings) as nat)
            + ") and "@ + first + "(League Rank "@ + decimal(league_rank(first, standings) as nat)
            + ")"@,
{
}

/// The report on a match that is not live tells who plays next and the
/// countdown when the data gives the time and both teams, and nothing of the
/// match otherwise; either way the next match follows.
pub proof fn law_report_before_a_match(m: LiveMatchView, countdown: Seq<char>, next_match: Seq<char>)
    requires
        m.live_status != "LIVE"@,
    ensures
        (m.time_to_match != "null"@ && m.first != "null"@ && m.second != "null"@)
            ==> current_match_text(m, countdown, next_match) == "The next match is "@ + m.first
            + " agasint "@ + m.second + " in "@ + countdown + " \n "@ + next_match + " "@,
        !(m.time_to_match != "null"@ && m.first != "null"@ && m.second != "null"@)
            ==> current_match_text(m, countdown, next_match) == " \n "@ + next_match + " "@,
{
    assert(Seq::<char>::empty() + " \n "@ =~= " \n "@);
}

/// Without both teams of the day's next match, the report says that no match
/// is left today.
pub proof fn law_no_match_left_today(first: Seq<char>, second: Seq<char>, standings: Seq<StandingView>)
    requires
        first == "null"@ || second == "null"@,
    ensures
        todays_next_match_text(first, second, standings)
            == "There are no more matches today,check back in tomorrow!"@,
{
}

} // verus!

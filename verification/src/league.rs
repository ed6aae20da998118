//! What the tracker reads in the league's documents: the rankings, a team's
//! record, the live match, and the season's schedule.
use vstd::prelude::*;

use crate::data::{
    element, json_contents, len_along, len_at, member, path_of, string_along, string_at,
    text_along, text_at, JsonContents, JsonStep, PathStep,
};
use crate::live::{LiveMatch, LiveMatchView};
use crate::rankings::{
    league_rank, list_rankings, rank_in, rankings_text, standings_view, Standing, StandingView,
};
use crate::schedule::{
    has_next_match, matches_view, next_match_in_season, next_match_is_readable,
    next_match_readable, next_match_text, season_has_pending, stages_scannable_from, stages_view,
    ScheduledMatch, ScheduledMatchView, Stage,
};
use crate::team::{team_info_text, team_report, TeamRecord, TeamRecordView};

verus! {

// ---------------------------------------------------------------- rankings

/// Where the rankings document holds its entries.
pub open spec fn content_path() -> Seq<JsonStep> {
    seq![member("content"@)]
}

/// Where the rankings document holds the name of entry `i`.
pub open spec fn entry_name_path(i: int) -> Seq<JsonStep> {
    seq![member("content"@), element(i), member("competitor"@), member("name"@)]
}

/// Where the rankings document holds the placement of entry `i`.
pub open spec fn entry_placement_path(i: int) -> Seq<JsonStep> {
    seq![member("content"@), element(i), member("placement"@)]
}

/// The entries of a rankings document.
pub open spec fn standings_in(c: JsonContents) -> Seq<StandingView> {
    Seq::new(
        len_at(c, content_path()),
        |i: int|
            StandingView { name: text_at(c, entry_name_path(i)), placement: text_at(c, entry_placement_path(i)) },
    )
}

/// The entries of a rankings document. Past them, every entry's name reads
/// `null`, as the rankings' `name_at` has it.
pub fn read_standings(rankings: &json::JsonValue) -> (r: Vec<Standing>)
    ensures
        standings_view(r@) == standings_in(json_contents(*rankings)),
        forall|p: int|
            p >= r@.len() ==> text_at(json_contents(*rankings), #[trigger] entry_name_path(p))
                == "null"@,
{
    let ghost c = json_contents(*rankings);
    let content = [PathStep::Member("content")];
    let n = len_along(rankings, &content);
    assert(path_of(content@) =~= content_path());
    let mut r: Vec<Standing> = Vec::new();
    for i in 0..n
        invariant
            n == len_at(c, content_path()),
            c == json_contents(*rankings),
            r@.len() == i,
            forall|j: int| 0 <= j < i ==> #[trigger] r@[j]@ == standings_in(c)[j],
    {
        let name_path = [
            PathStep::Member("content"),
            PathStep::Element(i),
            PathStep::Member("competitor"),
            PathStep::Member("name"),
        ];
        let placement_path = [
            PathStep::Member("content"),
            PathStep::Element(i),
            PathStep::Member("placement"),
        ];
        let name = text_along(rankings, &name_path);
        let placement = text_along(rankings, &placement_path);
        assert(path_of(name_path@) =~= entry_name_path(i as int));
        assert(path_of(placement_path@) =~= entry_placement_path(i as int));
        r.push(Standing { name, placement });
    }
    assert(standings_view(r@) =~= standings_in(c));
    assert forall|p: int| p >= r@.len() implies text_at(c, #[trigger] entry_name_path(p))
        == "null"@ by {
        let rest = seq![member("competitor"@), member("name"@)];
        assert(entry_name_path(p) =~= path_of(content@) + (seq![element(p)] + rest));
        assert(c[path_of(content@) + (seq![element(p)] + rest)] == ("null"@, 0nat, None::<Seq<char>>));
    }
    r
}

/// The rankings of a rankings document, one line per entry.
pub fn get_all_rankings(rankings: &json::JsonValue) -> (r: String)
    ensures
        r@ == rankings_text(standings_in(json_contents(*rankings))),
{
    list_rankings(&read_standings(rankings))
}

/// A team's league rank in a rankings document.
pub fn get_ranking(team: &str, rankings: &json::JsonValue) -> (r: usize)
    ensures
        r == league_rank(team@, standings_in(json_contents(*rankings))),
{
    rank_in(team, &read_standings(rankings))
}

// ---------------------------------------------------------------- a team

/// The record in a team's document.
pub open spec fn team_in(c: JsonContents) -> TeamRecordView {
    TeamRecordView {
        name: text_at(c, seq![member("description"@)]),
        match_wins: text_at(c, seq![member("ranking"@), member("matchWin"@)]),
        match_losses: text_at(c, seq![member("ranking"@), member("matchLoss"@)]),
        match_draws: text_at(c, seq![member("ranking"@), member("matchDraw"@)]),
        game_wins: text_at(c, seq![member("ranking"@), member("gameWin"@)]),
        game_losses: text_at(c, seq![member("ranking"@), member("gameLoss"@)]),
        game_ties: text_at(c, seq![member("ranking"@), member("gameTie"@)]),
    }
}

/// The text along a member of `ranking` in a team's document.
fn ranking_text(team: &json::JsonValue, field: &'static str) -> (r: String)
    ensures
        r@ == text_at(json_contents(*team), seq![member("ranking"@), member(field@)]),
{
    let path = [PathStep::Member("ranking"), PathStep::Member(field)];
    assert(path_of(path@) =~= seq![member("ranking"@), member(field@)]);
    text_along(team, &path)
}

/// The record in a team's document.
pub fn read_team(team: &json::JsonValue) -> (r: TeamRecord)
    ensures
        r@ == team_in(json_contents(*team)),
{
    let path = [PathStep::Member("description")];
    assert(path_of(path@) =~= seq![member("description"@)]);
    let name = text_along(team, &path);
    TeamRecord {
        name,
        match_wins: ranking_text(team, "matchWin"),
        match_losses: ranking_text(team, "matchLoss"),
        match_draws: ranking_text(team, "matchDraw"),
        game_wins: ranking_text(team, "gameWin"),
        game_losses: ranking_text(team, "gameLoss"),
        game_ties: ranking_text(team, "gameTie"),
    }
}

/// How the record in a team's document reads, with the team's rank in a
/// rankings document.
pub fn get_team_info(team: &json::JsonValue, rankings: &json::JsonValue) -> (r: String)
    ensures
        r@ == team_info_text(
            team_in(json_contents(*team)),
            league_rank(team_in(json_contents(*team)).name, standings_in(json_contents(*rankings))),
        ),
{
    team_report(&read_team(team), &read_standings(rankings))
}

// ---------------------------------------------------------------- the live match

/// Where the live-match document holds a field of the live match, followed
/// by `rest`.
pub open spec fn live_path(rest: Seq<JsonStep>) -> Seq<JsonStep> {
    seq![member("data"@), member("live_match"@)] + rest
}

/// The live match in the live-match document.
pub open spec fn live_match_in(c: JsonContents) -> LiveMatchView {
    LiveMatchView {
        first: text_at(c, live_path(seq![member("competitors"@), element(0), member("name"@)])),
        second: text_at(c, live_path(seq![member("competitors"@), element(1), member("name"@)])),
        first_score: text_at(c, live_path(seq![member("scores"@), element(0), member("value"@)])),
        second_score: text_at(c, live_path(seq![member("scores"@), element(1), member("value"@)])),
        round: text_at(c, live_path(seq![member("round"@)])),
        map: text_at(
            c,
            live_path(seq![member("games"@), element(2), member("attributes"@), member("map"@)]),
        ),
        live_status: text_at(c, live_path(seq![member("liveStatus"@)])),
        time_to_match: text_at(c, live_path(seq![member("timeToMatch"@)])),
    }
}

/// The text of an indexed field of the live match: `live[list][i][field]`.
fn live_indexed(doc: &json::JsonValue, list: &'static str, i: usize, field: &'static str) -> (r: String)
    ensures
        r@ == text_at(
            json_contents(*doc),
            live_path(seq![member(list@), element(i as int), member(field@)]),
        ),
{
    let path = [
        PathStep::Member("data"),
        PathStep::Member("live_match"),
        PathStep::Member(list),
        PathStep::Element(i),
        PathStep::Member(field),
    ];
    assert(path_of(path@) =~= live_path(seq![member(list@), element(i as int), member(field@)]));
    text_along(doc, &path)
}

/// The text of a field of the live match: `live[field]`.
fn live_field(doc: &json::JsonValue, field: &'static str) -> (r: String)
    ensures
        r@ == text_at(json_contents(*doc), live_path(seq![member(field@)])),
{
    let path = [PathStep::Member("data"), PathStep::Member("live_match"), PathStep::Member(field)];
    assert(path_of(path@) =~= live_path(seq![member(field@)]));
    text_along(doc, &path)
}

/// The live match in the live-match document.
pub fn read_live_match(doc: &json::JsonValue) -> (r: LiveMatch)
    ensures
        r@ == live_match_in(json_contents(*doc)),
{
    let map_path = [
        PathStep::Member("data"),
        PathStep::Member("live_match"),
        PathStep::Member("games"),
        PathStep::Element(2),
        PathStep::Member("attributes"),
        PathStep::Member("map"),
    ];
    assert(path_of(map_path@) =~= live_path(
        seq![member("games"@), element(2), member("attributes"@), member("map"@)],
    ));
    LiveMatch {
        first: live_indexed(doc, "competitors", 0, "name"),
        second: live_indexed(doc, "competitors", 1, "name"),
        first_score: live_indexed(doc, "scores", 0, "value"),
        second_score: live_indexed(doc, "scores", 1, "value"),
        round: live_field(doc, "round"),
        map: text_along(doc, &map_path),
        live_status: live_field(doc, "liveStatus"),
        time_to_match: live_field(doc, "timeToMatch"),
    }
}

/// Where the live-match document holds the name of team `i` of the day's
/// next match.
pub open spec fn next_team_path(i: int) -> Seq<JsonStep> {
    seq![member("data"@), member("next_match"@), member("competitors"@), element(i), member("name"@)]
}

/// The names of the two teams of the day's next match, in the live-match
/// document.
pub fn read_next_contenders(doc: &json::JsonValue) -> (r: (String, String))
    ensures
        r.0@ == text_at(json_contents(*doc), next_team_path(0)),
        r.1@ == text_at(json_contents(*doc), next_team_path(1)),
{
    let first = [
        PathStep::Member("data"),
        PathStep::Member("next_match"),
        PathStep::Member("competitors"),
        PathStep::Element(0),
        PathStep::Member("name"),
    ];
    let second = [
        PathStep::Member("data"),
        PathStep::Member("next_match"),
        PathStep::Member("competitors"),
        PathStep::Element(1),
        PathStep::Member("name"),
    ];
    assert(path_of(first@) =~= next_team_path(0));
    assert(path_of(second@) =~= next_team_path(1));
    (text_along(doc, &first), text_along(doc, &second))
}

// ---------------------------------------------------------------- the schedule

/// Where the schedule holds its stages.
pub open spec fn stages_path() -> Seq<JsonStep> {
    seq![member("data"@), member("stages"@)]
}

/// Where the schedule holds the matches of stage `i`.
pub open spec fn matches_path(i: int) -> Seq<JsonStep> {
    seq![member("data"@), member("stages"@), element(i), member("matches"@)]
}

/// Where the schedule holds a field of match `j` of stage `i`, followed by
/// `rest`.
pub open spec fn match_path(i: int, j: int, rest: Seq<JsonStep>) -> Seq<JsonStep> {
    seq![member("data"@), member("stages"@), element(i), member("matches"@), element(j)] + rest
}

/// Match `j` of stage `i` of the schedule.
pub open spec fn scheduled_match_in(c: JsonContents, i: int, j: int) -> ScheduledMatchView {
    ScheduledMatchView {
        state: string_at(c, match_path(i, j, seq![member("state"@)])),
        first: text_at(c, match_path(i, j, seq![member("competitors"@), element(0), member("name"@)])),
        second: text_at(c, match_path(i, j, seq![member("competitors"@), element(1), member("name"@)])),
        start_date: text_at(c, match_path(i, j, seq![member("startDate"@)])),
    }
}

/// The stages of the schedule, each with its matches.
pub open spec fn stages_in(c: JsonContents) -> Seq<Seq<ScheduledMatchView>> {
    Seq::new(
        len_at(c, stages_path()),
        |i: int| Seq::new(len_at(c, matches_path(i)), |j: int| scheduled_match_in(c, i, j)),
    )
}

/// The text of a field of a team of match `j` of stage `i`.
fn match_team(doc: &json::JsonValue, i: usize, j: usize, k: usize) -> (r: String)
    ensures
        r@ == text_at(
            json_contents(*doc),
            match_path(i as int, j as int, seq![member("competitors"@), element(k as int), member("name"@)]),
        ),
{
    let path = [
        PathStep::Member("data"),
        PathStep::Member("stages"),
        PathStep::Element(i),
        PathStep::Member("matches"),
        PathStep::Element(j),
        PathStep::Member("competitors"),
        PathStep::Element(k),
        PathStep::Member("name"),
    ];
    assert(path_of(path@) =~= match_path(
        i as int,
        j as int,
        seq![member("competitors"@), element(k as int), member("name"@)],
    ));
    text_along(doc, &path)
}

/// Match `j` of stage `i` of the schedule.
fn read_scheduled_match(doc: &json::JsonValue, i: usize, j: usize) -> (r: ScheduledMatch)
    ensures
        r@ == scheduled_match_in(json_contents(*doc), i as int, j as int),
{
    let state_path = [
        PathStep::Member("data"),
        PathStep::Member("stages"),
        PathStep::Element(i),
        PathStep::Member("matches"),
        PathStep::Element(j),
        PathStep::Member("state"),
    ];
    let date_path = [
        PathStep::Member("data"),
        PathStep::Member("stages"),
        PathStep::Element(i),
        PathStep::Member("matches"),
        PathStep::Element(j),
        PathStep::Member("startDate"),
    ];
    assert(path_of(state_path@) =~= match_path(i as int, j as int, seq![member("state"@)]));
    assert(path_of(date_path@) =~= match_path(i as int, j as int, seq![member("startDate"@)]));
    ScheduledMatch {
        state: string_along(doc, &state_path),
        first: match_team(doc, i, j, 0),
        second: match_team(doc, i, j, 1),
        start_date: text_along(doc, &date_path),
    }
}

/// The stages of the schedule, each with its matches. Past the matches of a
/// stage the schedule holds no state, and past its stages it holds no
/// matches, as the schedule's `state_is` and `stage_matches` have it.
pub fn read_stages(schedule: &json::JsonValue) -> (r: Vec<Stage>)
    ensures
        stages_view(r@) == stages_in(json_contents(*schedule)),
        forall|i: int| i >= r@.len() ==> len_at(json_contents(*schedule), #[trigger] matches_path(i)) == 0,
        forall|i: int, j: int|
            0 <= i < r@.len() && j >= r@[i].matches@.len() ==> string_at(
                json_contents(*schedule),
                #[trigger] match_path(i, j, seq![member("state"@)]),
            ) is None,
{
    let ghost c = json_contents(*schedule);
    let stages = [PathStep::Member("data"), PathStep::Member("stages")];
    let n = len_along(schedule, &stages);
    assert(path_of(stages@) =~= stages_path());
    let mut r: Vec<Stage> = Vec::new();
    for i in 0..n
        invariant
            n == len_at(c, stages_path()),
            c == json_contents(*schedule),
            r@.len() == i,
            forall|k: int| 0 <= k < i ==> #[trigger] r@[k]@ == stages_in(c)[k],
            forall|k: int, j: int|
                0 <= k < i && j >= r@[k].matches@.len() ==> string_at(
                    c,
                    #[trigger] match_path(k, j, seq![member("state"@)]),
                ) is None,
    {
        let matches = [
            PathStep::Member("data"),
            PathStep::Member("stages"),
            PathStep::Element(i),
            PathStep::Member("matches"),
        ];
        let m = len_along(schedule, &matches);
        assert(path_of(matches@) =~= matches_path(i as int));
        let mut ms: Vec<ScheduledMatch> = Vec::new();
        for j in 0..m
            invariant
                m == len_at(c, matches_path(i as int)),
                n == len_at(c, stages_path()),
                i < n,
                c == json_contents(*schedule),
                ms@.len() == j,
                forall|k: int| 0 <= k < j ==> #[trigger] ms@[k]@ == stages_in(c)[i as int][k],
        {
            ms.push(read_scheduled_match(schedule, i, j));
        }
        assert(matches_view(ms@) =~= stages_in(c)[i as int]);
        assert forall|j: int| j >= ms@.len() implies string_at(
            c,
            #[trigger] match_path(i as int, j, seq![member("state"@)]),
        ) is None by {
            let rest = seq![member("state"@)];
            assert(match_path(i as int, j, rest) =~= path_of(matches@) + (seq![element(j)] + rest));
        }
        r.push(Stage { matches: ms });
    }
    assert(stages_view(r@) =~= stages_in(c));
    assert forall|i: int| i >= r@.len() implies len_at(c, #[trigger] matches_path(i)) == 0 by {
        let rest = seq![member("matches"@)];
        assert(matches_path(i) =~= path_of(stages@) + (seq![element(i)] + rest));
    }
    r
}

/// Whether the next match of a schedule can be told: its open stage can be
/// found, and that stage's next match has a readable start date.
pub fn next_match_can_be_told(schedule: &json::JsonValue) -> (r: bool)
    ensures
        r == next_match_readable(stages_in(json_contents(*schedule))),
{
    next_match_is_readable(&read_stages(schedule))
}

/// Whether a schedule's open stage can be found and has a match to show, so
/// that the ranks of its teams are wanted.
pub fn schedule_has_next_match(schedule: &json::JsonValue) -> (r: bool)
    ensures
        r == (stages_scannable_from(stages_in(json_contents(*schedule)), 0) && season_has_pending(
            stages_in(json_contents(*schedule)),
        )),
{
    has_next_match(&read_stages(schedule))
}

/// What a schedule says of its next match, with the teams' ranks in a
/// rankings document.
pub fn get_next_match(schedule: &json::JsonValue, rankings: &json::JsonValue) -> (r: String)
    requires
        next_match_readable(stages_in(json_contents(*schedule))),
    ensures
        r@ == next_match_text(
            stages_in(json_contents(*schedule)),
            standings_in(json_contents(*rankings)),
        ),
{
    next_match_in_season(&read_stages(schedule), &read_standings(rankings))
}

} // verus!

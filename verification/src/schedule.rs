//! The season's schedule: which stage is under way, and which match of it
//! comes next.
use vstd::prelude::*;

use crate::date::{date_is_readable, date_readable, format_date, readable_date};
use crate::rankings::{league_rank, rank_in, standings_view, Standing, StandingView};
use crate::text::{decimal, push_decimal, str_eq};

verus! {

/// One match of the schedule, each field as the text the schedule holds for
/// it (`null` where it holds nothing).
pub struct ScheduledMatch {
    /// The match's state (`PENDING`, `CONCLUDED`, ...), when the schedule holds
    /// it as a string.
    pub state: Option<String>,
    pub first: String,
    pub second: String,
    pub start_date: String,
}

/// What a `ScheduledMatch` holds, as text.
pub ghost struct ScheduledMatchView {
    pub state: Option<Seq<char>>,
    pub first: Seq<char>,
    pub second: Seq<char>,
    pub start_date: Seq<char>,
}

impl View for ScheduledMatch {
    type V = ScheduledMatchView;

    open spec fn view(&self) -> ScheduledMatchView {
        ScheduledMatchView {
            state: match self.state {
                Some(s) => Some(s@),
                None => None,
            },
            first: self.first@,
            second: self.second@,
            start_date: self.start_date@,
        }
    }
}

/// What a list of matches holds.
pub open spec fn matches_view(ms: Seq<ScheduledMatch>) -> Seq<ScheduledMatchView> {
    ms.map_values(|m: ScheduledMatch| m@)
}

/// One stage of the season: its matches, three a day, in order.
pub struct Stage {
    pub matches: Vec<ScheduledMatch>,
}

impl View for Stage {
    type V = Seq<ScheduledMatchView>;

    open spec fn view(&self) -> Seq<ScheduledMatchView> {
        matches_view(self.matches@)
    }
}

/// What a list of stages holds.
pub open spec fn stages_view(stages: Seq<Stage>) -> Seq<Seq<ScheduledMatchView>> {
    stages.map_values(|s: Stage| s@)
}

/// How many stages a season has.
pub const STAGE_COUNT: usize = 4;

/// The stage number that stands for "no stage is under way".
pub const NO_STAGE: usize = 1000000;

/// Whether match `j` of `ms` exists and its state is `st`.
pub open spec fn state_is(ms: Seq<ScheduledMatchView>, j: int, st: Seq<char>) -> bool {
    &&& 0 <= j < ms.len()
    &&& ms[j].state == Some(st)
}

/// Whether stage `i` is still open: its last match has not concluded.
pub open spec fn stage_open(stages: Seq<Seq<ScheduledMatchView>>, i: int) -> bool {
    let ms = stages[i];
    !state_is(ms, ms.len() - 1, "CONCLUDED"@)
}

/// The first open stage at or after `i`, or `NO_STAGE`.
pub open spec fn current_stage_from(stages: Seq<Seq<ScheduledMatchView>>, i: int) -> int
    decreases STAGE_COUNT - i,
{
    if i >= STAGE_COUNT {
        NO_STAGE as int
    } else if stage_open(stages, i) {
        i
    } else {
        current_stage_from(stages, i + 1)
    }
}

/// Whether every stage that the search for the open stage looks at, from
/// `i` on, exists and has a last match.
pub open spec fn stages_scannable_from(stages: Seq<Seq<ScheduledMatchView>>, i: int) -> bool
    decreases STAGE_COUNT - i,
{
    i >= STAGE_COUNT || (0 <= i < stages.len() && stages[i].len() > 0 && (stage_open(
        stages,
        i,
    ) || stages_scannable_from(stages, i + 1)))
}

/// Whether match `i` is the one to show: it is pending, and the match three
/// places on (with three matches a day, on a later day) has not concluded.
pub open spec fn pending_at(ms: Seq<ScheduledMatchView>, i: int) -> bool {
    !state_is(ms, i + 3, "CONCLUDED"@) && state_is(ms, i, "PENDING"@)
}

/// The first match at or after `i` to show, or `ms.len()`.
pub open spec fn first_pending_from(ms: Seq<ScheduledMatchView>, i: int) -> int
    decreases ms.len() - i,
{
    if i >= ms.len() {
        ms.len() as int
    } else if pending_at(ms, i) {
        i
    } else {
        first_pending_from(ms, i + 1)
    }
}

/// Whether the schedule names a match's start date and both its teams.
pub open spec fn match_named(m: ScheduledMatchView) -> bool {
    &&& m.start_date != "null"@
    &&& m.first != "null"@
    &&& m.second != "null"@
}

/// Whether the match to show, if any, has a start date that can be read.
pub open spec fn schedule_readable(ms: Seq<ScheduledMatchView>) -> bool {
    let i = first_pending_from(ms, 0);
    i < ms.len() && match_named(ms[i]) ==> date_readable(ms[i].start_date)
}

/// How the next match reads, with the teams' ranks in `standings`.
pub open spec fn next_match_line(m: ScheduledMatchView, standings: Seq<StandingView>) -> Seq<char> {
    if match_named(m) {
        "The next match is "@ + m.first + "(League Rank "@ + decimal(
            league_rank(m.first, standings) as nat,
        ) + ") vs "@ + m.second + "(League Rank "@ + decimal(
            league_rank(m.second, standings) as nat,
        ) + ") on "@ + readable_date(m.start_date) + " "@
    } else {
        "Error getting new match information"@
    }
}

/// What the schedule says of its next match.
pub open spec fn schedule_text(ms: Seq<ScheduledMatchView>, standings: Seq<StandingView>) -> Seq<char> {
    let i = first_pending_from(ms, 0);
    if i < ms.len() {
        next_match_line(ms[i], standings)
    } else {
        "Failed to find match_id"@
    }
}

/// The matches of stage `i`; a stage that the season lacks has none.
pub open spec fn stage_matches(stages: Seq<Seq<ScheduledMatchView>>, i: int) -> Seq<ScheduledMatchView> {
    if 0 <= i < stages.len() {
        stages[i]
    } else {
        Seq::empty()
    }
}

/// Whether the next match of the season can be told: the open stage can be
/// found, and its next match has a readable start date.
pub open spec fn next_match_readable(stages: Seq<Seq<ScheduledMatchView>>) -> bool {
    &&& stages_scannable_from(stages, 0)
    &&& schedule_readable(stage_matches(stages, current_stage_from(stages, 0)))
}

/// Whether the open stage of the season has a match to show.
pub open spec fn season_has_pending(stages: Seq<Seq<ScheduledMatchView>>) -> bool {
    let ms = stage_matches(stages, current_stage_from(stages, 0));
    first_pending_from(ms, 0) < ms.len()
}

/// What the season's schedule says of its next match.
pub open spec fn next_match_text(stages: Seq<Seq<ScheduledMatchView>>, standings: Seq<StandingView>) -> Seq<char> {
    schedule_text(stage_matches(stages, current_stage_from(stages, 0)), standings)
}

/// Whether match `j` of `ms` exists and its state is `st`.
fn match_state_is(ms: &Vec<ScheduledMatch>, j: usize, st: &str) -> (r: bool)
    ensures
        r == state_is(matches_view(ms@), j as int, st@),
{
    if j < ms.len() {
        match &ms[j].state {
            Some(s) => str_eq(s.as_str(), st),
            None => false,
        }
    } else {
        false
    }
}

/// Whether stage `i`, which exists and has matches, is still open.
fn stage_is_open(stages: &Vec<Stage>, i: usize) -> (r: bool)
    requires
        i < stages_view(stages@).len(),
        stages@[i as int].matches@.len() > 0,
    ensures
        r == stage_open(stages_view(stages@), i as int),
{
    let ms = &stages[i].matches;
    !match_state_is(ms, ms.len() - 1, "CONCLUDED")
}

/// Whether `get_current_stage` can look at every stage it needs: each exists
/// and has a last match.
pub fn stages_can_be_scanned(stages: &Vec<Stage>) -> (r: bool)
    ensures
        r == stages_scannable_from(stages_view(stages@), 0),
{
    let mut i: usize = 0;
    while i < STAGE_COUNT
        invariant
            0 <= i <= STAGE_COUNT,
            stages_scannable_from(stages_view(stages@), 0) == stages_scannable_from(stages_view(stages@), i as int),
        decreases STAGE_COUNT - i,
    {
        if i >= stages.len() || stages[i].matches.len() == 0 {
            return false;
        }
        if stage_is_open(stages, i) {
            return true;
        }
        i = i + 1;
    }
    true
}

/// The first of the season's four stages whose last match has not concluded,
/// or `NO_STAGE` when all four have.
pub fn get_current_stage(stages: &Vec<Stage>) -> (r: usize)
    requires
        stages_scannable_from(stages_view(stages@), 0),
    ensures
        r == current_stage_from(stages_view(stages@), 0),
{
    let mut i: usize = 0;
    while i < STAGE_COUNT
        invariant
            0 <= i <= STAGE_COUNT,
            stages_scannable_from(stages_view(stages@), i as int),
            current_stage_from(stages_view(stages@), 0) == current_stage_from(stages_view(stages@), i as int),
        decreases STAGE_COUNT - i,
    {
        if stage_is_open(stages, i) {
            return i;
        }
        i = i + 1;
    }
    NO_STAGE
}

/// The first match of `ms` to show, or `ms.len()`.
fn find_next_pending(ms: &Vec<ScheduledMatch>) -> (r: usize)
    ensures
        r == first_pending_from(matches_view(ms@), 0),
{
    let n = ms.len();
    let mut i: usize = 0;
    while i < n
        invariant
            0 <= i <= n,
            n == matches_view(ms@).len(),
            first_pending_from(matches_view(ms@), 0) == first_pending_from(matches_view(ms@), i as int),
        decreases n - i,
    {
        let later_concluded = if n - i > 3 {
            match_state_is(ms, i + 3, "CONCLUDED")
        } else {
            false
        };
        if !later_concluded && match_state_is(ms, i, "PENDING") {
            return i;
        }
        i = i + 1;
    }
    n
}

/// Whether the schedule names a match's start date and both its teams.
fn is_named(m: &ScheduledMatch) -> (r: bool)
    ensures
        r == match_named(m@),
{
    !str_eq(m.start_date.as_str(), "null") && !str_eq(m.first.as_str(), "null") && !str_eq(
        m.second.as_str(),
        "null",
    )
}

fn schedule_is_readable_in(ms: &Vec<ScheduledMatch>) -> (r: bool)
    ensures
        r == schedule_readable(matches_view(ms@)),
{
    let i = find_next_pending(ms);
    if i < ms.len() && is_named(&ms[i]) {
        date_is_readable(ms[i].start_date.as_str())
    } else {
        true
    }
}

fn next_in_schedule(ms: &Vec<ScheduledMatch>, standings: &Vec<Standing>) -> (r: String)
    requires
        schedule_readable(matches_view(ms@)),
    ensures
        r@ == schedule_text(matches_view(ms@), standings_view(standings@)),
{
    let i = find_next_pending(ms);
    if i >= ms.len() {
        return String::from_str("Failed to find match_id");
    }
    let m = &ms[i];
    let first_rank = rank_in(m.first.as_str(), standings);
    let second_rank = rank_in(m.second.as_str(), standings);
    if is_named(m) {
        let date = format_date(m.start_date.clone());
        let mut r = String::from_str("The next match is ");
        r.append(m.first.as_str());
        r.append("(League Rank ");
        push_decimal(&mut r, first_rank);
        r.append(") vs ");
        r.append(m.second.as_str());
        r.append("(League Rank ");
        push_decimal(&mut r, second_rank);
        r.append(") on ");
        r.append(date.as_str());
        r.append(" ");
        r
    } else {
        String::from_str("Error getting new match information")
    }
}

/// Whether the stage's next match, if it has one, has a start date that
/// `get_next_match_in_schedule` can read.
pub fn schedule_is_readable(stage: &Stage) -> (r: bool)
    ensures
        r == schedule_readable(stage@),
{
    schedule_is_readable_in(&stage.matches)
}

/// What a stage's schedule says of its next match: the first pending match
/// whose day has not ended, with both teams' ranks and its date.
pub fn get_next_match_in_schedule(stage: &Stage, standings: &Vec<Standing>) -> (r: String)
    requires
        schedule_readable(stage@),
    ensures
        r@ == schedule_text(stage@, standings_view(standings@)),
{
    next_in_schedule(&stage.matches, standings)
}

/// Whether `get_next_match` can tell the season's next match.
pub fn next_match_is_readable(stages: &Vec<Stage>) -> (r: bool)
    ensures
        r == next_match_readable(stages_view(stages@)),
{
    if !stages_can_be_scanned(stages) {
        return false;
    }
    let current = get_current_stage(stages);
    if current < stages.len() {
        schedule_is_readable_in(&stages[current].matches)
    } else {
        let none: Vec<ScheduledMatch> = Vec::new();
        assert(matches_view(none@) =~= stage_matches(stages_view(stages@), current as int));
        schedule_is_readable_in(&none)
    }
}

/// Whether the open stage of the season can be found and has a match to
/// show, so that the ranks of its teams are wanted.
pub fn has_next_match(stages: &Vec<Stage>) -> (r: bool)
    ensures
        r == (stages_scannable_from(stages_view(stages@), 0) && season_has_pending(
            stages_view(stages@),
        )),
{
    if !stages_can_be_scanned(stages) {
        return false;
    }
    let current = get_current_stage(stages);
    if current < stages.len() {
        let ms = &stages[current].matches;
        find_next_pending(ms) < ms.len()
    } else {
        let none: Vec<ScheduledMatch> = Vec::new();
        assert(matches_view(none@) =~= stage_matches(stages_view(stages@), current as int));
        false
    }
}

/// What the season's schedule says of its next match, looked for in the
/// stage that is under way.
pub fn next_match_in_season(stages: &Vec<Stage>, standings: &Vec<Standing>) -> (r: String)
    requires
        next_match_readable(stages_view(stages@)),
    ensures
        r@ == next_match_text(stages_view(stages@), standings_view(standings@)),
{
    let current = get_current_stage(stages);
    if current < stages.len() {
        next_in_schedule(&stages[current].matches, standings)
    } else {
        let none: Vec<ScheduledMatch> = Vec::new();
        assert(matches_view(none@) =~= stage_matches(stages_view(stages@), current as int));
        next_in_schedule(&none, standings)
    }
}

/// The stage under way is the first of the four whose last match has not
/// concluded; `NO_STAGE` means that all four have concluded.
pub proof fn law_current_stage_is_first_open(stages: Seq<Seq<ScheduledMatchView>>)
    ensures
        current_stage_from(stages, 0) == NO_STAGE || (0 <= current_stage_from(stages, 0)
            < STAGE_COUNT && stage_open(stages, current_stage_from(stages, 0))),
        forall|j: int|
            0 <= j < STAGE_COUNT && j < current_stage_from(stages, 0) ==> !stage_open(stages, j),
{
    lemma_current_stage_from(stages, 0);
}

proof fn lemma_current_stage_from(stages: Seq<Seq<ScheduledMatchView>>, i: int)
    requires
        0 <= i <= STAGE_COUNT,
    ensures
        current_stage_from(stages, i) == NO_STAGE || (i <= current_stage_from(stages, i)
            < STAGE_COUNT && stage_open(stages, current_stage_from(stages, i))),
        forall|j: int|
            i <= j < STAGE_COUNT && j < current_stage_from(stages, i) ==> !stage_open(stages, j),
    decreases STAGE_COUNT - i,
{
    if i < STAGE_COUNT && !stage_open(stages, i) {
        lemma_current_stage_from(stages, i + 1);
    }
}

/// The match shown as next is the first pending match whose day's last match
/// has not concluded; no earlier match is such a match.
pub proof fn law_next_match_is_first_pending(ms: Seq<ScheduledMatchView>)
    ensures
        0 <= first_pending_from(ms, 0) <= ms.len(),
        first_pending_from(ms, 0) < ms.len() ==> pending_at(ms, first_pending_from(ms, 0)),
        forall|j: int| 0 <= j < first_pending_from(ms, 0) ==> !pending_at(ms, j),
{
    lemma_first_pending_from(ms, 0);
}

proof fn lemma_first_pending_from(ms: Seq<ScheduledMatchView>, i: int)
    requires
        0 <= i <= ms.len(),
    ensures
        i <= first_pending_from(ms, i) <= ms.len(),
        first_pending_from(ms, i) < ms.len() ==> pending_at(ms, first_pending_from(ms, i)),
        forall|j: int| i <= j < first_pending_from(ms, i) ==> !pending_at(ms, j),
    decreases ms.len() - i,
{
    if i < ms.len() && !pending_at(ms, i) {
        lemma_first_pending_from(ms, i + 1);
    }
}

/// A stage's schedule tells as its next match the first match whose state
/// is `PENDING` and whose match three places on (if there is one) has not
/// `CONCLUDED`: a match being played, or in any state but `PENDING`, is never
/// told as next. When both its teams and its date are named, it reads with
/// each team's own league rank and its readable date.
pub proof fn law_next_match_is_the_first_pending_match(
    ms: Seq<ScheduledMatchView>,
    standings: Seq<StandingView>,
    i: int,
)
    requires
        0 <= i < ms.len(),
        ms[i].state == Some("PENDING"@),
        !(i + 3 < ms.len() && ms[i + 3].state == Some("CONCLUDED"@)),
        forall|j: int|
            0 <= j < i ==> !(#[trigger] ms[j].state == Some("PENDING"@) && !(j + 3 < ms.len()
                && ms[j + 3].state == Some("CONCLUDED"@))),
    ensures
        schedule_text(ms, standings) == next_match_line(ms[i], standings),
        (ms[i].start_date != "null"@ && ms[i].first != "null"@ && ms[i].second != "null"@)
            ==> schedule_text(ms, standings) == "The next match is "@ + ms[i].first
            + "(League Rank "@ + decimal(league_rank(ms[i].first, standings) as nat)
            + ") vs "@ + ms[i].second + "(League Rank "@ + decimal(
            league_rank(ms[i].second, standings) as nat,
        ) + ") on "@ + readable_date(ms[i].start_date) + " "@,
        !(ms[i].start_date != "null"@ && ms[i].first != "null"@ && ms[i].second != "null"@)
            ==> schedule_text(ms, standings) == "Error getting new match information"@,
{
    lemma_first_pending_from(ms, 0);
    let k = first_pending_from(ms, 0);
    assert(pending_at(ms, i));
    if k < i {
        assert(pending_at(ms, k));
        assert(!(ms[k].state == Some("PENDING"@) && !(k + 3 < ms.len() && ms[k + 3].state == Some(
            "CONCLUDED"@,
        ))));
    }
}

/// When no match of a stage is `PENDING` with its match three places on not
/// `CONCLUDED`, the schedule has no next match to tell.
pub proof fn law_no_pending_match_no_next_match(ms: Seq<ScheduledMatchView>, standings: Seq<StandingView>)
    requires
        forall|j: int|
            0 <= j < ms.len() ==> !(#[trigger] ms[j].state == Some("PENDING"@) && !(j + 3 < ms.len()
                && ms[j + 3].state == Some("CONCLUDED"@))),
    ensures
        schedule_text(ms, standings) == "Failed to find match_id"@,
{
    lemma_first_pending_from(ms, 0);
    let k = first_pending_from(ms, 0);
    if k < ms.len() {
        assert(pending_at(ms, k));
        assert(!(ms[k].state == Some("PENDING"@) && !(k + 3 < ms.len() && ms[k + 3].state == Some(
            "CONCLUDED"@,
        ))));
    }
}

/// The stage under way, read off the matches' states: every stage before it
/// has a last match whose state is `CONCLUDED`, and the stage itself has no
/// matches or a last match in another state. When all four stages end with a
/// `CONCLUDED` match there is no stage under way.
pub proof fn law_stage_under_way_by_states(stages: Seq<Seq<ScheduledMatchView>>)
    ensures
        current_stage_from(stages, 0) == NO_STAGE || 0 <= current_stage_from(stages, 0) < 4,
        forall|j: int|
            0 <= j < 4 && j < current_stage_from(stages, 0) ==> #[trigger] stages[j].len() > 0
                && stages[j][stages[j].len() - 1].state == Some("CONCLUDED"@),
        current_stage_from(stages, 0) < 4 ==> !(stages[current_stage_from(stages, 0)].len() > 0
            && stages[current_stage_from(stages, 0)][stages[current_stage_from(stages, 0)].len()
            - 1].state == Some("CONCLUDED"@)),
{
    lemma_current_stage_from(stages, 0);
    assert forall|j: int| 0 <= j < 4 && j < current_stage_from(stages, 0) implies #[trigger] stages[j].len()
        > 0 && stages[j][stages[j].len() - 1].state == Some("CONCLUDED"@) by {
        assert(!stage_open(stages, j));
    }
}

} // verus!

//! The league's rankings: listing them and finding a team's place in them.
use vstd::prelude::*;

use crate::date::{lacks, lemma_split_append, lemma_split_single, split};
use crate::text::str_eq;

verus! {

/// One entry of the league's rankings, as the rankings list it: the team's
/// name and its placement, each as the text the list holds for it (`null`
/// where the list holds nothing).
pub struct Standing {
    pub name: String,
    pub placement: String,
}

/// What a `Standing` holds, as text.
pub ghost struct StandingView {
    pub name: Seq<char>,
    pub placement: Seq<char>,
}

impl View for Standing {
    type V = StandingView;

    open spec fn view(&self) -> StandingView {
        StandingView { name: self.name@, placement: self.placement@ }
    }
}

/// What a list of standings holds.
pub open spec fn standings_view(standings: Seq<Standing>) -> Seq<StandingView> {
    standings.map_values(|s: Standing| s@)
}

/// How many places of the rankings a search looks at.
pub const SEARCHED_PLACES: usize = 21;

/// The name at a place of the rankings; past their end the list holds nothing,
/// which reads `null`.
pub open spec fn name_at(standings: Seq<StandingView>, p: int) -> Seq<char> {
    if 0 <= p < standings.len() {
        standings[p].name
    } else {
        "null"@
    }
}

/// The first place at or after `p`, among the first `SEARCHED_PLACES`, that
/// holds `team`, or `SEARCHED_PLACES` when none does.
pub open spec fn place_from(team: Seq<char>, standings: Seq<StandingView>, p: int) -> int
    decreases SEARCHED_PLACES - p,
{
    if p >= SEARCHED_PLACES {
        SEARCHED_PLACES as int
    } else if name_at(standings, p) == team {
        p
    } else {
        place_from(team, standings, p + 1)
    }
}

/// A team's league rank: one more than its place in the rankings; 22 for a
/// team that is not among the first 21.
pub open spec fn league_rank(team: Seq<char>, standings: Seq<StandingView>) -> int {
    place_from(team, standings, 0) + 1
}

/// The text that lists the rankings: a heading, then one line per entry.
pub open spec fn rankings_text(standings: Seq<StandingView>) -> Seq<char>
    decreases standings.len(),
{
    if standings.len() == 0 {
        "Current Overwatch League Rankings:"@
    } else {
        rankings_text(standings.drop_last()) + "\n "@ + standings.last().name + ":  Rank "@
            + standings.last().placement
    }
}

/// The league rank of `team` in the rankings `standings`.
pub fn rank_in(team: &str, standings: &Vec<Standing>) -> (r: usize)
    ensures
        r == league_rank(team@, standings_view(standings@)),
        1 <= r <= SEARCHED_PLACES + 1,
{
    let mut position: usize = 0;
    let mut found = false;
    while position < SEARCHED_PLACES && !found
        invariant
            0 <= position <= SEARCHED_PLACES,
            found ==> position < SEARCHED_PLACES && name_at(standings_view(standings@), position as int) == team@,
            place_from(team@, standings_view(standings@), 0) == place_from(team@, standings_view(standings@), position as int),
        decreases SEARCHED_PLACES - position + (if found { 0int } else { 1int }),
    {
        let same = if position < standings.len() {
            str_eq(team, standings[position].name.as_str())
        } else {
            str_eq(team, "null")
        };
        if same {
            found = true;
        } else {
            position = position + 1;
        }
    }
    position + 1
}

/// The rankings, one line per entry: `name:  Rank placement`.
pub fn list_rankings(standings: &Vec<Standing>) -> (r: String)
    ensures
        r@ == rankings_text(standings_view(standings@)),
{
    let mut result = String::from_str("Current Overwatch League Rankings:");
    let mut i: usize = 0;
    while i < standings.len()
        invariant
            0 <= i <= standings.len(),
            result@ == rankings_text(standings_view(standings@).take(i as int)),
        decreases standings.len() - i,
    {
        assert(standings_view(standings@).take(i + 1).drop_last() =~= standings_view(standings@).take(
            i as int,
        ));
        result.append("\n ");
        result.append(standings[i].name.as_str());
        result.append(":  Rank ");
        result.append(standings[i].placement.as_str());
        i = i + 1;
    }
    assert(standings_view(standings@).take(i as int) =~= standings_view(standings@));
    result
}

/// A team's rank is one more than the first of the first 21 places that
/// holds its name, and 22 when none of them does.
pub proof fn law_rank_is_first_place(team: Seq<char>, standings: Seq<StandingView>)
    ensures
        1 <= league_rank(team, standings) <= 22,
        league_rank(team, standings) <= 21 ==> name_at(standings, league_rank(team, standings) - 1)
            == team,
        forall|q: int|
            0 <= q < league_rank(team, standings) - 1 ==> name_at(standings, q) != team,
{
    lemma_place_from(team, standings, 0);
}

/// A team's rank read straight off the rankings: with rank `r`, no entry
/// before place `r - 1` bears the team's name (nor is it `null` when `r - 1`
/// lies past the entries' end), and if `r` is at most 21 the entry at place `r - 1` bears
/// it (or lies past the entries, and the name is `null`). A rank of 22 means
/// no place among the first 21 bears it.
pub proof fn law_rank_reads_the_names(team: Seq<char>, standings: Seq<StandingView>)
    ensures
        1 <= league_rank(team, standings) <= 22,
        forall|q: int|
            0 <= q < league_rank(team, standings) - 1 && q < standings.len()
                ==> #[trigger] standings[q].name != team,
        league_rank(team, standings) - 1 > standings.len() ==> team != "null"@,
        league_rank(team, standings) <= 21 ==> ({
            let q = league_rank(team, standings) - 1;
            (q < standings.len() ==> standings[q].name == team) && (q >= standings.len() ==> team
                == "null"@)
        }),
{
    lemma_place_from(team, standings, 0);
    assert forall|q: int| 0 <= q < league_rank(team, standings) - 1 && q < standings.len()
        implies #[trigger] standings[q].name != team by {
        assert(name_at(standings, q) != team);
    }
    if league_rank(team, standings) - 1 > standings.len() {
        assert(name_at(standings, standings.len() as int) != team);
    }
}

proof fn lemma_place_from(team: Seq<char>, standings: Seq<StandingView>, p: int)
    requires
        0 <= p <= SEARCHED_PLACES,
    ensures
        p <= place_from(team, standings, p) <= SEARCHED_PLACES,
        place_from(team, standings, p) < SEARCHED_PLACES ==> name_at(
            standings,
            place_from(team, standings, p),
        ) == team,
        forall|q: int| p <= q < place_from(team, standings, p) ==> name_at(standings, q) != team,
    decreases SEARCHED_PLACES - p,
{
    if p < SEARCHED_PLACES && name_at(standings, p) != team {
        lemma_place_from(team, standings, p + 1);
    }
}

/// The line that the rankings give an entry.
pub open spec fn entry_line(e: StandingView) -> Seq<char> {
    " "@ + e.name + ":  Rank "@ + e.placement
}

/// Line by line, the rankings are their heading and then one line per entry,
/// showing the entry's name and placement, in order (so long as no name or
/// placement holds a line break).
pub proof fn law_rankings_one_line_per_entry(standings: Seq<StandingView>)
    requires
        forall|i: int|
            0 <= i < standings.len() ==> lacks(#[trigger] standings[i].name, '\n') && lacks(
                standings[i].placement,
                '\n',
            ),
    ensures
        split(rankings_text(standings), '\n') == seq!["Current Overwatch League Rankings:"@]
            + standings.map_values(|e: StandingView| entry_line(e)),
    decreases standings.len(),
{
    reveal_strlit("Current Overwatch League Rankings:");
    reveal_strlit("\n ");
    reveal_strlit(" ");
    reveal_strlit(":  Rank ");
    let heading = "Current Overwatch League Rankings:"@;
    if standings.len() == 0 {
        assert(lacks(heading, '\n'));
        lemma_split_single(heading, '\n');
        assert(standings.map_values(|e: StandingView| entry_line(e)) =~= Seq::<Seq<char>>::empty());
        assert(seq![heading] + Seq::<Seq<char>>::empty() =~= seq![heading]);
    } else {
        let rest = standings.drop_last();
        let e = standings.last();
        law_rankings_one_line_per_entry(rest);
        let line = entry_line(e);
        assert(lacks(line, '\n')) by {
            assert(lacks(e.name, '\n'));
            assert(lacks(e.placement, '\n'));
            assert forall|k: int| 0 <= k < line.len() implies #[trigger] line[k] != '\n' by {
                let n1 = 1 + e.name.len();
                let n2 = n1 + 8;
                if k < 1 {
                } else if k < n1 {
                    assert(line[k] == e.name[k - 1]);
                } else if k < n2 {
                } else {
                    assert(line[k] == e.placement[k - n2]);
                }
            }
        }
        assert(rankings_text(standings) =~= rankings_text(rest) + seq!['\n'] + line);
        lemma_split_append(rankings_text(rest), line, '\n');
        assert(standings.map_values(|e: StandingView| entry_line(e)) =~= rest.map_values(
            |e: StandingView| entry_line(e),
        ).push(line));
        assert(seq![heading] + rest.map_values(|e: StandingView| entry_line(e)).push(line) =~= (
        seq![heading] + rest.map_values(|e: StandingView| entry_line(e))).push(line));
    }
}

} // verus!

//! The match ledger: the order in which the sets of an event are played
//! through, and the row recorded for each of them.

use vstd::prelude::*;
use crate::player::{set_fits, spec_apply_set, PlayersRow};
use crate::rating::DEFAULT_ELO_BITS;
use crate::response::SetInfo;
use crate::table::{
    has_player, ids_unique, index_of, lemma_select_keeps, lemma_update_keeps, spec_select,
    spec_update, with_win,
};

verus! {

/// The RFC 3339 text of a UTC instant given in seconds since the epoch.
pub uninterp spec fn rfc3339_of(secs: int) -> Seq<char>;

/// The first second chrono can hold: 0:00:00 UTC on January 1 of year
/// -262143 (`DateTime::<Utc>::MIN_UTC`, the first day of `MIN_YEAR`).
pub const MIN_UTC_SECS: i64 = -8_334_601_228_800;

/// The last second chrono can hold: 23:59:59 UTC on December 31 of year
/// 262142 (`DateTime::<Utc>::MAX_UTC` in whole seconds, the last day of
/// `MAX_YEAR`).
pub const MAX_UTC_SECS: i64 = 8_210_266_876_799;

/// The instant `secs` seconds after the epoch lies in chrono's range.
pub open spec fn utc_in_range(secs: int) -> bool {
    MIN_UTC_SECS <= secs <= MAX_UTC_SECS
}

/// Relies on chrono's `DateTime::<Utc>::from_timestamp` (`None` exactly
/// outside `MIN_UTC..=MAX_UTC`) and `DateTime::to_rfc3339`: the text
/// depends on the instant alone.
#[verifier::external_body]
fn utc_rfc3339(secs: i64) -> (r: Option<String>)
    ensures
        r is Some <==> utc_in_range(secs as int),
        r matches Some(s) ==> s@ == rfc3339_of(secs as int),
{
    match chrono::DateTime::from_timestamp(secs, 0) {
        Some(dt) => Some(dt.to_rfc3339()),
        None => None,
    }
}

/// The completion time of a set as RFC 3339 text, where it names a date.
pub fn set_time(set: &SetInfo) -> (r: Option<String>)
    ensures
        r is Some <==> utc_in_range(set.time as int),
        r matches Some(s) ==> s@ == rfc3339_of(set.time as int),
{
    utc_rfc3339(set.time)
}

/// Set `a`, at position `ia` of the input, is played before set `b`, at
/// `ib`: it completed earlier, or at the same time and came first.
pub open spec fn plays_before(a: SetInfo, ia: int, b: SetInfo, ib: int) -> bool {
    a.time < b.time || (a.time == b.time && ia < ib)
}

/// `order` lists positions of `sets` strictly in playing order.
pub open spec fn sorted_by_time(sets: Seq<SetInfo>, order: Seq<usize>) -> bool {
    &&& forall|p: int| 0 <= p < order.len() ==> #[trigger] order[p] < sets.len()
    &&& forall|p: int, q: int|
        0 <= p < q < order.len() ==> plays_before(
            sets[order[p] as int],
            order[p] as int,
            sets[order[q] as int],
            order[q] as int,
        )
}

/// `order` is the playing order of `sets`: every position once, ascending
/// by completion time, equal times in input order.
pub open spec fn is_playing_order(sets: Seq<SetInfo>, order: Seq<usize>) -> bool {
    &&& order.len() == sets.len()
    &&& sorted_by_time(sets, order)
    &&& forall|i: usize| i < sets.len() ==> #[trigger] order.contains(i)
}

/// The positions of `sets` in playing order (a stable sort by completion
/// time).
pub fn chronological_order(sets: &Vec<SetInfo>) -> (order: Vec<usize>)
    ensures
        is_playing_order(sets@, order@),
{
    let n = sets.len();
    let mut order: Vec<usize> = Vec::new();
    for k in 0..n
        invariant
            n == sets@.len(),
            order@.len() == k,
            sorted_by_time(sets@, order@),
            forall|p: int| 0 <= p < order@.len() ==> #[trigger] order@[p] < k,
            forall|i: usize| i < k ==> #[trigger] order@.contains(i),
    {
        let mut p: usize = 0;
        while p < order.len() && sets[order[p]].time <= sets[k].time
            invariant
                n == sets@.len(),
                k < n,
                p <= order@.len(),
                sorted_by_time(sets@, order@),
                forall|q: int| 0 <= q < order@.len() ==> #[trigger] order@[q] < k,
                forall|q: int|
                    0 <= q < p ==> plays_before(
                        sets@[order@[q] as int],
                        order@[q] as int,
                        sets@[k as int],
                        k as int,
                    ),
            decreases order@.len() - p,
        {
            p = p + 1;
        }
        let ghost before = order@;
        order.insert(p, k);
        proof {
            assert(order@ == before.insert(p as int, k));
            assert forall|a: int, b: int| 0 <= a < b < order@.len() implies plays_before(
                sets@[order@[a] as int],
                order@[a] as int,
                sets@[order@[b] as int],
                order@[b] as int,
            ) by {
                if b < p {
                    assert(order@[a] == before[a] && order@[b] == before[b]);
                } else if b == p {
                    assert(order@[a] == before[a]);
                } else if a > p {
                    assert(order@[a] == before[a - 1] && order@[b] == before[b - 1]);
                } else if a == p {
                    assert(order@[b] == before[b - 1]);
                    if b - 1 > p {
                        assert(plays_before(
                            sets@[before[p as int] as int],
                            before[p as int] as int,
                            sets@[before[b - 1] as int],
                            before[b - 1] as int,
                        ));
                    }
                } else {
                    assert(order@[a] == before[a] && order@[b] == before[b - 1]);
                }
            }
            assert forall|i: usize| i < k + 1 implies #[trigger] order@.contains(i) by {
                if i == k {
                    assert(order@[p as int] == k);
                } else {
                    assert(before.contains(i));
                    let q = choose|q: int| 0 <= q < before.len() && before[q] == i;
                    if q < p {
                        assert(order@[q] == i);
                    } else {
                        assert(order@[q + 1] == i);
                    }
                }
            }
        }
    }
    order
}

/// A rating change of 0.0, as IEEE-754 bits.
pub const ZERO_DELTA_BITS: u64 = 0;

/// One row of the ledger: both sides of a set with the overall rating each
/// had before it and the change it brought (both as IEEE-754 bits).
#[derive(Debug)]
pub struct SetsRow {
    pub player_one_global_id: i32,
    pub player_one_name: String,
    pub player_one_elo_bits: u64,
    pub player_one_score: i32,
    pub player_one_elo_delta_bits: u64,
    pub player_two_global_id: i32,
    pub player_two_name: String,
    pub player_two_elo_bits: u64,
    pub player_two_score: i32,
    pub player_two_elo_delta_bits: u64,
    pub tournament_name: String,
    pub game_name: String,
    pub set_time: String,
}

/// What the rating model needs for one rated set: the rows of both
/// players, overall and in the game, as they stood before it, and the
/// scores.
#[derive(Debug)]
pub struct RatingRequest {
    pub overall_one: PlayersRow,
    pub overall_two: PlayersRow,
    pub game_one: PlayersRow,
    pub game_two: PlayersRow,
    pub score_one: i32,
    pub score_two: i32,
}

/// What the rating model computed for one rated set, as IEEE-754 bits: the
/// new overall and game ratings of both players, and the overall changes
/// that the ledger records.
#[derive(Debug, Clone, Copy, PartialEq, Eq, Structural)]
pub struct RatingUpdate {
    pub overall_elo_one: u64,
    pub overall_elo_two: u64,
    pub overall_delta_one: u64,
    pub overall_delta_two: u64,
    pub game_elo_one: u64,
    pub game_elo_two: u64,
}

/// The next move of an event run.
#[derive(Debug)]
pub enum Step {
    /// Every set has been played through.
    Done,
    /// A forfeited set was written to the ledger, with no rating change.
    Recorded,
    /// The set at the current position waits for its ratings.
    Rate(RatingRequest),
}

/// Both participants of every set are on the roster.
pub open spec fn all_known(roster: Map<i32, (String, i32)>, sets: Seq<SetInfo>) -> bool {
    forall|p: int|
        0 <= p < sets.len() ==> roster.contains_key(#[trigger] sets[p].player_one_id)
            && roster.contains_key(sets[p].player_two_id)
}

/// The overall rating a player has now: that of its row, or the starting
/// rating where it has none yet.
pub open spec fn current_elo(rows: Seq<PlayersRow>, global_id: i32) -> u64 {
    if has_player(rows, global_id) {
        rows[index_of(rows, global_id)].elo_bits
    } else {
        DEFAULT_ELO_BITS
    }
}

/// The row of `global_id` in `rows`.
pub open spec fn row_of(rows: Seq<PlayersRow>, global_id: i32) -> PlayersRow {
    rows[index_of(rows, global_id)]
}

/// The rows after get-or-create of both players of a set, one then two.
pub open spec fn spec_select_both(
    rows: Seq<PlayersRow>,
    one: (String, i32),
    two: (String, i32),
) -> Seq<PlayersRow> {
    spec_select(spec_select(rows, one.1, one.0), two.1, two.0)
}

/// The rows after a rated set has been saved: get-or-create of both
/// players, then both rows saved with the set applied, one then two.
pub open spec fn spec_rated(
    rows: Seq<PlayersRow>,
    one: (String, i32),
    two: (String, i32),
    score_one: int,
    score_two: int,
    elo_one: u64,
    elo_two: u64,
) -> Seq<PlayersRow> {
    let sel = spec_select_both(rows, one, two);
    spec_update(
        spec_update(sel, spec_apply_set(row_of(sel, one.1), score_one, score_two, elo_one)),
        spec_apply_set(row_of(sel, two.1), score_two, score_one, elo_two),
    )
}

/// In a rated set between two different players, each one's row gains the
/// games of both sides, its own score as wins and the opponent's score as
/// losses, counted from the row it had before the set (a fresh row for a
/// player seen for the first time).
pub proof fn lemma_rated_counters(
    rows: Seq<PlayersRow>,
    one: (String, i32),
    two: (String, i32),
    score_one: int,
    score_two: int,
    elo_one: u64,
    elo_two: u64,
)
    requires
        ids_unique(rows),
        one.1 != two.1,
        rated_fits(rows, one, two, score_one, score_two),
    ensures
        has_player(spec_rated(rows, one, two, score_one, score_two, elo_one, elo_two), one.1),
        has_player(spec_rated(rows, one, two, score_one, score_two, elo_one, elo_two), two.1),
        row_of(spec_rated(rows, one, two, score_one, score_two, elo_one, elo_two), one.1).wins
            == row_of(spec_select_both(rows, one, two), one.1).wins + score_one,
        row_of(spec_rated(rows, one, two, score_one, score_two, elo_one, elo_two), one.1).losses
            == row_of(spec_select_both(rows, one, two), one.1).losses + score_two,
        row_of(
            spec_rated(rows, one, two, score_one, score_two, elo_one, elo_two),
            one.1,
        ).num_games == row_of(spec_select_both(rows, one, two), one.1).num_games + score_one
            + score_two,
        row_of(spec_rated(rows, one, two, score_one, score_two, elo_one, elo_two), two.1).wins
            == row_of(spec_select_both(rows, one, two), two.1).wins + score_two,
        row_of(spec_rated(rows, one, two, score_one, score_two, elo_one, elo_two), two.1).losses
            == row_of(spec_select_both(rows, one, two), two.1).losses + score_one,
        row_of(
            spec_rated(rows, one, two, score_one, score_two, elo_one, elo_two),
            two.1,
        ).num_games == row_of(spec_select_both(rows, one, two), two.1).num_games + score_one
            + score_two,
{
    let first = spec_select(rows, one.1, one.0);
    lemma_select_keeps(rows, one.1, one.0, one.1);
    lemma_select_keeps(first, two.1, two.0, one.1);
    let sel = spec_select_both(rows, one, two);
    let a = spec_apply_set(row_of(sel, one.1), score_one, score_two, elo_one);
    let b = spec_apply_set(row_of(sel, two.1), score_two, score_one, elo_two);
    let mid = spec_update(sel, a);
    lemma_update_keeps(sel, a, one.1);
    lemma_update_keeps(sel, a, two.1);
    lemma_update_keeps(mid, b, one.1);
    lemma_update_keeps(mid, b, two.1);
}

/// Both rows of a rated set can take its scores.
pub open spec fn rated_fits(
    rows: Seq<PlayersRow>,
    one: (String, i32),
    two: (String, i32),
    score_one: int,
    score_two: int,
) -> bool {
    let sel = spec_select_both(rows, one, two);
    set_fits(row_of(sel, one.1), score_one, score_two) && set_fits(
        row_of(sel, two.1),
        score_two,
        score_one,
    )
}

/// `rows` with one more tournament win for `global_id`.
pub open spec fn spec_win(rows: Seq<PlayersRow>, global_id: i32) -> Seq<PlayersRow> {
    rows.update(index_of(rows, global_id), with_win(rows[index_of(rows, global_id)]))
}

/// The winner of a deciding set: the side with the strictly higher score;
/// none on a tie.
pub open spec fn spec_winner(set: SetInfo, one: i32, two: i32) -> Option<i32> {
    if set.player_one_score > set.player_two_score {
        Some(one)
    } else if set.player_two_score > set.player_one_score {
        Some(two)
    } else {
        None
    }
}

} // verus!

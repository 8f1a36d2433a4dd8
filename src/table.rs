//! One namespace of player rows, keyed by global id.

use vstd::prelude::*;
use crate::error::EloError;
use crate::player::PlayersRow;
use crate::rating::{elo_key, elo_order_key};
use crate::roster::{holds_id, roster_global_ids, roster_has_player};
use std::collections::HashMap;
use vstd::std_specs::iter::IteratorSpec;

verus! {

/// No two rows share a global id.
pub open spec fn ids_unique(rows: Seq<PlayersRow>) -> bool {
    forall|i: int, j: int|
        0 <= i < rows.len() && 0 <= j < rows.len() && i != j ==> rows[i].global_id
            != rows[j].global_id
}

/// Some row has this global id.
pub open spec fn has_player(rows: Seq<PlayersRow>, global_id: i32) -> bool {
    exists|i: int| 0 <= i < rows.len() && rows[i].global_id == global_id
}

/// The position of the row with this global id.
pub open spec fn index_of(rows: Seq<PlayersRow>, global_id: i32) -> int {
    choose|i: int| 0 <= i < rows.len() && rows[i].global_id == global_id
}

/// The rows after a get-or-create of `global_id`: unchanged where the
/// player has a row, else with a fresh row for it at the end.
pub open spec fn spec_select(rows: Seq<PlayersRow>, global_id: i32, name: String) -> Seq<
    PlayersRow,
> {
    if has_player(rows, global_id) {
        rows
    } else {
        rows.push(PlayersRow::spec_new(global_id, name))
    }
}

/// A row after a save of `row`: the rating and the game counters come from
/// `row`; the name, rank and tournament counters stay.
pub open spec fn spec_saved(stored: PlayersRow, row: PlayersRow) -> PlayersRow {
    PlayersRow {
        global_id: stored.global_id,
        name: stored.name,
        rank: stored.rank,
        elo_bits: row.elo_bits,
        num_games: row.num_games,
        wins: row.wins,
        losses: row.losses,
        num_tournaments: stored.num_tournaments,
        tournament_wins: stored.tournament_wins,
    }
}

/// The rows after a save of `row`.
pub open spec fn spec_update(rows: Seq<PlayersRow>, row: PlayersRow) -> Seq<PlayersRow> {
    Seq::new(
        rows.len(),
        |i: int|
            if rows[i].global_id == row.global_id {
                spec_saved(rows[i], row)
            } else {
                rows[i]
            },
    )
}

/// A row with one more tournament win.
pub open spec fn with_win(row: PlayersRow) -> PlayersRow {
    PlayersRow { tournament_wins: (row.tournament_wins + 1) as i32, ..row }
}

/// A row with one more tournament played.
pub open spec fn with_tournament(row: PlayersRow) -> PlayersRow {
    PlayersRow { num_tournaments: (row.num_tournaments + 1) as i32, ..row }
}

/// Every row whose player is on the roster can count one more tournament.
pub open spec fn increment_fits(rows: Seq<PlayersRow>, roster: Map<i32, (String, i32)>) -> bool {
    forall|i: int|
        0 <= i < rows.len() && roster_has_player(roster, #[trigger] rows[i].global_id)
            ==> rows[i].num_tournaments < i32::MAX
}

/// The rows after one more tournament for every player on the roster.
pub open spec fn spec_increment(rows: Seq<PlayersRow>, roster: Map<i32, (String, i32)>) -> Seq<
    PlayersRow,
> {
    Seq::new(
        rows.len(),
        |i: int|
            if roster_has_player(roster, rows[i].global_id) {
                with_tournament(rows[i])
            } else {
                rows[i]
            },
    )
}

/// `new` is `old` with a fresh row, named from the roster, appended for
/// every roster player that had none; nothing else changes.
pub open spec fn roster_added(
    old: Seq<PlayersRow>,
    new: Seq<PlayersRow>,
    roster: Map<i32, (String, i32)>,
) -> bool {
    &&& new.len() >= old.len()
    &&& new.subrange(0, old.len() as int) == old
    &&& forall|g: i32| roster_has_player(roster, g) ==> #[trigger] has_player(new, g)
    &&& forall|i: int|
        old.len() <= i < new.len() ==> !has_player(old, (#[trigger] new[i]).global_id) && exists|
            k: i32,
        | roster.contains_key(k) && new[i] == PlayersRow::spec_new(roster[k].1, roster[k].0)
}

/// Adding the roster's missing players keeps every row able to count one
/// more tournament: the new rows have played none.
pub proof fn lemma_added_fits(
    old: Seq<PlayersRow>,
    new: Seq<PlayersRow>,
    roster: Map<i32, (String, i32)>,
)
    requires
        roster_added(old, new, roster),
    ensures
        increment_fits(new, roster) <==> increment_fits(old, roster),
{
    if increment_fits(old, roster) {
        assert forall|i: int|
            0 <= i < new.len() && roster_has_player(roster, #[trigger] new[i].global_id) implies new[i].num_tournaments
            < i32::MAX by {
            if i < old.len() {
                assert(new[i] == new.subrange(0, old.len() as int)[i]);
            } else {
                let k = choose|k: i32|
                    roster.contains_key(k) && new[i] == PlayersRow::spec_new(roster[k].1, roster[k].0);
            }
        }
    }
    if increment_fits(new, roster) {
        assert forall|i: int|
            0 <= i < old.len() && roster_has_player(roster, #[trigger] old[i].global_id) implies old[i].num_tournaments
            < i32::MAX by {
            assert(old[i] == new.subrange(0, old.len() as int)[i]);
            assert(new[i] == old[i]);
        }
    }
}

/// Whether `a` ranks above `b`: a higher rating first, and between equal
/// ratings the lower global id first.
pub open spec fn ranks_above(a: PlayersRow, b: PlayersRow) -> bool {
    let ka = elo_order_key(a.elo_bits);
    let kb = elo_order_key(b.elo_bits);
    ka > kb || (ka == kb && a.global_id < b.global_id)
}

/// `a` is `b` but for its rank.
pub open spec fn same_but_rank(a: PlayersRow, b: PlayersRow) -> bool {
    a == (PlayersRow { rank: a.rank, ..b })
}

/// `new` is `old` with fresh ranks: every other field kept, the ranks
/// running over 1..=n with no gap, in the order of `ranks_above`.
pub open spec fn ranked(old: Seq<PlayersRow>, new: Seq<PlayersRow>) -> bool {
    &&& new.len() == old.len()
    &&& forall|i: int| 0 <= i < old.len() ==> same_but_rank(#[trigger] new[i], old[i])
    &&& forall|i: int| 0 <= i < old.len() ==> 1 <= #[trigger] new[i].rank <= old.len()
    &&& forall|i: int, j: int|
        0 <= i < old.len() && 0 <= j < old.len() && i != j ==> (new[i].rank < new[j].rank
            <==> ranks_above(old[i], old[j]))
}

/// `order` lists positions of `rows` strictly in the order of `ranks_above`.
pub open spec fn sorted_by_rank(rows: Seq<PlayersRow>, order: Seq<usize>) -> bool {
    &&& forall|p: int| 0 <= p < order.len() ==> #[trigger] order[p] < rows.len()
    &&& forall|p: int, q: int|
        0 <= p < q < order.len() ==> ranks_above(rows[order[p] as int], rows[order[q] as int])
}

/// Get-or-create is idempotent: a second call with the same global id and
/// name leaves the rows exactly as the first call left them (and so hands
/// back the same row).
pub proof fn lemma_select_idempotent(rows: Seq<PlayersRow>, global_id: i32, name: String)
    ensures
        spec_select(spec_select(rows, global_id, name), global_id, name) == spec_select(
            rows,
            global_id,
            name,
        ),
{
    let once = spec_select(rows, global_id, name);
    if !has_player(rows, global_id) {
        assert(once[rows.len() as int].global_id == global_id);
    }
    assert(has_player(once, global_id));
}

/// Within unique rows, the position of a row's global id is that row's.
pub proof fn lemma_index_of(rows: Seq<PlayersRow>, i: int)
    requires
        ids_unique(rows),
        0 <= i < rows.len(),
    ensures
        has_player(rows, rows[i].global_id),
        index_of(rows, rows[i].global_id) == i,
{
    assert(has_player(rows, rows[i].global_id));
}

/// Get-or-create of one player keeps the rows unique and leaves the row of
/// any player who already had one where and as it was.
pub proof fn lemma_select_keeps(rows: Seq<PlayersRow>, global_id: i32, name: String, other: i32)
    requires
        ids_unique(rows),
    ensures
        ids_unique(spec_select(rows, global_id, name)),
        has_player(spec_select(rows, global_id, name), global_id),
        has_player(rows, other) ==> has_player(spec_select(rows, global_id, name), other)
            && index_of(spec_select(rows, global_id, name), other) == index_of(rows, other),
{
    let sel = spec_select(rows, global_id, name);
    if !has_player(rows, global_id) {
        assert(sel[rows.len() as int].global_id == global_id);
    }
    assert(has_player(sel, global_id));
    if has_player(rows, other) {
        let i = index_of(rows, other);
        assert(sel[i] == rows[i]);
        lemma_index_of(sel, i);
    }
}

/// A save keeps the rows unique and every global id at its position.
pub proof fn lemma_update_keeps(rows: Seq<PlayersRow>, row: PlayersRow, other: i32)
    requires
        ids_unique(rows),
    ensures
        ids_unique(spec_update(rows, row)),
        has_player(rows, other) ==> has_player(spec_update(rows, row), other)
            && index_of(spec_update(rows, row), other) == index_of(rows, other),
{
    let upd = spec_update(rows, row);
    assert forall|i: int| 0 <= i < rows.len() implies #[trigger] upd[i].global_id
        == rows[i].global_id by {}
    if has_player(rows, other) {
        let i = index_of(rows, other);
        lemma_index_of(upd, i);
    }
}

/// The rows of a namespace.
pub struct PlayerTable {
    rows: Vec<PlayersRow>,
}

impl View for PlayerTable {
    type V = Seq<PlayersRow>;

    closed spec fn view(&self) -> Seq<PlayersRow> {
        self.rows@
    }
}

impl PlayerTable {
    /// Global ids are unique.
    pub open spec fn wf(&self) -> bool {
        ids_unique(self@)
    }

    /// An empty namespace.
    pub fn new() -> (r: PlayerTable)
        ensures
            r@ == Seq::<PlayersRow>::empty(),
            r.wf(),
    {
        PlayerTable { rows: Vec::new() }
    }

    /// A namespace holding `rows`, or `None` where two of them share a
    /// global id.
    pub fn from_rows(rows: Vec<PlayersRow>) -> (r: Option<PlayerTable>)
        ensures
            r is Some <==> ids_unique(rows@),
            r matches Some(t) ==> t@ == rows@ && t.wf(),
    {
        let n = rows.len();
        let mut i: usize = 0;
        while i < n
            invariant
                n == rows@.len(),
                i <= n,
                forall|a: int, b: int|
                    0 <= a < i && 0 <= b < n && a != b ==> rows@[a].global_id
                        != rows@[b].global_id,
            decreases n - i,
        {
            let mut j: usize = 0;
            while j < n
                invariant
                    n == rows@.len(),
                    i < n,
                    j <= n,
                    forall|a: int, b: int|
                        0 <= a < i && 0 <= b < n && a != b ==> rows@[a].global_id
                            != rows@[b].global_id,
                    forall|b: int|
                        0 <= b < j && b != i ==> rows@[i as int].global_id != rows@[b].global_id,
                decreases n - j,
            {
                if j != i && rows[i].global_id == rows[j].global_id {
                    return None;
                }
                j = j + 1;
            }
            i = i + 1;
        }
        Some(PlayerTable { rows })
    }

    /// The rows, in the order in which they were added.
    pub fn rows(&self) -> (r: &Vec<PlayersRow>)
        ensures
            r@ == self@,
    {
        &self.rows
    }

    /// The position of the row with this global id, if any.
    pub fn find(&self, global_id: i32) -> (r: Option<usize>)
        ensures
            r matches Some(i) ==> i < self@.len() && self@[i as int].global_id == global_id,
            r is None <==> !has_player(self@, global_id),
    {
        let n = self.rows.len();
        for i in 0..n
            invariant
                n == self@.len(),
                forall|k: int| 0 <= k < i ==> self@[k].global_id != global_id,
        {
            if self.rows[i].global_id == global_id {
                return Some(i);
            }
        }
        None
    }

    /// Get-or-create: the row of `global_id`, made with `name` and the
    /// defaults where the namespace has none. An existing row, its name
    /// included, is left as it is.
    pub fn select_player(&mut self, global_id: i32, name: &String) -> (r: PlayersRow)
        requires
            old(self).wf(),
        ensures
            final(self).wf(),
            final(self)@ == spec_select(old(self)@, global_id, *name),
            has_player(final(self)@, global_id),
            r == final(self)@[index_of(final(self)@, global_id)],
    {
        match self.find(global_id) {
            Some(i) => {
                let r = self.rows[i].duplicate();
                proof {
                    assert(self@[index_of(self@, global_id)].global_id == global_id);
                }
                r
            },
            None => {
                let row = PlayersRow::new(global_id, name.clone());
                let r = row.duplicate();
                self.rows.push(row);
                proof {
                    let n = self@.len() - 1;
                    assert(self@[n].global_id == global_id);
                    assert(index_of(self@, global_id) == n);
                }
                r
            },
        }
    }

    /// Save: writes the rating and the game counters of `row` into the row
    /// with the same global id; the name, rank and tournament counters are
    /// not touched. Nothing changes where there is no such row.
    pub fn update_player(&mut self, row: &PlayersRow)
        requires
            old(self).wf(),
        ensures
            final(self).wf(),
            final(self)@ == spec_update(old(self)@, *row),
    {
        match self.find(row.global_id) {
            Some(i) => {
                self.rows[i].elo_bits = row.elo_bits;
                self.rows[i].num_games = row.num_games;
                self.rows[i].wins = row.wins;
                self.rows[i].losses = row.losses;
                proof {
                    assert(self@ =~= spec_update(old(self)@, *row));
                }
            },
            None => {
                proof {
                    assert(self@ =~= spec_update(old(self)@, *row));
                }
            },
        }
    }

    /// Counts one tournament win for the player with this global id.
    pub fn assign_winner(&mut self, global_id: i32) -> (r: Result<(), EloError>)
        requires
            old(self).wf(),
        ensures
            final(self).wf(),
            !has_player(old(self)@, global_id) ==> r == Err::<(), EloError>(
                EloError::UnknownPlayer(global_id),
            ),
            has_player(old(self)@, global_id) && old(self)@[index_of(
                old(self)@,
                global_id,
            )].tournament_wins == i32::MAX ==> r == Err::<(), EloError>(
                EloError::CounterOverflow(global_id),
            ),
            r is Ok <==> has_player(old(self)@, global_id) && old(self)@[index_of(
                old(self)@,
                global_id,
            )].tournament_wins < i32::MAX,
            r is Err ==> final(self)@ == old(self)@,
            r is Ok ==> final(self)@ == old(self)@.update(
                index_of(old(self)@, global_id),
                with_win(old(self)@[index_of(old(self)@, global_id)]),
            ),
    {
        match self.find(global_id) {
            Some(i) => {
                proof {
                    assert(index_of(self@, global_id) == i);
                }
                if self.rows[i].tournament_wins == i32::MAX {
                    return Err(EloError::CounterOverflow(global_id));
                }
                self.rows[i].tournament_wins = self.rows[i].tournament_wins + 1;
                proof {
                    assert(self@ =~= old(self)@.update(i as int, with_win(old(self)@[i as int])));
                }
                Ok(())
            },
            None => Err(EloError::UnknownPlayer(global_id)),
        }
    }

    /// Whether the row at position `a` ranks above the one at `b`.
    fn row_ranks_above(&self, a: usize, b: usize) -> (r: bool)
        requires
            a < self@.len(),
            b < self@.len(),
        ensures
            r == ranks_above(self@[a as int], self@[b as int]),
    {
        let ka = elo_key(self.rows[a].elo_bits);
        let kb = elo_key(self.rows[b].elo_bits);
        ka > kb || (ka == kb && self.rows[a].global_id < self.rows[b].global_id)
    }

    /// The positions of all rows, highest ranked first.
    fn rank_order(&self) -> (order: Vec<usize>)
        requires
            self.wf(),
        ensures
            order@.len() == self@.len(),
            sorted_by_rank(self@, order@),
            forall|i: usize| i < self@.len() ==> #[trigger] order@.contains(i),
    {
        let n = self.rows.len();
        let mut order: Vec<usize> = Vec::new();
        for k in 0..n
            invariant
                n == self@.len(),
                self.wf(),
                order@.len() == k,
                sorted_by_rank(self@, order@),
                forall|p: int| 0 <= p < order@.len() ==> #[trigger] order@[p] < k,
                forall|i: usize| i < k ==> #[trigger] order@.contains(i),
        {
            let mut p: usize = 0;
            while p < order.len() && self.row_ranks_above(order[p], k)
                invariant
                    n == self@.len(),
                    k < n,
                    self.wf(),
                    p <= order@.len(),
                    sorted_by_rank(self@, order@),
                    forall|q: int| 0 <= q < order@.len() ==> #[trigger] order@[q] < k,
                    forall|q: int|
                        0 <= q < p ==> ranks_above(self@[order@[q] as int], self@[k as int]),
                decreases order@.len() - p,
            {
                p = p + 1;
            }
            proof {
                if p < order@.len() {
                    let o = order@[p as int] as int;
                    assert(self@[o].global_id != self@[k as int].global_id);
                    assert(ranks_above(self@[k as int], self@[o]));
                }
            }
            let ghost before = order@;
            order.insert(p, k);
            proof {
                assert(order@ == before.insert(p as int, k));
                assert forall|a: int, b: int| 0 <= a < b < order@.len() implies ranks_above(
                    self@[order@[a] as int],
                    self@[order@[b] as int],
                ) by {
                    if b < p {
                        assert(order@[a] == before[a] && order@[b] == before[b]);
                    } else if b == p {
                        assert(order@[a] == before[a]);
                    } else if a > p {
                        assert(order@[a] == before[a - 1] && order@[b] == before[b - 1]);
                    } else if a == p {
                        assert(order@[b] == before[b - 1]);
                        if b - 1 > p {
                            assert(ranks_above(
                                self@[before[p as int] as int],
                                self@[before[b - 1] as int],
                            ));
                        }
                    } else {
                        assert(order@[a] == before[a] && order@[b] == before[b - 1]);
                        assert(ranks_above(self@[before[a] as int], self@[k as int]));
                    }
                }
                assert forall|i: usize| i < k + 1 implies #[trigger] order@.contains(i) by {
                    if i == k {
                        assert(order@[p as int] == k);
                    } else {
                        assert(before.contains(i));
                        let q = choose|q: int| 0 <= q < before.len() && before[q] == i;
                        if q < p {
                            assert(order@[q] == i);
                        } else {
                            assert(order@[q + 1] == i);
                        }
                    }
                }
            }
        }
        order
    }

    /// Recomputes every rank: 1 for the highest rating, then 2, 3, ...
    /// with no gap; equal ratings are ordered by global id. Every other
    /// field is kept.
    pub fn update_ranking(&mut self)
        requires
            old(self).wf(),
        ensures
            final(self).wf(),
            ranked(old(self)@, final(self)@),
    {
        let order = self.rank_order();
        let n = self.rows.len();
        let ghost start = self@;
        for p in 0..n
            invariant
                n == self@.len(),
                start.len() == n,
                order@.len() == n,
                sorted_by_rank(start, order@),
                forall|i: usize| i < n ==> #[trigger] order@.contains(i),
                forall|i: int| 0 <= i < n ==> same_but_rank(#[trigger] self@[i], start[i]),
                forall|q: int| 0 <= q < p ==> #[trigger] self@[order@[q] as int].rank == q + 1,
        {
            let i = order[p];
            self.rows[i].rank = p + 1;
            proof {
                assert forall|q: int| 0 <= q < p + 1 implies #[trigger] self@[order@[q] as int].rank
                    == q + 1 by {
                    if q < p {
                        assert(ranks_above(
                            start[order@[q] as int],
                            start[order@[p as int] as int],
                        ));
                    }
                }
            }
        }
        proof {
            assert forall|i: int| 0 <= i < n implies 1 <= #[trigger] self@[i].rank <= n
                && exists|q: int| 0 <= q < n && order@[q] == i && self@[i].rank == q + 1 by {
                assert(order@.contains(i as usize));
                let q = choose|q: int| 0 <= q < n && order@[q] == i as usize;
                assert(self@[order@[q] as int].rank == q + 1);
            }
            assert forall|i: int, j: int|
                0 <= i < n && 0 <= j < n && i != j implies (self@[i].rank < self@[j].rank
                <==> ranks_above(start[i], start[j])) by {
                let qi = choose|q: int| 0 <= q < n && order@[q] == i && self@[i].rank == q + 1;
                let qj = choose|q: int| 0 <= q < n && order@[q] == j && self@[j].rank == q + 1;
                if qi < qj {
                    assert(ranks_above(start[order@[qi] as int], start[order@[qj] as int]));
                } else {
                    assert(qi != qj);
                    assert(ranks_above(start[order@[qj] as int], start[order@[qi] as int]));
                }
            }
            assert forall|i: int, j: int|
                0 <= i < n && 0 <= j < n && i != j implies self@[i].global_id != self@[j].global_id by {
                assert(self@[i].global_id == start[i].global_id);
                assert(self@[j].global_id == start[j].global_id);
            }
        }
    }

    /// Counts one more tournament for every row whose player is on the
    /// roster, once per row however often the roster names its global id;
    /// other rows, and roster players without a row, are left alone. Fails,
    /// changing nothing, where a count would leave `i32`.
    pub fn increment_count(&mut self, roster: &HashMap<i32, (String, i32)>) -> (r: Result<
        (),
        EloError,
    >)
        requires
            old(self).wf(),
        ensures
            final(self).wf(),
            r is Ok <==> increment_fits(old(self)@, roster@),
            r is Ok ==> final(self)@ == spec_increment(old(self)@, roster@),
            r matches Err(e) ==> final(self)@ == old(self)@ && e is CounterOverflow,
    {
        let ids = roster_global_ids(roster);
        let n = self.rows.len();
        for i in 0..n
            invariant
                n == self@.len(),
                self@ == old(self)@,
                ids_unique(self@),
                forall|g: i32| #[trigger] ids@.contains(g) <==> roster_has_player(roster@, g),
                forall|j: int|
                    0 <= j < i && roster_has_player(roster@, #[trigger] self@[j].global_id)
                        ==> self@[j].num_tournaments < i32::MAX,
        {
            if self.rows[i].num_tournaments == i32::MAX && holds_id(&ids, self.rows[i].global_id) {
                return Err(EloError::CounterOverflow(self.rows[i].global_id));
            }
        }
        let ghost start = self@;
        for i in 0..n
            invariant
                n == self@.len(),
                start.len() == n,
                ids_unique(start),
                increment_fits(start, roster@),
                forall|g: i32| #[trigger] ids@.contains(g) <==> roster_has_player(roster@, g),
                forall|j: int| 0 <= j < i ==> #[trigger] self@[j] == spec_increment(start, roster@)[j],
                forall|j: int| i <= j < n ==> #[trigger] self@[j] == start[j],
        {
            if holds_id(&ids, self.rows[i].global_id) {
                self.rows[i].num_tournaments = self.rows[i].num_tournaments + 1;
            }
        }
        proof {
            assert(self@ =~= spec_increment(start, roster@));
        }
        Ok(())
    }

    /// Get-or-create of every roster player: a player without a row gets a
    /// fresh one, named as on the roster; existing rows stay as they are.
    pub fn add_roster_players(&mut self, roster: &HashMap<i32, (String, i32)>)
        requires
            old(self).wf(),
        ensures
            final(self).wf(),
            roster_added(old(self)@, final(self)@, roster@),
    {
        let ghost start = self@;
        let values = roster.values();
        let ghost all = values.remaining();
        proof {
            assert(all.unref().to_set() == roster@.values());
        }
        for v in it: values
            invariant
                it.seq() == all,
                all.unref().to_set() == roster@.values(),
                self.wf(),
                self@.len() >= start.len(),
                self@.subrange(0, start.len() as int) == start,
                forall|j: int| 0 <= j < it.index() ==> has_player(self@, (*all[j]).1),
                forall|i: int|
                    start.len() <= i < self@.len() ==> !has_player(
                        start,
                        (#[trigger] self@[i]).global_id,
                    ) && exists|k: i32|
                        roster@.contains_key(k) && self@[i] == PlayersRow::spec_new(
                            roster@[k].1,
                            roster@[k].0,
                        ),
        {
            let ghost before = self@;
            let ghost idx = it.index();
            proof {
                assert(*v == *all[idx]);
                assert(all.unref()[idx] == *v);
                assert(all.unref().to_set().contains(*v));
                assert(roster@.values().contains(*v));
            }
            self.select_player(v.1, &v.0);
            proof {
                assert forall|g: i32| has_player(before, g) implies has_player(self@, g) by {
                    let i = choose|i: int| 0 <= i < before.len() && before[i].global_id == g;
                    if !has_player(before, v.1) {
                        assert(self@[i] == before[i]);
                    }
                }
                if !has_player(before, v.1) {
                    let n = before.len() as int;
                    assert(self@[n].global_id == v.1);
                    assert(!has_player(start, v.1)) by {
                        if has_player(start, v.1) {
                            let i = choose|i: int| 0 <= i < start.len() && start[i].global_id == v.1;
                            assert(before[i] == before.subrange(0, start.len() as int)[i]);
                        }
                    }
                    let k = choose|k: i32| roster@.contains_key(k) && roster@[k] == *v;
                    assert(self@[n] == PlayersRow::spec_new(roster@[k].1, roster@[k].0));
                    assert(self@.subrange(0, start.len() as int) =~= before.subrange(
                        0,
                        start.len() as int,
                    ));
                }
                assert(has_player(self@, v.1));
            }
        }
        proof {
            assert forall|g: i32| roster_has_player(roster@, g) implies #[trigger] has_player(
                self@,
                g,
            ) by {
                let k = choose|k: i32| roster@.contains_key(k) && #[trigger] roster@[k].1 == g;
                assert(roster@.values().contains(roster@[k]));
                assert(all.unref().to_set().contains(roster@[k]));
                let j = choose|j: int| 0 <= j < all.unref().len() && all.unref()[j] == roster@[k];
                assert((*all[j]).1 == g);
            }
        }
    }
}

} // verus!

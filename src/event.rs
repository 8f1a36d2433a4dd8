//! Playing an event through: each set in order of completion against the
//! overall namespace and the game's, with a ledger row per set, then the
//! ranks and tournament counters of both namespaces.

use vstd::prelude::*;
use crate::error::EloError;
use crate::ledger::{
    all_known, chronological_order, current_elo, is_playing_order, rated_fits, rfc3339_of,
    row_of, set_time, spec_rated, utc_in_range, spec_select_both, spec_win, spec_winner, RatingRequest,
    RatingUpdate, SetsRow, Step, ZERO_DELTA_BITS,
};
use crate::player::PlayersRow;
use crate::rating::{is_forfeit, spec_is_forfeit, DEFAULT_ELO_BITS};
use crate::response::SetInfo;
use crate::table::{
    has_player, increment_fits, lemma_added_fits, lemma_index_of, roster_added, lemma_select_keeps, lemma_update_keeps, ranked,
    spec_increment, spec_select, spec_update, PlayerTable,
};
use std::collections::HashMap;

verus! {

broadcast use vstd::std_specs::hash::group_hash_axioms;

/// The state of one event being played through. `sets` holds the sets in
/// playing order and `times` their completion times as text; the sets
/// before `pos` are done, each with its row in `ledger`.
pub struct EventRun {
    pub overall: PlayerTable,
    pub game: PlayerTable,
    pub roster: HashMap<i32, (String, i32)>,
    pub sets: Vec<SetInfo>,
    pub times: Vec<String>,
    pub tournament_name: String,
    pub game_name: String,
    pub pos: usize,
    pub ledger: Vec<SetsRow>,
}

/// The ledger row of a set: names and global ids from the roster, the
/// ratings before the set and the changes it brought.
pub open spec fn spec_entry(
    run: EventRun,
    set: SetInfo,
    time: String,
    elo_one: u64,
    delta_one: u64,
    elo_two: u64,
    delta_two: u64,
) -> SetsRow {
    SetsRow {
        player_one_global_id: run.roster@[set.player_one_id].1,
        player_one_name: run.roster@[set.player_one_id].0,
        player_one_elo_bits: elo_one,
        player_one_score: set.player_one_score,
        player_one_elo_delta_bits: delta_one,
        player_two_global_id: run.roster@[set.player_two_id].1,
        player_two_name: run.roster@[set.player_two_id].0,
        player_two_elo_bits: elo_two,
        player_two_score: set.player_two_score,
        player_two_elo_delta_bits: delta_two,
        tournament_name: run.tournament_name,
        game_name: run.game_name,
        set_time: time,
    }
}

/// `rows` after a deciding set: one more tournament win for its winner,
/// where it is the event's last set and not a tie.
pub open spec fn spec_final_win(rows: Seq<PlayersRow>, last: bool, winner: Option<i32>) -> Seq<
    PlayersRow,
> {
    if last && winner is Some {
        spec_win(rows, winner->0)
    } else {
        rows
    }
}

/// The winner of a deciding set can count one more tournament win.
pub open spec fn win_fits(rows: Seq<PlayersRow>, last: bool, winner: Option<i32>) -> bool {
    last && winner is Some ==> row_of(rows, winner->0).tournament_wins < i32::MAX
}

impl EventRun {
    /// The run's parts agree with each other.
    pub open spec fn wf(&self) -> bool {
        &&& self.overall.wf()
        &&& self.game.wf()
        &&& self.times@.len() == self.sets@.len()
        &&& forall|p: int|
            0 <= p < self.sets@.len() ==> (#[trigger] self.times@[p])@ == rfc3339_of(
                self.sets@[p].time as int,
            )
        &&& self.pos <= self.sets@.len()
        &&& self.ledger@.len() == self.pos
        &&& all_known(self.roster@, self.sets@)
    }

    /// The set at the current position.
    pub open spec fn current(&self) -> SetInfo {
        self.sets@[self.pos as int]
    }

    /// Roster entry of player one of the current set.
    pub open spec fn one(&self) -> (String, i32) {
        self.roster@[self.current().player_one_id]
    }

    /// Roster entry of player two of the current set.
    pub open spec fn two(&self) -> (String, i32) {
        self.roster@[self.current().player_two_id]
    }

    /// The ledger row of the current set, forfeited.
    pub open spec fn forfeit_entry(&self) -> SetsRow {
        spec_entry(
            *self,
            self.current(),
            self.times@[self.pos as int],
            current_elo(self.overall@, self.one().1),
            ZERO_DELTA_BITS,
            current_elo(self.overall@, self.two().1),
            ZERO_DELTA_BITS,
        )
    }

    /// Everything but the two namespaces, the position and the ledger is
    /// the same in `a` and `b`.
    pub open spec fn same_event(a: EventRun, b: EventRun) -> bool {
        &&& a.roster@ == b.roster@
        &&& a.sets@ == b.sets@
        &&& a.times@ == b.times@
        &&& a.tournament_name == b.tournament_name
        &&& a.game_name == b.game_name
    }

    /// Starts an event: the sets are put in playing order and their
    /// completion times written as text. Fails where a set names a
    /// participant missing from the roster, or a time that names no date.
    pub fn new(
        overall: PlayerTable,
        game: PlayerTable,
        roster: HashMap<i32, (String, i32)>,
        sets: Vec<SetInfo>,
        tournament_name: String,
        game_name: String,
    ) -> (r: Result<EventRun, EloError>)
        requires
            overall.wf(),
            game.wf(),
        ensures
            !all_known(roster@, sets@) ==> r matches Err(EloError::UnknownParticipant(_)),
            r matches Err(EloError::UnknownParticipant(id)) ==> !roster@.contains_key(id),
            r matches Err(e) ==> e is UnknownParticipant || e is InvalidTimestamp,
            r matches Err(EloError::InvalidTimestamp(t)) ==> !utc_in_range(t as int) && exists|
                p: int,
            | 0 <= p < sets@.len() && #[trigger] sets@[p].time == t,
            all_known(roster@, sets@) && (forall|p: int|
                0 <= p < sets@.len() ==> utc_in_range(#[trigger] sets@[p].time as int)) ==> r is Ok,
            r matches Ok(run) ==> {
                &&& run.wf()
                &&& run.pos == 0
                &&& run.overall@ == overall@
                &&& run.game@ == game@
                &&& run.roster@ == roster@
                &&& run.tournament_name == tournament_name
                &&& run.game_name == game_name
                &&& exists|order: Seq<usize>|
                    is_playing_order(sets@, order) && run.sets@ == order.map_values(
                        |i: usize| sets@[i as int],
                    )
            },
    {
        let n = sets.len();
        let mut p: usize = 0;
        while p < n
            invariant
                n == sets@.len(),
                p <= n,
                all_known(roster@, sets@.subrange(0, p as int)),
            decreases n - p,
        {
            if !roster.contains_key(&sets[p].player_one_id) {
                return Err(EloError::UnknownParticipant(sets[p].player_one_id));
            }
            if !roster.contains_key(&sets[p].player_two_id) {
                return Err(EloError::UnknownParticipant(sets[p].player_two_id));
            }
            proof {
                assert(sets@.subrange(0, p + 1) == sets@.subrange(0, p as int).push(sets@[p as int]));
            }
            p = p + 1;
        }
        proof {
            assert(sets@.subrange(0, n as int) == sets@);
        }
        let order = chronological_order(&sets);
        let mut sorted: Vec<SetInfo> = Vec::new();
        let mut times: Vec<String> = Vec::new();
        for p in 0..n
            invariant
                n == sets@.len(),
                is_playing_order(sets@, order@),
                all_known(roster@, sets@),
                sorted@ == order@.subrange(0, p as int).map_values(|i: usize| sets@[i as int]),
                times@.len() == p,
                forall|q: int|
                    0 <= q < p ==> (#[trigger] times@[q])@ == rfc3339_of(sorted@[q].time as int),
        {
            let set = sets[order[p]];
            match set_time(&set) {
                Some(t) => times.push(t),
                None => {
                    proof {
                        let i = order@[p as int] as int;
                        assert(0 <= i < sets@.len() && sets@[i].time == set.time);
                    }
                    return Err(EloError::InvalidTimestamp(set.time));
                },
            }
            sorted.push(set);
            proof {
                assert(order@.subrange(0, p + 1) == order@.subrange(0, p as int).push(
                    order@[p as int],
                ));
            }
        }
        proof {
            assert(order@.subrange(0, n as int) == order@);
            assert(sorted@ == order@.map_values(|i: usize| sets@[i as int]));
            assert(is_playing_order(sets@, order@));
            assert forall|p: int| 0 <= p < sorted@.len() implies roster@.contains_key(
                #[trigger] sorted@[p].player_one_id,
            ) && roster@.contains_key(sorted@[p].player_two_id) by {
                let i = order@[p] as int;
                assert(0 <= i < sets@.len());
                assert(sorted@[p] == sets@[i]);
                assert(roster@.contains_key(sets@[i].player_one_id));
            }
        }
        let run = EventRun {
            overall,
            game,
            roster,
            sets: sorted,
            times,
            tournament_name,
            game_name,
            pos: 0,
            ledger: Vec::new(),
        };
        proof {
            assert(run.times@.len() == run.sets@.len());
            assert(all_known(run.roster@, run.sets@));
            assert(run.wf());
        }
        Ok(run)
    }

    /// The roster entry of a participant the roster holds.
    fn participant(&self, id: i32) -> (r: (String, i32))
        requires
            self.roster@.contains_key(id),
        ensures
            r == self.roster@[id],
    {
        let v = self.roster.get(&id).unwrap();
        (v.0.clone(), v.1)
    }

    /// The overall rating a player has now.
    fn overall_elo(&self, global_id: i32) -> (r: u64)
        requires
            self.overall.wf(),
        ensures
            r == current_elo(self.overall@, global_id),
    {
        match self.overall.find(global_id) {
            Some(i) => {
                proof {
                    lemma_index_of(self.overall@, i as int);
                }
                self.overall.rows()[i].elo_bits
            },
            None => DEFAULT_ELO_BITS,
        }
    }

    /// The ledger row of `set` with the given ratings and changes.
    fn entry(
        &self,
        set: SetInfo,
        time: String,
        elo_one: u64,
        delta_one: u64,
        elo_two: u64,
        delta_two: u64,
    ) -> (r: SetsRow)
        requires
            self.roster@.contains_key(set.player_one_id),
            self.roster@.contains_key(set.player_two_id),
        ensures
            r == spec_entry(*self, set, time, elo_one, delta_one, elo_two, delta_two),
    {
        let one = self.participant(set.player_one_id);
        let two = self.participant(set.player_two_id);
        SetsRow {
            player_one_global_id: one.1,
            player_one_name: one.0,
            player_one_elo_bits: elo_one,
            player_one_score: set.player_one_score,
            player_one_elo_delta_bits: delta_one,
            player_two_global_id: two.1,
            player_two_name: two.0,
            player_two_elo_bits: elo_two,
            player_two_score: set.player_two_score,
            player_two_elo_delta_bits: delta_two,
            tournament_name: self.tournament_name.clone(),
            game_name: self.game_name.clone(),
            set_time: time,
        }
    }

    /// Get-or-create of both players of the current set in `table`; hands
    /// back their rows.
    fn select_both(table: &mut PlayerTable, one: &(String, i32), two: &(String, i32)) -> (r: (
        PlayersRow,
        PlayersRow,
    ))
        requires
            old(table).wf(),
        ensures
            final(table).wf(),
            final(table)@ == spec_select_both(old(table)@, *one, *two),
            has_player(final(table)@, one.1),
            has_player(final(table)@, two.1),
            r.0 == row_of(final(table)@, one.1),
            r.1 == row_of(final(table)@, two.1),
    {
        let ghost start = table@;
        let a = table.select_player(one.1, &one.0);
        let b = table.select_player(two.1, &two.0);
        proof {
            lemma_select_keeps(start, one.1, one.0, one.1);
            lemma_select_keeps(spec_select(start, one.1, one.0), two.1, two.0, one.1);
        }
        (a, b)
    }

    /// Plays the set at the current position as far as it can go alone. A
    /// forfeited set goes to the ledger with no rating change and with the
    /// current overall ratings, and changes no player row; the position
    /// moves on. For another set both players are fetched, or created, in
    /// both namespaces and their rows handed out for rating; the position
    /// stays until `complete`.
    pub fn step(&mut self) -> (r: Step)
        requires
            old(self).wf(),
        ensures
            final(self).wf(),
            EventRun::same_event(*final(self), *old(self)),
            old(self).pos == old(self).sets@.len() ==> r is Done && final(self).overall@ == old(
                self,
            ).overall@ && final(self).game@ == old(self).game@ && final(self).pos == old(self).pos
                && final(self).ledger@ == old(self).ledger@,
            old(self).pos < old(self).sets@.len() && spec_is_forfeit(
                old(self).current().player_one_score as int,
                old(self).current().player_two_score as int,
            ) ==> r is Recorded && final(self).overall@ == old(self).overall@ && final(self).game@
                == old(self).game@ && final(self).pos == old(self).pos + 1 && final(self).ledger@
                == old(self).ledger@.push(old(self).forfeit_entry()),
            old(self).pos < old(self).sets@.len() && !spec_is_forfeit(
                old(self).current().player_one_score as int,
                old(self).current().player_two_score as int,
            ) ==> {
                &&& final(self).pos == old(self).pos
                &&& final(self).ledger@ == old(self).ledger@
                &&& final(self).overall@ == spec_select_both(
                    old(self).overall@,
                    old(self).one(),
                    old(self).two(),
                )
                &&& final(self).game@ == spec_select_both(
                    old(self).game@,
                    old(self).one(),
                    old(self).two(),
                )
                &&& r matches Step::Rate(q) && q.overall_one == row_of(
                    final(self).overall@,
                    old(self).one().1,
                ) && q.overall_two == row_of(final(self).overall@, old(self).two().1)
                    && q.game_one == row_of(final(self).game@, old(self).one().1) && q.game_two
                    == row_of(final(self).game@, old(self).two().1) && q.score_one == old(
                    self,
                ).current().player_one_score && q.score_two == old(self).current().player_two_score
            },
    {
        if self.pos >= self.sets.len() {
            return Step::Done;
        }
        let set = self.sets[self.pos];
        let one = self.participant(set.player_one_id);
        let two = self.participant(set.player_two_id);
        if is_forfeit(set.player_one_score, set.player_two_score) {
            let elo_one = self.overall_elo(one.1);
            let elo_two = self.overall_elo(two.1);
            let time = self.times[self.pos].clone();
            let entry = self.entry(set, time, elo_one, ZERO_DELTA_BITS, elo_two, ZERO_DELTA_BITS);
            self.ledger.push(entry);
            self.pos = self.pos + 1;
            return Step::Recorded;
        }
        let (overall_one, overall_two) = EventRun::select_both(&mut self.overall, &one, &two);
        let (game_one, game_two) = EventRun::select_both(&mut self.game, &one, &two);
        Step::Rate(
            RatingRequest {
                overall_one,
                overall_two,
                game_one,
                game_two,
                score_one: set.player_one_score,
                score_two: set.player_two_score,
            },
        )
    }

    /// Finishes the rated set at the current position with the ratings the
    /// model computed for it. Both players are fetched, or created, in both
    /// namespaces; each row takes the set (games of both sides, own score
    /// as wins, the opponent's as losses) and its new rating, and is saved;
    /// the ledger gets the set with the overall ratings from before it and
    /// the overall changes. Where this is the event's last set, its winner
    /// (the strictly higher score; none on a tie) counts one more
    /// tournament win in both namespaces. Fails with `NoPendingSet`,
    /// changing nothing, where no rated set waits, and with
    /// `CounterOverflow`, saving nothing, where a counter would leave `i32`.
    pub fn complete(&mut self, update: &RatingUpdate) -> (r: Result<(), EloError>)
        requires
            old(self).wf(),
        ensures
            final(self).wf(),
            EventRun::same_event(*final(self), *old(self)),
            old(self).pos == old(self).sets@.len() || spec_is_forfeit(
                old(self).current().player_one_score as int,
                old(self).current().player_two_score as int,
            ) ==> r == Err::<(), EloError>(EloError::NoPendingSet) && final(self).overall@ == old(
                self,
            ).overall@ && final(self).game@ == old(self).game@ && final(self).pos == old(self).pos
                && final(self).ledger@ == old(self).ledger@,
            old(self).pos < old(self).sets@.len() && !spec_is_forfeit(
                old(self).current().player_one_score as int,
                old(self).current().player_two_score as int,
            ) ==> {
                let set = old(self).current();
                let one = old(self).one();
                let two = old(self).two();
                let last = old(self).pos + 1 == old(self).sets@.len();
                let winner = spec_winner(set, one.1, two.1);
                let s1 = set.player_one_score as int;
                let s2 = set.player_two_score as int;
                let sel_overall = spec_select_both(old(self).overall@, one, two);
                let sel_game = spec_select_both(old(self).game@, one, two);
                &&& r is Ok <==> rated_fits(old(self).overall@, one, two, s1, s2) && rated_fits(
                    old(self).game@,
                    one,
                    two,
                    s1,
                    s2,
                ) && win_fits(sel_overall, last, winner) && win_fits(sel_game, last, winner)
                &&& r matches Err(e) ==> e is CounterOverflow && final(self).overall@ == sel_overall
                    && final(self).game@ == sel_game && final(self).pos == old(self).pos
                    && final(self).ledger@ == old(self).ledger@
                &&& r is Ok ==> {
                    &&& final(self).pos == old(self).pos + 1
                    &&& final(self).ledger@ == old(self).ledger@.push(
                        spec_entry(
                            *old(self),
                            set,
                            old(self).times@[old(self).pos as int],
                            row_of(sel_overall, one.1).elo_bits,
                            update.overall_delta_one,
                            row_of(sel_overall, two.1).elo_bits,
                            update.overall_delta_two,
                        ),
                    )
                    &&& final(self).overall@ == spec_final_win(
                        spec_rated(
                            old(self).overall@,
                            one,
                            two,
                            s1,
                            s2,
                            update.overall_elo_one,
                            update.overall_elo_two,
                        ),
                        last,
                        winner,
                    )
                    &&& final(self).game@ == spec_final_win(
                        spec_rated(
                            old(self).game@,
                            one,
                            two,
                            s1,
                            s2,
                            update.game_elo_one,
                            update.game_elo_two,
                        ),
                        last,
                        winner,
                    )
                }
            },
    {
        if self.pos >= self.sets.len() {
            return Err(EloError::NoPendingSet);
        }
        let set = self.sets[self.pos];
        let s1 = set.player_one_score;
        let s2 = set.player_two_score;
        if is_forfeit(s1, s2) {
            return Err(EloError::NoPendingSet);
        }
        let ghost start_overall = self.overall@;
        let ghost start_game = self.game@;
        let one = self.participant(set.player_one_id);
        let two = self.participant(set.player_two_id);
        let (mut overall_one, mut overall_two) = EventRun::select_both(&mut self.overall, &one, &two);
        let (mut game_one, mut game_two) = EventRun::select_both(&mut self.game, &one, &two);
        let ghost sel_overall = self.overall@;
        let ghost sel_game = self.game@;
        let elo_one = overall_one.elo_bits;
        let elo_two = overall_two.elo_bits;
        let last = self.pos + 1 == self.sets.len();
        let winner: Option<i32> = if s1 > s2 {
            Some(one.1)
        } else if s2 > s1 {
            Some(two.1)
        } else {
            None
        };
        if last {
            if let Some(w) = winner {
                let (overall_wins, game_wins) = if w == one.1 {
                    (overall_one.tournament_wins, game_one.tournament_wins)
                } else {
                    (overall_two.tournament_wins, game_two.tournament_wins)
                };
                if overall_wins == i32::MAX || game_wins == i32::MAX {
                    return Err(EloError::CounterOverflow(w));
                }
            }
        }
        match overall_one.apply_set(s1, s2, update.overall_elo_one) {
            Ok(()) => {},
            Err(e) => {
                return Err(e);
            },
        }
        match overall_two.apply_set(s2, s1, update.overall_elo_two) {
            Ok(()) => {},
            Err(e) => {
                return Err(e);
            },
        }
        match game_one.apply_set(s1, s2, update.game_elo_one) {
            Ok(()) => {},
            Err(e) => {
                return Err(e);
            },
        }
        match game_two.apply_set(s2, s1, update.game_elo_two) {
            Ok(()) => {},
            Err(e) => {
                return Err(e);
            },
        }
        self.overall.update_player(&overall_one);
        self.overall.update_player(&overall_two);
        self.game.update_player(&game_one);
        self.game.update_player(&game_two);
        if last {
            if let Some(w) = winner {
                proof {
                    lemma_update_keeps(sel_overall, overall_one, w);
                    lemma_update_keeps(spec_update(sel_overall, overall_one), overall_two, w);
                    lemma_update_keeps(sel_game, game_one, w);
                    lemma_update_keeps(spec_update(sel_game, game_one), game_two, w);
                }
                let ghost upd_overall = self.overall@;
                let ghost upd_game = self.game@;
                proof {
                    assert(row_of(upd_overall, w).tournament_wins == row_of(
                        sel_overall,
                        w,
                    ).tournament_wins);
                    assert(row_of(upd_game, w).tournament_wins == row_of(sel_game, w).tournament_wins);
                }
                let a = self.overall.assign_winner(w);
                let b = self.game.assign_winner(w);
                assert(a is Ok);
                assert(b is Ok);
            }
        }
        let time = self.times[self.pos].clone();
        let entry = self.entry(
            set,
            time,
            elo_one,
            update.overall_delta_one,
            elo_two,
            update.overall_delta_two,
        );
        self.ledger.push(entry);
        self.pos = self.pos + 1;
        Ok(())
    }

    /// Closes the event once every set has been played through. In both
    /// namespaces every roster player gets a row (get-or-create, so that
    /// players with only forfeited sets are counted too), every row whose
    /// player is on the roster counts one more tournament, then all ranks
    /// are recomputed. Hands back both namespaces and the ledger. Fails with
    /// `SetsLeft` while sets remain, and with `CounterOverflow` where a
    /// tournament count would leave `i32`.
    pub fn finish(self) -> (r: Result<(PlayerTable, PlayerTable, Vec<SetsRow>), EloError>)
        requires
            self.wf(),
        ensures
            self.pos < self.sets@.len() ==> r == Err::<
                (PlayerTable, PlayerTable, Vec<SetsRow>),
                EloError,
            >(EloError::SetsLeft),
            self.pos == self.sets@.len() ==> (r is Ok <==> increment_fits(
                self.overall@,
                self.roster@,
            ) && increment_fits(self.game@, self.roster@)),
            r matches Err(e) ==> e is SetsLeft || e is CounterOverflow,
            r matches Ok((overall, game, ledger)) ==> {
                &&& overall.wf()
                &&& game.wf()
                &&& exists|added: Seq<PlayersRow>|
                    roster_added(self.overall@, added, self.roster@) && ranked(
                        spec_increment(added, self.roster@),
                        overall@,
                    )
                &&& exists|added: Seq<PlayersRow>|
                    roster_added(self.game@, added, self.roster@) && ranked(
                        spec_increment(added, self.roster@),
                        game@,
                    )
                &&& ledger@ == self.ledger@
                &&& ledger@.len() == self.sets@.len()
            },
    {
        if self.pos < self.sets.len() {
            return Err(EloError::SetsLeft);
        }
        let EventRun { mut overall, mut game, roster, ledger, .. } = self;
        let ghost start_overall = overall@;
        let ghost start_game = game@;
        overall.add_roster_players(&roster);
        game.add_roster_players(&roster);
        let ghost added_overall = overall@;
        let ghost added_game = game@;
        proof {
            lemma_added_fits(start_overall, added_overall, roster@);
            lemma_added_fits(start_game, added_game, roster@);
        }
        match overall.increment_count(&roster) {
            Ok(()) => {},
            Err(e) => {
                return Err(e);
            },
        }
        match game.increment_count(&roster) {
            Ok(()) => {},
            Err(e) => {
                return Err(e);
            },
        }
        overall.update_ranking();
        game.update_ranking();
        Ok((overall, game, ledger))
    }
}

} // verus!

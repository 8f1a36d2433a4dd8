//! Player rows of one namespace ("overall" or one game) and the operations
//! on them: get-or-create, save, rank recomputation and the tournament
//! counters.

use vstd::prelude::*;
use crate::error::EloError;
use crate::rating::DEFAULT_ELO_BITS;

verus! {

/// The statistics of one player in one namespace. The rating is held as
/// the bits of an IEEE-754 double; the win/loss ratio is derived from
/// `wins` and `num_games` wherever it is stored.
#[derive(Debug)]
pub struct PlayersRow {
    pub global_id: i32,
    pub name: String,
    pub rank: usize,
    pub elo_bits: u64,
    pub num_games: i32,
    pub wins: i32,
    pub losses: i32,
    pub num_tournaments: i32,
    pub tournament_wins: i32,
}

/// Whether adding the scores of a set to the counters of `row` stays in `i32`.
pub open spec fn set_fits(row: PlayersRow, own: int, opp: int) -> bool {
    &&& i32::MIN <= row.num_games + own + opp <= i32::MAX
    &&& i32::MIN <= row.wins + own <= i32::MAX
    &&& i32::MIN <= row.losses + opp <= i32::MAX
}

/// The row after a set with scores `own` (this player) and `opp` (the
/// opponent), with the new rating `elo_bits`.
pub open spec fn spec_apply_set(row: PlayersRow, own: int, opp: int, elo_bits: u64) -> PlayersRow {
    PlayersRow {
        global_id: row.global_id,
        name: row.name,
        rank: row.rank,
        elo_bits,
        num_games: (row.num_games + own + opp) as i32,
        wins: (row.wins + own) as i32,
        losses: (row.losses + opp) as i32,
        num_tournaments: row.num_tournaments,
        tournament_wins: row.tournament_wins,
    }
}

impl PlayersRow {
    /// A player seen for the first time: rating 1500, every counter 0.
    pub open spec fn spec_new(global_id: i32, name: String) -> PlayersRow {
        PlayersRow {
            global_id,
            name,
            rank: 0,
            elo_bits: DEFAULT_ELO_BITS,
            num_games: 0,
            wins: 0,
            losses: 0,
            num_tournaments: 0,
            tournament_wins: 0,
        }
    }

    /// Creates the row of a player seen for the first time.
    pub fn new(global_id: i32, name: String) -> (r: PlayersRow)
        ensures
            r == PlayersRow::spec_new(global_id, name),
    {
        PlayersRow {
            global_id,
            name,
            rank: 0,
            elo_bits: DEFAULT_ELO_BITS,
            num_games: 0,
            wins: 0,
            losses: 0,
            num_tournaments: 0,
            tournament_wins: 0,
        }
    }

    /// A field-by-field copy.
    pub fn duplicate(&self) -> (r: PlayersRow)
        ensures
            r == *self,
    {
        PlayersRow {
            global_id: self.global_id,
            name: self.name.clone(),
            rank: self.rank,
            elo_bits: self.elo_bits,
            num_games: self.num_games,
            wins: self.wins,
            losses: self.losses,
            num_tournaments: self.num_tournaments,
            tournament_wins: self.tournament_wins,
        }
    }

    /// Records a completed set: the games of both sides are added to
    /// `num_games`, the own score to `wins`, the opponent's to `losses`,
    /// and the rating becomes `elo_bits`. Fails, changing nothing, where a
    /// counter would leave `i32`.
    pub fn apply_set(&mut self, own: i32, opp: i32, elo_bits: u64) -> (r: Result<(), EloError>)
        ensures
            r is Ok <==> set_fits(*old(self), own as int, opp as int),
            r is Ok ==> *final(self) == spec_apply_set(*old(self), own as int, opp as int, elo_bits),
            r is Err ==> *final(self) == *old(self) && r == Err::<(), EloError>(
                EloError::CounterOverflow(old(self).global_id),
            ),
    {
        let games: i64 = self.num_games as i64 + own as i64 + opp as i64;
        let wins: i64 = self.wins as i64 + own as i64;
        let losses: i64 = self.losses as i64 + opp as i64;
        let lo: i64 = i32::MIN as i64;
        let hi: i64 = i32::MAX as i64;
        if lo <= games && games <= hi && lo <= wins && wins <= hi && lo <= losses && losses <= hi {
            self.num_games = games as i32;
            self.wins = wins as i32;
            self.losses = losses as i32;
            self.elo_bits = elo_bits;
            Ok(())
        } else {
            Err(EloError::CounterOverflow(self.global_id))
        }
    }
}

} // verus!

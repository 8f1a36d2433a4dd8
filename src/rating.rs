//! The integer side of the rating model: K-factor tiers, the forfeit
//! sentinel, and an ordering key for ratings held as IEEE-754 bits.

use vstd::prelude::*;

verus! {

/// Games played below which a player's rating is still provisional.
pub const K_FACTOR_LIMIT: i32 = 20;

/// K-factor of a provisional player.
pub const K_FACTOR_PROVISIONAL: u32 = 32;

/// K-factor of an established player.
pub const K_FACTOR_STANDARD: u32 = 24;

/// Score reported for a side when no result was recorded (a DQ).
pub const FORFEIT_SCORE: i32 = -1;

/// The starting rating, 1500.0, as the bits of an IEEE-754 double.
pub const DEFAULT_ELO_BITS: u64 = 0x4097_7000_0000_0000;

/// The K-factor of a player who has played `num_games` games before the set.
pub open spec fn spec_k_factor(num_games: int) -> int {
    if num_games < K_FACTOR_LIMIT {
        K_FACTOR_PROVISIONAL as int
    } else {
        K_FACTOR_STANDARD as int
    }
}

/// Whether a set with these scores was forfeited by either side.
pub open spec fn spec_is_forfeit(score_one: int, score_two: int) -> bool {
    score_one == FORFEIT_SCORE || score_two == FORFEIT_SCORE
}

/// The bits of -0.0.
pub const NEGATIVE_ZERO_BITS: u64 = 0x8000_0000_0000_0000;

/// A key whose unsigned order is the numeric order of IEEE-754 doubles,
/// with -0.0 and +0.0 sharing a key (NaNs, which a rating never is, fall
/// outside, ordered by their bits as `f64::total_cmp` does): negative values
/// have all bits flipped, the others only their sign bit.
pub open spec fn elo_order_key(bits: u64) -> u64 {
    if bits == NEGATIVE_ZERO_BITS {
        0x8000_0000_0000_0000u64
    } else if bits >> 63u64 == 1u64 {
        !bits
    } else {
        bits | 0x8000_0000_0000_0000u64
    }
}

/// Selects the K-factor of a player from the games played before the set.
pub fn k_factor(num_games: i32) -> (k: u32)
    ensures
        k as int == spec_k_factor(num_games as int),
{
    if num_games < K_FACTOR_LIMIT {
        K_FACTOR_PROVISIONAL
    } else {
        K_FACTOR_STANDARD
    }
}

/// Whether either side of the set carries the forfeit sentinel.
pub fn is_forfeit(score_one: i32, score_two: i32) -> (r: bool)
    ensures
        r == spec_is_forfeit(score_one as int, score_two as int),
{
    score_one == FORFEIT_SCORE || score_two == FORFEIT_SCORE
}

/// The ordering key of a rating given by its bits.
pub fn elo_key(bits: u64) -> (r: u64)
    ensures
        r == elo_order_key(bits),
{
    if bits == NEGATIVE_ZERO_BITS {
        0x8000_0000_0000_0000u64
    } else if bits >> 63u64 == 1u64 {
        !bits
    } else {
        bits | 0x8000_0000_0000_0000u64
    }
}

} // verus!

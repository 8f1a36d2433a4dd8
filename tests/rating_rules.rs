use smashgg_elo::player::PlayersRow;
use smashgg_elo::rating::{elo_key, is_forfeit, k_factor, DEFAULT_ELO_BITS};
use smashgg_elo::error::EloError;

#[test]
fn k_factor_tier_boundary() {
    assert_eq!(k_factor(0), 32);
    assert_eq!(k_factor(19), 32);
    assert_eq!(k_factor(20), 24);
    assert_eq!(k_factor(500), 24);
}

#[test]
fn forfeit_sentinel_on_either_side() {
    assert!(is_forfeit(-1, 3));
    assert!(is_forfeit(2, -1));
    assert!(is_forfeit(-1, -1));
    assert!(!is_forfeit(0, 0));
    assert!(!is_forfeit(3, 1));
}

#[test]
fn default_rating_is_1500() {
    assert_eq!(f64::from_bits(DEFAULT_ELO_BITS), 1500.0);
}

#[test]
fn elo_key_follows_rating_order() {
    let k = |x: f64| elo_key(x.to_bits());
    assert!(k(1700.0) > k(1600.0));
    assert!(k(1600.0) > k(1500.0));
    assert!(k(1500.0) > k(0.0));
    assert!(k(0.0) > k(-0.5));
    assert!(k(-0.5) > k(-12.0));
    assert_eq!(k(1532.0), k(1532.0));
    assert_eq!(k(-0.0), k(0.0));
    assert!(k(-0.0) > k(-f64::MIN_POSITIVE));
    assert!(k(f64::MIN_POSITIVE) > k(-0.0));
}

#[test]
fn apply_set_fresh_player_three_one() {
    let mut one = PlayersRow::new(10, "One".to_string());
    let mut two = PlayersRow::new(20, "Two".to_string());
    assert_eq!(one.apply_set(3, 1, 1532.0f64.to_bits()), Ok(()));
    assert_eq!(two.apply_set(1, 3, 1468.0f64.to_bits()), Ok(()));
    assert_eq!((one.num_games, one.wins, one.losses), (4, 3, 1));
    assert_eq!((two.num_games, two.wins, two.losses), (4, 1, 3));
    assert_eq!(f64::from_bits(one.elo_bits), 1532.0);
    assert_eq!(f64::from_bits(two.elo_bits), 1468.0);
    assert_eq!(one.num_tournaments, 0);
    assert_eq!(one.name, "One");
}

#[test]
fn apply_set_overflow_changes_nothing() {
    let mut row = PlayersRow::new(7, "Max".to_string());
    row.wins = i32::MAX;
    row.num_games = i32::MAX;
    let before = row.duplicate();
    assert_eq!(row.apply_set(1, 0, 0), Err(EloError::CounterOverflow(7)));
    assert_eq!(row.wins, before.wins);
    assert_eq!(row.num_games, before.num_games);
    assert_eq!(row.elo_bits, before.elo_bits);
}

use smashgg_elo::error::EloError;
use smashgg_elo::player::PlayersRow;
use smashgg_elo::table::PlayerTable;
use std::collections::HashMap;

fn rated(id: i32, elo: f64) -> PlayersRow {
    let mut r = PlayersRow::new(id, format!("player{}", id));
    r.elo_bits = elo.to_bits();
    r
}

fn rank_of(t: &PlayerTable, id: i32) -> usize {
    t.rows().iter().find(|r| r.global_id == id).unwrap().rank
}

#[test]
fn select_player_creates_with_defaults() {
    let mut t = PlayerTable::new();
    let row = t.select_player(42, &"Mang0".to_string());
    assert_eq!(row.global_id, 42);
    assert_eq!(row.name, "Mang0");
    assert_eq!(f64::from_bits(row.elo_bits), 1500.0);
    assert_eq!((row.num_games, row.wins, row.losses, row.rank), (0, 0, 0, 0));
    assert_eq!((row.num_tournaments, row.tournament_wins), (0, 0));
    assert_eq!(t.rows().len(), 1);
}

#[test]
fn select_player_twice_is_idempotent() {
    let mut t = PlayerTable::new();
    let first = t.select_player(5, &"Armada".to_string());
    let rows_after_first: Vec<(i32, String)> =
        t.rows().iter().map(|r| (r.global_id, r.name.clone())).collect();
    let second = t.select_player(5, &"Armada".to_string());
    let rows_after_second: Vec<(i32, String)> =
        t.rows().iter().map(|r| (r.global_id, r.name.clone())).collect();
    assert_eq!(rows_after_first, rows_after_second);
    assert_eq!(first.name, second.name);
    assert_eq!(first.elo_bits, second.elo_bits);
}

#[test]
fn select_player_keeps_existing_name() {
    let mut t = PlayerTable::new();
    t.select_player(5, &"Old".to_string());
    let row = t.select_player(5, &"New".to_string());
    assert_eq!(row.name, "Old");
    assert_eq!(t.rows().len(), 1);
}

#[test]
fn from_rows_refuses_duplicate_ids() {
    assert!(PlayerTable::from_rows(vec![rated(1, 1500.0), rated(1, 1600.0)]).is_none());
    assert!(PlayerTable::from_rows(vec![rated(1, 1500.0), rated(2, 1600.0)]).is_some());
}

#[test]
fn update_player_saves_rating_and_games_only() {
    let mut t = PlayerTable::from_rows(vec![rated(1, 1500.0), rated(2, 1500.0)]).unwrap();
    let mut changed = rated(2, 1532.0);
    changed.num_games = 4;
    changed.wins = 3;
    changed.losses = 1;
    changed.rank = 9;
    changed.num_tournaments = 9;
    changed.tournament_wins = 9;
    changed.name = "renamed".to_string();
    t.update_player(&changed);
    let r = &t.rows()[1];
    assert_eq!(f64::from_bits(r.elo_bits), 1532.0);
    assert_eq!((r.num_games, r.wins, r.losses), (4, 3, 1));
    assert_eq!((r.rank, r.num_tournaments, r.tournament_wins), (0, 0, 0));
    assert_eq!(r.name, "player2");
    assert_eq!(f64::from_bits(t.rows()[0].elo_bits), 1500.0);
}

#[test]
fn update_player_without_row_changes_nothing() {
    let mut t = PlayerTable::from_rows(vec![rated(1, 1500.0)]).unwrap();
    t.update_player(&rated(3, 2000.0));
    assert_eq!(t.rows().len(), 1);
    assert_eq!(f64::from_bits(t.rows()[0].elo_bits), 1500.0);
}

#[test]
fn recompute_ranks_three_players() {
    let mut t =
        PlayerTable::from_rows(vec![rated(1, 1600.0), rated(2, 1500.0), rated(3, 1700.0)]).unwrap();
    t.update_ranking();
    assert_eq!(rank_of(&t, 3), 1);
    assert_eq!(rank_of(&t, 1), 2);
    assert_eq!(rank_of(&t, 2), 3);
}

#[test]
fn recompute_ranks_ties_by_global_id() {
    let mut t = PlayerTable::from_rows(vec![
        rated(9, 1500.0),
        rated(4, 1500.0),
        rated(7, 1800.0),
        rated(1, 1400.0),
    ])
    .unwrap();
    t.update_ranking();
    assert_eq!(rank_of(&t, 7), 1);
    assert_eq!(rank_of(&t, 4), 2);
    assert_eq!(rank_of(&t, 9), 3);
    assert_eq!(rank_of(&t, 1), 4);
}

#[test]
fn recompute_ranks_overwrites_old_ranks() {
    let mut a = rated(1, 1400.0);
    a.rank = 1;
    let mut b = rated(2, 1450.0);
    b.rank = 1;
    let mut t = PlayerTable::from_rows(vec![a, b]).unwrap();
    t.update_ranking();
    assert_eq!(rank_of(&t, 2), 1);
    assert_eq!(rank_of(&t, 1), 2);
}

#[test]
fn recompute_ranks_empty_table() {
    let mut t = PlayerTable::new();
    t.update_ranking();
    assert_eq!(t.rows().len(), 0);
}

#[test]
fn increment_count_eight_roster_players() {
    let mut rows = Vec::new();
    for id in 100..110 {
        rows.push(rated(id, 1500.0));
    }
    let mut t = PlayerTable::from_rows(rows).unwrap();
    let mut roster = HashMap::new();
    for k in 0..8 {
        roster.insert(k, (format!("player{}", 100 + k), 100 + k));
    }
    assert_eq!(t.increment_count(&roster), Ok(()));
    for r in t.rows() {
        let expected = if r.global_id < 108 { 1 } else { 0 };
        assert_eq!(r.num_tournaments, expected, "player {}", r.global_id);
    }
}

#[test]
fn increment_count_once_per_player() {
    let mut t = PlayerTable::from_rows(vec![rated(1, 1500.0)]).unwrap();
    let mut roster = HashMap::new();
    roster.insert(10, ("a".to_string(), 1));
    roster.insert(11, ("a again".to_string(), 1));
    roster.insert(12, ("no row".to_string(), 2));
    assert_eq!(t.increment_count(&roster), Ok(()));
    assert_eq!(t.rows()[0].num_tournaments, 1);
    assert_eq!(t.rows().len(), 1);
}

#[test]
fn increment_count_overflow_changes_nothing() {
    let mut full = rated(1, 1500.0);
    full.num_tournaments = i32::MAX;
    let mut t = PlayerTable::from_rows(vec![rated(2, 1500.0), full]).unwrap();
    let mut roster = HashMap::new();
    roster.insert(10, ("a".to_string(), 1));
    roster.insert(11, ("b".to_string(), 2));
    assert_eq!(t.increment_count(&roster), Err(EloError::CounterOverflow(1)));
    assert_eq!(t.rows()[0].num_tournaments, 0);
}

#[test]
fn assign_winner_counts_a_win() {
    let mut t = PlayerTable::from_rows(vec![rated(1, 1500.0), rated(2, 1500.0)]).unwrap();
    assert_eq!(t.assign_winner(2), Ok(()));
    assert_eq!(t.rows()[1].tournament_wins, 1);
    assert_eq!(t.rows()[0].tournament_wins, 0);
}

#[test]
fn assign_winner_errors() {
    let mut full = rated(1, 1500.0);
    full.tournament_wins = i32::MAX;
    let mut t = PlayerTable::from_rows(vec![full]).unwrap();
    assert_eq!(t.assign_winner(3), Err(EloError::UnknownPlayer(3)));
    assert_eq!(t.assign_winner(1), Err(EloError::CounterOverflow(1)));
}

#[test]
fn add_roster_players_creates_missing_rows_only() {
    let mut existing = rated(1, 1600.0);
    existing.name = "Kept".to_string();
    existing.num_tournaments = 4;
    let mut t = PlayerTable::from_rows(vec![existing]).unwrap();
    let mut roster = HashMap::new();
    roster.insert(10, ("Renamed".to_string(), 1));
    roster.insert(11, ("Fresh".to_string(), 2));
    t.add_roster_players(&roster);
    assert_eq!(t.rows().len(), 2);
    assert_eq!(t.rows()[0].name, "Kept");
    assert_eq!(t.rows()[0].num_tournaments, 4);
    assert_eq!(t.rows()[1].global_id, 2);
    assert_eq!(t.rows()[1].name, "Fresh");
    assert_eq!(f64::from_bits(t.rows()[1].elo_bits), 1500.0);
    t.add_roster_players(&roster);
    assert_eq!(t.rows().len(), 2);
}

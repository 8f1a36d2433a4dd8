use smashgg_elo::error::EloError;
use smashgg_elo::event::EventRun;
use smashgg_elo::ledger::{chronological_order, set_time, RatingUpdate, Step, MAX_UTC_SECS, MIN_UTC_SECS};
use smashgg_elo::player::PlayersRow;
use smashgg_elo::response::SetInfo;
use smashgg_elo::table::PlayerTable;
use std::collections::HashMap;

fn roster() -> HashMap<i32, (String, i32)> {
    let mut m = HashMap::new();
    m.insert(1, ("Alpha".to_string(), 1001));
    m.insert(2, ("Beta".to_string(), 1002));
    m.insert(3, ("Gamma".to_string(), 1003));
    m
}

fn set(one: i32, s1: i32, two: i32, s2: i32, time: i64) -> SetInfo {
    SetInfo {
        player_one_id: one,
        player_one_score: s1,
        player_two_id: two,
        player_two_score: s2,
        time,
    }
}

fn row(t: &PlayerTable, id: i32) -> &PlayersRow {
    t.rows().iter().find(|r| r.global_id == id).unwrap()
}

fn run(sets: Vec<SetInfo>) -> EventRun {
    EventRun::new(
        PlayerTable::new(),
        PlayerTable::new(),
        roster(),
        sets,
        "Genesis".to_string(),
        "Melee".to_string(),
    )
    .unwrap()
}

fn update(o1: f64, o2: f64, d1: f64, d2: f64) -> RatingUpdate {
    RatingUpdate {
        overall_elo_one: o1.to_bits(),
        overall_elo_two: o2.to_bits(),
        overall_delta_one: d1.to_bits(),
        overall_delta_two: d2.to_bits(),
        game_elo_one: o1.to_bits(),
        game_elo_two: o2.to_bits(),
    }
}

#[test]
fn chronological_order_is_stable() {
    let sets = vec![set(1, 1, 2, 0, 30), set(1, 1, 2, 0, 10), set(1, 1, 2, 0, 30), set(1, 1, 2, 0, 20)];
    assert_eq!(chronological_order(&sets), vec![1, 3, 0, 2]);
    assert_eq!(chronological_order(&Vec::new()), Vec::<usize>::new());
}

#[test]
fn set_time_is_rfc3339() {
    assert_eq!(set_time(&set(1, 0, 2, 0, 0)), Some("1970-01-01T00:00:00+00:00".to_string()));
    assert_eq!(set_time(&set(1, 0, 2, 0, 1_600_000_000)), Some("2020-09-13T12:26:40+00:00".to_string()));
    assert_eq!(set_time(&set(1, 0, 2, 0, i64::MAX)), None);
}

#[test]
fn set_time_range_bounds() {
    assert!(set_time(&set(1, 0, 2, 0, MIN_UTC_SECS)).is_some());
    assert!(set_time(&set(1, 0, 2, 0, MAX_UTC_SECS)).is_some());
    assert_eq!(set_time(&set(1, 0, 2, 0, MIN_UTC_SECS - 1)), None);
    assert_eq!(set_time(&set(1, 0, 2, 0, MAX_UTC_SECS + 1)), None);
    assert_eq!(set_time(&set(1, 0, 2, 0, i64::MIN)), None);
}

#[test]
fn fresh_players_three_one() {
    let mut r = run(vec![set(1, 3, 2, 1, 100)]);
    let req = match r.step() {
        Step::Rate(q) => q,
        other => panic!("expected a rating request, got {:?}", other),
    };
    assert_eq!(f64::from_bits(req.overall_one.elo_bits), 1500.0);
    assert_eq!(f64::from_bits(req.overall_two.elo_bits), 1500.0);
    assert_eq!((req.overall_one.num_games, req.overall_two.num_games), (0, 0));
    assert_eq!((req.score_one, req.score_two), (3, 1));
    assert_eq!(r.complete(&update(1532.0, 1468.0, 32.0, -32.0)), Ok(()));
    assert!(matches!(r.step(), Step::Done));
    let (overall, game, ledger) = r.finish().unwrap();
    for t in [&overall, &game] {
        let one = row(t, 1001);
        let two = row(t, 1002);
        assert_eq!(f64::from_bits(one.elo_bits), 1532.0);
        assert_eq!((one.num_games, one.wins, one.losses), (4, 3, 1));
        assert_eq!(f64::from_bits(two.elo_bits), 1468.0);
        assert_eq!((two.num_games, two.wins, two.losses), (4, 1, 3));
        assert_eq!((one.rank, row(t, 1003).rank, two.rank), (1, 2, 3));
        assert_eq!((one.tournament_wins, two.tournament_wins), (1, 0));
        assert_eq!((one.num_tournaments, two.num_tournaments), (1, 1));
        assert_eq!(one.name, "Alpha");
    }
    assert_eq!(ledger.len(), 1);
    let e = &ledger[0];
    assert_eq!((e.player_one_global_id, e.player_two_global_id), (1001, 1002));
    assert_eq!((e.player_one_name.as_str(), e.player_two_name.as_str()), ("Alpha", "Beta"));
    assert_eq!(f64::from_bits(e.player_one_elo_bits), 1500.0);
    assert_eq!(f64::from_bits(e.player_one_elo_delta_bits), 32.0);
    assert_eq!(f64::from_bits(e.player_two_elo_delta_bits), -32.0);
    assert_eq!((e.player_one_score, e.player_two_score), (3, 1));
    assert_eq!(e.tournament_name, "Genesis");
    assert_eq!(e.game_name, "Melee");
    assert_eq!(e.set_time, "1970-01-01T00:01:40+00:00");
}

#[test]
fn forfeit_changes_no_row_and_is_recorded() {
    let mut existing = PlayersRow::new(1001, "Alpha".to_string());
    existing.elo_bits = 1600.0f64.to_bits();
    existing.num_games = 7;
    let overall = PlayerTable::from_rows(vec![existing]).unwrap();
    let mut r = EventRun::new(
        overall,
        PlayerTable::new(),
        roster(),
        vec![set(1, -1, 2, 0, 50)],
        "Genesis".to_string(),
        "Melee".to_string(),
    )
    .unwrap();
    assert!(matches!(r.step(), Step::Recorded));
    assert_eq!(r.overall.rows().len(), 1);
    assert_eq!(r.overall.rows()[0].num_games, 7);
    assert_eq!(r.game.rows().len(), 0);
    assert_eq!(r.ledger.len(), 1);
    let e = &r.ledger[0];
    assert_eq!(e.player_one_elo_delta_bits, 0.0f64.to_bits());
    assert_eq!(e.player_two_elo_delta_bits, 0.0f64.to_bits());
    assert_eq!(f64::from_bits(e.player_one_elo_bits), 1600.0);
    assert_eq!(f64::from_bits(e.player_two_elo_bits), 1500.0);
    assert_eq!(e.player_one_score, -1);
    assert_eq!(r.complete(&update(0.0, 0.0, 0.0, 0.0)), Err(EloError::NoPendingSet));
    assert!(matches!(r.step(), Step::Done));
}

#[test]
fn sets_play_in_time_order_and_last_decides() {
    let mut r = run(vec![set(2, 0, 3, 2, 300), set(1, 2, 2, 1, 100), set(1, 2, 3, 0, 200)]);
    let mut seen = Vec::new();
    loop {
        match r.step() {
            Step::Done => break,
            Step::Recorded => {}
            Step::Rate(q) => {
                seen.push((q.overall_one.global_id, q.overall_two.global_id));
                let o1 = f64::from_bits(q.overall_one.elo_bits);
                let o2 = f64::from_bits(q.overall_two.elo_bits);
                assert_eq!(r.complete(&update(o1, o2, 0.0, 0.0)), Ok(()));
            }
        }
    }
    assert_eq!(seen, vec![(1001, 1002), (1001, 1003), (1002, 1003)]);
    let (overall, game, ledger) = r.finish().unwrap();
    assert_eq!(ledger.len(), 3);
    assert_eq!(row(&overall, 1003).tournament_wins, 1);
    assert_eq!(row(&game, 1003).tournament_wins, 1);
    assert_eq!(row(&overall, 1001).tournament_wins, 0);
    assert_eq!(row(&overall, 1002).num_games, 5);
    assert_eq!((row(&overall, 1001).wins, row(&overall, 1001).losses), (4, 1));
}

#[test]
fn tied_final_has_no_winner() {
    let mut r = run(vec![set(1, 2, 2, 2, 10)]);
    assert!(matches!(r.step(), Step::Rate(_)));
    assert_eq!(r.complete(&update(1500.0, 1500.0, 0.0, 0.0)), Ok(()));
    let (overall, _, _) = r.finish().unwrap();
    assert_eq!(row(&overall, 1001).tournament_wins, 0);
    assert_eq!(row(&overall, 1002).tournament_wins, 0);
}

#[test]
fn unknown_participant_is_refused() {
    let r = EventRun::new(
        PlayerTable::new(),
        PlayerTable::new(),
        roster(),
        vec![set(1, 2, 9, 0, 10)],
        "Genesis".to_string(),
        "Melee".to_string(),
    );
    assert_eq!(r.err(), Some(EloError::UnknownParticipant(9)));
}

#[test]
fn invalid_timestamp_is_refused() {
    let r = EventRun::new(
        PlayerTable::new(),
        PlayerTable::new(),
        roster(),
        vec![set(1, 2, 2, 0, i64::MAX)],
        "Genesis".to_string(),
        "Melee".to_string(),
    );
    assert_eq!(r.err(), Some(EloError::InvalidTimestamp(i64::MAX)));
}

#[test]
fn finish_before_the_end_is_refused() {
    let r = run(vec![set(1, 2, 2, 0, 10)]);
    assert_eq!(r.finish().err(), Some(EloError::SetsLeft));
}

#[test]
fn complete_overflow_saves_nothing() {
    let mut full = PlayersRow::new(1001, "Alpha".to_string());
    full.wins = i32::MAX - 1;
    full.num_games = 5;
    let overall = PlayerTable::from_rows(vec![full]).unwrap();
    let mut r = EventRun::new(
        overall,
        PlayerTable::new(),
        roster(),
        vec![set(1, 3, 2, 0, 10)],
        "Genesis".to_string(),
        "Melee".to_string(),
    )
    .unwrap();
    assert!(matches!(r.step(), Step::Rate(_)));
    assert_eq!(r.complete(&update(1.0, 1.0, 0.0, 0.0)), Err(EloError::CounterOverflow(1001)));
    assert_eq!(row(&r.overall, 1001).num_games, 5);
    assert_eq!(row(&r.overall, 1002).num_games, 0);
    assert_eq!(r.ledger.len(), 0);
    assert_eq!(r.pos, 0);
}

#[test]
fn forfeit_only_players_still_count_the_tournament() {
    let mut r = run(vec![set(1, -1, 2, 0, 50)]);
    assert!(matches!(r.step(), Step::Recorded));
    assert!(matches!(r.step(), Step::Done));
    let (overall, game, ledger) = r.finish().unwrap();
    assert_eq!(ledger.len(), 1);
    for t in [&overall, &game] {
        assert_eq!(t.rows().len(), 3);
        for id in [1001, 1002, 1003] {
            let p = row(t, id);
            assert_eq!(p.num_tournaments, 1);
            assert_eq!((p.num_games, p.wins, p.losses), (0, 0, 0));
            assert_eq!(f64::from_bits(p.elo_bits), 1500.0);
        }
        assert_eq!(row(t, 1002).name, "Beta");
    }
}

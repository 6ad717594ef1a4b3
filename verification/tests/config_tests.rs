use tetris::bag::{AnyBag, Bag, DeterministicBag, RandomBag};
use tetris::config::{
    default_expected_players, default_send_garbage, BagType, GameConfig, ServerAddr,
    DEFAULT_REPLICATION_INTERVAL_MS, DEFAULT_SERVER_PORT, LOCALHOST_V4,
};
use tetris::data::{get_tetromino, SharedGameState, Tetromino, ALL_TETROMINO_TYPES, SOFT_DROP_GRAVITY};

#[test]
fn default_game_state() {
    let cfg = GameConfig { bag: BagType::Deterministic, ..Default::default() };
    let state = cfg.build_shared_game_state();
    let priv_state = cfg.build_private_game_state();

    assert!(matches!(priv_state.bag, AnyBag::Deterministic(_)));
    assert_eq!(state.hard_drop, false);
    assert_eq!(state.manual_drop_gravity, SOFT_DROP_GRAVITY);
    assert_eq!(state.score, 0);
    assert_eq!(state.lines_cleared, 0);
    assert_eq!(state.lines_cleared_since_last_level, 0);
    assert_eq!(state.level, 0);
    assert_eq!(
        state.drop_interval_frames() as u64 * 1_000_000 / 60,
        SharedGameState::initial_drop_interval_micros()
    );
    assert_eq!(state.gravity_timer.duration_us, SharedGameState::initial_drop_interval_micros());
    assert_eq!(state.gravity_timer.elapsed_us, 0);
    assert_eq!(state.client_id, 0);
}

#[test]
fn bag_creation() {
    let cfg = GameConfig { bag: BagType::Deterministic, ..Default::default() };
    let state = cfg.build_private_game_state();
    assert!(matches!(state.bag, AnyBag::Deterministic(_)));

    // A bag made from the seed 727 deals what `RandomBag::from_seed(727)`
    // deals.
    let cfg = GameConfig { bag: BagType::FixedSeed(727), ..Default::default() };
    let state = cfg.build_private_game_state();
    match state.bag {
        AnyBag::Random(mut b) => {
            assert_eq!(draw(&mut b, 70), draw(&mut RandomBag::from_seed(727), 70))
        },
        AnyBag::Deterministic(_) => panic!("expected a random bag"),
    }

    let cfg = GameConfig { bag: BagType::RandomSeed, ..Default::default() };
    let state1 = cfg.build_private_game_state();
    let state2 = cfg.build_private_game_state();
    match (state1.bag, state2.bag) {
        (AnyBag::Random(mut a), AnyBag::Random(mut b)) => assert_ne!(draw(&mut a, 70), draw(&mut b, 70)),
        _ => panic!("expected random bags"),
    }
}

#[test]
fn config_defaults() {
    let cfg = GameConfig::default();
    assert_eq!(cfg.bag, BagType::RandomSeed);
    assert!(cfg.animate_title);
    assert_eq!(cfg.server_addr, ServerAddr::V4(LOCALHOST_V4));
    assert_eq!(cfg.server_port, DEFAULT_SERVER_PORT);
    assert_eq!(cfg.server_port, 1337);
    assert_eq!(cfg.replication_interval_ms, DEFAULT_REPLICATION_INTERVAL_MS);
    assert_eq!(cfg.replication_interval_ms, 16);
    assert!(!cfg.send_garbage);
    assert_eq!(cfg.expected_players, 1);
    assert!(!default_send_garbage());
    assert_eq!(default_expected_players(), 1);
    assert_eq!(BagType::default(), BagType::RandomSeed);
}

#[test]
fn players_supported_range() {
    for (n, ok) in [(0usize, false), (1, true), (2, true), (3, true), (4, false)] {
        let cfg = GameConfig { expected_players: n, ..Default::default() };
        assert_eq!(cfg.players_supported(), ok);
    }
}

fn draw(bag: &mut impl Bag, n: usize) -> Vec<Tetromino> {
    (0..n).map(|_| bag.next_tetromino()).collect()
}

#[test]
fn deterministic_bag_cycles_in_order() {
    let mut bag = DeterministicBag::default();
    let drawn = draw(&mut bag, 14);
    for (i, t) in drawn.iter().enumerate() {
        assert_eq!(*t, get_tetromino(ALL_TETROMINO_TYPES[i % 7]));
    }
    let peeked = bag.peek();
    assert_eq!(peeked, bag.next_tetromino());
    assert_eq!(peeked, get_tetromino(ALL_TETROMINO_TYPES[0]));
}

#[test]
fn random_bag_deals_all_seven_each_round() {
    let mut bag = RandomBag::from_seed(727);
    for _round in 0..5 {
        let drawn = draw(&mut bag, 7);
        for typ in ALL_TETROMINO_TYPES {
            let want = get_tetromino(typ);
            assert_eq!(drawn.iter().filter(|t| **t == want).count(), 1);
        }
    }
}

#[test]
fn random_bag_same_seed_same_pieces() {
    let mut a = RandomBag::from_seed(727);
    let mut b = RandomBag::from_seed(727);
    assert_eq!(draw(&mut a, 30), draw(&mut b, 30));
    let mut c = RandomBag::from_seed(0);
    let p = c.peek();
    assert_eq!(p, c.next_tetromino());
}

#[test]
fn garbage_generator_is_seeded_alike() {
    let cfg = GameConfig { send_garbage: true, ..Default::default() };
    let mut a = cfg.build_private_game_state();
    let mut b = cfg.build_private_game_state();
    assert!(a.send_garbage);
    let xs: Vec<usize> = (0..20).map(|_| a.garbage_rng.index_below(1000)).collect();
    let ys: Vec<usize> = (0..20).map(|_| b.garbage_rng.index_below(1000)).collect();
    assert_eq!(xs, ys);
    assert!(xs.iter().all(|x| *x < 1000));
}

#[test]
fn random_bag_shuffles_its_pieces() {
    // Unshuffled, a round would deal the bag order backwards.
    let unshuffled: Vec<Tetromino> = ALL_TETROMINO_TYPES.iter().rev().map(|t| get_tetromino(*t)).collect();
    let shuffled_rounds = (0..8u64)
        .filter(|seed| draw(&mut RandomBag::from_seed(*seed), 7) != unshuffled)
        .count();
    assert!(shuffled_rounds > 0);
}

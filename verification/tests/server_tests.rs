use std::collections::HashMap;

use tetris::board::{there_is_collision, Block, LockdownTimer, LOCKDOWN_DURATION_US};
use tetris::config::{BagType, GameConfig};
use tetris::data::{get_tetromino, BlockColor, Cell, SharedGameState, TetrominoType};
use tetris::lines::delete_full_lines;
use tetris::owners::{
    build_per_client_lists, build_per_client_table, filter_controlled_by, take_controlled_by,
};
use tetris::protocol::{GameOverMessage, Input, Inputs};
use tetris::score::{apply_garbage, opponents, pick_garbage_target, target_from, update_score};
use tetris::session::{
    check_winner, continue_choice, game_over_on_esc, on_client_connected, on_game_over, participant_rows,
    round_record,
    record_elimination, stale_clients, state_after_departures, ConnectDecision, ContinueAnswer,
    ParticipantRow, ServerDbConfig, ServerState, Verdict,
};
use tetris::view::{
    board_cells, board_for, continue_input, game_over_title, hard_drop_text, inputs_from_keys, opponent_ends,
    score_text, ContinueChoice, GameBoard, PressedKeys,
};

#[derive(Debug, PartialEq, Clone, Copy)]
struct Foo;

#[derive(Debug, PartialEq, Eq, Clone, Copy, PartialOrd, Ord, Hash)]
struct Bar(u32);

#[test]
fn owner_filters() {
    let (owner1, owner2) = (67u64, 68u64);
    let foos = vec![(Foo, owner1), (Foo, owner2)];
    let foos_with_bar = vec![(Foo, owner2)];

    assert_eq!(build_per_client_table(&foos), HashMap::from([(owner1, Foo), (owner2, Foo)]));
    assert_eq!(build_per_client_table(&foos_with_bar), HashMap::from([(owner2, Foo)]));
    assert_eq!(
        build_per_client_lists(&foos),
        HashMap::from([(owner1, vec![Foo]), (owner2, vec![Foo])])
    );
    assert_eq!(build_per_client_lists(&foos_with_bar), HashMap::from([(owner2, vec![Foo])]));

    assert_eq!(take_controlled_by(&foos, owner1), Some(Foo));
    assert_eq!(take_controlled_by(&foos, owner2), Some(Foo));
    assert_eq!(take_controlled_by(&foos_with_bar, owner1), None);
    assert_eq!(take_controlled_by(&foos_with_bar, owner2), Some(Foo));
}

#[test]
fn owner_lists_keep_order() {
    let bars = vec![(Bar(1), 1u64), (Bar(7), 2), (Bar(2), 1), (Bar(2), 2)];
    assert_eq!(filter_controlled_by(&bars, 1), vec![Bar(1), Bar(2)]);
    assert_eq!(filter_controlled_by(&bars, 2), vec![Bar(7), Bar(2)]);
    assert_eq!(filter_controlled_by(&bars, 3), Vec::<Bar>::new());
    let lists = build_per_client_lists(&bars);
    assert_eq!(lists[&1], vec![Bar(1), Bar(2)]);
    assert_eq!(lists[&2], vec![Bar(7), Bar(2)]);
    // With two items for an owner, the table keeps the last one.
    assert_eq!(build_per_client_table(&bars)[&1], Bar(2));
}

#[test]
fn test_waiting_2_players() {
    assert_eq!(on_client_connected(ServerState::Pending, 1, 2), ConnectDecision::Wait);
    assert_eq!(on_client_connected(ServerState::Pending, 2, 2), ConnectDecision::Start);
}

#[test]
fn test_waiting_3_players() {
    assert_eq!(on_client_connected(ServerState::Pending, 1, 3), ConnectDecision::Wait);
    assert_eq!(on_client_connected(ServerState::Pending, 2, 3), ConnectDecision::Wait);
    assert_eq!(on_client_connected(ServerState::Pending, 3, 3), ConnectDecision::Start);
    assert_eq!(on_client_connected(ServerState::Running, 4, 3), ConnectDecision::Reject);
}

#[test]
fn test_disconnect_after_game_starts() {
    // Two players started the game; a third client is turned away and the
    // game goes on with the two.
    assert_eq!(on_client_connected(ServerState::Pending, 2, 2), ConnectDecision::Start);
    assert_eq!(on_client_connected(ServerState::Running, 3, 2), ConnectDecision::Reject);
    assert_eq!(state_after_departures(ServerState::Running, 2), ServerState::Running);
    assert_eq!(state_after_departures(ServerState::Running, 1), ServerState::Running);
    assert_eq!(state_after_departures(ServerState::Running, 0), ServerState::Pending);
    assert_eq!(state_after_departures(ServerState::Pending, 0), ServerState::Pending);
    assert_eq!(ServerState::default(), ServerState::Pending);
}

#[test]
fn stale_clients_are_dropped() {
    let clients = vec![(1u64, 0u64), (2, 2_000_000), (3, 5_000_000), (4, 6_999_999)];
    assert_eq!(stale_clients(7_000_000, &clients), vec![1, 2]);
    assert_eq!(stale_clients(3_000_000, &clients[..1].to_vec()), Vec::<u64>::new());
}

#[test]
fn winner_is_asked_once() {
    let mut outcomes: HashMap<u64, Verdict> = HashMap::new();
    let mut awaiting = None;
    assert_eq!(check_winner(1, true, &vec![5], &mut outcomes, &mut awaiting), None);
    assert_eq!(check_winner(2, false, &vec![5], &mut outcomes, &mut awaiting), None);
    assert_eq!(check_winner(3, true, &vec![5, 6], &mut outcomes, &mut awaiting), None);
    assert_eq!(check_winner(2, true, &vec![5], &mut outcomes, &mut awaiting), Some(5));
    assert_eq!(outcomes.get(&5), Some(&Verdict::Won));
    assert_eq!(awaiting, Some(5));
    assert_eq!(check_winner(2, true, &vec![5], &mut outcomes, &mut awaiting), None);
}

fn msg(inputs: &[Input]) -> Inputs {
    let mut m = Inputs::empty();
    for i in inputs {
        m.insert(*i);
    }
    m
}

#[test]
fn continue_choices() {
    let mut awaiting = Some(5);
    assert_eq!(continue_choice(&mut awaiting, 6, &msg(&[Input::ContinueNo])), ContinueAnswer::NoAnswer);
    assert_eq!(continue_choice(&mut awaiting, 5, &msg(&[Input::Left])), ContinueAnswer::NoAnswer);
    assert_eq!(awaiting, Some(5));
    assert_eq!(
        continue_choice(&mut awaiting, 5, &msg(&[Input::ContinueYes, Input::ContinueNo])),
        ContinueAnswer::Stop
    );
    assert_eq!(awaiting, None);
    let mut awaiting = Some(5);
    assert_eq!(continue_choice(&mut awaiting, 5, &msg(&[Input::ContinueYes])), ContinueAnswer::KeepPlaying);
    assert_eq!(awaiting, None);
}

#[test]
fn escape_ends_the_game() {
    assert!(game_over_on_esc(&msg(&[Input::Left, Input::EndGame])));
    assert!(!game_over_on_esc(&msg(&[Input::Left])));
}

#[test]
fn game_over_messages() {
    let mut outcomes: HashMap<u64, Verdict> = HashMap::new();
    outcomes.insert(1, Verdict::Won);
    assert_eq!(on_game_over(ServerState::Pending, &mut outcomes, 2), None);
    assert!(!outcomes.contains_key(&2));
    assert_eq!(on_game_over(ServerState::Running, &mut outcomes, 1), Some(GameOverMessage::Won));
    assert_eq!(on_game_over(ServerState::Running, &mut outcomes, 2), Some(GameOverMessage::Lost));
    assert_eq!(outcomes.get(&2), Some(&Verdict::Lost));
    // A second end of game reports the same verdicts.
    assert_eq!(on_game_over(ServerState::Running, &mut outcomes, 1), Some(GameOverMessage::Won));
    assert_eq!(on_game_over(ServerState::Running, &mut outcomes, 2), Some(GameOverMessage::Lost));
    assert_eq!(outcomes.len(), 2);
    assert_eq!(Verdict::Won.text(), "Won");
    assert_eq!(Verdict::Lost.text(), "Lost");
}

#[test]
fn results_of_a_round() {
    let mut elim: HashMap<u64, u64> = HashMap::new();
    let mut scores: HashMap<u64, u32> = HashMap::new();
    record_elimination(&mut elim, &mut scores, 10, None, Some(5));
    assert!(elim.is_empty() && scores.is_empty());
    record_elimination(&mut elim, &mut scores, 10, Some(12_000_000), Some(400));
    record_elimination(&mut elim, &mut scores, 10, Some(13_000_000), Some(999));
    assert_eq!(elim.get(&10), Some(&12_000_000));
    assert_eq!(scores.get(&10), Some(&400));

    let mut outcomes: HashMap<u64, Verdict> = HashMap::new();
    outcomes.insert(11, Verdict::Won);
    let rows = participant_rows(&vec![100, 200], &vec![10, 11, 12], &outcomes, &scores, &elim, 30_000_000);
    assert_eq!(
        rows,
        vec![
            ParticipantRow {
                user_id: 100,
                verdict: Verdict::Lost,
                score: 400,
                eliminated_at_us: Some(12_000_000),
                played_us: 12_000_000,
            },
            ParticipantRow {
                user_id: 200,
                verdict: Verdict::Won,
                score: 0,
                eliminated_at_us: None,
                played_us: 30_000_000,
            },
        ]
    );
}

#[test]
fn db_config_enables_records() {
    let cfg = ServerDbConfig { db_path: "tetris.db".to_string(), player_ids: vec![1, 2] };
    assert!(cfg.records_enabled());
    let cfg = ServerDbConfig { db_path: String::new(), player_ids: vec![1] };
    assert!(!cfg.records_enabled());
    let cfg = ServerDbConfig { db_path: "tetris.db".to_string(), player_ids: vec![] };
    assert!(!cfg.records_enabled());
}

fn state() -> SharedGameState {
    GameConfig::default().build_shared_game_state()
}

#[test]
fn score_table() {
    for (lines, points) in [(0u32, 0u32), (1, 40), (2, 100), (3, 300), (4, 1200)] {
        let mut s = state();
        let up = update_score(&mut s, lines);
        assert!(!up);
        assert_eq!(s.score, points);
        assert_eq!(s.lines_cleared, lines);
    }
    let mut s = state();
    s.level = 2;
    s.lines_cleared_since_last_level = 28;
    s.gravity_timer.elapsed_us = 5;
    assert!(update_score(&mut s, 3));
    assert_eq!(s.score, 900);
    assert_eq!(s.level, 3);
    assert_eq!(s.lines_cleared_since_last_level, 1);
    // The gravity timer takes the new level's period and keeps running.
    assert_eq!(s.gravity_timer.duration_us, 33 * 1_000_000 / 60);
    assert_eq!(s.gravity_timer.elapsed_us, 5);
}

fn row(y: i32, holes: &[i32]) -> Vec<Block> {
    (0..10)
        .filter(|x| !holes.contains(x))
        .map(|x| Block { cell: Cell(x, y), color: BlockColor::Gray })
        .collect()
}

#[test]
fn full_lines_are_deleted_and_blocks_fall() {
    let mut obstacles = row(0, &[]);
    obstacles.extend(row(1, &[3]));
    obstacles.extend(row(2, &[]));
    obstacles.push(Block { cell: Cell(4, 3), color: BlockColor::Red });
    let (rest, n) = delete_full_lines(&obstacles);
    assert_eq!(n, 2);
    let mut cells: Vec<(i32, i32)> = rest.iter().map(|b| (b.cell.0, b.cell.1)).collect();
    cells.sort();
    let mut want: Vec<(i32, i32)> = (0..10).filter(|x| *x != 3).map(|x| (x, 0)).collect();
    want.push((4, 1));
    want.sort();
    assert_eq!(cells, want);
}

#[test]
fn blocks_in_hidden_rows_fall_too() {
    let mut obstacles = row(0, &[]);
    obstacles.push(Block { cell: Cell(2, 21), color: BlockColor::Red });
    obstacles.extend(row(22, &[]));
    let (rest, n) = delete_full_lines(&obstacles);
    // Only visible rows are cleared; the hidden blocks move down one row.
    assert_eq!(n, 1);
    assert_eq!(rest.len(), 11);
    assert_eq!(rest[0].cell, Cell(2, 20));
    assert!(rest[1..].iter().all(|b| b.cell.1 == 21));
}

#[test]
fn garbage_raises_the_board() {
    let obstacles = vec![Block { cell: Cell(0, 0), color: BlockColor::Red }];
    let out = apply_garbage(&obstacles, None, 2, 4);
    assert!(!out.game_over);
    assert_eq!(out.obstacles[0].cell, Cell(0, 2));
    assert_eq!(out.obstacles.len(), 1 + 9 + 9);
    assert!(out.obstacles.iter().all(|b| b.cell != Cell(4, 0) && b.cell != Cell(4, 1)));

    let mut piece = get_tetromino(TetrominoType::O);
    piece.shift(4, 0);
    let out = apply_garbage(&vec![], Some(piece), 1, 0);
    let mut up = piece;
    up.shift(0, 1);
    assert_eq!(out.active, Some(up));
    assert!(!there_is_collision(&up, &out.obstacles));

    let tall: Vec<Block> = (0..23).map(|y| Block { cell: Cell(0, y), color: BlockColor::Red }).collect();
    assert!(apply_garbage(&tall, None, 1, 5).game_over);
}

#[test]
fn garbage_target_is_an_opponent() {
    let cfg = GameConfig { send_garbage: true, bag: BagType::Deterministic, ..Default::default() };
    let mut ps = cfg.build_private_game_state();
    assert_eq!(pick_garbage_target(&mut ps, 1, &vec![1, 2, 3], 0), None);
    assert_eq!(pick_garbage_target(&mut ps, 1, &vec![1], 2), None);
    for _ in 0..20 {
        let (opp, hole) = pick_garbage_target(&mut ps, 1, &vec![1, 2, 3], 2).unwrap();
        assert!(opp == 2 || opp == 3);
        assert!((0..10).contains(&hole));
    }
    assert_eq!(opponents(&vec![4, 1, 7, 1], 1), vec![4, 7]);
    assert_eq!(target_from(&vec![4, 1, 7], 1, 0, 3), (4, 3));
    assert_eq!(target_from(&vec![4, 1, 7], 1, 1, 9), (7, 9));
    // Two generators seeded alike pick the same targets.
    let mut a = cfg.build_private_game_state();
    let mut b = cfg.build_private_game_state();
    for _ in 0..10 {
        assert_eq!(
            pick_garbage_target(&mut a, 1, &vec![1, 2, 3, 4], 1),
            pick_garbage_target(&mut b, 1, &vec![1, 2, 3, 4], 1)
        );
    }
    let mut off = GameConfig::default().build_private_game_state();
    assert_eq!(pick_garbage_target(&mut off, 1, &vec![1, 2], 4), None);
}

#[test]
fn lockdown_timer() {
    let mut t = LockdownTimer(None);
    t.start_or_advance(10);
    assert_eq!(t, LockdownTimer(Some(0)));
    assert!(!t.just_finished());
    t.start_or_advance(LOCKDOWN_DURATION_US - 1);
    assert!(!t.just_finished());
    t.start_or_advance(5);
    assert_eq!(t, LockdownTimer(Some(LOCKDOWN_DURATION_US)));
    assert!(t.just_finished());
    t.reset();
    assert_eq!(t, LockdownTimer(None));
}

#[test]
fn keyboard_inputs() {
    let keys = PressedKeys { space: true, z: true, ..Default::default() };
    let inputs = inputs_from_keys(keys);
    assert!(inputs.contains(Input::Rotate));
    assert!(inputs.contains(Input::HardDrop));
    assert!(!inputs.contains(Input::Down));
    assert!(inputs_from_keys(PressedKeys::default()).is_empty());
    let all = inputs_from_keys(PressedKeys {
        down: true,
        left: true,
        right: true,
        up: true,
        space: false,
        x: true,
        z: false,
        escape: true,
    });
    for i in [Input::Down, Input::Left, Input::Right, Input::Rotate, Input::Hold, Input::EndGame] {
        assert!(all.contains(i));
    }
}

#[test]
fn opponent_boards() {
    assert_eq!(opponent_ends(5, &vec![5, 5]), (None, None));
    assert_eq!(opponent_ends(5, &vec![9, 5, 3, 9]), (Some(3), Some(9)));
    assert_eq!(opponent_ends(5, &vec![7]), (Some(7), Some(7)));
    assert_eq!(board_for(5, 5, Some(3), Some(9)), GameBoard::MainBoard);
    assert_eq!(board_for(3, 5, Some(3), Some(9)), GameBoard::Left);
    assert_eq!(board_for(9, 5, Some(3), Some(9)), GameBoard::Right);
}

#[test]
fn side_panel_texts() {
    let mut s = state();
    s.score = 1234;
    s.level = 3;
    assert_eq!(score_text(&s), "Score: 1234\nLevel: 3");
    assert_eq!(hard_drop_text(&s), "Hard Drop: Off");
    s.hard_drop = true;
    assert_eq!(hard_drop_text(&s), "Hard Drop: On");
    assert_eq!(game_over_title(GameOverMessage::Won), "You won!");
    assert_eq!(game_over_title(GameOverMessage::Lost), "You lost!");
    assert_eq!(game_over_title(GameOverMessage::WonContinue), "You lost!");
    assert_eq!(continue_input(ContinueChoice::Yes), Input::ContinueYes);
    assert_eq!(continue_input(ContinueChoice::No), Input::ContinueNo);
}

#[test]
fn round_record_names_the_lobby() {
    let outcomes: HashMap<u64, Verdict> = HashMap::new();
    let empty64: HashMap<u64, u64> = HashMap::new();
    let empty32: HashMap<u64, u32> = HashMap::new();
    let cfg = ServerDbConfig { db_path: "tetris.db".to_string(), player_ids: vec![7] };
    let rec = round_record(&cfg, 1340, &vec![3], &outcomes, &empty32, &empty64, 9).unwrap();
    assert_eq!(rec.lobby_port, 1340);
    assert_eq!(rec.participants.len(), 1);
    assert_eq!(rec.participants[0].user_id, 7);
    assert_eq!(rec.participants[0].verdict, Verdict::Lost);
    assert_eq!(rec.participants[0].played_us, 9);
    let off = ServerDbConfig { db_path: String::new(), player_ids: vec![7] };
    assert!(round_record(&off, 1340, &vec![3], &outcomes, &empty32, &empty64, 9).is_none());
}

#[test]
fn cells_go_to_their_boards() {
    let obstacles = vec![
        (Block { cell: Cell(0, 0), color: BlockColor::Gray }, 5u64),
        (Block { cell: Cell(1, 21), color: BlockColor::Gray }, 5),
        (Block { cell: Cell(2, 0), color: BlockColor::Red }, 3),
    ];
    let mut piece = get_tetromino(TetrominoType::O);
    piece.shift(4, 19);
    let pieces = vec![(piece, 9u64)];
    let main = board_cells(&obstacles, &pieces, 5, Some(3), Some(9), GameBoard::MainBoard);
    assert_eq!(main, vec![Block { cell: Cell(0, 0), color: BlockColor::Gray }]);
    let left = board_cells(&obstacles, &pieces, 5, Some(3), Some(9), GameBoard::Left);
    assert_eq!(left, vec![Block { cell: Cell(2, 0), color: BlockColor::Red }]);
    let right = board_cells(&obstacles, &pieces, 5, Some(3), Some(9), GameBoard::Right);
    // Only the two cells of the piece in the last visible row are drawn.
    assert_eq!(right.len(), 2);
    assert!(right.iter().all(|b| b.cell.1 == 19 && b.color == piece.color));
}

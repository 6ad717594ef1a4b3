use tetris::data::TetrominoType::{I, J, L, O, S, T, Z};
use tetris::data::{
    get_tetromino, BlockColor, Cell, Center, GravityTimer, SharedGameState, Tetromino, TetrominoType,
    ALL_TETROMINO_TYPES, FRAMERATE, MAX_LEVEL,
};

fn mk_game_state() -> SharedGameState {
    SharedGameState {
        score: 0,
        lines_cleared: 0,
        lines_cleared_since_last_level: 0,
        level: 0,
        hard_drop: false,
        manual_drop_gravity: 0,
        client_id: 0,
        gravity_timer: GravityTimer { duration_us: 1_000_000, elapsed_us: 0 },
    }
}

fn c(x2: i32, y2: i32) -> Center {
    Center { x2, y2 }
}

#[test]
fn rotate_cell() {
    let cell = Cell(3, 4);
    assert_eq!(Cell(4, -3), cell.rotate_90_deg_cw(c(0, 0)));
    assert_eq!(Cell(4, 7), cell.rotate_90_deg_cw(c(10, 10)));
    assert_eq!(Cell(3, 7), cell.rotate_90_deg_cw(c(9, 11)));

    let cell = Cell(-2, 4);
    assert_eq!(Cell(4, 2), cell.rotate_90_deg_cw(c(0, 0)));

    let cell = Cell(2, -4);
    assert_eq!(Cell(-4, -2), cell.rotate_90_deg_cw(c(0, 0)));
}

#[test]
fn is_o() {
    for typ in ALL_TETROMINO_TYPES {
        assert_eq!(get_tetromino(typ).is_o(), matches!(typ, TetrominoType::O));
    }
}

#[test]
fn rotate_cells() {

    let mut tetromino = get_tetromino(S);
    tetromino.rotate();
    assert_eq!(tetromino.cells, [Cell(0, 1), Cell(0, 0), Cell(1, 0), Cell(1, -1)]);
    tetromino.rotate();
    assert_eq!(tetromino.cells, [Cell(1, 0), Cell(0, 0), Cell(0, -1), Cell(-1, -1)]);
    tetromino.rotate();
    assert_eq!(tetromino.cells, [Cell(0, -1), Cell(0, 0), Cell(-1, 0), Cell(-1, 1)]);
    tetromino.rotate();
    assert_eq!(tetromino, get_tetromino(S));

    let mut tetromino = get_tetromino(Z);
    tetromino.rotate();
    assert_eq!(tetromino.cells, [Cell(1, 1), Cell(0, 0), Cell(1, 0), Cell(0, -1)]);

    let mut tetromino = get_tetromino(L);
    tetromino.rotate();
    assert_eq!(tetromino.cells, [Cell(0, 1), Cell(0, 0), Cell(0, -1), Cell(1, 1)]);

    let mut tetromino = get_tetromino(J);
    tetromino.rotate();
    assert_eq!(tetromino.cells, [Cell(0, 1), Cell(0, 0), Cell(0, -1), Cell(1, -1)]);

    let mut tetromino = get_tetromino(T);
    tetromino.rotate();
    assert_eq!(tetromino.cells, [Cell(1, 0), Cell(0, 1), Cell(0, 0), Cell(0, -1)]);

    let mut tetromino = get_tetromino(O);
    tetromino.rotate();
    assert_eq!(tetromino.cells, [Cell(0, 0), Cell(0, 1), Cell(1, 0), Cell(1, 1)]);

    let mut tetromino = get_tetromino(I);
    tetromino.rotate();
    assert_eq!(tetromino.cells, [Cell(1, 1), Cell(1, 0), Cell(1, -1), Cell(1, -2)]);
}

#[test]
fn rotate_semi_involution() {
    for typ in ALL_TETROMINO_TYPES {
        let mut tetromino = get_tetromino(typ);
        tetromino.rotate();
        tetromino.rotate();
        tetromino.rotate();
        tetromino.rotate();
        assert_eq!(tetromino, get_tetromino(typ));
    }
}

#[test]
fn rotate_test_center() {
    for typ in ALL_TETROMINO_TYPES {
        let mut tetromino = get_tetromino(typ);
        let old_tetromino = tetromino;
        tetromino.rotate();
        assert_eq!(tetromino.center, old_tetromino.center);
        let old_tetromino = tetromino;
        tetromino.rotate();
        assert_eq!(tetromino.center, old_tetromino.center);
        let old_tetromino = tetromino;
        tetromino.rotate();
        assert_eq!(tetromino.center, old_tetromino.center);
        let old_tetromino = tetromino;
        tetromino.rotate();
        assert_eq!(tetromino.center, old_tetromino.center);
    }
}

#[test]
fn shift() {
    let mut tetromino = get_tetromino(TetrominoType::L);
    tetromino.shift(3, -2);
    assert_eq!(
        tetromino,
        Tetromino {
            cells: [Cell(2, -2), Cell(3, -2), Cell(4, -2), Cell(2, -1)],
            center: Center { x2: 6, y2: -4 },
            color: BlockColor::Yellow,
        }
    );
}

#[test]
fn initial_drop_interval() {
    assert_eq!(SharedGameState::initial_drop_interval_micros(), 800_000);
}

#[test]
fn drop_interval() {
    let intervals: [f32; MAX_LEVEL] = [
        48.0, 43.0, 38.0, 33.0, 28.0, 23.0, 18.0, 13.0, 8.0, 6.0, 5.0, 5.0, 5.0, 4.0, 4.0, 4.0,
        3.0, 3.0, 3.0, 2.0, 2.0, 2.0, 2.0, 2.0, 2.0, 2.0, 2.0, 2.0, 1.0,
    ];
    let mut state = mk_game_state();
    for (level, frames) in intervals.into_iter().enumerate() {
        state.level = level as u32;
        let got = state.drop_interval_frames();
        assert_eq!(got as f32 / FRAMERATE as f32, frames / FRAMERATE as f32);
    }
}

#[test]
fn drop_interval_past_last_level_stays_at_one_frame() {
    let mut state = mk_game_state();
    state.level = 29;
    assert_eq!(state.drop_interval_frames(), 1);
    state.level = 1000;
    assert_eq!(state.drop_interval_frames(), 1);
}

#[test]
fn tetromino_equality_ignores_cell_order() {
    let t = get_tetromino(TetrominoType::O);
    let mut u = t;
    u.cells = [t.cells[3], t.cells[2], t.cells[1], t.cells[0]];
    assert_eq!(t, u);
    let mut w = t;
    w.cells[0] = Cell(5, 5);
    assert_ne!(t, w);
}

#[test]
fn visibility_and_bounds() {
    assert!(Cell(0, 0).in_bounds());
    assert!(Cell(9, 22).in_bounds());
    assert!(!Cell(9, 23).in_bounds());
    assert!(!Cell(-1, 0).in_bounds());
    assert!(Cell(9, 19).is_visible());
    assert!(!Cell(9, 20).is_visible());
}

#[test]
fn drop_interval_in_micros() {
    let mut state = mk_game_state();
    assert_eq!(state.drop_interval_micros(), 800_000);
    state.level = 1;
    assert_eq!(state.drop_interval_micros(), 716_666);
    state.level = 40;
    assert_eq!(state.drop_interval_micros(), 16_666);
}

#[test]
fn gravity_timer_repeats() {
    let mut t = GravityTimer { duration_us: 100, elapsed_us: 0 };
    assert!(!t.tick(60));
    assert!(t.tick(60));
    assert_eq!(t.elapsed_us, 20);
    assert!(t.tick(250));
    assert_eq!(t.elapsed_us, 70);
}

#[test]
fn shift_near_the_range_limit() {
    let mut t = get_tetromino(TetrominoType::L);
    t.shift(1_000_000_000, -500_000_000);
    let mut back = t;
    back.shift(-1_000_000_000, 500_000_000);
    assert_eq!(back, get_tetromino(TetrominoType::L));
    assert_eq!(t.cells[1], Cell(1_000_000_000, -500_000_000));
    assert_eq!(t.center, Center { x2: 2_000_000_000, y2: -1_000_000_000 });
}

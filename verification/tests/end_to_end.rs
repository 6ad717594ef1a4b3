use tetris::bag::{AnyBag, Bag};
use tetris::board::{lockdown_step, Block, LockdownTimer};
use tetris::config::{BagType, GameConfig};
use tetris::data::{
    get_tetromino, BlockColor, Cell, SharedGameState, Tetromino, TetrominoType,
    ALL_TETROMINO_TYPES, BOARD_WIDTH,
};
use tetris::game::{
    gravity_step, handle_user_input, is_stuck, lock_piece, spawn_next_tetromino, swap_hold,
    update_hard_drop, SpawnOutcome,
};
use tetris::lines::delete_full_lines;
use tetris::protocol::{Input, Inputs};
use tetris::score::update_score;

/// One frame at 64 frames per second, in microseconds.
const FRAME_US: u64 = 15_625;

/// A single player's game driven frame by frame through the library, in the
/// order the server runs its systems.
struct Game {
    shared: SharedGameState,
    bag: AnyBag,
    active: Option<Tetromino>,
    next: Option<Tetromino>,
    hold: Option<Tetromino>,
    obstacles: Vec<Block>,
    lockdown: LockdownTimer,
    over: bool,
    locked: usize,
}

impl Game {
    fn new(bag: BagType) -> Game {
        let cfg = GameConfig { bag, ..Default::default() };
        Game {
            shared: cfg.build_shared_game_state(),
            bag: cfg.build_private_game_state().bag,
            active: None,
            next: None,
            hold: None,
            obstacles: Vec::new(),
            lockdown: LockdownTimer(None),
            over: false,
            locked: 0,
        }
    }

    fn send(&mut self, inputs: &[Input]) {
        if self.over {
            return;
        }
        let mut msg = Inputs::empty();
        for i in inputs {
            msg.insert(*i);
        }
        if let Some(a) = self.active {
            self.active = Some(handle_user_input(&a, &self.obstacles, &msg, self.shared.manual_drop_gravity));
        }
        if msg.contains(Input::Hold) {
            if let (Some(a), Some(_)) = (self.active, self.next) {
                if let Some(o) = swap_hold(&mut self.bag, &a, self.hold, &self.obstacles) {
                    self.active = Some(o.active);
                    self.hold = Some(o.hold);
                    if let Some(p) = o.preview {
                        self.next = Some(p);
                    }
                }
            }
        }
        update_hard_drop(&mut self.shared, &msg);
        if msg.contains(Input::EndGame) {
            self.over = true;
        }
    }

    fn frame(&mut self) {
        if self.over {
            return;
        }
        if let Some(a) = self.active {
            let a = gravity_step(&mut self.shared, &a, &self.obstacles, FRAME_US);
            self.active = Some(a);
            let stuck = is_stuck(&a, &self.obstacles);
            if lockdown_step(&mut self.lockdown, stuck, FRAME_US) {
                self.obstacles.extend(lock_piece(&a));
                self.active = None;
                self.locked += 1;
            }
        }
        let (rest, lines) = delete_full_lines(&self.obstacles);
        if lines > 0 {
            self.obstacles = rest;
            update_score(&mut self.shared, lines);
        }
        if self.active.is_none() {
            match spawn_next_tetromino(&mut self.bag, &self.obstacles) {
                SpawnOutcome::Spawned { active, preview } => {
                    self.active = Some(active);
                    self.next = Some(preview);
                }
                SpawnOutcome::GameOver => self.over = true,
            }
        }
    }

    /// Run frames until the current piece has locked (or the game ends).
    fn until_locked(&mut self) {
        let before = self.locked;
        for _ in 0..10_000 {
            if self.locked > before || self.over {
                return;
            }
            self.frame();
        }
        panic!("piece never locked");
    }

    fn cells(&self) -> Vec<(i32, i32)> {
        let mut v: Vec<(i32, i32)> = self.obstacles.iter().map(|b| (b.cell.0, b.cell.1)).collect();
        v.sort();
        v
    }

    fn skip_pieces(&mut self, n: usize) {
        for _ in 0..n {
            self.bag.next_tetromino();
        }
    }

    fn fill_rows(&mut self, rows: &[(i32, &[i32])]) {
        for (y, holes) in rows {
            for x in 0..BOARD_WIDTH as i32 {
                if !holes.contains(&x) {
                    self.obstacles.push(Block { cell: Cell(x, *y), color: BlockColor::Gray });
                }
            }
        }
    }
}

fn shifted(mut t: Tetromino, dx: i32, dy: i32) -> Tetromino {
    t.shift(dx, dy);
    t
}

fn spawned(typ: TetrominoType) -> Tetromino {
    let t = get_tetromino(typ);
    let top = t.cells.iter().map(|c| c.1).max().unwrap();
    shifted(t, 4, 20 - top - 1)
}

fn sorted(cells: &[Cell]) -> Vec<(i32, i32)> {
    let mut v: Vec<(i32, i32)> = cells.iter().map(|c| (c.0, c.1)).collect();
    v.sort();
    v
}

#[test]
fn hard_drop_deterministic() {
    let mut g = Game::new(BagType::Deterministic);
    g.frame();
    assert_eq!(g.active, Some(spawned(TetrominoType::S)));
    assert_eq!(g.next, Some(shifted(get_tetromino(TetrominoType::Z), 2, 2)));

    g.send(&[Input::HardDrop]);
    assert!(g.shared.hard_drop);
    assert_eq!(g.shared.manual_drop_gravity, 20);
    g.send(&[Input::Down]);
    let a = g.active.unwrap();
    assert_eq!(sorted(&a.cells), vec![(3, 0), (4, 0), (4, 1), (5, 1)]);
    assert!(is_stuck(&a, &g.obstacles));

    g.until_locked();
    assert_eq!(g.cells(), vec![(3, 0), (4, 0), (4, 1), (5, 1)]);
    assert!(g.obstacles.iter().all(|b| b.color == BlockColor::Red));
    assert_eq!(g.active, Some(spawned(TetrominoType::Z)));
    assert_eq!(g.next, Some(shifted(get_tetromino(TetrominoType::L), 2, 2)));

    g.send(&[Input::Down]);
    let z = g.active.unwrap();
    assert_eq!(sorted(&z.cells), vec![(3, 3), (4, 2), (4, 3), (5, 2)]);
    g.until_locked();
    assert_eq!(g.obstacles.len(), 8);
    assert_eq!(g.shared.score, 0);
    assert!(!g.over);
}

#[test]
fn hard_drop_deterministic2() {
    let mut g = Game::new(BagType::Deterministic);
    g.frame();
    g.send(&[Input::HardDrop]);
    // S to the far left, Z to the far right, then L and J side by side.
    for _ in 0..4 {
        g.send(&[Input::Left]);
    }
    g.send(&[Input::Down]);
    g.until_locked();
    assert_eq!(g.cells(), vec![(0, 0), (1, 0), (1, 1), (2, 1)]);

    for _ in 0..5 {
        g.send(&[Input::Right]);
    }
    g.send(&[Input::Down]);
    g.until_locked();
    assert_eq!(
        g.cells(),
        vec![(0, 0), (1, 0), (1, 1), (2, 1), (7, 1), (8, 0), (8, 1), (9, 0)]
    );

    // Moving into the wall is refused: the piece stays where it was.
    let l = g.active.unwrap();
    for _ in 0..10 {
        g.send(&[Input::Right]);
    }
    let moved = g.active.unwrap();
    assert_eq!(moved, shifted(l, 4, 0));
    assert!(moved.cells.iter().any(|c| c.0 == 9));

    // Hard drop turned off again: a press moves a single row.
    g.send(&[Input::HardDrop]);
    assert!(!g.shared.hard_drop);
    assert_eq!(g.shared.manual_drop_gravity, 1);
    let before = g.active.unwrap();
    g.send(&[Input::Down]);
    assert_eq!(g.active.unwrap(), shifted(before, 0, -1));
}

/// Hard-drop every piece straight down from a seeded bag, and check what a
/// second game from the same seed does: the same thing.
fn seeded_run(seed: u64, pieces: usize) -> (Vec<(i32, i32)>, Vec<Tetromino>) {
    let mut g = Game::new(BagType::FixedSeed(seed));
    g.frame();
    g.send(&[Input::HardDrop]);
    let mut seen = Vec::new();
    for i in 0..pieces {
        let a = g.active.unwrap();
        seen.push(a);
        // Spread the pieces over the board so that none piles up to the top.
        let dx = (i % 4) as i32 * 2 - 3;
        for _ in 0..dx.abs() {
            g.send(&[if dx < 0 { Input::Left } else { Input::Right }]);
        }
        g.send(&[Input::Down]);
        assert!(is_stuck(&g.active.unwrap(), &g.obstacles));
        let count = g.obstacles.len();
        g.until_locked();
        assert!(!g.over);
        assert!(g.obstacles.len() <= count + 4);
        assert!(g.obstacles.iter().all(|b| b.cell.is_visible()));
    }
    (g.cells(), seen)
}

#[test]
fn hard_drop_727() {
    let (board1, seen1) = seeded_run(727, 7);
    let (board2, seen2) = seeded_run(727, 7);
    assert_eq!(board1, board2);
    assert_eq!(seen1, seen2);
    // The first seven pieces are the seven kinds, each once.
    for typ in ALL_TETROMINO_TYPES {
        let canon = get_tetromino(typ);
        let n = seen1.iter().filter(|t| t.color == canon.color).count();
        assert_eq!(n, 1);
    }
}

fn trunc_half(v2: i32) -> i32 {
    v2 / 2
}

#[test]
fn hard_drop_hold_0() {
    let mut g = Game::new(BagType::FixedSeed(0));
    g.frame();
    let first = g.active.unwrap();
    let preview = g.next.unwrap();
    assert!(g.hold.is_none());

    g.send(&[Input::Hold]);
    let cx = trunc_half(first.center.x2);
    let cy = trunc_half(first.center.y2);
    // The old piece goes to the hold window, centered at (2, 2).
    assert_eq!(g.hold, Some(shifted(first, 2 - cx, 2 - cy)));
    // The piece that was previewed comes in where the old one was.
    assert_eq!(g.active, Some(shifted(preview, cx - 2, cy - 2)));
    assert!(g.next.is_some());

    // Swapping back brings the first piece in again.
    let second = g.active.unwrap();
    g.send(&[Input::Hold]);
    let sx = trunc_half(second.center.x2);
    let sy = trunc_half(second.center.y2);
    let held = shifted(first, 2 - cx, 2 - cy);
    assert_eq!(g.active, Some(shifted(held, sx - 2, sy - 2)));
    assert_eq!(g.hold, Some(shifted(second, 2 - sx, 2 - sy)));

    g.send(&[Input::HardDrop]);
    g.send(&[Input::Down]);
    g.until_locked();
    assert_eq!(g.obstacles.len(), 4);
    assert!(!g.over);
}

#[test]
fn score_deterministic2() {
    let mut g = Game::new(BagType::Deterministic);
    g.shared.lines_cleared = 9;
    g.shared.lines_cleared_since_last_level = 9;
    g.fill_rows(&[(0, &[3, 4]), (1, &[3, 4, 5])]);
    g.frame();
    g.send(&[Input::HardDrop]);
    g.send(&[Input::Down]);
    g.until_locked();
    g.frame();
    // The bottom row is cleared; the row above it, still missing one
    // block, falls into its place.
    assert_eq!(
        g.cells(),
        vec![(0, 0), (1, 0), (2, 0), (4, 0), (5, 0), (6, 0), (7, 0), (8, 0), (9, 0)]
    );
    assert_eq!(g.shared.score, 40);
    assert_eq!(g.shared.lines_cleared, 10);
    assert_eq!(g.shared.level, 1);
    assert_eq!(g.shared.lines_cleared_since_last_level, 0);
    assert_eq!(g.shared.drop_interval_frames(), 43);
}

#[test]
fn score_deterministic3() {
    let mut g = Game::new(BagType::Deterministic);
    g.skip_pieces(2);
    g.fill_rows(&[(0, &[4]), (1, &[4]), (2, &[4, 5]), (3, &[0, 1, 2, 3, 4, 5, 6, 7, 8])]);
    g.frame();
    assert_eq!(g.active, Some(spawned(TetrominoType::L)));
    g.send(&[Input::Rotate]);
    g.send(&[Input::HardDrop]);
    g.send(&[Input::Down]);
    g.until_locked();
    g.frame();
    assert_eq!(g.shared.score, 300);
    assert_eq!(g.shared.lines_cleared, 3);
    assert_eq!(g.shared.level, 0);
    // The single block above the cleared rows falls by three rows.
    assert_eq!(g.cells(), vec![(9, 0)]);
}

#[test]
fn score_deterministic4() {
    let mut g = Game::new(BagType::Deterministic);
    g.skip_pieces(6);
    g.fill_rows(&[(0, &[5]), (1, &[5]), (2, &[5]), (3, &[5])]);
    g.frame();
    assert_eq!(g.active, Some(spawned(TetrominoType::I)));
    g.send(&[Input::Rotate]);
    g.send(&[Input::HardDrop]);
    g.send(&[Input::Down]);
    g.until_locked();
    g.frame();
    assert!(g.obstacles.is_empty());
    assert_eq!(g.shared.score, 1200);
    assert_eq!(g.shared.lines_cleared, 4);
    assert_eq!(g.shared.level, 0);

    // A second tetris at the same level scores the same again.
    g.skip_pieces(5);
    let stray = g.active.take();
    assert!(stray.is_some());
    g.fill_rows(&[(0, &[5]), (1, &[5]), (2, &[5]), (3, &[5])]);
    g.frame();
    assert_eq!(g.active, Some(spawned(TetrominoType::I)));
    g.send(&[Input::Rotate]);
    g.send(&[Input::Down]);
    g.until_locked();
    g.frame();
    assert_eq!(g.shared.score, 2400);
    assert_eq!(g.shared.lines_cleared, 8);
}

#[test]
fn piece_that_cannot_spawn_ends_the_game() {
    let mut g = Game::new(BagType::Deterministic);
    g.fill_rows(&[(18, &[0]), (19, &[0])]);
    g.frame();
    assert!(g.over);
    assert!(g.active.is_none());
}

#[test]
fn lockdown_waits_for_the_lockdown_duration() {
    let mut g = Game::new(BagType::Deterministic);
    g.frame();
    g.send(&[Input::HardDrop]);
    g.send(&[Input::Down]);
    let mut frames = 0;
    while g.locked == 0 {
        g.frame();
        frames += 1;
    }
    // 800 ms at 64 frames per second: the timer starts on the first stuck
    // frame and goes off on the 52nd tick after it.
    assert_eq!(frames, 53);
}

/// The S piece moved to the left edge and down to row 8, with obstacles
/// around where a swapped-in Z piece would come in.
fn swap_setup(extra: &[(i32, i32)]) -> Game {
    let mut g = Game::new(BagType::Deterministic);
    g.frame();
    for _ in 0..3 {
        g.send(&[Input::Left]);
    }
    for _ in 0..10 {
        g.send(&[Input::Down]);
    }
    assert_eq!(sorted(&g.active.unwrap().cells), vec![(0, 8), (1, 8), (1, 9), (2, 9)]);
    for (x, y) in [(2, 8), (0, 10), (2, 10), (2, 11)].iter().chain(extra.iter()) {
        g.obstacles.push(Block { cell: Cell(*x, *y), color: BlockColor::Gray });
    }
    g
}

#[test]
fn swap_kicks_up_to_four_rows() {
    let mut g = swap_setup(&[]);
    let s = g.active.unwrap();
    g.send(&[Input::Hold]);
    assert_eq!(g.active, Some(shifted(get_tetromino(TetrominoType::Z), 1, 12)));
    assert_eq!(g.hold, Some(shifted(s, 1, -6)));
    assert_eq!(g.next, Some(shifted(get_tetromino(TetrominoType::L), 2, 2)));
}

#[test]
fn refused_swap_takes_nothing_from_the_bag() {
    let mut g = swap_setup(&[(2, 12)]);
    let s = g.active.unwrap();
    let next = g.next;
    g.send(&[Input::Hold]);
    assert_eq!(g.active, Some(s));
    assert!(g.hold.is_none());
    assert_eq!(g.next, next);
    assert_eq!(g.bag.next_tetromino(), get_tetromino(TetrominoType::Z));
}

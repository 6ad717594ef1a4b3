//! Scoring, levels, and garbage sent to opponents.
use vstd::prelude::*;
use crate::board::{spec_collides, there_is_collision, Block};
use crate::config::PrivateGameState;
use crate::data::{
    lemma_in_bounds_piece, lemma_shift_within, piece_ok, spec_cell_in_bounds, spec_shift,
    spec_drop_interval_frames, spec_drop_interval_micros, BlockColor, Cell, GravityTimer, SharedGameState, Tetromino, BOARD_WIDTH, CENTER_LIMIT, COORD_LIMIT,
};

verus! {

/// Points for clearing `lines` lines at once, before the level multiplier.
pub open spec fn line_points(lines: int) -> int {
    if lines == 1 {
        40
    } else if lines == 2 {
        100
    } else if lines == 3 {
        300
    } else if lines == 4 {
        1200
    } else {
        0
    }
}

/// Lines needed to leave the current level.
pub open spec fn level_threshold(level: int) -> int {
    10 * (level + 1)
}

/// The state after `lines` lines are cleared at once.  A level-up sets the
/// gravity timer's period to the new level's drop interval.
pub open spec fn spec_update_score(s: SharedGameState, lines: int) -> SharedGameState {
    let since = s.lines_cleared_since_last_level + lines;
    let leveled = since >= level_threshold(s.level as int);
    SharedGameState {
        lines_cleared: (s.lines_cleared + lines) as u32,
        lines_cleared_since_last_level: if leveled {
            (since - level_threshold(s.level as int)) as u32
        } else {
            since as u32
        },
        score: (s.score + line_points(lines) * (s.level + 1)) as u32,
        level: if leveled {
            (s.level + 1) as u32
        } else {
            s.level
        },
        gravity_timer: if leveled {
            GravityTimer {
                duration_us: spec_drop_interval_micros(s.level + 1),
                elapsed_us: s.gravity_timer.elapsed_us,
            }
        } else {
            s.gravity_timer
        },
        ..s
    }
}

/// The counters stay within `u32` when `lines` lines are cleared.
pub open spec fn score_fits(s: SharedGameState, lines: int) -> bool {
    &&& s.lines_cleared + lines <= u32::MAX
    &&& s.lines_cleared_since_last_level + lines <= u32::MAX
    &&& level_threshold(s.level as int) <= u32::MAX
    &&& s.score + 1200 * (s.level + 1) <= u32::MAX
}

/// Update the game state when lines are cleared: count the lines, add the
/// points for the level, and level up once enough lines are cleared.
/// Returns whether the level went up (the drop interval then shortens).
pub fn update_score(state: &mut SharedGameState, lines_cleared: u32) -> (leveled_up: bool)
    requires
        lines_cleared <= 4,
        score_fits(*old(state), lines_cleared as int),
    ensures
        *final(state) == spec_update_score(*old(state), lines_cleared as int),
        leveled_up == (final(state).level != old(state).level),
{
    state.lines_cleared = state.lines_cleared + lines_cleared;
    state.lines_cleared_since_last_level = state.lines_cleared_since_last_level + lines_cleared;
    let mult = state.level + 1;
    let points: u32 = if lines_cleared == 1 {
        40 * mult
    } else if lines_cleared == 2 {
        100 * mult
    } else if lines_cleared == 3 {
        300 * mult
    } else if lines_cleared == 4 {
        1200 * mult
    } else {
        0
    };
    state.score = state.score + points;
    let threshold = 10 * mult;
    if state.lines_cleared_since_last_level >= threshold {
        state.lines_cleared_since_last_level = state.lines_cleared_since_last_level - threshold;
        state.level = state.level + 1;
        state.gravity_timer.duration_us = state.drop_interval_micros();
        true
    } else {
        false
    }
}

/// The bookkeeping of lines and levels of a game played from the start: all
/// lines cleared are those since the last level-up plus the ten, twenty, ...
/// lines that each earlier level took, and the current level is not yet due.
pub open spec fn progress_consistent(s: SharedGameState) -> bool {
    &&& s.lines_cleared == s.lines_cleared_since_last_level + 5 * s.level * (s.level + 1)
    &&& s.lines_cleared_since_last_level < level_threshold(s.level as int)
}

/// Clearing lines keeps the line and level bookkeeping consistent, never
/// lowers the score, and adds exactly the cleared lines to the total.
pub proof fn law_score_progress(s: SharedGameState, lines: int)
    requires
        progress_consistent(s),
        0 <= lines <= 4,
        score_fits(s, lines),
    ensures
        progress_consistent(spec_update_score(s, lines)),
        spec_update_score(s, lines).score >= s.score,
        spec_update_score(s, lines).lines_cleared == s.lines_cleared + lines,
        spec_update_score(s, lines).level <= s.level + 1,
{
    let t = spec_update_score(s, lines);
    let l = s.level as int;
    assert(5 * (l + 1) * (l + 2) == 5 * l * (l + 1) + 10 * (l + 1)) by (nonlinear_arith);
    assert(line_points(lines) * (l + 1) >= 0) by (nonlinear_arith)
        requires
            line_points(lines) >= 0,
            l >= 0,
    ;
}

/// The points for a clear are the base points of the number of lines, 40
/// for one, 100 for two, 300 for three and 1200 for four, times the level
/// plus one; clearing no line scores nothing.
pub proof fn law_points_per_level(s: SharedGameState, lines: int)
    requires
        0 <= lines <= 4,
        score_fits(s, lines),
    ensures
        spec_update_score(s, lines).score == s.score + (if lines == 1 {
            40int
        } else if lines == 2 {
            100
        } else if lines == 3 {
            300
        } else if lines == 4 {
            1200
        } else {
            0
        }) * (s.level + 1),
        lines == 0 ==> spec_update_score(s, lines).score == s.score,
{
    let l = s.level as int;
    let p = line_points(lines);
    assert(0 <= p * (l + 1) <= 1200 * (l + 1)) by (nonlinear_arith)
        requires
            0 <= p <= 1200,
            l >= 0,
    ;
}

proof fn lemma_interval_not_longer(level: int)
    requires
        level >= 0,
    ensures
        spec_drop_interval_micros(level + 1) <= spec_drop_interval_micros(level),
{
    let f0 = spec_drop_interval_frames(level) as int;
    let f1 = spec_drop_interval_frames(level + 1) as int;
    assert(1 <= f1 <= f0 <= 48);
    assert(f1 * 1_000_000 / 60 <= f0 * 1_000_000 / 60) by (nonlinear_arith)
        requires
            1 <= f1 <= f0 <= 48,
    ;
}

/// The gravity timer's period follows the level: cleared lines keep it at
/// the drop interval of the level reached, a level-up never makes pieces
/// fall slower, and the game starts with a drop every 800 ms.
pub proof fn law_timer_period_follows_level(s: SharedGameState, lines: int)
    requires
        s.gravity_timer.duration_us == spec_drop_interval_micros(s.level as int),
        0 <= lines <= 4,
        score_fits(s, lines),
    ensures
        spec_update_score(s, lines).gravity_timer.duration_us == spec_drop_interval_micros(
            spec_update_score(s, lines).level as int,
        ),
        spec_update_score(s, lines).gravity_timer.duration_us <= s.gravity_timer.duration_us,
        spec_drop_interval_micros(0) == 800_000,
{
    lemma_interval_not_longer(s.level as int);
}

/// The same block one row higher.
pub open spec fn raised_block(b: Block) -> Block {
    Block { cell: Cell(b.cell.0, (b.cell.1 + 1) as i32), color: b.color }
}

pub open spec fn raise(s: Seq<Block>) -> Seq<Block> {
    Seq::new(s.len(), |i: int| raised_block(s[i]))
}

/// The garbage blocks of one row at the bottom, for the columns before `n`
/// other than the hole.
pub open spec fn garbage_row_upto(hole: int, n: int) -> Seq<Block>
    decreases n,
{
    if n <= 0 {
        seq![]
    } else if n - 1 == hole {
        garbage_row_upto(hole, n - 1)
    } else {
        garbage_row_upto(hole, n - 1).push(
            Block { cell: Cell((n - 1) as i32, 0), color: BlockColor::Gray },
        )
    }
}

/// A full bottom row of garbage with one hole.
pub open spec fn garbage_row(hole: int) -> Seq<Block> {
    garbage_row_upto(hole, BOARD_WIDTH as int)
}

/// The opponent's board while garbage arrives: obstacles, active piece, and
/// whether the opponent has lost.
pub struct GarbageBoard {
    pub obstacles: Seq<Block>,
    pub active: Option<Tetromino>,
    pub lost: bool,
}

/// One garbage row arrives: everything moves up; the player loses if a block
/// leaves the board, or if the active piece cannot be freed by one kick up.
pub open spec fn garbage_step(st: GarbageBoard, hole: int) -> GarbageBoard {
    let raised = raise(st.obstacles);
    if exists|i: int| 0 <= i < raised.len() && !spec_cell_in_bounds(#[trigger] raised[i].cell) {
        GarbageBoard { obstacles: raised, active: st.active, lost: true }
    } else {
        let all = raised + garbage_row(hole);
        match st.active {
            None => GarbageBoard { obstacles: all, active: None, lost: false },
            Some(t) => if spec_collides(t, all) {
                let u = spec_shift(t, 0, 1);
                GarbageBoard { obstacles: all, active: Some(u), lost: spec_collides(u, all) }
            } else {
                GarbageBoard { obstacles: all, active: Some(t), lost: false }
            },
        }
    }
}

/// The board after `lines` garbage rows, stopping at the first loss.
pub open spec fn garbage_after(start: GarbageBoard, lines: nat, hole: int) -> GarbageBoard
    decreases lines,
{
    if lines == 0 {
        start
    } else {
        let st = garbage_after(start, (lines - 1) as nat, hole);
        if st.lost {
            st
        } else {
            garbage_step(st, hole)
        }
    }
}

/// The opponent's board after receiving garbage.  The first obstacles are the
/// old ones, in their order and moved; the rest are new garbage blocks.
#[derive(Debug)]
pub struct GarbageOutcome {
    pub obstacles: Vec<Block>,
    pub active: Option<Tetromino>,
    pub game_over: bool,
}

fn raise_all(obstacles: &mut Vec<Block>)
    requires
        forall|i: int| 0 <= i < old(obstacles)@.len() ==> #[trigger] old(obstacles)@[i].cell.1 < COORD_LIMIT,
    ensures
        final(obstacles)@ == raise(old(obstacles)@),
{
    let n = obstacles.len();
    let ghost orig = obstacles@;
    let mut i: usize = 0;
    while i < n
        invariant
            n == obstacles@.len(),
            orig.len() == n,
            i <= n,
            forall|k: int| 0 <= k < n ==> #[trigger] orig[k].cell.1 < COORD_LIMIT,
            forall|k: int| 0 <= k < i ==> #[trigger] obstacles@[k] == raised_block(orig[k]),
            forall|k: int| i <= k < n ==> #[trigger] obstacles@[k] == orig[k],
        decreases n - i,
    {
        let b = obstacles[i];
        obstacles.set(i, Block { cell: Cell(b.cell.0, b.cell.1 + 1), color: b.color });
        i = i + 1;
    }
    assert(obstacles@ =~= raise(orig));
}

fn any_out_of_bounds(obstacles: &Vec<Block>) -> (r: bool)
    ensures
        r == exists|i: int| 0 <= i < obstacles@.len() && !spec_cell_in_bounds(#[trigger] obstacles@[i].cell),
{
    let n = obstacles.len();
    let mut i: usize = 0;
    while i < n
        invariant
            n == obstacles@.len(),
            i <= n,
            forall|k: int| 0 <= k < i ==> spec_cell_in_bounds(#[trigger] obstacles@[k].cell),
        decreases n - i,
    {
        if !obstacles[i].cell.in_bounds() {
            return true;
        }
        i = i + 1;
    }
    false
}

fn push_garbage_row(obstacles: &mut Vec<Block>, hole: i32)
    ensures
        final(obstacles)@ == old(obstacles)@ + garbage_row(hole as int),
{
    let ghost orig = obstacles@;
    let mut x: i32 = 0;
    while x < BOARD_WIDTH as i32
        invariant
            0 <= x <= BOARD_WIDTH,
            obstacles@ == orig + garbage_row_upto(hole as int, x as int),
        decreases BOARD_WIDTH - x,
    {
        if x != hole {
            obstacles.push(Block { cell: Cell(x, 0), color: BlockColor::Gray });
        }
        assert(obstacles@ =~= orig + garbage_row_upto(hole as int, x + 1));
        x = x + 1;
    }
}

/// Push `lines_cleared` rows of garbage, each with a hole at `hole`, under an
/// opponent's obstacles, kicking their active piece up once where needed.
pub fn apply_garbage(
    obstacles: &Vec<Block>,
    active: Option<Tetromino>,
    lines_cleared: u32,
    hole: i32,
) -> (r: GarbageOutcome)
    requires
        forall|i: int| 0 <= i < obstacles@.len() ==> #[trigger] obstacles@[i].cell.1 < COORD_LIMIT,
        active matches Some(t) ==> piece_ok(t),
    ensures
        ({
            let g = garbage_after(
                GarbageBoard { obstacles: obstacles@, active, lost: false },
                lines_cleared as nat,
                hole as int,
            );
            &&& r.obstacles@ == g.obstacles
            &&& r.active == g.active
            &&& r.game_over == g.lost
        }),
{
    let ghost start = GarbageBoard { obstacles: obstacles@, active, lost: false };
    let mut all = obstacles.clone();
    assert(all@ == obstacles@);
    let mut act = active;
    let mut game_over = false;
    let mut k: u32 = 0;
    while k < lines_cleared && !game_over
        invariant
            k <= lines_cleared,
            ({
                let g = garbage_after(start, k as nat, hole as int);
                &&& all@ == g.obstacles
                &&& act == g.active
                &&& game_over == g.lost
            }),
            !game_over ==> forall|i: int| 0 <= i < all@.len() ==> #[trigger] all@[i].cell.1 < COORD_LIMIT,
            !game_over ==> (act matches Some(t) ==> piece_ok(t)),
            game_over ==> garbage_after(start, lines_cleared as nat, hole as int) == garbage_after(start, k as nat, hole as int),
        decreases lines_cleared - k + if game_over { 0int } else { 1int },
    {
        let ghost prev = GarbageBoard { obstacles: all@, active: act, lost: false };
        raise_all(&mut all);
        if any_out_of_bounds(&all) {
            game_over = true;
        } else {
            push_garbage_row(&mut all, hole);
            match act {
                None => {},
                Some(t) => {
                    if there_is_collision(&t, &all) {
                        let mut u = t;
                        proof {
                            lemma_shift_within(t, 0, 1, CENTER_LIMIT as int);
                        }
                        u.shift(0, 1);
                        if there_is_collision(&u, &all) {
                            game_over = true;
                        } else {
                            proof {
                                lemma_in_bounds_piece(u, CENTER_LIMIT + 64);
                            }
                        }
                        act = Some(u);
                    }
                },
            }
        }
        assert(garbage_step(prev, hole as int).obstacles == all@);
        k = k + 1;
        proof {
            assert forall|i: int| !game_over && 0 <= i < all@.len() implies #[trigger] all@[i].cell.1 < COORD_LIMIT by {
                if i < prev.obstacles.len() {
                    assert(spec_cell_in_bounds(raise(prev.obstacles)[i].cell));
                } else {
                    let j = i - prev.obstacles.len();
                    lemma_garbage_row_bottom(hole as int, BOARD_WIDTH as int, j);
                }
            }
            if game_over {
                lemma_garbage_after_stops(start, k as nat, lines_cleared as nat, hole as int);
            }
        }
    }
    GarbageOutcome { obstacles: all, active: act, game_over }
}

proof fn lemma_garbage_row_bottom(hole: int, n: int, j: int)
    requires
        0 <= j < garbage_row_upto(hole, n).len(),
    ensures
        garbage_row_upto(hole, n)[j].cell.1 == 0,
    decreases n,
{
    if n > 0 && n - 1 != hole {
        if j < garbage_row_upto(hole, n - 1).len() {
            lemma_garbage_row_bottom(hole, n - 1, j);
        }
    } else if n > 0 {
        lemma_garbage_row_bottom(hole, n - 1, j);
    }
}

proof fn lemma_garbage_after_stops(start: GarbageBoard, k: nat, m: nat, hole: int)
    requires
        garbage_after(start, k, hole).lost,
        k <= m,
    ensures
        garbage_after(start, m, hole) == garbage_after(start, k, hole),
    decreases m - k,
{
    if k < m {
        lemma_garbage_after_stops(start, k, (m - 1) as nat, hole);
    }
}

/// The players that can receive garbage from `sender`, in the given order.
pub open spec fn opponents_of(clients: Seq<u64>, sender: u64) -> Seq<u64>
    decreases clients.len(),
{
    if clients.len() == 0 {
        seq![]
    } else if clients.last() == sender {
        opponents_of(clients.drop_last(), sender)
    } else {
        opponents_of(clients.drop_last(), sender).push(clients.last())
    }
}

/// The players that can receive garbage from `sender`, in the given order.
pub fn opponents(active_clients: &Vec<u64>, sender: u64) -> (r: Vec<u64>)
    ensures
        r@ == opponents_of(active_clients@, sender),
{
    let mut out: Vec<u64> = Vec::new();
    let n = active_clients.len();
    let mut i: usize = 0;
    while i < n
        invariant
            n == active_clients@.len(),
            i <= n,
            out@ == opponents_of(active_clients@.take(i as int), sender),
        decreases n - i,
    {
        let c = active_clients[i];
        assert(active_clients@.take((i + 1) as int).drop_last() == active_clients@.take(i as int));
        if c != sender {
            out.push(c);
        }
        i = i + 1;
    }
    assert(active_clients@.take(n as int) == active_clients@);
    out
}

/// The garbage target for the drawn values: the opponent at position `idx`
/// among the sender's opponents, and the hole column `hole`.
pub fn target_from(active_clients: &Vec<u64>, sender: u64, idx: usize, hole: u32) -> (r: (u64, i32))
    requires
        idx < opponents_of(active_clients@, sender).len(),
        hole < BOARD_WIDTH,
    ensures
        r == (opponents_of(active_clients@, sender)[idx as int], hole as i32),
{
    let opps = opponents(active_clients, sender);
    (opps[idx], hole as i32)
}

/// Pick the opponent that receives garbage and the column of the hole from
/// the sender's garbage generator: first an index below the number of
/// opponents, then a column below the board width.  Returns `None` when
/// nothing is sent: no lines were cleared, garbage is off, or there is no
/// opponent left; then nothing is drawn.
pub fn pick_garbage_target(
    private_state: &mut PrivateGameState,
    sender: u64,
    active_clients: &Vec<u64>,
    lines_cleared: u32,
) -> (r: Option<(u64, i32)>)
    ensures
        r is None <==> (lines_cleared == 0 || !old(private_state).send_garbage || opponents_of(
            active_clients@,
            sender,
        ).len() == 0),
        r is None ==> final(private_state).garbage_rng.draws() == old(private_state).garbage_rng.draws(),
        r is Some ==> {
            let before = old(private_state).garbage_rng.draws();
            let d = final(private_state).garbage_rng.draws();
            let k = before.len() as int;
            &&& d.len() == k + 2
            &&& d.take(k) == before
            &&& d[k].0 == opponents_of(active_clients@, sender).len()
            &&& d[k + 1].0 == BOARD_WIDTH
            &&& 0 <= d[k].1 < d[k].0
            &&& 0 <= d[k + 1].1 < d[k + 1].0
            &&& r == Some((opponents_of(active_clients@, sender)[d[k].1], d[k + 1].1 as i32))
        },
        final(private_state).garbage_rng.seed() == old(private_state).garbage_rng.seed(),
        final(private_state).bag == old(private_state).bag,
        final(private_state).send_garbage == old(private_state).send_garbage,
{
    if lines_cleared == 0 || !private_state.send_garbage {
        return None;
    }
    let n = opponents(active_clients, sender).len();
    if n == 0 {
        return None;
    }
    let idx = private_state.garbage_rng.index_below(n);
    let hole = private_state.garbage_rng.below_u32(BOARD_WIDTH);
    assert(private_state.garbage_rng.draws().take(old(private_state).garbage_rng.draws().len() as int)
        =~= old(private_state).garbage_rng.draws());
    let target = target_from(active_clients, sender, idx, hole);
    Some(target)
}

proof fn lemma_garbage_row_shape(hole: int, n: int)
    requires
        0 <= n <= BOARD_WIDTH,
    ensures
        garbage_row_upto(hole, n).len() == if 0 <= hole < n { n - 1 } else { n },
        forall|i: int|
            0 <= i < garbage_row_upto(hole, n).len() ==> {
                let b = #[trigger] garbage_row_upto(hole, n)[i];
                &&& b.cell.0 != hole
                &&& 0 <= b.cell.0 < n
                &&& b.cell.1 == 0
                &&& b.color == BlockColor::Gray
            },
    decreases n,
{
    if n > 0 {
        lemma_garbage_row_shape(hole, n - 1);
    }
}

/// While the player survives, garbage lifts every block the player had by
/// one row per garbage row, keeping their order, and each garbage row adds
/// nine gray blocks that leave the hole's column open.
pub proof fn law_garbage_lifts_and_leaves_hole(start: GarbageBoard, n: nat, hole: int)
    requires
        0 <= hole < BOARD_WIDTH,
        n <= 1000,
        forall|i: int| 0 <= i < start.obstacles.len() ==> #[trigger] start.obstacles[i].cell.1 < COORD_LIMIT,
        !garbage_after(start, n, hole).lost,
    ensures
        ({
            let g = garbage_after(start, n, hole);
            &&& g.obstacles.len() == start.obstacles.len() + 9 * n
            &&& forall|i: int|
                0 <= i < start.obstacles.len() ==> {
                    &&& (#[trigger] g.obstacles[i]).cell.0 == start.obstacles[i].cell.0
                    &&& g.obstacles[i].cell.1 == start.obstacles[i].cell.1 + n
                    &&& g.obstacles[i].color == start.obstacles[i].color
                }
            &&& forall|i: int|
                start.obstacles.len() <= i < g.obstacles.len() ==> {
                    &&& (#[trigger] g.obstacles[i]).cell.0 != hole
                    &&& g.obstacles[i].color == BlockColor::Gray
                }
        }),
    decreases n,
{
    lemma_garbage_row_shape(hole, BOARD_WIDTH as int);
    if n > 0 {
        let prev = garbage_after(start, (n - 1) as nat, hole);
        assert(!prev.lost);
        law_garbage_lifts_and_leaves_hole(start, (n - 1) as nat, hole);
        let raised = raise(prev.obstacles);
        let g = garbage_after(start, n, hole);
        assert(g == garbage_step(prev, hole));
        assert(!(exists|i: int| 0 <= i < raised.len() && !spec_cell_in_bounds(#[trigger] raised[i].cell)));
        assert(g.obstacles == raised + garbage_row(hole));
        assert forall|i: int| 0 <= i < start.obstacles.len() implies {
            &&& (#[trigger] g.obstacles[i]).cell.0 == start.obstacles[i].cell.0
            &&& g.obstacles[i].cell.1 == start.obstacles[i].cell.1 + n
            &&& g.obstacles[i].color == start.obstacles[i].color
        } by {
            assert(start.obstacles[i].cell.1 < COORD_LIMIT);
            assert(prev.obstacles[i].cell.1 == start.obstacles[i].cell.1 + (n - 1));
            assert(raised[i] == raised_block(prev.obstacles[i]));
            assert(g.obstacles[i] == raised[i]);
        }
        assert forall|i: int| start.obstacles.len() <= i < g.obstacles.len() implies {
            &&& (#[trigger] g.obstacles[i]).cell.0 != hole
            &&& g.obstacles[i].color == BlockColor::Gray
        } by {
            if i < raised.len() {
                assert(g.obstacles[i] == raised[i]);
                assert(prev.obstacles[i].cell.0 != hole);
            } else {
                assert(g.obstacles[i] == garbage_row(hole)[i - raised.len()]);
            }
        }
    }
}

} // verus!

//! Blocks on the board and collision checks.
use vstd::prelude::*;
use crate::data::{spec_in_bounds, BlockColor, Cell, Tetromino};

verus! {

/// A block: either an obstacle (leftovers of an inactive tetromino) or a
/// block used in the preview and held views.
#[derive(Clone, Copy, Debug, PartialEq, Eq, Structural)]
pub struct Block {
    /// Coordinates of this block
    pub cell: Cell,
    /// Color of this block
    pub color: BlockColor,
}

/// The block occupies one of the cells of the piece.
pub open spec fn hits(t: Tetromino, b: Block) -> bool {
    t.cells@.contains(b.cell)
}

/// The piece overlaps an obstacle or leaves the board.
pub open spec fn spec_collides(t: Tetromino, obstacles: Seq<Block>) -> bool {
    (exists|i: int| 0 <= i < obstacles.len() && #[trigger] hits(t, obstacles[i])) || !spec_in_bounds(t)
}

fn hits_exec(t: &Tetromino, b: &Block) -> (r: bool)
    ensures
        r == hits(*t, *b),
{
    let r = t.cells[0] == b.cell || t.cells[1] == b.cell || t.cells[2] == b.cell || t.cells[3]
        == b.cell;
    proof {
        if t.cells@.contains(b.cell) {
            let k = choose|k: int| 0 <= k < 4 && t.cells@[k] == b.cell;
            assert(k == 0 || k == 1 || k == 2 || k == 3);
        }
        if r {
            if t.cells[0] == b.cell {
                assert(t.cells@[0] == b.cell);
            } else if t.cells[1] == b.cell {
                assert(t.cells@[1] == b.cell);
            } else if t.cells[2] == b.cell {
                assert(t.cells@[2] == b.cell);
            } else {
                assert(t.cells@[3] == b.cell);
            }
        }
    }
    r
}

/// Return whether the given tetromino collides with any of the obstacles or it
/// is out of bounds.
pub fn there_is_collision(tetromino: &Tetromino, obstacles: &Vec<Block>) -> (r: bool)
    ensures
        r == spec_collides(*tetromino, obstacles@),
{
    let n = obstacles.len();
    let mut i: usize = 0;
    while i < n
        invariant
            n == obstacles@.len(),
            i <= n,
            forall|k: int| 0 <= k < i ==> !#[trigger] hits(*tetromino, obstacles@[k]),
        decreases n - i,
    {
        if hits_exec(tetromino, &obstacles[i]) {
            return true;
        }
        i = i + 1;
    }
    !tetromino.in_bounds()
}

/// How long a piece that cannot move down stays movable before it locks,
/// in microseconds (the initial drop interval).
pub const LOCKDOWN_DURATION_US: u64 = 800_000;

/// A timer to count down when a piece must be inactivated after it can't
/// be pushed down: the time counted so far, once started.
#[derive(Clone, Copy, Debug, PartialEq, Eq, Structural)]
pub struct LockdownTimer(pub Option<u64>);

/// The timer counts up to the lockdown duration and then stays there.
pub open spec fn spec_advance(t: LockdownTimer, delta_us: u64) -> LockdownTimer {
    match t.0 {
        Some(e) => LockdownTimer(
            Some(if e + delta_us >= LOCKDOWN_DURATION_US { LOCKDOWN_DURATION_US } else { (e + delta_us) as u64 }),
        ),
        None => LockdownTimer(Some(0)),
    }
}

impl LockdownTimer {
    /// The timer has run for the whole lockdown duration.
    pub open spec fn spec_just_finished(&self) -> bool {
        self.0 matches Some(e) && e >= LOCKDOWN_DURATION_US
    }

    /// Advance the timer by `delta_us`. Start it if it hasn't been started.
    pub fn start_or_advance(&mut self, delta_us: u64)
        ensures
            *final(self) == spec_advance(*old(self), delta_us),
    {
        self.0 = match self.0 {
            Some(e) => Some(if delta_us >= LOCKDOWN_DURATION_US || e >= LOCKDOWN_DURATION_US - delta_us {
                LOCKDOWN_DURATION_US
            } else {
                e + delta_us
            }),
            None => Some(0),
        };
    }

    /// Has this timer gone off?
    pub fn just_finished(&self) -> (r: bool)
        ensures
            r == self.spec_just_finished(),
    {
        match self.0 {
            Some(e) => e >= LOCKDOWN_DURATION_US,
            None => false,
        }
    }

    /// Destroy the underlying timer
    pub fn reset(&mut self)
        ensures
            final(self).0 is None,
    {
        self.0 = None;
    }
}

/// One frame of the lockdown countdown, `delta_us` after the previous one:
/// a stuck piece runs the timer and locks when it goes off; a piece that can
/// move again stops it.  Returns whether the piece locks now.
pub fn lockdown_step(timer: &mut LockdownTimer, stuck: bool, delta_us: u64) -> (lock: bool)
    ensures
        stuck ==> *final(timer) == spec_advance(*old(timer), delta_us) && lock == final(timer).spec_just_finished(),
        !stuck ==> final(timer).0 is None && !lock,
{
    if stuck {
        timer.start_or_advance(delta_us);
        timer.just_finished()
    } else {
        timer.reset();
        false
    }
}

/// A piece that stays stuck locks after the lockdown duration: from a
/// stopped timer, `n` stuck frames with a step of at least one microsecond
/// run the timer for `(n - 1) * delta_us`, capped at the duration.
pub open spec fn advanced_n(t: LockdownTimer, delta_us: u64, n: nat) -> LockdownTimer
    decreases n,
{
    if n == 0 {
        t
    } else {
        spec_advance(advanced_n(t, delta_us, (n - 1) as nat), delta_us)
    }
}

/// After `n >= 1` stuck frames the timer shows `(n - 1) * delta_us`, capped
/// at the lockdown duration; so a stuck piece locks exactly once that much
/// time has run.
pub proof fn law_lockdown_counts_stuck_time(delta_us: u64, n: nat)
    requires
        n >= 1,
    ensures
        advanced_n(LockdownTimer(None), delta_us, n).0 == Some(
            if (n - 1) * delta_us >= LOCKDOWN_DURATION_US {
                LOCKDOWN_DURATION_US
            } else {
                ((n - 1) * delta_us) as u64
            },
        ),
    decreases n,
{
    if n == 1 {
        assert((n - 1) * delta_us == 0) by (nonlinear_arith)
            requires n == 1;
    } else {
        law_lockdown_counts_stuck_time(delta_us, (n - 1) as nat);
        let m = (n - 2) * delta_us;
        assert((n - 1) * delta_us == m + delta_us) by (nonlinear_arith)
            requires m == (n - 2) * delta_us, n >= 2;
        assert(0 <= m) by (nonlinear_arith)
            requires m == (n - 2) * delta_us, n >= 2;
    }
}

} // verus!

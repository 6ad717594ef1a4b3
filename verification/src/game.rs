//! Per-player game rules: moving, dropping, locking, spawning and holding
//! pieces, and clearing full lines.
use vstd::prelude::*;
use crate::board::{spec_collides, there_is_collision, Block};
use crate::bag::Bag;
use crate::data::{
    is_canonical, lemma_canonical_piece_ok, lemma_in_bounds_piece, lemma_piece_within_ok,
    lemma_piece_within_weaken, lemma_rotate_within, lemma_shift_back, lemma_shift_to,
    lemma_shift_within, near_center, piece_ok, piece_within, spec_bounds, spec_cell_in_bounds,
    spec_in_bounds, spec_rotate, spec_shift, spec_tetromino_eq, spec_tick, SharedGameState, Tetromino, BOARD_HEIGHT, BOARD_WIDTH, CENTER_LIMIT,
    HARD_DROP_GRAVITY, SOFT_DROP_GRAVITY,
};
use crate::protocol::{Input, Inputs};

verus! {

/// Keep the moved piece only if it differs from the old one and is free.
pub open spec fn move_if_free(old: Tetromino, new: Tetromino, obstacles: Seq<Block>) -> Tetromino {
    if !spec_tetromino_eq(new, old) && !spec_collides(new, obstacles) {
        new
    } else {
        old
    }
}

/// One step down, undone when it collides.
pub open spec fn drop_once(t: Tetromino, obstacles: Seq<Block>) -> Tetromino {
    let d = spec_shift(t, 0, -1);
    if spec_collides(d, obstacles) {
        t
    } else {
        d
    }
}

/// `n` successive single steps down.
pub open spec fn soft_drop(t: Tetromino, obstacles: Seq<Block>, n: nat) -> Tetromino
    decreases n,
{
    if n == 0 {
        t
    } else {
        drop_once(soft_drop(t, obstacles, (n - 1) as nat), obstacles)
    }
}

/// The active piece after one batch of player input.
pub open spec fn spec_user_input(
    t: Tetromino,
    obstacles: Seq<Block>,
    inputs: Inputs,
    gravity: nat,
) -> Tetromino {
    let a = if inputs.spec_has(Input::Left) {
        spec_shift(t, -1, 0)
    } else {
        t
    };
    let b = if inputs.spec_has(Input::Right) {
        spec_shift(a, 1, 0)
    } else {
        a
    };
    let c = if inputs.spec_has(Input::Down) {
        soft_drop(b, obstacles, gravity)
    } else {
        b
    };
    let d = if inputs.spec_has(Input::Rotate) {
        spec_rotate(c)
    } else {
        c
    };
    move_if_free(t, d, obstacles)
}

/// Handle the input received from the client: move left and right, drop by
/// the manual gravity, and rotate; the move is kept only if it is legal.
#[verifier::rlimit(30)]
#[verifier::spinoff_prover]
pub fn handle_user_input(
    active: &Tetromino,
    obstacles: &Vec<Block>,
    inputs: &Inputs,
    manual_drop_gravity: u32,
) -> (r: Tetromino)
    requires
        piece_ok(*active),
    ensures
        r == spec_user_input(*active, obstacles@, *inputs, manual_drop_gravity as nat),
        piece_ok(r),
{
    let ghost lim: int = CENTER_LIMIT as int;
    let mut new = *active;
    proof {
        lemma_shift_within(*active, -1, 0, lim);
    }
    if inputs.contains(Input::Left) {
        new.shift(-1, 0);
    }
    proof {
        lemma_piece_within_weaken(*active, lim, lim + 64);
        lemma_shift_within(new, 1, 0, lim + 64);
    }
    if inputs.contains(Input::Right) {
        new.shift(1, 0);
    }
    proof {
        lemma_piece_within_weaken(new, lim + 64, lim + 128);
    }
    if inputs.contains(Input::Down) {
        let ghost b = new;
        let mut k: u32 = 0;
        while k < manual_drop_gravity
            invariant
                k <= manual_drop_gravity,
                piece_within(new, lim + 128),
                new == soft_drop(b, obstacles@, k as nat),
                lim == CENTER_LIMIT,
            decreases manual_drop_gravity - k,
        {
            let ghost prev = new;
            proof {
                lemma_shift_within(new, 0, -1, lim + 128);
            }
            new.shift(0, -1);
            if there_is_collision(&new, obstacles) {
                proof {
                    lemma_shift_within(new, 0, 1, lim + 192);
                    lemma_shift_back(prev, 0, -1);
                }
                new.shift(0, 1);
            } else {
                proof {
                    lemma_in_bounds_piece(new, lim + 192);
                    lemma_piece_within_weaken(new, lim, lim + 128);
                }
            }
            k = k + 1;
        }
    }
    if inputs.contains(Input::Rotate) {
        proof {
            lemma_rotate_within(new, lim + 128);
            lemma_piece_within_ok(new, lim + 128);
        }
        new.rotate();
    }
    if !(new == *active) && !there_is_collision(&new, obstacles) {
        proof {
            lemma_in_bounds_piece(new, lim + 128);
        }
        new
    } else {
        *active
    }
}

/// The active piece after a gravity tick; `drop_due` tells whether the
/// gravity timer went off.
pub open spec fn spec_gravity(t: Tetromino, obstacles: Seq<Block>, drop_due: bool) -> Tetromino {
    move_if_free(t, if drop_due { spec_shift(t, 0, -1) } else { t }, obstacles)
}

/// Drop the piece by one row whenever the gravity timer goes off, if the
/// piece has room below.
pub fn gravity(active: &Tetromino, obstacles: &Vec<Block>, drop_due: bool) -> (r: Tetromino)
    requires
        piece_ok(*active),
    ensures
        r == spec_gravity(*active, obstacles@, drop_due),
        piece_ok(r),
{
    let mut new = *active;
    proof {
        lemma_shift_within(*active, 0, -1, CENTER_LIMIT as int);
    }
    if drop_due {
        new.shift(0, -1);
    }
    if !(new == *active) && !there_is_collision(&new, obstacles) {
        proof {
            lemma_in_bounds_piece(new, CENTER_LIMIT + 64);
        }
        new
    } else {
        *active
    }
}

/// One frame of gravity, `delta_us` after the previous one: the player's
/// gravity timer runs, and the piece drops a row if the timer went off.
pub fn gravity_step(state: &mut SharedGameState, active: &Tetromino, obstacles: &Vec<Block>, delta_us: u64) -> (r: Tetromino)
    requires
        piece_ok(*active),
        old(state).gravity_timer.duration_us > 0,
        old(state).gravity_timer.elapsed_us + delta_us <= u64::MAX,
    ensures
        *final(state) == (SharedGameState {
            gravity_timer: spec_tick(old(state).gravity_timer, delta_us).0,
            ..*old(state)
        }),
        r == spec_gravity(*active, obstacles@, spec_tick(old(state).gravity_timer, delta_us).1),
        piece_ok(r),
{
    let fired = state.gravity_timer.tick(delta_us);
    gravity(active, obstacles, fired)
}

/// The piece cannot move down any further.
pub open spec fn spec_is_stuck(t: Tetromino, obstacles: Seq<Block>) -> bool {
    spec_collides(spec_shift(t, 0, -1), obstacles)
}

/// Check whether the active tetromino cannot move down.
pub fn is_stuck(active: &Tetromino, obstacles: &Vec<Block>) -> (r: bool)
    requires
        piece_ok(*active),
    ensures
        r == spec_is_stuck(*active, obstacles@),
{
    let mut new = *active;
    proof {
        lemma_shift_within(*active, 0, -1, CENTER_LIMIT as int);
    }
    new.shift(0, -1);
    there_is_collision(&new, obstacles)
}

/// The obstacles left behind by a piece that locks in place.
pub open spec fn spec_lock(t: Tetromino) -> Seq<Block> {
    seq![
        Block { cell: t.cells[0], color: t.color },
        Block { cell: t.cells[1], color: t.color },
        Block { cell: t.cells[2], color: t.color },
        Block { cell: t.cells[3], color: t.color },
    ]
}

/// Turn a piece that is stuck into obstacles of its color.
pub fn lock_piece(active: &Tetromino) -> (r: Vec<Block>)
    ensures
        r@ == spec_lock(*active),
{
    let mut v: Vec<Block> = Vec::new();
    v.push(Block { cell: active.cells[0], color: active.color });
    v.push(Block { cell: active.cells[1], color: active.color });
    v.push(Block { cell: active.cells[2], color: active.color });
    v.push(Block { cell: active.cells[3], color: active.color });
    v
}


/// Where a freshly drawn piece enters the board: centered horizontally, with
/// its top cell in the highest visible row.
pub open spec fn spawn_position(p: Tetromino) -> Tetromino {
    spec_shift(p, BOARD_WIDTH / 2 - 1, BOARD_HEIGHT - spec_bounds(p).top - 1)
}

/// Where a piece is drawn in a 5x5 side window.
pub open spec fn preview_position(p: Tetromino) -> Tetromino {
    spec_shift(p, 2, 2)
}

/// What happens when a player has no active piece.
#[derive(Clone, Copy, Debug)]
pub enum SpawnOutcome {
    /// The drawn piece became active; `preview` goes to the next window.
    Spawned { active: Tetromino, preview: Tetromino },
    /// The drawn piece has no room: the player has lost.
    GameOver,
}

/// The outcome of spawning `drawn`, with `peeked` as the next piece.
pub open spec fn spec_spawn(drawn: Tetromino, peeked: Tetromino, obstacles: Seq<Block>) -> SpawnOutcome {
    if spec_collides(spawn_position(drawn), obstacles) {
        SpawnOutcome::GameOver
    } else {
        SpawnOutcome::Spawned { active: spawn_position(drawn), preview: preview_position(peeked) }
    }
}

/// Spawn the next tetromino from the bag, and show the one after it in the
/// next window; if the new piece has no room, the game is over.
pub fn spawn_next_tetromino<B: Bag>(bag: &mut B, obstacles: &Vec<Block>) -> (r: SpawnOutcome)
    requires
        old(bag).bag_inv(),
    ensures
        final(bag).bag_inv(),
        exists|drawn: Tetromino, peeked: Tetromino|
            {
                &&& is_canonical(drawn)
                &&& is_canonical(peeked)
                &&& old(bag).upcoming() is Some ==> drawn == old(bag).upcoming().unwrap()
                &&& final(bag).upcoming() == Some(peeked)
                &&& r == spec_spawn(drawn, peeked, obstacles@)
            },
        r matches SpawnOutcome::Spawned { active, preview } ==> piece_ok(active) && piece_ok(
            preview,
        ),
{
    let mut next_piece = bag.next_tetromino();
    let ghost drawn = next_piece;
    proof {
        lemma_canonical_piece_ok(next_piece);
    }
    let offset_x: i32 = (BOARD_WIDTH as i32) / 2 - 1;
    let offset_y: i32 = (BOARD_HEIGHT as i32) - next_piece.bounds().top - 1;
    proof {
        lemma_shift_within(next_piece, offset_x as int, offset_y as int, CENTER_LIMIT as int);
    }
    next_piece.shift(offset_x, offset_y);
    let blocked = there_is_collision(&next_piece, obstacles);
    let mut new_next_piece = bag.peek();
    let ghost peeked = new_next_piece;
    proof {
        lemma_canonical_piece_ok(new_next_piece);
        lemma_shift_within(new_next_piece, 2, 2, CENTER_LIMIT as int);
    }
    new_next_piece.shift(2, 2);
    let r = if !blocked {
        proof {
            lemma_in_bounds_piece(next_piece, CENTER_LIMIT + 64);
        }
        SpawnOutcome::Spawned { active: next_piece, preview: new_next_piece }
    } else {
        SpawnOutcome::GameOver
    };
    assert(r == spec_spawn(drawn, peeked, obstacles@));
    assert(is_canonical(drawn) && is_canonical(peeked));
    r
}

/// Half of `v`, rounded toward zero.
pub open spec fn trunc_half(v: int) -> int {
    if v >= 0 {
        v / 2
    } else {
        -((-v) / 2)
    }
}

fn trunc_half_exec(v: i32) -> (r: i32)
    requires
        -0x4000_0000 <= v <= 0x4000_0000,
    ensures
        r == trunc_half(v as int),
{
    if v >= 0 {
        v / 2
    } else {
        -((-v) / 2)
    }
}

/// Where the active piece is drawn in the hold window: its center moved to
/// the window's middle.
pub open spec fn hold_position(t: Tetromino) -> Tetromino {
    spec_shift(t, 2 - trunc_half(t.center.x2 as int), 2 - trunc_half(t.center.y2 as int))
}

/// Where the incoming piece lands: at the active piece's place, coming from
/// the hold window or fresh from the bag.
pub open spec fn incoming_position(active: Tetromino, src: Tetromino, from_hold: bool) -> Tetromino {
    let dx = trunc_half(active.center.x2 as int);
    let dy = trunc_half(active.center.y2 as int);
    if from_hold {
        spec_shift(src, dx - 2, dy - 2)
    } else {
        spec_shift(src, dx, dy)
    }
}

/// The first of the positions lifted by `k`, ..., 4 rows that is free.
pub open spec fn kick_from(t: Tetromino, obstacles: Seq<Block>, k: int) -> Option<Tetromino>
    decreases 5 - k,
{
    if k >= 5 {
        None
    } else if !spec_collides(spec_shift(t, 0, k), obstacles) {
        Some(spec_shift(t, 0, k))
    } else {
        kick_from(t, obstacles, k + 1)
    }
}

/// The pieces after a successful swap with the hold window.
#[derive(Clone, Copy, Debug)]
pub struct SwapOutcome {
    /// The new active piece
    pub active: Tetromino,
    /// The new held piece, placed in the hold window
    pub hold: Tetromino,
    /// The new piece for the next window, when the swap drew from the bag
    pub preview: Option<Tetromino>,
}

/// The result of a hold swap, given the piece drawn from the bag (used when
/// nothing is held) and the piece then peeked for the next window.
pub open spec fn spec_swap(
    active: Tetromino,
    hold: Option<Tetromino>,
    drawn: Tetromino,
    peeked: Tetromino,
    obstacles: Seq<Block>,
) -> Option<SwapOutcome> {
    let src = if hold is Some {
        hold.unwrap()
    } else {
        drawn
    };
    match kick_from(incoming_position(active, src, hold is Some), obstacles, 0) {
        None => None,
        Some(a) => Some(
            SwapOutcome {
                active: a,
                hold: hold_position(active),
                preview: if hold is Some {
                    None
                } else {
                    Some(preview_position(peeked))
                },
            },
        ),
    }
}

/// Swap the current piece and the piece in the hold window.
///
/// If no piece is held, the next piece from the bag becomes active and the
/// current piece moves to the hold window.  The incoming piece is kicked up
/// by up to four rows until it fits; if it never fits, the swap is
/// aborted (`None`) and nothing is taken from the bag: the piece that would
/// have come in stays the next one.
#[verifier::rlimit(60)]
#[verifier::spinoff_prover]
pub fn swap_hold<B: Bag>(
    bag: &mut B,
    active: &Tetromino,
    hold: Option<Tetromino>,
    obstacles: &Vec<Block>,
) -> (r: Option<SwapOutcome>)
    requires
        old(bag).bag_inv(),
        piece_ok(*active),
        hold matches Some(h) ==> piece_ok(h),
    ensures
        final(bag).bag_inv(),
        hold is Some ==> *final(bag) == *old(bag),
        hold is None && r is None && old(bag).upcoming() is Some ==> *final(bag) == *old(bag),
        exists|drawn: Tetromino, peeked: Tetromino|
            {
                &&& hold is None ==> is_canonical(drawn)
                &&& (hold is None && old(bag).upcoming() is Some) ==> drawn == old(
                    bag,
                ).upcoming().unwrap()
                &&& (hold is None && r is None) ==> final(bag).upcoming() == Some(drawn)
                &&& (hold is None && r is Some) ==> final(bag).upcoming() == Some(peeked)
                &&& r == spec_swap(*active, hold, drawn, peeked, obstacles@)
            },
        r matches Some(o) ==> piece_ok(o.active) && piece_ok(o.hold) && (o.preview matches Some(
            p,
        ) ==> piece_ok(p)),
{
    let ghost lim: int = CENTER_LIMIT as int;
    let cx = trunc_half_exec(active.center.x2);
    let cy = trunc_half_exec(active.center.y2);
    let mut new_hold = *active;
    proof {
        lemma_shift_to(*active, 2 - cx, 2 - cy, lim, lim);
    }
    new_hold.shift(2 - cx, 2 - cy);
    let ghost mut drawn = *active;
    let from_hold = hold.is_some();
    let mut new_active = match hold {
        Some(h) => {
            proof {
                lemma_shift_to(h, cx - 2, cy - 2, lim, 4 * lim);
            }
            let mut p = h;
            p.shift(cx - 2, cy - 2);
            p
        },
        None => {
            let mut p = bag.peek();
            proof {
                drawn = p;
                lemma_canonical_piece_ok(p);
                lemma_shift_to(p, cx as int, cy as int, lim, 4 * lim);
            }
            p.shift(cx, cy);
            p
        },
    };
    let ghost base = new_active;
    assert(base == incoming_position(*active, if hold is Some { hold.unwrap() } else { drawn }, from_hold));
    let mut ok = false;
    let mut k: i32 = 0;
    while k < 5 && !ok
        invariant
            0 <= k <= 5,
            hold is None ==> bag.upcoming() == Some(drawn) && bag.bag_inv(),
            hold is None && old(bag).upcoming() is Some ==> *bag == *old(bag),
            hold is Some ==> *bag == *old(bag),
            hold is None ==> is_canonical(drawn),
            hold is None && old(bag).upcoming() is Some ==> drawn == old(bag).upcoming().unwrap(),
            lim == CENTER_LIMIT,
            piece_within(base, 4 * lim),
            !ok ==> new_active == spec_shift(base, 0, k as int) && kick_from(base, obstacles@, 0)
                == kick_from(base, obstacles@, k as int),
            ok ==> kick_from(base, obstacles@, 0) == Some(new_active) && piece_ok(new_active),
        decreases 5 - k + if ok { 0int } else { 1int },
    {
        if there_is_collision(&new_active, obstacles) {
            proof {
                lemma_shift_to(base, 0, k as int, 4 * lim, 4 * lim + 8);
                lemma_shift_to(new_active, 0, 1, 4 * lim + 8, 4 * lim + 16);
                lemma_shift_to(base, 0, k + 1, 4 * lim, 4 * lim + 16);
            }
            new_active.shift(0, 1);
            proof {
                assert(new_active.cells =~= spec_shift(base, 0, k + 1).cells);
            }
            k = k + 1;
        } else {
            proof {
                lemma_shift_to(base, 0, k as int, 4 * lim, 4 * lim + 8);
                lemma_in_bounds_piece(new_active, 4 * lim + 8);
            }
            ok = true;
        }
    }
    let ghost mut peeked = *active;
    if !ok {
        assert(spec_swap(*active, hold, drawn, peeked, obstacles@) == None::<SwapOutcome>);
        return None;
    }
    let preview = if from_hold {
        None
    } else {
        let taken = bag.next_tetromino();
        assert(taken == drawn);
        let mut p = bag.peek();
        proof {
            peeked = p;
            lemma_canonical_piece_ok(p);
            lemma_shift_within(p, 2, 2, lim);
        }
        p.shift(2, 2);
        Some(p)
    };
    let r = Some(SwapOutcome { active: new_active, hold: new_hold, preview });
    assert(r == spec_swap(*active, hold, drawn, peeked, obstacles@));
    r
}

/// The shared state after a hard-drop toggle request.
pub open spec fn spec_toggle_hard_drop(s: SharedGameState, inputs: Inputs) -> SharedGameState {
    if inputs.spec_has(Input::HardDrop) {
        SharedGameState {
            hard_drop: !s.hard_drop,
            manual_drop_gravity: if !s.hard_drop {
                HARD_DROP_GRAVITY
            } else {
                SOFT_DROP_GRAVITY
            },
            ..s
        }
    } else {
        s
    }
}

/// Update hard drop state based on user input
pub fn update_hard_drop(state: &mut SharedGameState, inputs: &Inputs)
    ensures
        *final(state) == spec_toggle_hard_drop(*old(state), *inputs),
{
    if inputs.contains(Input::HardDrop) {
        state.hard_drop = !state.hard_drop;
        state.manual_drop_gravity = if state.hard_drop {
            HARD_DROP_GRAVITY
        } else {
            SOFT_DROP_GRAVITY
        };
    }
}

/// The manual drop distance matches the hard-drop setting.
pub open spec fn gravity_matches(s: SharedGameState) -> bool {
    s.manual_drop_gravity == if s.hard_drop {
        HARD_DROP_GRAVITY
    } else {
        SOFT_DROP_GRAVITY
    }
}

/// Toggling hard drop keeps the drop distance in step with the setting, and
/// toggling twice restores the state.
pub proof fn law_hard_drop_toggle(s: SharedGameState, inputs: Inputs)
    requires
        gravity_matches(s),
    ensures
        gravity_matches(spec_toggle_hard_drop(s, inputs)),
        spec_toggle_hard_drop(spec_toggle_hard_drop(s, inputs), inputs) == s,
{
}

proof fn lemma_kick_free(t: Tetromino, obstacles: Seq<Block>, k: int)
    ensures
        kick_from(t, obstacles, k) matches Some(u) ==> !spec_collides(u, obstacles),
    decreases 5 - k,
{
    if k < 5 && spec_collides(spec_shift(t, 0, k), obstacles) {
        lemma_kick_free(t, obstacles, k + 1);
    }
}

/// The active piece never overlaps an obstacle or leaves the board: player
/// input and gravity keep a free piece free, and a piece enters play, from
/// the bag or from the hold window, only where it is free.
pub proof fn law_active_piece_stays_free(
    t: Tetromino,
    obstacles: Seq<Block>,
    inputs: Inputs,
    gravity: nat,
    drop_due: bool,
    hold: Option<Tetromino>,
    drawn: Tetromino,
    peeked: Tetromino,
)
    ensures
        !spec_collides(t, obstacles) ==> !spec_collides(spec_user_input(t, obstacles, inputs, gravity), obstacles),
        !spec_collides(t, obstacles) ==> !spec_collides(spec_gravity(t, obstacles, drop_due), obstacles),
        spec_spawn(drawn, peeked, obstacles) matches SpawnOutcome::Spawned { active, preview } ==> !spec_collides(active, obstacles),
        spec_swap(t, hold, drawn, peeked, obstacles) matches Some(o) ==> !spec_collides(o.active, obstacles),
{
    let src = if hold is Some { hold.unwrap() } else { drawn };
    lemma_kick_free(incoming_position(t, src, hold is Some), obstacles, 0);
}

/// Gravity moves the piece only when the level's timer went off: on a frame
/// without a timer tick the piece stays exactly where it is, and on a tick it
/// falls one row, unless the row below is taken or lies under the floor.
pub proof fn law_gravity_waits_for_timer(t: Tetromino, obstacles: Seq<Block>)
    requires
        piece_ok(t),
    ensures
        spec_gravity(t, obstacles, false) == t,
        spec_gravity(t, obstacles, true) == (if spec_collides(spec_shift(t, 0, -1), obstacles) {
            t
        } else {
            spec_shift(t, 0, -1)
        }),
        !spec_collides(spec_shift(t, 0, -1), obstacles) ==> spec_gravity(t, obstacles, true).center.y2
            == t.center.y2 - 2,
{
    lemma_shift_within(t, 0, -1, CENTER_LIMIT as int);
    assert(spec_shift(t, 0, -1).center != t.center);
}

/// An arrow key alone moves the piece one column its way when that column
/// is free and inside the board, and leaves it in place otherwise; a batch
/// without left, right, down or rotate leaves the piece where it is.
pub proof fn law_arrow_moves_one_column(t: Tetromino, obstacles: Seq<Block>, inputs: Inputs, gravity: nat)
    requires
        piece_ok(t),
        !inputs.spec_has(Input::Down),
        !inputs.spec_has(Input::Rotate),
    ensures
        inputs.spec_has(Input::Left) && !inputs.spec_has(Input::Right) ==> spec_user_input(
            t,
            obstacles,
            inputs,
            gravity,
        ) == (if spec_collides(spec_shift(t, -1, 0), obstacles) {
            t
        } else {
            spec_shift(t, -1, 0)
        }),
        inputs.spec_has(Input::Right) && !inputs.spec_has(Input::Left) ==> spec_user_input(
            t,
            obstacles,
            inputs,
            gravity,
        ) == (if spec_collides(spec_shift(t, 1, 0), obstacles) {
            t
        } else {
            spec_shift(t, 1, 0)
        }),
        !inputs.spec_has(Input::Left) && !inputs.spec_has(Input::Right) ==> spec_user_input(
            t,
            obstacles,
            inputs,
            gravity,
        ) == t,
{
    lemma_shift_within(t, -1, 0, CENTER_LIMIT as int);
    lemma_shift_within(t, 1, 0, CENTER_LIMIT as int);
    assert(spec_shift(t, -1, 0).center != t.center);
    assert(spec_shift(t, 1, 0).center != t.center);
}

/// The piece moved `k` rows down.
pub open spec fn dropped(t: Tetromino, k: int) -> Tetromino {
    spec_shift(t, 0, -k)
}

proof fn lemma_dropped_step(t: Tetromino, k: int)
    requires
        piece_ok(t),
        0 <= k <= 64,
    ensures
        spec_shift(dropped(t, k), 0, -1) == dropped(t, k + 1),
        dropped(t, 0) == t,
{
    assert(near_center(t.cells[0], t.center) && near_center(t.cells[1], t.center));
    assert(near_center(t.cells[2], t.center) && near_center(t.cells[3], t.center));
    assert(spec_shift(dropped(t, k), 0, -1).cells =~= dropped(t, k + 1).cells);
    assert(dropped(t, 0).cells =~= t.cells);
}

/// `k` steps of a drop leave the piece free, moved down by some number of
/// rows up to `k`, and resting unless it moved all `k` rows.
proof fn lemma_soft_drop_shape(t: Tetromino, obstacles: Seq<Block>, k: nat)
    requires
        piece_ok(t),
        !spec_collides(t, obstacles),
        k <= 64,
    ensures
        exists|j: int|
            0 <= j <= k && soft_drop(t, obstacles, k) == dropped(t, j) && (j == k || spec_is_stuck(
                dropped(t, j),
                obstacles,
            )),
        !spec_collides(soft_drop(t, obstacles, k), obstacles),
    decreases k,
{
    if k == 0 {
        lemma_dropped_step(t, 0);
        assert(soft_drop(t, obstacles, 0) == dropped(t, 0));
    } else {
        lemma_soft_drop_shape(t, obstacles, (k - 1) as nat);
        let j = choose|j: int|
            0 <= j <= k - 1 && soft_drop(t, obstacles, (k - 1) as nat) == dropped(t, j) && (j == k
                - 1 || spec_is_stuck(dropped(t, j), obstacles));
        lemma_dropped_step(t, j);
        let s = dropped(t, j);
        if spec_collides(spec_shift(s, 0, -1), obstacles) {
            assert(soft_drop(t, obstacles, k) == s);
            assert(spec_is_stuck(s, obstacles));
        } else {
            assert(!spec_is_stuck(s, obstacles));
            assert(j == k - 1);
            assert(soft_drop(t, obstacles, k) == dropped(t, j + 1));
        }
    }
}

/// With hard drop on, a press of Down alone lands the piece: when the drop
/// distance exceeds the height of the piece's lowest cell, the piece ends
/// resting on an obstacle or on the floor.
pub proof fn law_hard_drop_lands(t: Tetromino, obstacles: Seq<Block>, inputs: Inputs, gravity: nat)
    requires
        piece_ok(t),
        !spec_collides(t, obstacles),
        inputs.spec_has(Input::Down),
        !inputs.spec_has(Input::Left),
        !inputs.spec_has(Input::Right),
        !inputs.spec_has(Input::Rotate),
        spec_bounds(t).bottom < gravity <= 64,
    ensures
        spec_is_stuck(spec_user_input(t, obstacles, inputs, gravity), obstacles),
{
    lemma_soft_drop_shape(t, obstacles, gravity);
    let j = choose|j: int|
        0 <= j <= gravity && soft_drop(t, obstacles, gravity) == dropped(t, j) && (j == gravity
            || spec_is_stuck(dropped(t, j), obstacles));
    let c = soft_drop(t, obstacles, gravity);
    assert(near_center(t.cells[0], t.center) && near_center(t.cells[1], t.center));
    assert(near_center(t.cells[2], t.center) && near_center(t.cells[3], t.center));
    if j == gravity && !spec_is_stuck(c, obstacles) {
        assert(spec_in_bounds(c));
        assert(spec_cell_in_bounds(c.cells[0]) && spec_cell_in_bounds(c.cells[1]));
        assert(spec_cell_in_bounds(c.cells[2]) && spec_cell_in_bounds(c.cells[3]));
        assert(false);
    }
    assert(spec_is_stuck(c, obstacles));
    if spec_tetromino_eq(c, t) {
        assert(c.center == t.center);
        assert(j == 0);
        lemma_dropped_step(t, 0);
    }
}

} // verus!

//! Detecting and deleting full lines.
use vstd::prelude::*;
use crate::board::Block;
use crate::data::{Cell, BOARD_HEIGHT, BOARD_WIDTH, INVISIBLE_ROWS};

verus! {

/// The row a block sits in.
pub open spec fn row_of(b: Block) -> int {
    b.cell.1 as int
}

/// Number of blocks of `s` in row `r`.
pub open spec fn row_count(s: Seq<Block>, r: int) -> nat
    decreases s.len(),
{
    if s.len() == 0 {
        0
    } else {
        row_count(s.drop_last(), r) + if row_of(s.last()) == r {
            1nat
        } else {
            0nat
        }
    }
}

/// Rows a block can be in: the visible board and the hidden rows above it.
pub open spec fn all_rows() -> int {
    BOARD_HEIGHT + INVISIBLE_ROWS
}

/// A visible row holding as many blocks as the board is wide.
pub open spec fn row_full(s: Seq<Block>, r: int) -> bool {
    0 <= r < BOARD_HEIGHT && row_count(s, r) == BOARD_WIDTH as nat
}

/// Number of full rows strictly below row `r`.
pub open spec fn full_below(s: Seq<Block>, r: int) -> nat
    decreases r,
{
    if r <= 0 {
        0
    } else {
        full_below(s, r - 1) + if row_full(s, r - 1) {
            1nat
        } else {
            0nat
        }
    }
}

/// Number of full rows on the visible board.
pub open spec fn lines_full(s: Seq<Block>) -> nat {
    full_below(s, BOARD_HEIGHT as int)
}

/// The row that row `r` moves to once the full rows below it are gone.
pub open spec fn new_row(all: Seq<Block>, r: int) -> int {
    r - full_below(all, r)
}

/// A block moved down by the number of full rows below it.
pub open spec fn lowered(all: Seq<Block>, b: Block) -> Block {
    Block { cell: Cell(b.cell.0, new_row(all, row_of(b)) as i32), color: b.color }
}

/// The blocks of `s` that survive clearing the full rows of `all`, lowered
/// by the number of full rows below them, in the order they were given.
pub open spec fn cleared(s: Seq<Block>, all: Seq<Block>) -> Seq<Block>
    decreases s.len(),
{
    if s.len() == 0 {
        seq![]
    } else {
        let rest = cleared(s.drop_last(), all);
        if row_full(all, row_of(s.last())) {
            rest
        } else {
            rest.push(lowered(all, s.last()))
        }
    }
}

/// Every block sits in a row of the board, visible or hidden.
pub open spec fn rows_ok(s: Seq<Block>) -> bool {
    forall|i: int| 0 <= i < s.len() ==> 0 <= #[trigger] row_of(s[i]) < all_rows()
}

proof fn lemma_row_count_le(s: Seq<Block>, r: int)
    ensures
        row_count(s, r) <= s.len(),
    decreases s.len(),
{
    if s.len() > 0 {
        lemma_row_count_le(s.drop_last(), r);
    }
}

proof fn lemma_full_below_le(s: Seq<Block>, r: int)
    requires
        0 <= r,
    ensures
        full_below(s, r) <= r,
    decreases r,
{
    if r > 0 {
        lemma_full_below_le(s, r - 1);
    }
}

/// Delete the full visible lines and move the obstacles above them, those
/// in the hidden rows too, down by the number of deleted lines below them.  Returns the remaining obstacles and
/// the number of lines deleted.
pub fn delete_full_lines(obstacles: &Vec<Block>) -> (r: (Vec<Block>, u32))
    requires
        rows_ok(obstacles@),
    ensures
        r.0@ == cleared(obstacles@, obstacles@),
        r.1 == lines_full(obstacles@),
{
    let n = obstacles.len();
    let h: usize = (BOARD_HEIGHT + INVISIBLE_ROWS) as usize;
    let mut counts: Vec<usize> = Vec::new();
    let mut j: usize = 0;
    while j < h
        invariant
            h == all_rows(),
            j <= h,
            counts@.len() == j,
            forall|k: int| 0 <= k < j ==> counts@[k] == 0,
        decreases h - j,
    {
        counts.push(0);
        j = j + 1;
    }
    let mut i: usize = 0;
    while i < n
        invariant
            n == obstacles@.len(),
            h == all_rows(),
            i <= n,
            counts@.len() == h,
            rows_ok(obstacles@),
            forall|k: int|
                0 <= k < h ==> #[trigger] counts@[k] == row_count(obstacles@.take(i as int), k),
        decreases n - i,
    {
        let b = obstacles[i];
        assert(obstacles@.take((i + 1) as int).drop_last() == obstacles@.take(i as int));
        assert(0 <= row_of(obstacles@[i as int]) < all_rows());
        let row = b.cell.1 as usize;
        proof {
            lemma_row_count_le(obstacles@.take(i as int), row as int);
        }
        let c = counts[row];
        counts.set(row, c + 1);
        i = i + 1;
    }
    assert(obstacles@.take(n as int) == obstacles@);
    let mut below: Vec<usize> = Vec::new();
    let mut lines: usize = 0;
    let mut r: usize = 0;
    while r < h
        invariant
            h == all_rows(),
            r <= h,
            counts@.len() == h,
            forall|k: int| 0 <= k < h ==> #[trigger] counts@[k] == row_count(obstacles@, k),
            below@.len() == r,
            lines == full_below(obstacles@, r as int),
            lines <= r,
            forall|k: int| 0 <= k < r ==> #[trigger] below@[k] == full_below(obstacles@, k),
        decreases h - r,
    {
        below.push(lines);
        if r < BOARD_HEIGHT as usize && counts[r] == BOARD_WIDTH as usize {
            lines = lines + 1;
        }
        r = r + 1;
    }
    let mut res: Vec<Block> = Vec::new();
    let mut i: usize = 0;
    while i < n
        invariant
            n == obstacles@.len(),
            h == all_rows(),
            i <= n,
            rows_ok(obstacles@),
            counts@.len() == h,
            below@.len() == h,
            forall|k: int| 0 <= k < h ==> #[trigger] counts@[k] == row_count(obstacles@, k),
            forall|k: int| 0 <= k < h ==> #[trigger] below@[k] == full_below(obstacles@, k),
            res@ == cleared(obstacles@.take(i as int), obstacles@),
        decreases n - i,
    {
        let b = obstacles[i];
        assert(obstacles@.take((i + 1) as int).drop_last() == obstacles@.take(i as int));
        assert(0 <= row_of(obstacles@[i as int]) < all_rows());
        let row = b.cell.1 as usize;
        if row >= BOARD_HEIGHT as usize || counts[row] != BOARD_WIDTH as usize {
            proof {
                lemma_full_below_le(obstacles@, row as int);
            }
            let new_y = b.cell.1 - below[row] as i32;
            res.push(Block { cell: Cell(b.cell.0, new_y), color: b.color });
        }
        i = i + 1;
    }
    assert(obstacles@.take(n as int) == obstacles@);
    proof {
        lemma_full_below_top(obstacles@);
    }
    (res, lines as u32)
}


/// The hidden rows are never full, so no full row lies between the top of
/// the visible board and the top of the hidden rows.
proof fn lemma_full_below_top(s: Seq<Block>)
    ensures
        full_below(s, all_rows()) == full_below(s, BOARD_HEIGHT as int),
{
    assert(full_below(s, 21) == full_below(s, 20));
    assert(full_below(s, 22) == full_below(s, 21));
    assert(full_below(s, 23) == full_below(s, 22));
}

proof fn lemma_full_below_gap(all: Seq<Block>, a: int, b: int)
    requires
        0 <= a <= b,
    ensures
        full_below(all, b) <= full_below(all, a) + (b - a),
        a < b && !row_full(all, a) ==> full_below(all, b) + 1 <= full_below(all, a) + (b - a),
    decreases b - a,
{
    if a < b {
        lemma_full_below_gap(all, a, b - 1);
    }
}

/// Rows that are not full keep their order when lowered.
proof fn lemma_new_row_strict(all: Seq<Block>, a: int, b: int)
    requires
        0 <= a < b,
        !row_full(all, a),
    ensures
        new_row(all, a) < new_row(all, b),
{
    lemma_full_below_gap(all, a, b);
}

proof fn lemma_new_row_range(all: Seq<Block>, r: int)
    requires
        0 <= r,
    ensures
        0 <= new_row(all, r) <= r,
{
    lemma_full_below_le(all, r);
}

/// Row `r` of the cleared board is the image of some row that is not full.
pub open spec fn has_source(all: Seq<Block>, r: int) -> bool {
    exists|q: int| 0 <= q < all_rows() && !row_full(all, q) && #[trigger] new_row(all, q) == r
}

pub open spec fn source(all: Seq<Block>, r: int) -> int {
    choose|q: int| 0 <= q < all_rows() && !row_full(all, q) && #[trigger] new_row(all, q) == r
}

proof fn lemma_cleared_row_count(s: Seq<Block>, all: Seq<Block>, r: int)
    requires
        rows_ok(s),
    ensures
        row_count(cleared(s, all), r) == if has_source(all, r) {
            row_count(s, source(all, r))
        } else {
            0
        },
    decreases s.len(),
{
    if s.len() > 0 {
        let d = s.drop_last();
        let b = s.last();
        let y = row_of(b);
        assert(rows_ok(d)) by {
            assert forall|i: int| 0 <= i < d.len() implies 0 <= #[trigger] row_of(d[i])
                < all_rows() by {
                assert(d[i] == s[i]);
            }
        }
        assert(0 <= row_of(s[s.len() - 1]) < all_rows());
        lemma_cleared_row_count(d, all, r);
        let rest = cleared(d, all);
        lemma_new_row_range(all, y);
        if !row_full(all, y) {
            assert(rest.push(lowered(all, b)).drop_last() == rest);
            assert(row_of(lowered(all, b)) == new_row(all, y));
        }
        if has_source(all, r) {
            let q = source(all, r);
            if !row_full(all, y) && new_row(all, y) == r && y != q {
                if y < q {
                    lemma_new_row_strict(all, y, q);
                } else {
                    lemma_new_row_strict(all, q, y);
                }
            }
        } else {
            if !row_full(all, y) && new_row(all, y) == r {
                assert(has_source(all, r));
            }
        }
    }
}

proof fn lemma_cleared_rows_ok(s: Seq<Block>, all: Seq<Block>)
    requires
        rows_ok(s),
    ensures
        rows_ok(cleared(s, all)),
    decreases s.len(),
{
    if s.len() > 0 {
        let d = s.drop_last();
        assert(rows_ok(d)) by {
            assert forall|i: int| 0 <= i < d.len() implies 0 <= #[trigger] row_of(d[i])
                < all_rows() by {
                assert(d[i] == s[i]);
            }
        }
        assert(0 <= row_of(s[s.len() - 1]) < all_rows());
        lemma_cleared_rows_ok(d, all);
        lemma_new_row_range(all, row_of(s.last()));
    }
}

proof fn lemma_full_below_zero(s: Seq<Block>, r: int)
    requires
        forall|q: int| !#[trigger] row_full(s, q),
    ensures
        full_below(s, r) == 0,
    decreases r,
{
    if r > 0 {
        lemma_full_below_zero(s, r - 1);
    }
}

proof fn lemma_cleared_identity(s: Seq<Block>, all: Seq<Block>)
    requires
        forall|q: int| !#[trigger] row_full(all, q),
    ensures
        cleared(s, all) == s,
    decreases s.len(),
{
    if s.len() > 0 {
        lemma_cleared_identity(s.drop_last(), all);
        lemma_full_below_zero(all, row_of(s.last()));
        assert(lowered(all, s.last()) == s.last());
        assert(s.drop_last().push(s.last()) == s);
    }
}

/// Clearing the full lines leaves no full line behind: every block stays on
/// the board, and clearing again deletes nothing and moves nothing.  This
/// holds unless a hidden row is filled: such a row comes down full.
pub proof fn law_clear_leaves_no_full_line(obstacles: Seq<Block>)
    requires
        rows_ok(obstacles),
        forall|q: int| BOARD_HEIGHT <= q < all_rows() ==> #[trigger] row_count(obstacles, q) != BOARD_WIDTH,
    ensures
        rows_ok(cleared(obstacles, obstacles)),
        lines_full(cleared(obstacles, obstacles)) == 0,
        cleared(cleared(obstacles, obstacles), cleared(obstacles, obstacles)) == cleared(
            obstacles,
            obstacles,
        ),
{
    let c = cleared(obstacles, obstacles);
    lemma_cleared_rows_ok(obstacles, obstacles);
    assert forall|q: int| !#[trigger] row_full(c, q) by {
        lemma_cleared_row_count(obstacles, obstacles, q);
        if has_source(obstacles, q) {
            let p = source(obstacles, q);
            assert(row_count(obstacles, p) != BOARD_WIDTH);
        }
    }
    lemma_full_below_zero(c, BOARD_HEIGHT as int);
    lemma_cleared_identity(c, c);
}

/// Number of blocks of `s` that sit in a full row of `all`.
pub open spec fn in_full_rows(s: Seq<Block>, all: Seq<Block>) -> nat
    decreases s.len(),
{
    if s.len() == 0 {
        0
    } else {
        in_full_rows(s.drop_last(), all) + if row_full(all, row_of(s.last())) {
            1nat
        } else {
            0nat
        }
    }
}

/// Sum of the block counts of `s` over the full rows of `all` below `k`.
spec fn full_row_total(s: Seq<Block>, all: Seq<Block>, k: int) -> nat
    decreases k,
{
    if k <= 0 {
        0
    } else {
        full_row_total(s, all, k - 1) + if row_full(all, k - 1) {
            row_count(s, k - 1)
        } else {
            0
        }
    }
}

proof fn lemma_cleared_len(s: Seq<Block>, all: Seq<Block>)
    ensures
        cleared(s, all).len() + in_full_rows(s, all) == s.len(),
    decreases s.len(),
{
    if s.len() > 0 {
        lemma_cleared_len(s.drop_last(), all);
    }
}

proof fn lemma_full_row_total_step(s: Seq<Block>, all: Seq<Block>, k: int)
    requires
        s.len() > 0,
    ensures
        full_row_total(s, all, k) == full_row_total(s.drop_last(), all, k) + if 0 <= row_of(
            s.last(),
        ) < k && row_full(all, row_of(s.last())) {
            1nat
        } else {
            0nat
        },
    decreases k,
{
    if k > 0 {
        lemma_full_row_total_step(s, all, k - 1);
    }
}

proof fn lemma_full_row_total_empty(s: Seq<Block>, all: Seq<Block>, k: int)
    requires
        s.len() == 0,
    ensures
        full_row_total(s, all, k) == 0,
    decreases k,
{
    if k > 0 {
        lemma_full_row_total_empty(s, all, k - 1);
    }
}

proof fn lemma_in_full_rows_total(s: Seq<Block>, all: Seq<Block>)
    requires
        rows_ok(s),
    ensures
        in_full_rows(s, all) == full_row_total(s, all, BOARD_HEIGHT as int),
    decreases s.len(),
{
    if s.len() > 0 {
        let d = s.drop_last();
        assert(rows_ok(d)) by {
            assert forall|i: int| 0 <= i < d.len() implies 0 <= #[trigger] row_of(d[i])
                < all_rows() by {
                assert(d[i] == s[i]);
            }
        }
        assert(0 <= row_of(s[s.len() - 1]) < all_rows());
        lemma_in_full_rows_total(d, all);
        lemma_full_row_total_step(s, all, BOARD_HEIGHT as int);
    } else {
        lemma_full_row_total_empty(s, all, BOARD_HEIGHT as int);
    }
}

proof fn lemma_full_row_total_self(all: Seq<Block>, k: int)
    ensures
        full_row_total(all, all, k) == BOARD_WIDTH * full_below(all, k),
    decreases k,
{
    if k > 0 {
        lemma_full_row_total_self(all, k - 1);
    }
}

/// Every deleted line takes exactly one board width of blocks with it.
pub proof fn law_clear_removes_full_rows(obstacles: Seq<Block>)
    requires
        rows_ok(obstacles),
    ensures
        cleared(obstacles, obstacles).len() + BOARD_WIDTH * lines_full(obstacles)
            == obstacles.len(),
{
    lemma_cleared_len(obstacles, obstacles);
    lemma_in_full_rows_total(obstacles, obstacles);
    lemma_full_row_total_self(obstacles, BOARD_HEIGHT as int);
}

} // verus!

//! Facts about turning pieces: a quarter turn is exact for every piece in
//! play, four of them give the piece back, and the square stays a square.
use vstd::prelude::*;
use crate::data::{
    cell_le, count_cell, lemma_rotate_within, lex_min4, near_center, piece_ok,
    rotate_cells, same_cells, spec_is_o, spec_rotate, spec_rotate_cell, square_at, Cell, Center,
    Tetromino, CENTER_LIMIT,
};

verus! {

/// 1 when the cells are equal, else 0.
pub open spec fn ind(a: Cell, c: Cell) -> nat {
    if a == c {
        1
    } else {
        0
    }
}

/// In a list of four cells, a cell occurs as often as it equals one of them.
proof fn lemma_count4(s: Seq<Cell>, c: Cell)
    requires
        s.len() == 4,
    ensures
        count_cell(s, c) == ind(s[0], c) + ind(s[1], c) + ind(s[2], c) + ind(s[3], c),
{
    let s3 = s.drop_last();
    let s2 = s3.drop_last();
    let s1 = s2.drop_last();
    let s0 = s1.drop_last();
    assert(s0.len() == 0);
    assert(count_cell(s0, c) == 0);
    assert(count_cell(s1, c) == count_cell(s0, c) + ind(s[0], c));
    assert(count_cell(s2, c) == count_cell(s1, c) + ind(s[1], c));
    assert(count_cell(s3, c) == count_cell(s2, c) + ind(s[2], c));
    assert(count_cell(s, c) == count_cell(s3, c) + ind(s[3], c));
}

/// A quarter turn of a cell near the center, in doubled coordinates
/// relative to the center: `(u, v)` goes to `(v, -u)`.
proof fn lemma_turn_exact(c: Cell, ctr: Center)
    requires
        near_center(c, ctr),
        (ctr.x2 - ctr.y2) % 2 == 0,
        -CENTER_LIMIT <= ctr.x2 <= CENTER_LIMIT,
        -CENTER_LIMIT <= ctr.y2 <= CENTER_LIMIT,
    ensures
        near_center(spec_rotate_cell(c, ctr), ctr),
        2 * spec_rotate_cell(c, ctr).0 - ctr.x2 == 2 * c.1 - ctr.y2,
        2 * spec_rotate_cell(c, ctr).1 - ctr.y2 == ctr.x2 - 2 * c.0,
{
    let vx = ctr.x2 + 2 * c.1 - ctr.y2;
    let vy = ctr.y2 - 2 * c.0 + ctr.x2;
    assert(vx % 2 == 0) by {
        assert(vx == (ctr.x2 - ctr.y2) + 2 * c.1);
    }
    assert(vy % 2 == 0) by {
        assert(vy == (ctr.x2 - ctr.y2) + 2 * (ctr.y2 - c.0));
    }
}

/// The center of a piece in play admits exact turns.
pub open spec fn turnable(ctr: Center) -> bool {
    &&& (ctr.x2 - ctr.y2) % 2 == 0
    &&& -CENTER_LIMIT <= ctr.x2 <= CENTER_LIMIT
    &&& -CENTER_LIMIT <= ctr.y2 <= CENTER_LIMIT
}

/// Four quarter turns bring a cell back.
proof fn lemma_cell_four_turns(c: Cell, ctr: Center)
    requires
        near_center(c, ctr),
        turnable(ctr),
    ensures
        spec_rotate_cell(spec_rotate_cell(spec_rotate_cell(spec_rotate_cell(c, ctr), ctr), ctr), ctr) == c,
{
    let c1 = spec_rotate_cell(c, ctr);
    lemma_turn_exact(c, ctr);
    let c2 = spec_rotate_cell(c1, ctr);
    lemma_turn_exact(c1, ctr);
    let c3 = spec_rotate_cell(c2, ctr);
    lemma_turn_exact(c2, ctr);
    let c4 = spec_rotate_cell(c3, ctr);
    lemma_turn_exact(c3, ctr);
}

/// Distinct cells near the center stay distinct when turned.
proof fn lemma_turn_injective(c: Cell, d: Cell, ctr: Center)
    requires
        near_center(c, ctr),
        near_center(d, ctr),
        turnable(ctr),
        spec_rotate_cell(c, ctr) == spec_rotate_cell(d, ctr),
    ensures
        c == d,
{
    lemma_turn_exact(c, ctr);
    lemma_turn_exact(d, ctr);
}

/// The four cells turned.
pub open spec fn turned(s: Seq<Cell>, ctr: Center) -> Seq<Cell> {
    seq![
        spec_rotate_cell(s[0], ctr),
        spec_rotate_cell(s[1], ctr),
        spec_rotate_cell(s[2], ctr),
        spec_rotate_cell(s[3], ctr),
    ]
}

/// Every cell of the list is near the center.
pub open spec fn all_near(s: Seq<Cell>, ctr: Center) -> bool {
    forall|i: int| 0 <= i < s.len() ==> near_center(#[trigger] s[i], ctr)
}

/// Turning the cells keeps how often each cell occurs, the cell `c` now
/// showing as its turned image `d`.
proof fn lemma_turned_count(a: Seq<Cell>, c: Cell, ctr: Center)
    requires
        a.len() == 4,
        all_near(a, ctr),
        near_center(c, ctr),
        turnable(ctr),
    ensures
        count_cell(turned(a, ctr), spec_rotate_cell(c, ctr)) == count_cell(a, c),
{
    let d = spec_rotate_cell(c, ctr);
    let ta = turned(a, ctr);
    lemma_count4(ta, d);
    lemma_count4(a, c);
    assert forall|k: int| 0 <= k < 4 implies ind(#[trigger] ta[k], d) == ind(a[k], c) by {
        assert(near_center(a[k], ctr));
        if ta[k] == d {
            lemma_turn_injective(a[k], c, ctr);
        }
    }
    assert(ind(ta[0], d) == ind(a[0], c));
    assert(ind(ta[1], d) == ind(a[1], c));
    assert(ind(ta[2], d) == ind(a[2], c));
    assert(ind(ta[3], d) == ind(a[3], c));
}

/// A cell that is no turned cell of the list does not occur in it turned.
proof fn lemma_turned_count_none(a: Seq<Cell>, d: Cell, ctr: Center)
    requires
        a.len() == 4,
        forall|k: int| 0 <= k < 4 ==> spec_rotate_cell(#[trigger] a[k], ctr) != d,
    ensures
        count_cell(turned(a, ctr), d) == 0,
{
    let ta = turned(a, ctr);
    lemma_count4(ta, d);
    assert(spec_rotate_cell(a[0], ctr) != d);
    assert(spec_rotate_cell(a[1], ctr) != d);
    assert(spec_rotate_cell(a[2], ctr) != d);
    assert(spec_rotate_cell(a[3], ctr) != d);
}

/// Turning two lists of the same cells gives lists of the same cells.
proof fn lemma_turned_same_cells(a: Seq<Cell>, b: Seq<Cell>, ctr: Center)
    requires
        a.len() == 4,
        b.len() == 4,
        same_cells(a, b),
        all_near(a, ctr),
        all_near(b, ctr),
        turnable(ctr),
    ensures
        same_cells(turned(a, ctr), turned(b, ctr)),
{
    let ta = turned(a, ctr);
    let tb = turned(b, ctr);
    assert forall|d: Cell| #[trigger] count_cell(ta, d) == count_cell(tb, d) by {
        if exists|k: int| 0 <= k < 4 && spec_rotate_cell(#[trigger] a[k], ctr) == d {
            let k = choose|k: int| 0 <= k < 4 && spec_rotate_cell(#[trigger] a[k], ctr) == d;
            let c = a[k];
            assert(near_center(c, ctr));
            lemma_turned_count(a, c, ctr);
            lemma_turned_count(b, c, ctr);
            assert(count_cell(a, c) == count_cell(b, c));
        } else if exists|k: int| 0 <= k < 4 && spec_rotate_cell(#[trigger] b[k], ctr) == d {
            let k = choose|k: int| 0 <= k < 4 && spec_rotate_cell(#[trigger] b[k], ctr) == d;
            let c = b[k];
            assert(near_center(c, ctr));
            lemma_turned_count(a, c, ctr);
            lemma_turned_count(b, c, ctr);
            assert(count_cell(a, c) == count_cell(b, c));
        } else {
            lemma_turned_count_none(a, d, ctr);
            lemma_turned_count_none(b, d, ctr);
        }
    }
}

/// Lists of the same cells as a third list hold the same cells.
proof fn lemma_same_cells_trans(a: Seq<Cell>, b: Seq<Cell>, c: Seq<Cell>)
    requires
        same_cells(a, b),
        same_cells(b, c),
    ensures
        same_cells(a, c),
{
    assert forall|d: Cell| #[trigger] count_cell(a, d) == count_cell(c, d) by {
        assert(count_cell(a, d) == count_cell(b, d));
        assert(count_cell(b, d) == count_cell(c, d));
    }
}

/// The square turned is a square: its lower-left cell becomes the turned
/// lower-right one.
proof fn lemma_turned_square(m: Cell, ctr: Center)
    requires
        all_near(square_at(m), ctr),
        turnable(ctr),
    ensures
        same_cells(
            turned(square_at(m), ctr),
            square_at(spec_rotate_cell(Cell((m.0 + 1) as i32, m.1), ctr)),
        ),
{
    let q = square_at(m);
    assert(near_center(q[0], ctr) && near_center(q[1], ctr) && near_center(q[2], ctr)
        && near_center(q[3], ctr));
    lemma_turn_exact(q[0], ctr);
    lemma_turn_exact(q[1], ctr);
    lemma_turn_exact(q[2], ctr);
    lemma_turn_exact(q[3], ctr);
    let t = turned(q, ctr);
    let p = spec_rotate_cell(q[2], ctr);
    let sq = square_at(p);
    assert(t[2] == sq[0]);
    assert(t[0] == sq[1]);
    assert(t[3] == sq[2]);
    assert(t[1] == sq[3]);
    assert forall|d: Cell| #[trigger] count_cell(t, d) == count_cell(sq, d) by {
        lemma_count4(t, d);
        lemma_count4(sq, d);
    }
}

/// Four cells that are a square in some order have the square's lower-left
/// cell as their least cell.
proof fn lemma_square_min(s: Seq<Cell>, m: Cell)
    requires
        s.len() == 4,
        same_cells(s, square_at(m)),
        -0x1000000 <= m.0 <= 0x1000000,
        -0x1000000 <= m.1 <= 0x1000000,
    ensures
        lex_min4(s) == m,
{
    let q = square_at(m);
    assert(cell_le(m, q[0]) && cell_le(m, q[1]) && cell_le(m, q[2]) && cell_le(m, q[3]));
    assert forall|i: int| 0 <= i < 4 implies cell_le(m, #[trigger] s[i]) by {
        lemma_count4(s, s[i]);
        lemma_count4(q, s[i]);
        assert(count_cell(s, s[i]) == count_cell(q, s[i]));
        assert(s[i] == q[0] || s[i] == q[1] || s[i] == q[2] || s[i] == q[3]);
    }
    lemma_count4(s, m);
    lemma_count4(q, m);
    assert(count_cell(s, m) == count_cell(q, m));
    assert(cell_le(m, s[0]) && cell_le(m, s[1]) && cell_le(m, s[2]) && cell_le(m, s[3]));
}

/// The cells of a square piece are its square's cells.
proof fn lemma_square_cells_near(t: Tetromino)
    requires
        spec_is_o(t),
        piece_ok(t),
    ensures
        all_near(square_at(lex_min4(t.cells@)), t.center),
{
    reveal(spec_is_o);
    let s = t.cells@;
    let q = square_at(lex_min4(s));
    assert forall|i: int| 0 <= i < q.len() implies near_center(#[trigger] q[i], t.center) by {
        lemma_count4(s, q[i]);
        lemma_count4(q, q[i]);
        assert(count_cell(s, q[i]) == count_cell(q, q[i]));
        assert(near_center(s[0], t.center) && near_center(s[1], t.center) && near_center(
            s[2],
            t.center,
        ) && near_center(s[3], t.center));
    }
}

/// The piece with its cells turned, whatever its shape.
pub open spec fn turn_cells(t: Tetromino) -> Tetromino {
    Tetromino { cells: rotate_cells(t.cells, t.center), ..t }
}

/// Turning the cells of a square piece leaves a square.
proof fn lemma_square_stays_square(t: Tetromino)
    requires
        piece_ok(t),
        spec_is_o(t),
    ensures
        spec_is_o(turn_cells(t)),
{
    let ctr = t.center;
    let s = t.cells@;
    let m = lex_min4(s);
    let q = square_at(m);
    lemma_square_cells_near(t);
    assert(all_near(s, ctr)) by {
        assert forall|i: int| 0 <= i < s.len() implies near_center(#[trigger] s[i], ctr) by {
            assert(near_center(t.cells[i], ctr));
        }
    }
    assert(same_cells(s, q)) by {
        reveal(spec_is_o);
    }
    lemma_turned_same_cells(s, q, ctr);
    lemma_turned_square(m, ctr);
    let p = spec_rotate_cell(Cell((m.0 + 1) as i32, m.1), ctr);
    assert(near_center(q[2], ctr));
    lemma_turn_exact(q[2], ctr);
    lemma_same_cells_trans(turned(s, ctr), turned(q, ctr), square_at(p));
    let u = turn_cells(t);
    assert(u.cells@ =~= turned(s, ctr));
    lemma_square_min(u.cells@, p);
    assert(spec_is_o(u)) by {
        reveal(spec_is_o);
    }
}

/// The turned cells of a piece in play are again near its center.
proof fn lemma_turn_cells_ok(t: Tetromino)
    requires
        piece_ok(t),
    ensures
        piece_ok(turn_cells(t)),
{
    let u = turn_cells(t);
    assert forall|i: int| 0 <= i < 4 implies near_center(#[trigger] u.cells[i], u.center) by {
        assert(near_center(t.cells[i], t.center));
        lemma_turn_exact(t.cells[i], t.center);
    }
}

/// The `i`-th turned cell is the `i`-th cell turned.
proof fn lemma_turn_cells_index(t: Tetromino, i: int)
    requires
        0 <= i < 4,
    ensures
        turn_cells(t).cells[i] == spec_rotate_cell(t.cells[i], t.center),
        turn_cells(t).center == t.center,
{
    if i == 0 {
    } else if i == 1 {
    } else if i == 2 {
    } else {
    }
}

/// Four turns of the cells bring them back.
proof fn lemma_turn_cells_four(t: Tetromino)
    requires
        piece_ok(t),
    ensures
        turn_cells(turn_cells(turn_cells(turn_cells(t)))) == t,
{
    let t1 = turn_cells(t);
    let t2 = turn_cells(t1);
    let t3 = turn_cells(t2);
    let t4 = turn_cells(t3);
    assert forall|i: int| 0 <= i < 4 implies t4.cells[i] == t.cells[i] by {
        lemma_turn_cells_index(t, i);
        lemma_turn_cells_index(t1, i);
        lemma_turn_cells_index(t2, i);
        lemma_turn_cells_index(t3, i);
        assert(near_center(t.cells[i], t.center));
        lemma_cell_four_turns(t.cells[i], t.center);
    }
    assert(t4.cells =~= t.cells);
}

/// A piece in play is a square exactly when it is a square after a turn.
pub proof fn law_turn_keeps_square(t: Tetromino)
    requires
        piece_ok(t),
    ensures
        spec_is_o(spec_rotate(t)) == spec_is_o(t),
{
    if !spec_is_o(t) {
        let t1 = turn_cells(t);
        assert(spec_rotate(t) == t1);
        if spec_is_o(t1) {
            lemma_turn_cells_ok(t);
            let t2 = turn_cells(t1);
            lemma_turn_cells_ok(t1);
            let t3 = turn_cells(t2);
            lemma_turn_cells_ok(t2);
            lemma_square_stays_square(t1);
            lemma_square_stays_square(t2);
            lemma_square_stays_square(t3);
            lemma_turn_cells_four(t);
            assert(turn_cells(t3) == t);
        }
    }
}

/// Turning a piece in play four times gives it back; each turn keeps its
/// center and color.
pub proof fn law_four_turns(t: Tetromino)
    requires
        piece_ok(t),
    ensures
        spec_rotate(spec_rotate(spec_rotate(spec_rotate(t)))) == t,
        spec_rotate(t).center == t.center,
        spec_rotate(t).color == t.color,
{
    lemma_rotate_within(t, CENTER_LIMIT as int);
    if !spec_is_o(t) {
        let t1 = spec_rotate(t);
        law_turn_keeps_square(t);
        lemma_rotate_within(t1, CENTER_LIMIT as int);
        let t2 = spec_rotate(t1);
        law_turn_keeps_square(t1);
        lemma_rotate_within(t2, CENTER_LIMIT as int);
        let t3 = spec_rotate(t2);
        law_turn_keeps_square(t2);
        assert(t1 == turn_cells(t));
        assert(t2 == turn_cells(t1));
        assert(t3 == turn_cells(t2));
        assert(spec_rotate(t3) == turn_cells(t3));
        lemma_turn_cells_four(t);
    }
}

} // verus!

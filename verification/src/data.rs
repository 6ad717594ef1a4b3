//! Cells, tetrominoes and the canonical pieces.
use vstd::prelude::*;

verus! {

/// Height of the visible part of the board
pub const BOARD_HEIGHT: u32 = 20;
/// Width of the visible part of the board
pub const BOARD_WIDTH: u32 = 10;
/// The number of invisible rows on top of the board
pub const INVISIBLE_ROWS: u32 = 3;
/// Gravity number to be used when hard drop is enabled
pub const HARD_DROP_GRAVITY: u32 = 20;
/// Gravity number to be used when hard drop is disabled
pub const SOFT_DROP_GRAVITY: u32 = 1;

/// Largest absolute cell coordinate for which piece arithmetic is exact.
pub const COORD_LIMIT: i32 = 0x100000;

/// The palette used for blocks.
#[derive(Clone, Copy, Debug, PartialEq, Eq, Structural)]
pub enum BlockColor {
    Red,
    Orange,
    Yellow,
    Green,
    Blue,
    Cyan,
    Purple,
    Gray,
    Background,
}

/// A 2-d cell, represented via its x and y coordinates
#[derive(Clone, Copy, Debug, PartialEq, Eq, Structural, Hash)]
pub struct Cell(pub i32, pub i32);

pub open spec fn spec_cell_in_bounds(c: Cell) -> bool {
    &&& 0 <= c.0 < BOARD_WIDTH
    &&& 0 <= c.1 < BOARD_HEIGHT + INVISIBLE_ROWS
}

pub open spec fn spec_cell_visible(c: Cell) -> bool {
    &&& 0 <= c.0 < BOARD_WIDTH
    &&& 0 <= c.1 < BOARD_HEIGHT
}

/// A coordinate small enough for exact piece arithmetic.
pub open spec fn coord_ok(v: int) -> bool {
    -COORD_LIMIT <= v <= COORD_LIMIT
}

pub open spec fn cell_ok(c: Cell) -> bool {
    coord_ok(c.0 as int) && coord_ok(c.1 as int)
}

/// Round `v / 2` to the nearest integer, halves away from zero.
pub open spec fn round_half(v: int) -> int {
    if v % 2 == 0 {
        v / 2
    } else if v > 0 {
        (v + 1) / 2
    } else {
        (v - 1) / 2
    }
}

/// The rotation center of a piece, stored as twice its coordinates so that
/// the half-integer centers of the canonical pieces are exact.
#[derive(Clone, Copy, Debug, PartialEq, Eq, Structural)]
pub struct Center {
    /// Twice the x coordinate
    pub x2: i32,
    /// Twice the y coordinate
    pub y2: i32,
}

pub open spec fn center_ok(c: Center) -> bool {
    &&& -2 * COORD_LIMIT <= c.x2 <= 2 * COORD_LIMIT
    &&& -2 * COORD_LIMIT <= c.y2 <= 2 * COORD_LIMIT
}

/// Where a cell lands when turned 90 degrees clockwise around a center.
pub open spec fn spec_rotate_cell(c: Cell, ctr: Center) -> Cell {
    Cell(
        round_half(ctr.x2 + 2 * c.1 - ctr.y2) as i32,
        round_half(ctr.y2 - 2 * c.0 + ctr.x2) as i32,
    )
}

fn round_half_exec(v: i64) -> (r: i32)
    requires
        -0x1000000 <= v <= 0x1000000,
    ensures
        r == round_half(v as int),
{
    if v % 2 == 0 {
        (v / 2) as i32
    } else if v > 0 {
        ((v + 1) / 2) as i32
    } else {
        ((v - 1) / 2) as i32
    }
}

impl Cell {
    /// Check whether this cell is in bounds.
    ///
    /// This takes the invisible rows into account
    pub fn in_bounds(&self) -> (r: bool)
        ensures
            r == spec_cell_in_bounds(*self),
    {
        0 <= self.0 && self.0 < BOARD_WIDTH as i32 && 0 <= self.1 && self.1 < (BOARD_HEIGHT
            + INVISIBLE_ROWS) as i32
    }

    /// Check whether this cell is in the visible part of the board.
    pub fn is_visible(&self) -> (r: bool)
        ensures
            r == spec_cell_visible(*self),
    {
        0 <= self.0 && self.0 < BOARD_WIDTH as i32 && 0 <= self.1 && self.1 < BOARD_HEIGHT as i32
    }

    /// Rotate this cell 90 degrees clockwise around the given center.
    pub fn rotate_90_deg_cw(&self, center: Center) -> (r: Cell)
        requires
            cell_ok(*self),
            center_ok(center),
        ensures
            r == spec_rotate_cell(*self, center),
    {
        let vx: i64 = center.x2 as i64 + 2 * (self.1 as i64) - center.y2 as i64;
        let vy: i64 = center.y2 as i64 - 2 * (self.0 as i64) + center.x2 as i64;
        let x = round_half_exec(vx);
        let y = round_half_exec(vy);
        Cell(x, y)
    }
}


/// The bounding box of a tetromino
#[derive(Clone, Copy, Debug, PartialEq, Eq, Structural)]
pub struct Bounds {
    pub top: i32,
    pub bottom: i32,
    pub left: i32,
    pub right: i32,
}

/// A piece: four cells, a rotation center and a color.
#[derive(Clone, Copy, Debug)]
pub struct Tetromino {
    pub cells: [Cell; 4],
    pub center: Center,
    pub color: BlockColor,
}

/// Number of occurrences of `c` in `s`.
pub open spec fn count_cell(s: Seq<Cell>, c: Cell) -> nat
    decreases s.len(),
{
    if s.len() == 0 {
        0
    } else {
        count_cell(s.drop_last(), c) + if s.last() == c {
            1nat
        } else {
            0nat
        }
    }
}

/// Two cell lists hold the same cells, ignoring order.
pub open spec fn same_cells(a: Seq<Cell>, b: Seq<Cell>) -> bool {
    forall|c: Cell| #[trigger] count_cell(a, c) == count_cell(b, c)
}

/// Equality of tetrominoes ignores the order of their cells.
pub open spec fn spec_tetromino_eq(a: Tetromino, b: Tetromino) -> bool {
    &&& same_cells(a.cells@, b.cells@)
    &&& a.center == b.center
    &&& a.color == b.color
}

pub open spec fn tetromino_ok(t: Tetromino) -> bool {
    &&& forall|i: int| 0 <= i < 4 ==> cell_ok(#[trigger] t.cells[i])
    &&& center_ok(t.center)
}

pub open spec fn spec_in_bounds(t: Tetromino) -> bool {
    forall|i: int| 0 <= i < 4 ==> spec_cell_in_bounds(#[trigger] t.cells[i])
}

pub open spec fn min2(a: int, b: int) -> int {
    if a <= b {
        a
    } else {
        b
    }
}

pub open spec fn max2(a: int, b: int) -> int {
    if a >= b {
        a
    } else {
        b
    }
}

pub open spec fn spec_bounds(t: Tetromino) -> Bounds {
    let c = t.cells;
    Bounds {
        left: min2(min2(c[0].0 as int, c[1].0 as int), min2(c[2].0 as int, c[3].0 as int)) as i32,
        right: max2(max2(c[0].0 as int, c[1].0 as int), max2(c[2].0 as int, c[3].0 as int)) as i32,
        bottom: min2(min2(c[0].1 as int, c[1].1 as int), min2(c[2].1 as int, c[3].1 as int)) as i32,
        top: max2(max2(c[0].1 as int, c[1].1 as int), max2(c[2].1 as int, c[3].1 as int)) as i32,
    }
}

/// Lexicographic order on cells: by x, then by y.
pub open spec fn cell_le(a: Cell, b: Cell) -> bool {
    a.0 < b.0 || (a.0 == b.0 && a.1 <= b.1)
}

pub open spec fn cell_min(a: Cell, b: Cell) -> Cell {
    if cell_le(a, b) {
        a
    } else {
        b
    }
}

/// The least of the four cells in lexicographic order.
pub open spec fn lex_min4(s: Seq<Cell>) -> Cell {
    cell_min(cell_min(s[0], s[1]), cell_min(s[2], s[3]))
}

/// The four cells of a 2x2 square whose lower-left cell is `c`.
pub open spec fn square_at(c: Cell) -> Seq<Cell> {
    seq![
        c,
        Cell(c.0, (c.1 + 1) as i32),
        Cell((c.0 + 1) as i32, c.1),
        Cell((c.0 + 1) as i32, (c.1 + 1) as i32),
    ]
}

/// The cells form a 2x2 square.
#[verifier::opaque]
pub open spec fn spec_is_o(t: Tetromino) -> bool {
    same_cells(t.cells@, square_at(lex_min4(t.cells@)))
}

pub open spec fn rotate_cells(cells: [Cell; 4], ctr: Center) -> [Cell; 4] {
    [
        spec_rotate_cell(cells[0], ctr),
        spec_rotate_cell(cells[1], ctr),
        spec_rotate_cell(cells[2], ctr),
        spec_rotate_cell(cells[3], ctr),
    ]
}

/// The piece after one clockwise turn; the square piece does not turn.
pub open spec fn spec_rotate(t: Tetromino) -> Tetromino {
    if spec_is_o(t) {
        t
    } else {
        Tetromino { cells: rotate_cells(t.cells, t.center), ..t }
    }
}

pub open spec fn shift_cell(c: Cell, dx: int, dy: int) -> Cell {
    Cell((c.0 + dx) as i32, (c.1 + dy) as i32)
}

/// The piece moved by `(dx, dy)`.
pub open spec fn spec_shift(t: Tetromino, dx: int, dy: int) -> Tetromino {
    Tetromino {
        cells: [
            shift_cell(t.cells[0], dx, dy),
            shift_cell(t.cells[1], dx, dy),
            shift_cell(t.cells[2], dx, dy),
            shift_cell(t.cells[3], dx, dy),
        ],
        center: Center { x2: (t.center.x2 + 2 * dx) as i32, y2: (t.center.y2 + 2 * dy) as i32 },
        color: t.color,
    }
}

/// The piece can be moved by `(dx, dy)`: no coordinate, and no doubled
/// center coordinate, leaves the range of `i32`.
pub open spec fn can_shift(t: Tetromino, dx: int, dy: int) -> bool {
    &&& forall|i: int|
        0 <= i < 4 ==> i32::MIN <= (#[trigger] t.cells[i]).0 + dx <= i32::MAX && i32::MIN
            <= t.cells[i].1 + dy <= i32::MAX
    &&& i32::MIN <= t.center.x2 + 2 * dx <= i32::MAX
    &&& i32::MIN <= t.center.y2 + 2 * dy <= i32::MAX
}

pub proof fn lemma_count_pos_contains(s: Seq<Cell>, c: Cell)
    ensures
        count_cell(s, c) > 0 <==> s.contains(c),
    decreases s.len(),
{
    if s.len() > 0 {
        lemma_count_pos_contains(s.drop_last(), c);
        if s.drop_last().contains(c) {
            let k = choose|k: int| 0 <= k < s.drop_last().len() && s.drop_last()[k] == c;
            assert(s[k] == c);
        }
        if s.contains(c) && s.last() != c {
            let k = choose|k: int| 0 <= k < s.len() && s[k] == c;
            assert(k != s.len() - 1);
            assert(s.drop_last()[k] == c);
        }
    }
}

fn count_in(cells: &[Cell; 4], c: Cell) -> (r: usize)
    ensures
        r == count_cell(cells@, c),
        r <= 4,
{
    let mut r: usize = 0;
    let mut i: usize = 0;
    while i < 4
        invariant
            i <= 4,
            r <= i,
            r == count_cell(cells@.take(i as int), c),
        decreases 4 - i,
    {
        assert(cells@.take((i + 1) as int).drop_last() == cells@.take(i as int));
        if cells[i] == c {
            r = r + 1;
        }
        i = i + 1;
    }
    assert(cells@.take(4) == cells@);
    r
}

fn same_cells_exec(a: &[Cell; 4], b: &[Cell; 4]) -> (r: bool)
    ensures
        r == same_cells(a@, b@),
{
    let mut i: usize = 0;
    while i < 4
        invariant
            i <= 4,
            forall|j: int|
                #![trigger a@[j]]
                #![trigger b@[j]]
                0 <= j < i ==> count_cell(a@, a@[j]) == count_cell(b@, a@[j]) && count_cell(
                    a@,
                    b@[j],
                ) == count_cell(b@, b@[j]),
        decreases 4 - i,
    {
        if count_in(a, a[i]) != count_in(b, a[i]) {
            return false;
        }
        if count_in(a, b[i]) != count_in(b, b[i]) {
            return false;
        }
        i = i + 1;
    }
    assert forall|c: Cell| #[trigger] count_cell(a@, c) == count_cell(b@, c) by {
        lemma_count_pos_contains(a@, c);
        lemma_count_pos_contains(b@, c);
        if a@.contains(c) {
            let k = choose|k: int| 0 <= k < a@.len() && a@[k] == c;
            assert(count_cell(a@, a@[k]) == count_cell(b@, a@[k]));
        } else if b@.contains(c) {
            let k = choose|k: int| 0 <= k < b@.len() && b@[k] == c;
            assert(count_cell(a@, b@[k]) == count_cell(b@, b@[k]));
        }
    }
    true
}

fn cell_le_exec(a: Cell, b: Cell) -> (r: bool)
    ensures
        r == cell_le(a, b),
{
    a.0 < b.0 || (a.0 == b.0 && a.1 <= b.1)
}

fn cell_min_exec(a: Cell, b: Cell) -> (r: Cell)
    ensures
        r == cell_min(a, b),
{
    if cell_le_exec(a, b) {
        a
    } else {
        b
    }
}

impl Tetromino {
    /// Cells of the tetromino
    pub fn cells(&self) -> (r: &[Cell; 4])
        ensures
            r@ == self.cells@,
    {
        &self.cells
    }

    /// Center of the tetromino for the purposes of rotation
    pub fn center(&self) -> (r: Center)
        ensures
            r == self.center,
    {
        self.center
    }

    /// The bounding box of the tetromino
    pub fn bounds(&self) -> (r: Bounds)
        ensures
            r == spec_bounds(*self),
    {
        let c = &self.cells;
        let l01 = if c[0].0 <= c[1].0 { c[0].0 } else { c[1].0 };
        let l23 = if c[2].0 <= c[3].0 { c[2].0 } else { c[3].0 };
        let r01 = if c[0].0 >= c[1].0 { c[0].0 } else { c[1].0 };
        let r23 = if c[2].0 >= c[3].0 { c[2].0 } else { c[3].0 };
        let b01 = if c[0].1 <= c[1].1 { c[0].1 } else { c[1].1 };
        let b23 = if c[2].1 <= c[3].1 { c[2].1 } else { c[3].1 };
        let t01 = if c[0].1 >= c[1].1 { c[0].1 } else { c[1].1 };
        let t23 = if c[2].1 >= c[3].1 { c[2].1 } else { c[3].1 };
        Bounds {
            left: if l01 <= l23 { l01 } else { l23 },
            right: if r01 >= r23 { r01 } else { r23 },
            bottom: if b01 <= b23 { b01 } else { b23 },
            top: if t01 >= t23 { t01 } else { t23 },
        }
    }

    /// Is the tetromino in bounds?
    pub fn in_bounds(&self) -> (r: bool)
        ensures
            r == spec_in_bounds(*self),
    {
        self.cells[0].in_bounds() && self.cells[1].in_bounds() && self.cells[2].in_bounds()
            && self.cells[3].in_bounds()
    }

    /// Is this the O tetromino?
    pub fn is_o(&self) -> (r: bool)
        requires
            tetromino_ok(*self),
        ensures
            r == spec_is_o(*self),
    {
        let c = &self.cells;
        let m = cell_min_exec(cell_min_exec(c[0], c[1]), cell_min_exec(c[2], c[3]));
        proof {
            assert(cell_ok(c[0]) && cell_ok(c[1]) && cell_ok(c[2]) && cell_ok(c[3]));
        }
        let sq: [Cell; 4] = [m, Cell(m.0, m.1 + 1), Cell(m.0 + 1, m.1), Cell(m.0 + 1, m.1 + 1)];
        assert(sq@ == square_at(lex_min4(self.cells@)));
        proof {
            reveal(spec_is_o);
        }
        same_cells_exec(c, &sq)
    }

    /// Rotate this tetromino 90 degrees clockwise.  Coordinates are kept
    /// within `COORD_LIMIT` (`tetromino_ok`), where a turn computed on doubled
    /// coordinates and rounded is exact and cannot overflow.
    pub fn rotate(&mut self)
        requires
            tetromino_ok(*old(self)),
        ensures
            *final(self) == spec_rotate(*old(self)),
    {
        if self.is_o() {
            return;
        }
        let ctr = self.center;
        proof {
            assert(cell_ok(self.cells[0]) && cell_ok(self.cells[1]));
            assert(cell_ok(self.cells[2]) && cell_ok(self.cells[3]));
        }
        let c0 = self.cells[0].rotate_90_deg_cw(ctr);
        let c1 = self.cells[1].rotate_90_deg_cw(ctr);
        let c2 = self.cells[2].rotate_90_deg_cw(ctr);
        let c3 = self.cells[3].rotate_90_deg_cw(ctr);
        self.cells = [c0, c1, c2, c3];
    }

    /// Shift all the cells in the tetromino by the given amount
    pub fn shift(&mut self, dx: i32, dy: i32)
        requires
            can_shift(*old(self), dx as int, dy as int),
        ensures
            *final(self) == spec_shift(*old(self), dx as int, dy as int),
    {
        proof {
            assert(i32::MIN <= self.cells[0].0 + dx <= i32::MAX && i32::MIN <= self.cells[0].1 + dy <= i32::MAX);
            assert(i32::MIN <= self.cells[1].0 + dx <= i32::MAX && i32::MIN <= self.cells[1].1 + dy <= i32::MAX);
            assert(i32::MIN <= self.cells[2].0 + dx <= i32::MAX && i32::MIN <= self.cells[2].1 + dy <= i32::MAX);
            assert(i32::MIN <= self.cells[3].0 + dx <= i32::MAX && i32::MIN <= self.cells[3].1 + dy <= i32::MAX);
        }
        let c = self.cells;
        self.cells = [
            Cell(c[0].0 + dx, c[0].1 + dy),
            Cell(c[1].0 + dx, c[1].1 + dy),
            Cell(c[2].0 + dx, c[2].1 + dy),
            Cell(c[3].0 + dx, c[3].1 + dy),
        ];
        let x2: i64 = self.center.x2 as i64 + 2 * (dx as i64);
        let y2: i64 = self.center.y2 as i64 + 2 * (dy as i64);
        self.center = Center { x2: x2 as i32, y2: y2 as i32 };
    }
}

/// Bound on the doubled center coordinates of a piece in play.
pub const CENTER_LIMIT: i32 = 0x20000;

/// A cell lies within four cells of the center in each direction.
pub open spec fn near_center(c: Cell, ctr: Center) -> bool {
    &&& -8 <= 2 * c.0 - ctr.x2 <= 8
    &&& -8 <= 2 * c.1 - ctr.y2 <= 8
}

/// A piece whose center coordinates are both integers or both halves, whose
/// cells stay near the center, and whose center lies within `lim`.
pub open spec fn piece_within(t: Tetromino, lim: int) -> bool {
    &&& (t.center.x2 - t.center.y2) % 2 == 0
    &&& -lim <= t.center.x2 <= lim
    &&& -lim <= t.center.y2 <= lim
    &&& forall|i: int| 0 <= i < 4 ==> near_center(#[trigger] t.cells[i], t.center)
}

/// The shape invariant of every piece in the game.
pub open spec fn piece_ok(t: Tetromino) -> bool {
    piece_within(t, CENTER_LIMIT as int)
}

pub proof fn lemma_piece_within_ok(t: Tetromino, lim: int)
    requires
        piece_within(t, lim),
        lim <= 4 * CENTER_LIMIT,
    ensures
        tetromino_ok(t),
{
    assert forall|i: int| 0 <= i < 4 implies cell_ok(#[trigger] t.cells[i]) by {
        assert(near_center(t.cells[i], t.center));
    }
}

pub proof fn lemma_piece_within_weaken(t: Tetromino, lim: int, lim2: int)
    requires
        piece_within(t, lim),
        lim <= lim2,
    ensures
        piece_within(t, lim2),
{
}

/// A piece whose cells are on the board has a small center.
pub proof fn lemma_in_bounds_piece(t: Tetromino, lim: int)
    requires
        piece_within(t, lim),
        spec_in_bounds(t),
    ensures
        piece_ok(t),
{
    assert(near_center(t.cells[0], t.center));
    assert(spec_cell_in_bounds(t.cells[0]));
}

pub proof fn lemma_shift_within(t: Tetromino, dx: int, dy: int, lim: int)
    requires
        piece_within(t, lim),
        lim <= 2 * CENTER_LIMIT,
        -8 <= dx <= 8,
        -32 <= dy <= 32,
    ensures
        can_shift(t, dx, dy),
        piece_within(spec_shift(t, dx, dy), lim + 64),
{
    let u = spec_shift(t, dx, dy);
    assert forall|i: int|
        0 <= i < 4 implies coord_ok(#[trigger] t.cells[i].0 + dx) && coord_ok(t.cells[i].1 + dy) by {
        assert(near_center(t.cells[i], t.center));
    }
    assert forall|i: int| 0 <= i < 4 implies near_center(#[trigger] u.cells[i], u.center) by {
        assert(near_center(t.cells[i], t.center));
    }
    assert((u.center.x2 - u.center.y2) == (t.center.x2 - t.center.y2) + 2 * (dx - dy));
}

proof fn lemma_shift_cell_near(c: Cell, ctr: Center, dx: int, dy: int, lim2: int)
    requires
        near_center(c, ctr),
        lim2 <= 8 * CENTER_LIMIT,
        -lim2 <= ctr.x2 + 2 * dx <= lim2,
        -lim2 <= ctr.y2 + 2 * dy <= lim2,
    ensures
        coord_ok(c.0 + dx),
        coord_ok(c.1 + dy),
        near_center(
            shift_cell(c, dx, dy),
            Center { x2: (ctr.x2 + 2 * dx) as i32, y2: (ctr.y2 + 2 * dy) as i32 },
        ),
{
}

/// Moving a piece keeps its shape; only the center bound changes.
pub proof fn lemma_shift_to(t: Tetromino, dx: int, dy: int, lim: int, lim2: int)
    requires
        piece_within(t, lim),
        lim <= 8 * CENTER_LIMIT,
        lim2 <= 8 * CENTER_LIMIT,
        -lim2 <= t.center.x2 + 2 * dx <= lim2,
        -lim2 <= t.center.y2 + 2 * dy <= lim2,
    ensures
        can_shift(t, dx, dy),
        piece_within(spec_shift(t, dx, dy), lim2),
{
    let u = spec_shift(t, dx, dy);
    assert forall|i: int|
        0 <= i < 4 implies coord_ok(#[trigger] t.cells[i].0 + dx) && coord_ok(t.cells[i].1 + dy) by {
        assert(near_center(t.cells[i], t.center));
        lemma_shift_cell_near(t.cells[i], t.center, dx, dy, lim2);
    }
    assert forall|i: int| 0 <= i < 4 implies near_center(#[trigger] u.cells[i], u.center) by {
        assert(near_center(t.cells[i], t.center));
        lemma_shift_cell_near(t.cells[i], t.center, dx, dy, lim2);
    }
    assert((u.center.x2 - u.center.y2) == (t.center.x2 - t.center.y2) + 2 * (dx - dy));
}

/// Every canonical piece has the shape invariant.
pub proof fn lemma_canonical_piece_ok(t: Tetromino)
    requires
        is_canonical(t),
    ensures
        piece_ok(t),
        spec_bounds(t).top <= 1,
{
    let typ = choose|typ: TetrominoType| t == spec_get_tetromino(typ);
    match typ {
        TetrominoType::S => {},
        TetrominoType::Z => {},
        TetrominoType::L => {},
        TetrominoType::J => {},
        TetrominoType::T => {},
        TetrominoType::O => {},
        TetrominoType::I => {},
    }
}

pub proof fn lemma_shift_back(t: Tetromino, dx: int, dy: int)
    requires
        can_shift(t, dx, dy),
    ensures
        spec_shift(spec_shift(t, dx, dy), -dx, -dy) == t,
{
    let u = spec_shift(spec_shift(t, dx, dy), -dx, -dy);
    assert(u.cells =~= t.cells);
}

proof fn lemma_rotate_cell_near(c: Cell, ctr: Center)
    requires
        near_center(c, ctr),
        (ctr.x2 - ctr.y2) % 2 == 0,
        -4 * CENTER_LIMIT <= ctr.x2 <= 4 * CENTER_LIMIT,
        -4 * CENTER_LIMIT <= ctr.y2 <= 4 * CENTER_LIMIT,
    ensures
        near_center(spec_rotate_cell(c, ctr), ctr),
        2 * spec_rotate_cell(c, ctr).0 - ctr.x2 == 2 * c.1 - ctr.y2,
        2 * spec_rotate_cell(c, ctr).1 - ctr.y2 == ctr.x2 - 2 * c.0,
{
    let vx = ctr.x2 + 2 * c.1 - ctr.y2;
    let vy = ctr.y2 - 2 * c.0 + ctr.x2;
    assert(vx % 2 == 0) by {
        assert(vx == (ctr.x2 - ctr.y2) + 2 * c.1);
    }
    assert(vy % 2 == 0) by {
        assert(vy == (ctr.x2 - ctr.y2) + 2 * (ctr.y2 - c.0));
    }
}

pub proof fn lemma_rotate_within(t: Tetromino, lim: int)
    requires
        piece_within(t, lim),
        lim <= 4 * CENTER_LIMIT,
    ensures
        piece_within(spec_rotate(t), lim),
        spec_rotate(t).center == t.center,
        spec_rotate(t).color == t.color,
{
    if !spec_is_o(t) {
        let u = spec_rotate(t);
        assert(u.cells == rotate_cells(t.cells, t.center));
        assert forall|i: int| 0 <= i < 4 implies near_center(#[trigger] u.cells[i], u.center) by {
            assert(near_center(t.cells[i], t.center));
            lemma_rotate_cell_near(t.cells[i], t.center);
        }
    }
}

/// Different types of canonical tetrominos.
#[derive(Clone, Copy, Debug, PartialEq, Eq, Structural)]
pub enum TetrominoType {
    S,
    Z,
    L,
    J,
    T,
    O,
    I,
}

/// All canonical tetrominoes that can occur in the game, in bag order.
pub const ALL_TETROMINO_TYPES: [TetrominoType; 7] = [
    TetrominoType::S,
    TetrominoType::Z,
    TetrominoType::L,
    TetrominoType::J,
    TetrominoType::T,
    TetrominoType::O,
    TetrominoType::I,
];

/// The canonical piece of each type, before it is placed on the board.
pub open spec fn spec_get_tetromino(typ: TetrominoType) -> Tetromino {
    match typ {
        TetrominoType::S => Tetromino {
            cells: [Cell(-1i32, 0), Cell(0, 0), Cell(0, 1), Cell(1, 1)],
            center: Center { x2: 0, y2: 0 },
            color: BlockColor::Red,
        },
        TetrominoType::Z => Tetromino {
            cells: [Cell(-1i32, 1), Cell(0, 0), Cell(0, 1), Cell(1, 0)],
            center: Center { x2: 0, y2: 0 },
            color: BlockColor::Orange,
        },
        TetrominoType::L => Tetromino {
            cells: [Cell(-1i32, 0), Cell(0, 0), Cell(1, 0), Cell(-1i32, 1)],
            center: Center { x2: 0, y2: 0 },
            color: BlockColor::Yellow,
        },
        TetrominoType::J => Tetromino {
            cells: [Cell(-1i32, 0), Cell(0, 0), Cell(1, 0), Cell(1, 1)],
            center: Center { x2: 0, y2: 0 },
            color: BlockColor::Green,
        },
        TetrominoType::T => Tetromino {
            cells: [Cell(0, 1), Cell(-1i32, 0), Cell(0, 0), Cell(1, 0)],
            center: Center { x2: 0, y2: 0 },
            color: BlockColor::Blue,
        },
        TetrominoType::O => Tetromino {
            cells: [Cell(0, 0), Cell(0, 1), Cell(1, 0), Cell(1, 1)],
            center: Center { x2: 1, y2: 1 },
            color: BlockColor::Cyan,
        },
        TetrominoType::I => Tetromino {
            cells: [Cell(-1i32, 0), Cell(0, 0), Cell(1, 0), Cell(2, 0)],
            center: Center { x2: 1, y2: -1i32 },
            color: BlockColor::Purple,
        },
    }
}

/// The piece type at a position of the bag order.
pub open spec fn spec_type_at(i: int) -> TetrominoType {
    if i == 0 {
        TetrominoType::S
    } else if i == 1 {
        TetrominoType::Z
    } else if i == 2 {
        TetrominoType::L
    } else if i == 3 {
        TetrominoType::J
    } else if i == 4 {
        TetrominoType::T
    } else if i == 5 {
        TetrominoType::O
    } else {
        TetrominoType::I
    }
}

/// A piece is canonical when it is the fresh piece of some type.
pub open spec fn is_canonical(t: Tetromino) -> bool {
    exists|typ: TetrominoType| t == spec_get_tetromino(typ)
}

/// Get a fresh canonical tetromino of the given type.
pub fn get_tetromino(typ: TetrominoType) -> (r: Tetromino)
    ensures
        r == spec_get_tetromino(typ),
        tetromino_ok(r),
        is_canonical(r),
{
    match typ {
        TetrominoType::S => Tetromino {
            cells: [Cell(-1, 0), Cell(0, 0), Cell(0, 1), Cell(1, 1)],
            center: Center { x2: 0, y2: 0 },
            color: BlockColor::Red,
        },
        TetrominoType::Z => Tetromino {
            cells: [Cell(-1, 1), Cell(0, 0), Cell(0, 1), Cell(1, 0)],
            center: Center { x2: 0, y2: 0 },
            color: BlockColor::Orange,
        },
        TetrominoType::L => Tetromino {
            cells: [Cell(-1, 0), Cell(0, 0), Cell(1, 0), Cell(-1, 1)],
            center: Center { x2: 0, y2: 0 },
            color: BlockColor::Yellow,
        },
        TetrominoType::J => Tetromino {
            cells: [Cell(-1, 0), Cell(0, 0), Cell(1, 0), Cell(1, 1)],
            center: Center { x2: 0, y2: 0 },
            color: BlockColor::Green,
        },
        TetrominoType::T => Tetromino {
            cells: [Cell(0, 1), Cell(-1, 0), Cell(0, 0), Cell(1, 0)],
            center: Center { x2: 0, y2: 0 },
            color: BlockColor::Blue,
        },
        TetrominoType::O => Tetromino {
            cells: [Cell(0, 0), Cell(0, 1), Cell(1, 0), Cell(1, 1)],
            center: Center { x2: 1, y2: 1 },
            color: BlockColor::Cyan,
        },
        TetrominoType::I => Tetromino {
            cells: [Cell(-1, 0), Cell(0, 0), Cell(1, 0), Cell(2, 0)],
            center: Center { x2: 1, y2: -1 },
            color: BlockColor::Purple,
        },
    }
}

/// The piece type at position `i` of the bag order.
pub fn tetromino_type_at(i: usize) -> (r: TetrominoType)
    requires
        i < 7,
    ensures
        r == spec_type_at(i as int),
{
    ALL_TETROMINO_TYPES[i]
}

/// The repeating timer that paces automatic drops: its period and the time
/// run since it last went off, in microseconds.
#[derive(Clone, Copy, Debug, PartialEq, Eq, Structural)]
pub struct GravityTimer {
    pub duration_us: u64,
    pub elapsed_us: u64,
}

/// The timer after `delta_us` more microseconds, and whether it went off:
/// on reaching its period it starts over with what ran past the period.
pub open spec fn spec_tick(t: GravityTimer, delta_us: u64) -> (GravityTimer, bool) {
    let e = t.elapsed_us + delta_us;
    if e >= t.duration_us {
        (GravityTimer { duration_us: t.duration_us, elapsed_us: (e % (t.duration_us as int)) as u64 }, true)
    } else {
        (GravityTimer { duration_us: t.duration_us, elapsed_us: e as u64 }, false)
    }
}

impl GravityTimer {
    /// Advance the timer by `delta_us`; returns whether it went off.
    pub fn tick(&mut self, delta_us: u64) -> (fired: bool)
        requires
            old(self).duration_us > 0,
            old(self).elapsed_us + delta_us <= u64::MAX,
        ensures
            (*final(self), fired) == spec_tick(*old(self), delta_us),
    {
        let e = self.elapsed_us + delta_us;
        if e >= self.duration_us {
            self.elapsed_us = e % self.duration_us;
            true
        } else {
            self.elapsed_us = e;
            false
        }
    }
}

/// The gravity timer goes off exactly when the time run since it last went
/// off reaches its period; until then it only counts the time, and after it
/// goes off it is again short of a full period, the period unchanged.
pub proof fn law_timer_fires_on_period(t: GravityTimer, delta_us: u64)
    requires
        t.duration_us > 0,
        t.elapsed_us + delta_us <= u64::MAX,
    ensures
        spec_tick(t, delta_us).1 <==> t.elapsed_us + delta_us >= t.duration_us,
        spec_tick(t, delta_us).0.duration_us == t.duration_us,
        spec_tick(t, delta_us).0.elapsed_us < t.duration_us,
        t.elapsed_us + delta_us < t.duration_us ==> spec_tick(t, delta_us).0.elapsed_us == t.elapsed_us
            + delta_us,
{
}

/// Shared game state of one player, replicated to the clients.
#[derive(Clone, Copy, Debug, PartialEq, Eq, Structural)]
pub struct SharedGameState {
    /// Total score so far
    pub score: u32,
    /// Total lines cleared
    pub lines_cleared: u32,
    /// Lines cleared since last level up
    pub lines_cleared_since_last_level: u32,
    /// Current level
    pub level: u32,
    /// Whether hard drop is enabled.
    pub hard_drop: bool,
    /// How many blocks to drop on user input.
    pub manual_drop_gravity: u32,
    /// The Id of the client
    pub client_id: u64,
    /// The timer for automatic drops
    pub gravity_timer: GravityTimer,
}

/// Number of levels with their own drop speed.
pub const MAX_LEVEL: usize = 29;
/// Frames per second that the drop intervals are counted in.
pub const FRAMERATE: u32 = 60;

/// Frames between automatic drops on each level.
pub open spec fn interval_table() -> Seq<u32> {
    seq![
        48u32, 43, 38, 33, 28, 23, 18, 13, 8, 6, 5, 5, 5, 4, 4, 4, 3, 3, 3, 2, 2, 2, 2, 2, 2, 2, 2,
        2, 1,
    ]
}

/// Frames between automatic drops at a level; levels past the table use its
/// last entry.
pub open spec fn spec_drop_interval_frames(level: int) -> u32 {
    if level < MAX_LEVEL - 1 {
        interval_table()[level]
    } else {
        interval_table()[MAX_LEVEL - 1]
    }
}

/// Microseconds between automatic drops at a level.
pub open spec fn spec_drop_interval_micros(level: int) -> u64 {
    ((spec_drop_interval_frames(level) as int) * 1_000_000 / (FRAMERATE as int)) as u64
}

/// Microseconds between automatic drops at the start of the game.
pub open spec fn spec_initial_drop_interval_micros() -> u64 {
    ((interval_table()[0] as int) * 1_000_000 / (FRAMERATE as int)) as u64
}

impl SharedGameState {
    /// Current score
    pub fn score(&self) -> (r: u32)
        ensures
            r == self.score,
    {
        self.score
    }

    /// Current level
    pub fn level(&self) -> (r: u32)
        ensures
            r == self.level,
    {
        self.level
    }

    /// Auto-drop interval (i.e., gravity), in frames.
    pub fn drop_interval_frames(&self) -> (r: u32)
        ensures
            r == spec_drop_interval_frames(self.level as int),
    {
        let table: [u32; 29] = [
            48, 43, 38, 33, 28, 23, 18, 13, 8, 6, 5, 5, 5, 4, 4, 4, 3, 3, 3, 2, 2, 2, 2, 2, 2, 2,
            2, 2, 1,
        ];
        assert(table@ == interval_table());
        let i: usize = if (self.level as usize) < MAX_LEVEL - 1 {
            self.level as usize
        } else {
            MAX_LEVEL - 1
        };
        table[i]
    }

    /// Auto-drop interval (i.e., gravity), in microseconds.
    pub fn drop_interval_micros(&self) -> (r: u64)
        ensures
            r == spec_drop_interval_micros(self.level as int),
            r > 0,
    {
        let f = self.drop_interval_frames();
        assert(interval_table()[0] >= 1 && interval_table()[MAX_LEVEL - 1] >= 1);
        assert(f >= 1 && f <= 48) by {
            if (self.level as int) < MAX_LEVEL - 1 {
                assert(interval_table()[self.level as int] >= 1 && interval_table()[self.level as int] <= 48);
            }
        }
        let r = f as u64 * 1_000_000 / (FRAMERATE as u64);
        assert(r > 0) by (nonlinear_arith)
            requires
                f >= 1,
                r == f * 1_000_000 / 60,
        ;
        r
    }

    /// The drop interval in the beginning of the game, in microseconds.
    pub fn initial_drop_interval_micros() -> (r: u64)
        ensures
            r == spec_initial_drop_interval_micros(),
            r == 800_000,
    {
        48 * 1_000_000 / 60
    }
}

impl PartialEq for Tetromino {
    /// Equality that ignores the ordering of cells
    fn eq(&self, other: &Self) -> (r: bool) {
        same_cells_exec(&self.cells, &other.cells) && self.center == other.center && self.color
            == other.color
    }
}

impl vstd::std_specs::cmp::PartialEqSpecImpl for Tetromino {
    open spec fn obeys_eq_spec() -> bool {
        true
    }

    open spec fn eq_spec(&self, other: &Self) -> bool {
        spec_tetromino_eq(*self, *other)
    }
}

} // verus!

//! What the player's window shows: the inputs read from the keyboard, which
//! board each piece is drawn on, and the texts of the side panel.
use vstd::prelude::*;
use crate::board::Block;
use crate::data::{spec_cell_visible, SharedGameState, Tetromino};
use crate::protocol::{GameOverMessage, Input, Inputs};
use crate::text::{append_decimal_u64, decimal_digits};

verus! {

/// The boards on the player's screen: their own and up to two opponents'.
#[derive(Clone, Copy, Debug, PartialEq, Eq, Structural, Hash)]
pub enum GameBoard {
    MainBoard,
    Left,
    Right,
}

/// The keys pressed since the last frame.
#[derive(Clone, Copy, Debug, PartialEq, Eq, Structural, Default)]
pub struct PressedKeys {
    pub down: bool,
    pub left: bool,
    pub right: bool,
    pub up: bool,
    pub space: bool,
    pub x: bool,
    pub z: bool,
    pub escape: bool,
}

/// The input a key press stands for.
pub open spec fn key_input(keys: PressedKeys, i: Input) -> bool {
    match i {
        Input::Down => keys.down,
        Input::Left => keys.left,
        Input::Right => keys.right,
        Input::Rotate => keys.up || keys.space,
        Input::Hold => keys.x,
        Input::HardDrop => keys.z,
        Input::EndGame => keys.escape,
        _ => false,
    }
}

/// Each input comes from its own keys alone: Escape, and no other key, ends
/// the game; X holds, Z toggles hard drop, up or space rotates, each arrow
/// moves its way; no key answers the continue prompt.
pub proof fn law_each_input_from_its_keys(keys: PressedKeys)
    ensures
        key_input(keys, Input::EndGame) == keys.escape,
        key_input(keys, Input::Hold) == keys.x,
        key_input(keys, Input::HardDrop) == keys.z,
        key_input(keys, Input::Rotate) == (keys.up || keys.space),
        key_input(keys, Input::Left) == keys.left,
        key_input(keys, Input::Right) == keys.right,
        key_input(keys, Input::Down) == keys.down,
        !key_input(keys, Input::ContinueYes),
        !key_input(keys, Input::ContinueNo),
{
}

/// Turn the pressed keys into the inputs sent to the server: arrows move,
/// up or space rotates, X holds, Z hard-drops and escape ends the game.
pub fn inputs_from_keys(keys: PressedKeys) -> (r: Inputs)
    ensures
        forall|i: Input| #[trigger] r.spec_has(i) == key_input(keys, i),
{
    let mut inputs = Inputs::empty();
    if keys.down {
        inputs.insert(Input::Down);
    }
    if keys.left {
        inputs.insert(Input::Left);
    }
    if keys.right {
        inputs.insert(Input::Right);
    }
    if keys.up || keys.space {
        inputs.insert(Input::Rotate);
    }
    if keys.x {
        inputs.insert(Input::Hold);
    }
    if keys.z {
        inputs.insert(Input::HardDrop);
    }
    if keys.escape {
        inputs.insert(Input::EndGame);
    }
    inputs
}

/// The opponents drawn on the left and right boards: the smallest and the
/// largest id, among the owners of pieces, that is not the player's.
pub fn opponent_ends(my_id: u64, owners: &Vec<u64>) -> (r: (Option<u64>, Option<u64>))
    ensures
        r.0 is None <==> forall|i: int| 0 <= i < owners@.len() ==> owners@[i] == my_id,
        r.1 is None <==> r.0 is None,
        r.0 matches Some(m) ==> m != my_id && owners@.contains(m)
            && forall|i: int| 0 <= i < owners@.len() && owners@[i] != my_id ==> m <= owners@[i],
        r.1 matches Some(m) ==> m != my_id && owners@.contains(m)
            && forall|i: int| 0 <= i < owners@.len() && owners@[i] != my_id ==> owners@[i] <= m,
{
    let mut lo: Option<u64> = None;
    let mut hi: Option<u64> = None;
    let mut i: usize = 0;
    while i < owners.len()
        invariant
            i <= owners@.len(),
            lo is None <==> forall|j: int| 0 <= j < i ==> owners@[j] == my_id,
            hi is None <==> lo is None,
            lo matches Some(m) ==> m != my_id && owners@.subrange(0, i as int).contains(m)
                && forall|j: int| 0 <= j < i && owners@[j] != my_id ==> m <= owners@[j],
            hi matches Some(m) ==> m != my_id && owners@.subrange(0, i as int).contains(m)
                && forall|j: int| 0 <= j < i && owners@[j] != my_id ==> owners@[j] <= m,
        decreases owners@.len() - i,
    {
        let o = owners[i];
        proof {
            if lo is Some {
                let m = lo.unwrap();
                let k = choose|k: int| 0 <= k < i && owners@.subrange(0, i as int)[k] == m;
                assert(owners@.subrange(0, i + 1)[k] == m);
            }
            if hi is Some {
                let m = hi.unwrap();
                let k = choose|k: int| 0 <= k < i && owners@.subrange(0, i as int)[k] == m;
                assert(owners@.subrange(0, i + 1)[k] == m);
            }
            assert(owners@.subrange(0, i + 1)[i as int] == o);
        }
        if o != my_id {
            lo = match lo {
                Some(m) => if o < m { Some(o) } else { Some(m) },
                None => Some(o),
            };
            hi = match hi {
                Some(m) => if o > m { Some(o) } else { Some(m) },
                None => Some(o),
            };
        }
        i = i + 1;
    }
    proof {
        assert(owners@.subrange(0, owners@.len() as int) =~= owners@);
    }
    (lo, hi)
}

/// Choose the board a piece of `owner` is drawn on: the player's own, or
/// the one showing that opponent.  Only owners that are drawn are asked
/// about.
pub fn board_for(owner: u64, my_id: u64, left: Option<u64>, right: Option<u64>) -> (r: GameBoard)
    requires
        owner == my_id || left == Some(owner) || right == Some(owner),
    ensures
        r == (if owner == my_id {
            GameBoard::MainBoard
        } else if left == Some(owner) {
            GameBoard::Left
        } else {
            GameBoard::Right
        }),
{
    if owner == my_id {
        GameBoard::MainBoard
    } else if left == Some(owner) {
        GameBoard::Left
    } else {
        GameBoard::Right
    }
}

/// The board a piece of `owner` is drawn on.
pub open spec fn spec_board_for(owner: u64, my_id: u64, left: Option<u64>, right: Option<u64>) -> GameBoard {
    if owner == my_id {
        GameBoard::MainBoard
    } else if left == Some(owner) {
        GameBoard::Left
    } else {
        GameBoard::Right
    }
}

/// The owner is the player or one of the two opponents shown.
pub open spec fn drawn_owner(owner: u64, my_id: u64, left: Option<u64>, right: Option<u64>) -> bool {
    owner == my_id || left == Some(owner) || right == Some(owner)
}

/// The colored cells `board` shows of the obstacles: the visible ones of
/// its owner, in order.
pub open spec fn obstacle_cells(
    obstacles: Seq<(Block, u64)>,
    my_id: u64,
    left: Option<u64>,
    right: Option<u64>,
    board: GameBoard,
) -> Seq<Block>
    decreases obstacles.len(),
{
    if obstacles.len() == 0 {
        seq![]
    } else {
        let rest = obstacle_cells(obstacles.drop_last(), my_id, left, right, board);
        let (b, o) = obstacles.last();
        if spec_cell_visible(b.cell) && spec_board_for(o, my_id, left, right) == board {
            rest.push(b)
        } else {
            rest
        }
    }
}

/// The visible cells of one piece, in the piece's color.
pub open spec fn piece_blocks(t: Tetromino) -> Seq<Block> {
    seq![
        Block { cell: t.cells[0], color: t.color },
        Block { cell: t.cells[1], color: t.color },
        Block { cell: t.cells[2], color: t.color },
        Block { cell: t.cells[3], color: t.color },
    ].filter(|b: Block| spec_cell_visible(b.cell))
}

/// The colored cells `board` shows of the active pieces: the visible cells
/// of each piece of its owner, in order.
pub open spec fn piece_cells(
    pieces: Seq<(Tetromino, u64)>,
    my_id: u64,
    left: Option<u64>,
    right: Option<u64>,
    board: GameBoard,
) -> Seq<Block>
    decreases pieces.len(),
{
    if pieces.len() == 0 {
        seq![]
    } else {
        let rest = piece_cells(pieces.drop_last(), my_id, left, right, board);
        let (t, o) = pieces.last();
        if spec_board_for(o, my_id, left, right) == board {
            rest + piece_blocks(t)
        } else {
            rest
        }
    }
}

/// The colored cells of one board: the obstacles, then the active pieces,
/// so that where two share a cell the later one's color shows.  Every owner
/// must be the player or one of the two opponents shown.
pub fn board_cells(
    obstacles: &Vec<(Block, u64)>,
    pieces: &Vec<(Tetromino, u64)>,
    my_id: u64,
    left: Option<u64>,
    right: Option<u64>,
    board: GameBoard,
) -> (r: Vec<Block>)
    requires
        forall|i: int| 0 <= i < obstacles@.len() ==> drawn_owner(#[trigger] obstacles@[i].1, my_id, left, right),
        forall|i: int| 0 <= i < pieces@.len() ==> drawn_owner(#[trigger] pieces@[i].1, my_id, left, right),
    ensures
        r@ == obstacle_cells(obstacles@, my_id, left, right, board) + piece_cells(pieces@, my_id, left, right, board),
{
    let mut out: Vec<Block> = Vec::new();
    let mut i: usize = 0;
    while i < obstacles.len()
        invariant
            i <= obstacles@.len(),
            forall|k: int| 0 <= k < obstacles@.len() ==> drawn_owner(#[trigger] obstacles@[k].1, my_id, left, right),
            out@ == obstacle_cells(obstacles@.take(i as int), my_id, left, right, board),
        decreases obstacles@.len() - i,
    {
        let (b, o) = obstacles[i];
        assert(obstacles@.take(i + 1).drop_last() =~= obstacles@.take(i as int));
        assert(obstacles@.take(i + 1).last() == obstacles@[i as int]);
        assert(drawn_owner(obstacles@[i as int].1, my_id, left, right));
        if b.cell.is_visible() && board_for(o, my_id, left, right) == board {
            out.push(b);
        }
        i = i + 1;
    }
    assert(obstacles@.take(obstacles@.len() as int) =~= obstacles@);
    let ghost base = out@;
    let mut j: usize = 0;
    while j < pieces.len()
        invariant
            j <= pieces@.len(),
            forall|k: int| 0 <= k < pieces@.len() ==> drawn_owner(#[trigger] pieces@[k].1, my_id, left, right),
            out@ == base + piece_cells(pieces@.take(j as int), my_id, left, right, board),
        decreases pieces@.len() - j,
    {
        let (t, o) = pieces[j];
        assert(pieces@.take(j + 1).drop_last() =~= pieces@.take(j as int));
        assert(pieces@.take(j + 1).last() == pieces@[j as int]);
        assert(drawn_owner(pieces@[j as int].1, my_id, left, right));
        if board_for(o, my_id, left, right) == board {
            let ghost before = out@;
            let mut k: usize = 0;
            let ghost all = seq![
                Block { cell: t.cells[0], color: t.color },
                Block { cell: t.cells[1], color: t.color },
                Block { cell: t.cells[2], color: t.color },
                Block { cell: t.cells[3], color: t.color },
            ];
            while k < 4
                invariant
                    k <= 4,
                    all == seq![
                        Block { cell: t.cells[0], color: t.color },
                        Block { cell: t.cells[1], color: t.color },
                        Block { cell: t.cells[2], color: t.color },
                        Block { cell: t.cells[3], color: t.color },
                    ],
                    out@ == before + all.take(k as int).filter(|b: Block| spec_cell_visible(b.cell)),
                decreases 4 - k,
            {
                let b = Block { cell: t.cells[k], color: t.color };
                assert(all.take(k + 1).drop_last() =~= all.take(k as int));
                assert(all[k as int] == b);
                proof {
                    all.take(k as int).lemma_filter_push(b, |b: Block| spec_cell_visible(b.cell));
                    assert(all.take(k + 1) =~= all.take(k as int).push(b));
                }
                if b.cell.is_visible() {
                    out.push(b);
                }
                k = k + 1;
            }
            assert(all.take(4) =~= all);
        }
        j = j + 1;
    }
    assert(pieces@.take(pieces@.len() as int) =~= pieces@);
    out
}

/// The title shown when the game ends.
pub open spec fn spec_game_over_title(msg: GameOverMessage) -> Seq<char> {
    if msg == GameOverMessage::Won {
        "You won!"@
    } else {
        "You lost!"@
    }
}

/// Word the end of the game for the title.
pub fn game_over_title(msg: GameOverMessage) -> (r: &'static str)
    ensures
        r@ == spec_game_over_title(msg),
{
    match msg {
        GameOverMessage::Won => "You won!",
        _ => "You lost!",
    }
}

/// The score panel: the score, and the level on a second line.
pub open spec fn spec_score_text(score: u32, level: u32) -> Seq<char> {
    "Score: "@ + decimal_digits(score as nat) + "\nLevel: "@ + decimal_digits(level as nat)
}

/// Write the score panel for the player's state.
pub fn score_text(state: &SharedGameState) -> (r: String)
    ensures
        r@ == spec_score_text(state.score, state.level),
{
    let mut s = String::new();
    s.append("Score: ");
    append_decimal_u64(&mut s, state.score() as u64);
    s.append("\nLevel: ");
    append_decimal_u64(&mut s, state.level() as u64);
    s
}

/// The hard-drop indicator.
pub open spec fn spec_hard_drop_text(on: bool) -> Seq<char> {
    if on {
        "Hard Drop: On"@
    } else {
        "Hard Drop: Off"@
    }
}

/// Word the hard-drop indicator for the player's state.
pub fn hard_drop_text(state: &SharedGameState) -> (r: &'static str)
    ensures
        r@ == spec_hard_drop_text(state.hard_drop),
{
    if state.hard_drop {
        "Hard Drop: On"
    } else {
        "Hard Drop: Off"
    }
}

/// The buttons of the popup that asks the winner whether to keep playing.
#[derive(Clone, Copy, Debug, PartialEq, Eq, Structural)]
pub enum ContinueChoice {
    Yes,
    No,
}

/// The input sent for a click on a popup button.
pub fn continue_input(choice: ContinueChoice) -> (r: Input)
    ensures
        r == (if choice == ContinueChoice::Yes { Input::ContinueYes } else { Input::ContinueNo }),
{
    match choice {
        ContinueChoice::Yes => Input::ContinueYes,
        ContinueChoice::No => Input::ContinueNo,
    }
}

} // verus!

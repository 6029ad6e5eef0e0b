//! The mathematical model of the game: players, cells, the abstract game
//! state, and the transition function that a move performs on it.

use vstd::prelude::*;

verus! {

/// One of the two sides. `X` moves first.
#[derive(Clone, Copy, PartialEq, Eq, Structural, Debug)]
pub enum Player {
    X,
    O,
}

/// Contents of one board square.
#[derive(Clone, Copy, PartialEq, Eq, Structural, Debug)]
pub enum Cell {
    Empty,
    Occupied(Player),
}

/// Why a move was rejected. A move mutates nothing when it is rejected.
#[derive(Clone, Copy, PartialEq, Eq, Structural, Debug)]
pub enum GameError {
    /// A winner is already decided; the game accepts no further moves.
    GameEnded,
    /// The requested row or column lies outside the 3x3 grid.
    OutOfBounds,
    /// The requested square already holds a piece.
    CellOccupied,
    /// The opponent mover was asked to act when it is not its turn.
    NotOpponentTurn,
}

impl Player {
    /// The other side.
    pub open spec fn spec_other(self) -> Player {
        if self is X {
            Player::O
        } else {
            Player::X
        }
    }

    /// The other side.
    pub fn other(self) -> (p: Player)
        ensures
            p == self.spec_other(),
    {
        match self {
            Player::X => Player::O,
            Player::O => Player::X,
        }
    }
}

/// The player's mark as a cell value.
pub open spec fn mark(p: Player) -> Cell {
    Cell::Occupied(p)
}

/// A coordinate pair names a square of the 3x3 grid.
pub open spec fn valid_rc(rc: (usize, usize)) -> bool {
    rc.0 < 3 && rc.1 < 3
}

/// Row-major index of a coordinate pair into a board of nine squares.
pub open spec fn idx(rc: (usize, usize)) -> int {
    rc.0 * 3 + rc.1
}

/// Coordinate pair of a row-major board index.
pub open spec fn rc_of(k: int) -> (usize, usize) {
    ((k / 3) as usize, (k % 3) as usize)
}

/// The abstract state of a game, as the contracts speak of it.
#[verifier::ext_equal]
pub struct GameView {
    /// The nine squares, row-major.
    pub board: Seq<Cell>,
    /// Coordinates of X's surviving pieces, oldest first.
    pub moves_x: Seq<(usize, usize)>,
    /// Coordinates of O's surviving pieces, oldest first.
    pub moves_o: Seq<(usize, usize)>,
    /// Whose turn it is.
    pub current_player: Player,
    /// The winner, once a winning line appears.
    pub winner: Option<Player>,
}

impl GameView {
    /// The recorded move history of the given player.
    pub open spec fn hist(self, p: Player) -> Seq<(usize, usize)> {
        if p is X {
            self.moves_x
        } else {
            self.moves_o
        }
    }

    /// The square at the given coordinates.
    pub open spec fn at(self, rc: (usize, usize)) -> Cell {
        self.board[idx(rc)]
    }

    /// All recorded coordinates of the given player lie on the grid.
    pub open spec fn coords_valid(self, p: Player) -> bool {
        forall|i: int| 0 <= i < self.hist(p).len() ==> valid_rc(#[trigger] self.hist(p)[i])
    }

    /// A square holds the given player's mark exactly when the player's
    /// history records its coordinates.
    pub open spec fn marks_match(self, p: Player) -> bool {
        forall|rc: (usize, usize)|
            #![trigger self.at(rc)]
            #![trigger self.hist(p).contains(rc)]
            valid_rc(rc) ==> (self.at(rc) == mark(p) <==> self.hist(p).contains(rc))
    }

    /// A decided winner owns a winning line on the current board, and the
    /// turn never advanced past the winner.
    pub open spec fn winner_coherent(self) -> bool {
        match self.winner {
            Some(p) => winning(self.board, p) && self.current_player == p,
            None => true,
        }
    }

    /// Well-formedness: the shape every reachable game state has.
    pub open spec fn wf(self) -> bool {
        &&& self.board.len() == 9
        &&& self.moves_x.len() <= 3
        &&& self.moves_o.len() <= 3
        &&& self.moves_x.no_duplicates()
        &&& self.moves_o.no_duplicates()
        &&& self.coords_valid(Player::X)
        &&& self.coords_valid(Player::O)
        &&& self.marks_match(Player::X)
        &&& self.marks_match(Player::O)
        &&& self.winner_coherent()
    }
}

/// The state a fresh game starts in: empty board, X to move, no winner.
pub open spec fn init_view() -> GameView {
    GameView {
        board: Seq::new(9, |i: int| Cell::Empty),
        moves_x: Seq::empty(),
        moves_o: Seq::empty(),
        current_player: Player::X,
        winner: None,
    }
}

/// Three given squares all hold the given player's mark.
pub open spec fn line_won(b: Seq<Cell>, p: Player, a: int, m: int, z: int) -> bool {
    b[a] == mark(p) && b[m] == mark(p) && b[z] == mark(p)
}

/// The player owns one of the eight winning lines: three rows, three
/// columns, two diagonals.
pub open spec fn winning(b: Seq<Cell>, p: Player) -> bool {
    ||| line_won(b, p, 0, 1, 2)
    ||| line_won(b, p, 3, 4, 5)
    ||| line_won(b, p, 6, 7, 8)
    ||| line_won(b, p, 0, 3, 6)
    ||| line_won(b, p, 1, 4, 7)
    ||| line_won(b, p, 2, 5, 8)
    ||| line_won(b, p, 0, 4, 8)
    ||| line_won(b, p, 2, 4, 6)
}

/// The board after `p` places at (`row`, `col`): if `p` already has three
/// pieces its oldest square is cleared first, then the new square is marked.
pub open spec fn board_after(g: GameView, p: Player, row: usize, col: usize) -> Seq<Cell> {
    let b0 = if g.hist(p).len() >= 3 {
        g.board.update(idx(g.hist(p)[0]), Cell::Empty)
    } else {
        g.board
    };
    b0.update(idx((row, col)), mark(p))
}

/// The history of `p` after placing at (`row`, `col`): the oldest entry is
/// dropped when three are recorded, and the new coordinate is appended.
pub open spec fn hist_after(g: GameView, p: Player, row: usize, col: usize) -> Seq<
    (usize, usize),
> {
    let h = g.hist(p);
    let h0 = if h.len() >= 3 {
        h.subrange(1, h.len() as int)
    } else {
        h
    };
    h0.push((row, col))
}

/// The whole state after `p` places at (`row`, `col`): retirement, then
/// placement, then the win check; the turn advances only when `p` did not
/// win.
pub open spec fn moved(g: GameView, p: Player, row: usize, col: usize) -> GameView {
    let nb = board_after(g, p, row, col);
    let nh = hist_after(g, p, row, col);
    GameView {
        board: nb,
        moves_x: if p is X {
            nh
        } else {
            g.moves_x
        },
        moves_o: if p is O {
            nh
        } else {
            g.moves_o
        },
        current_player: if winning(nb, p) {
            p
        } else {
            p.spec_other()
        },
        winner: if winning(nb, p) {
            Some(p)
        } else {
            g.winner
        },
    }
}

/// Whether a move at (`row`, `col`) is accepted, and the failure otherwise.
/// The checks apply in this order: a decided game, then the grid bounds,
/// then an occupied square.
pub open spec fn move_result(g: GameView, row: usize, col: usize) -> Result<(), GameError> {
    if g.winner is Some {
        Err(GameError::GameEnded)
    } else if row > 2 || col > 2 {
        Err(GameError::OutOfBounds)
    } else if g.at((row, col)) != Cell::Empty {
        Err(GameError::CellOccupied)
    } else {
        Ok(())
    }
}

/// The state after asking for a move at (`row`, `col`): unchanged when the
/// move is rejected, the placed state otherwise.
pub open spec fn step(g: GameView, row: usize, col: usize) -> GameView {
    if move_result(g, row, col) is Ok {
        moved(g, g.current_player, row, col)
    } else {
        g
    }
}

/// The square of row-major index `k` lies on the board and is empty.
pub open spec fn empty_k(g: GameView, k: int) -> bool {
    0 <= k < 9 && g.board[k] == Cell::Empty
}

/// Placing a piece of `p` at square `k` — retirement included — would give
/// `p` a winning line.
pub open spec fn wins_at(g: GameView, p: Player, k: int) -> bool {
    winning(board_after(g, p, rc_of(k).0, rc_of(k).1), p)
}

/// Some empty square would let `p` win immediately.
pub open spec fn some_winning_square(g: GameView, p: Player) -> bool {
    exists|j: int| empty_k(g, j) && #[trigger] wins_at(g, p, j)
}

/// Square `k` lets `p` win immediately, and no earlier empty square
/// (row-major order) does.
pub open spec fn first_winning_square(g: GameView, p: Player, k: int) -> bool {
    &&& wins_at(g, p, k)
    &&& forall|j: int| 0 <= j < k && empty_k(g, j) ==> !#[trigger] wins_at(g, p, j)
}

/// The squares the opponent mover may pick: the first empty square
/// (row-major) that wins now for O; failing that, the first whose
/// occupation by X would win for X — the block; failing both, any empty
/// square.
pub open spec fn ai_pick_ok(g: GameView, k: int) -> bool {
    &&& empty_k(g, k)
    &&& if some_winning_square(g, Player::O) {
        first_winning_square(g, Player::O, k)
    } else if some_winning_square(g, Player::X) {
        first_winning_square(g, Player::X, k)
    } else {
        true
    }
}

/// The opponent move turned `g` into `g2`: some square the three-tier rule
/// allows was picked, and the piece was placed there by the ordinary move
/// semantics.
pub open spec fn ai_step_ok(g: GameView, g2: GameView) -> bool {
    exists|k: int|
        #[trigger] ai_pick_ok(g, k) && g2 == moved(g, Player::O, rc_of(k).0, rc_of(k).1)
}

/// Number of squares of `b` holding `p`'s mark.
pub open spec fn count_marks(b: Seq<Cell>, p: Player) -> int
    decreases b.len(),
{
    if b.len() == 0 {
        0
    } else {
        count_marks(b.drop_last(), p) + if b.last() == mark(p) {
            1int
        } else {
            0int
        }
    }
}

/// Number of empty squares of `b`.
pub open spec fn count_empty(b: Seq<Cell>) -> int
    decreases b.len(),
{
    if b.len() == 0 {
        0
    } else {
        count_empty(b.drop_last()) + if b.last() == Cell::Empty {
            1int
        } else {
            0int
        }
    }
}

/// The state after asking for every move of `ms` in order, from `g`.
pub open spec fn replay(g: GameView, ms: Seq<(usize, usize)>) -> GameView
    decreases ms.len(),
{
    if ms.len() == 0 {
        g
    } else {
        replay(step(g, ms[0].0, ms[0].1), ms.subrange(1, ms.len() as int))
    }
}

} // verus!

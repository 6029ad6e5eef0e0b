//! The game engine: the board, the per-player move histories, the turn and
//! the winner, mutated only through `new` and `play`.

use vstd::prelude::*;

use crate::invariants::lemma_empty_square_exists;
use crate::invariants::lemma_moved_wf;
use crate::model::ai_pick_ok;
use crate::model::ai_step_ok;
use crate::model::board_after;
use crate::model::empty_k;
use crate::model::first_winning_square;
use crate::model::idx;
use crate::model::init_view;
use crate::model::mark;
use crate::model::move_result;
use crate::model::moved;
use crate::model::rc_of;
use crate::model::some_winning_square;
use crate::model::step;
use crate::model::valid_rc;
use crate::model::winning;
use crate::model::wins_at;
use crate::model::Cell;
use crate::model::GameError;
use crate::model::GameView;
use crate::model::Player;
use crate::rng::random_below;

verus! {

/// A running game. Each side keeps at most three pieces; a fourth placement
/// retires that side's oldest piece first.
pub struct Game {
    board: Vec<Cell>,
    moves_x: Vec<(usize, usize)>,
    moves_o: Vec<(usize, usize)>,
    current_player: Player,
    winner: Option<Player>,
}

impl View for Game {
    type V = GameView;

    closed spec fn view(&self) -> GameView {
        GameView {
            board: self.board@,
            moves_x: self.moves_x@,
            moves_o: self.moves_o@,
            current_player: self.current_player,
            winner: self.winner,
        }
    }
}

impl Game {
    #[verifier::type_invariant]
    spec fn inv(self) -> bool {
        self@.wf()
    }

    /// A fresh game: empty board, X to move, no winner.
    pub fn new() -> (g: Game)
        ensures
            g@ == init_view(),
            g@.wf(),
    {
        let mut board: Vec<Cell> = Vec::new();
        let mut i: usize = 0;
        while i < 9
            invariant
                i <= 9,
                board@.len() == i,
                forall|k: int| 0 <= k < i ==> board@[k] == Cell::Empty,
            decreases 9 - i,
        {
            board.push(Cell::Empty);
            i += 1;
        }
        let g = Game {
            board,
            moves_x: Vec::new(),
            moves_o: Vec::new(),
            current_player: Player::X,
            winner: None,
        };
        proof {
            assert(g@.board =~= init_view().board);
            assert(g@ =~= init_view());
        }
        g
    }

    /// The contents of the square at (`row`, `col`).
    pub fn cell_at(&self, row: usize, col: usize) -> (c: Cell)
        requires
            row < 3,
            col < 3,
        ensures
            c == self@.at((row, col)),
    {
        proof {
            use_type_invariant(&*self);
        }
        self.board[row * 3 + col]
    }

    /// Whose turn it is.
    pub fn current_turn(&self) -> (p: Player)
        ensures
            p == self@.current_player,
    {
        self.current_player
    }

    /// The winner, if one is decided.
    pub fn winner(&self) -> (w: Option<Player>)
        ensures
            w == self@.winner,
    {
        self.winner
    }

    /// The surviving pieces of `p`, oldest first.
    pub fn history(&self, p: Player) -> (h: &Vec<(usize, usize)>)
        ensures
            h@ == self@.hist(p),
    {
        match p {
            Player::X => &self.moves_x,
            Player::O => &self.moves_o,
        }
    }

    /// Whether `player` currently owns one of the eight lines.
    pub fn check_winner(&self, player: Player) -> (won: bool)
        ensures
            won == winning(self@.board, player),
    {
        proof {
            use_type_invariant(&*self);
        }
        line_win(&self.board, player)
    }

    /// The state after `p` places at (`row`, `col`), built on a scratch
    /// copy: the caller's own state is untouched. The lookahead hands in
    /// the side to simulate for; a real move hands in the current player.
    fn placed(&self, p: Player, row: usize, col: usize) -> (g: Game)
        requires
            self@.winner is None,
            row < 3,
            col < 3,
            self@.at((row, col)) == Cell::Empty,
        ensures
            g@ == moved(self@, p, row, col),
            g@.wf(),
    {
        proof {
            use_type_invariant(&*self);
            lemma_moved_wf(self@, p, row, col);
        }
        let mut board = self.board.clone();
        let hist = match p {
            Player::X => &self.moves_x,
            Player::O => &self.moves_o,
        };
        let mut new_hist = copy_coords(hist);
        proof {
            assert(board@ =~= self.board@);
        }
        if new_hist.len() == 3 {
            let (old_r, old_c) = new_hist.remove(0);
            proof {
                assert(self@.hist(p)[0] == (old_r, old_c));
                assert(self@.hist(p).contains(self@.hist(p)[0]));
                assert(valid_rc((old_r, old_c)));
            }
            board[old_r * 3 + old_c] = Cell::Empty;
        }
        board[row * 3 + col] = Cell::Occupied(p);
        new_hist.push((row, col));
        proof {
            assert(board@ =~= board_after(self@, p, row, col));
        }
        let won = line_win(&board, p);
        let (hx, ho) = match p {
            Player::X => (new_hist, copy_coords(&self.moves_o)),
            Player::O => (copy_coords(&self.moves_x), new_hist),
        };
        let g = Game {
            board,
            moves_x: hx,
            moves_o: ho,
            current_player: if won {
                p
            } else {
                p.other()
            },
            winner: if won {
                Some(p)
            } else {
                self.winner
            },
        };
        proof {
            assert(g@.moves_x =~= moved(self@, p, row, col).moves_x);
            assert(g@.moves_o =~= moved(self@, p, row, col).moves_o);
            assert(g@ =~= moved(self@, p, row, col));
        }
        g
    }

    /// Ask for a move at (`row`, `col`) by the player whose turn it is.
    ///
    /// The move is rejected, and nothing changes, when the game has ended,
    /// the coordinates leave the grid, or the square is occupied — checked
    /// in that order. Otherwise the piece is placed (retiring the mover's
    /// oldest piece if it already has three), the win condition is
    /// evaluated, and the turn advances unless the mover won.
    pub fn play(&mut self, row: usize, col: usize) -> (r: Result<(), GameError>)
        ensures
            r == move_result(old(self)@, row, col),
            final(self)@ == step(old(self)@, row, col),
            final(self)@.wf(),
    {
        proof {
            use_type_invariant(&*self);
        }
        if self.winner.is_some() {
            return Err(GameError::GameEnded);
        }
        if row > 2 || col > 2 {
            return Err(GameError::OutOfBounds);
        }
        let here = self.board[row * 3 + col];
        if !matches!(here, Cell::Empty) {
            return Err(GameError::CellOccupied);
        }
        let mover = self.current_player;
        let next = self.placed(mover, row, col);
        *self = next;
        Ok(())
    }

    /// Compute and apply the opponent's (O's) move by the three-tier rule:
    /// the first empty square in row-major order whose occupation wins now
    /// for O; failing that, the first whose occupation by X would win for
    /// X — the block; failing both, a square drawn at random among the
    /// empty ones, of which at least three always remain. The committed
    /// move follows the ordinary `play` semantics, retirement, win check
    /// and turn advance included.
    pub fn play_ai_move(&mut self) -> (r: Result<(), GameError>)
        ensures
            old(self)@.winner is Some ==> r == Err::<(), GameError>(GameError::GameEnded)
                && final(self)@ == old(self)@,
            old(self)@.winner is None && old(self)@.current_player != Player::O ==> r == Err::<
                (),
                GameError,
            >(GameError::NotOpponentTurn) && final(self)@ == old(self)@,
            old(self)@.winner is None && old(self)@.current_player == Player::O ==> r == Ok::<
                (),
                GameError,
            >(()) && ai_step_ok(old(self)@, final(self)@),
            final(self)@.wf(),
    {
        proof {
            use_type_invariant(&*self);
        }
        if self.winner.is_some() {
            return Err(GameError::GameEnded);
        }
        if !matches!(self.current_player, Player::O) {
            return Err(GameError::NotOpponentTurn);
        }
        let ghost g0 = self@;

        // Tier 1: take the first square that wins now.
        let mut k: usize = 0;
        while k < 9
            invariant
                g0 == old(self)@,
                self@ == g0,
                g0.wf(),
                g0.winner is None,
                g0.current_player == Player::O,
                k <= 9,
                forall|j: int|
                    0 <= j < k && empty_k(g0, j) ==> !#[trigger] wins_at(g0, Player::O, j),
            decreases 9 - k,
        {
            let row = k / 3;
            let col = k % 3;
            proof {
                assert(rc_of(k as int) == (row, col));
                assert(idx((row, col)) == k);
            }
            if matches!(self.board[k], Cell::Empty) {
                let sim = self.placed(Player::O, row, col);
                if matches!(sim.winner(), Some(Player::O)) {
                    proof {
                        assert(wins_at(g0, Player::O, k as int));
                        assert(some_winning_square(g0, Player::O));
                        assert(first_winning_square(g0, Player::O, k as int));
                        assert(ai_pick_ok(g0, k as int));
                    }
                    let res = self.play(row, col);
                    proof {
                        assert(self@ == moved(g0, Player::O, row, col));
                        assert(ai_step_ok(g0, self@));
                    }
                    return res;
                }
                proof {
                    assert(!wins_at(g0, Player::O, k as int));
                }
            }
            k += 1;
        }
        proof {
            assert(!some_winning_square(g0, Player::O));
        }

        // Tier 2: block the first square that would win now for X.
        let mut k: usize = 0;
        while k < 9
            invariant
                g0 == old(self)@,
                self@ == g0,
                g0.wf(),
                g0.winner is None,
                g0.current_player == Player::O,
                !some_winning_square(g0, Player::O),
                k <= 9,
                forall|j: int|
                    0 <= j < k && empty_k(g0, j) ==> !#[trigger] wins_at(g0, Player::X, j),
            decreases 9 - k,
        {
            let row = k / 3;
            let col = k % 3;
            proof {
                assert(rc_of(k as int) == (row, col));
                assert(idx((row, col)) == k);
            }
            if matches!(self.board[k], Cell::Empty) {
                let sim = self.placed(Player::X, row, col);
                if matches!(sim.winner(), Some(Player::X)) {
                    proof {
                        assert(wins_at(g0, Player::X, k as int));
                        assert(some_winning_square(g0, Player::X));
                        assert(first_winning_square(g0, Player::X, k as int));
                        assert(ai_pick_ok(g0, k as int));
                    }
                    let res = self.play(row, col);
                    proof {
                        assert(self@ == moved(g0, Player::O, row, col));
                        assert(ai_step_ok(g0, self@));
                    }
                    return res;
                }
                proof {
                    assert(!wins_at(g0, Player::X, k as int));
                }
            }
            k += 1;
        }
        proof {
            assert(!some_winning_square(g0, Player::X));
        }

        // Tier 3: draw among the empty squares.
        let mut empties: Vec<(usize, usize)> = Vec::new();
        let mut k: usize = 0;
        while k < 9
            invariant
                g0 == old(self)@,
                self@ == g0,
                g0.wf(),
                g0.winner is None,
                g0.current_player == Player::O,
                !some_winning_square(g0, Player::O),
                !some_winning_square(g0, Player::X),
                k <= 9,
                forall|m: int|
                    0 <= m < empties@.len() ==> valid_rc(#[trigger] empties@[m]) && empty_k(
                        g0,
                        idx(empties@[m]),
                    ),
                forall|j: int|
                    0 <= j < k && empty_k(g0, j) ==> #[trigger] empties@.contains(rc_of(j)),
            decreases 9 - k,
        {
            let row = k / 3;
            let col = k % 3;
            proof {
                assert(rc_of(k as int) == (row, col));
                assert(idx((row, col)) == k);
            }
            if matches!(self.board[k], Cell::Empty) {
                let ghost pre = empties@;
                empties.push((row, col));
                proof {
                    assert forall|j: int|
                        0 <= j < k + 1 && empty_k(g0, j) implies #[trigger] empties@.contains(
                        rc_of(j),
                    ) by {
                        if j < k {
                            assert(pre.contains(rc_of(j)));
                            let m = choose|m: int| 0 <= m < pre.len() && pre[m] == rc_of(j);
                            assert(empties@[m] == rc_of(j));
                        } else {
                            assert(empties@[pre.len() as int] == rc_of(j));
                        }
                    }
                }
            }
            k += 1;
        }
        proof {
            lemma_empty_square_exists(g0);
            let j = choose|j: int| 0 <= j < 9 && g0.board[j] == Cell::Empty;
            assert(empty_k(g0, j));
            assert(empties@.contains(rc_of(j)));
            assert(empties@.len() >= 1);
        }
        let pick = random_below(empties.len());
        let (row, col) = empties[pick];
        proof {
            let rc = empties@[pick as int];
            assert(valid_rc(rc) && empty_k(g0, idx(rc)));
            assert(rc_of(idx(rc)) == rc);
            assert(ai_pick_ok(g0, idx(rc)));
        }
        let res = self.play(row, col);
        proof {
            assert(self@ == moved(g0, Player::O, row, col));
            assert(ai_step_ok(g0, self@));
        }
        res
    }
}

/// A fresh vector holding the same coordinates.
fn copy_coords(v: &Vec<(usize, usize)>) -> (r: Vec<(usize, usize)>)
    ensures
        r@ == v@,
{
    let mut r: Vec<(usize, usize)> = Vec::new();
    let mut i: usize = 0;
    while i < v.len()
        invariant
            i <= v.len(),
            r@ == v@.subrange(0, i as int),
        decreases v.len() - i,
    {
        let rc = v[i];
        r.push(rc);
        proof {
            assert(v@.subrange(0, i as int).push(v@[i as int]) =~= v@.subrange(0, i + 1));
        }
        i += 1;
    }
    proof {
        assert(v@.subrange(0, v@.len() as int) =~= v@);
    }
    r
}

/// Whether `player` owns one of the eight lines of a nine-square board.
fn line_win(b: &Vec<Cell>, player: Player) -> (won: bool)
    requires
        b@.len() == 9,
    ensures
        won == winning(b@, player),
{
    let p = Cell::Occupied(player);
    proof {
        assert(p == mark(player));
    }
    (b[0] == p && b[1] == p && b[2] == p) || (b[3] == p && b[4] == p && b[5] == p) || (b[6] == p
        && b[7] == p && b[8] == p) || (b[0] == p && b[3] == p && b[6] == p) || (b[1] == p && b[4]
        == p && b[7] == p) || (b[2] == p && b[5] == p && b[8] == p) || (b[0] == p && b[4] == p
        && b[8] == p) || (b[2] == p && b[4] == p && b[6] == p)
}

} // verus!

//! The engine's general guarantees, stated once over the model and proved.
//! `play` pins its outcome to `step`, and `play_ai_move` to `ai_step_ok`,
//! so these laws carry over to every game the engine runs.

use vstd::prelude::*;

use crate::invariants::lemma_idx_injective;
use crate::invariants::lemma_marks_match_count;
use crate::invariants::lemma_moved_wf;
use crate::model::count_marks;
use crate::model::idx;
use crate::model::init_view;
use crate::model::mark;
use crate::model::move_result;
use crate::model::moved;
use crate::model::replay;
use crate::model::step;
use crate::model::valid_rc;
use crate::model::winning;
use crate::model::Cell;
use crate::model::GameError;
use crate::model::GameView;
use crate::model::Player;

verus! {

/// Law: the initial state is well formed.
pub proof fn lemma_init_wf()
    ensures
        init_view().wf(),
{
    assert forall|rc: (usize, usize)| valid_rc(rc) implies init_view().at(rc)
        == Cell::Empty by {}
}

/// Law: asking for a move keeps the state well formed. Together with
/// `lemma_init_wf`, every state a game reaches is well formed.
pub proof fn lemma_step_preserves_wf(g: GameView, row: usize, col: usize)
    requires
        g.wf(),
    ensures
        step(g, row, col).wf(),
{
    if move_result(g, row, col) is Ok {
        lemma_moved_wf(g, g.current_player, row, col);
    }
}

/// Law: in every well-formed state the number of squares a player occupies
/// equals the length of that player's move history, and is at most three.
pub proof fn lemma_piece_count_matches_history(g: GameView, p: Player)
    requires
        g.wf(),
    ensures
        count_marks(g.board, p) == g.hist(p).len(),
        g.hist(p).len() <= 3,
{
    lemma_marks_match_count(g, p);
}

/// Law: every coordinate a player's history records lies on the grid and
/// is occupied by that player's own mark.
pub proof fn lemma_history_cell_occupied(g: GameView, p: Player, i: int)
    requires
        g.wf(),
        0 <= i < g.hist(p).len(),
    ensures
        valid_rc(g.hist(p)[i]),
        g.at(g.hist(p)[i]) == mark(p),
{
    assert(g.hist(p).contains(g.hist(p)[i]));
}

/// Law: the retirement that accompanies a fourth placement empties the
/// retired square in the very operation that retires it.
pub proof fn lemma_retired_square_cleared(g: GameView, row: usize, col: usize)
    requires
        g.wf(),
        row < 3,
        col < 3,
        g.at((row, col)) == Cell::Empty,
        g.hist(g.current_player).len() == 3,
    ensures
        moved(g, g.current_player, row, col).at(g.hist(g.current_player)[0]) == Cell::Empty,
{
    let p = g.current_player;
    let rc0 = g.hist(p)[0];
    assert(g.hist(p).contains(rc0));
    assert(g.at(rc0) == mark(p));
    if idx(rc0) == idx((row, col)) {
        lemma_idx_injective(rc0, (row, col));
    }
}

/// Law: replaying one sequence of moves from a fresh game always reaches
/// one state. Each step of `replay` — and, by its contract, each call of
/// `play` — is a function of the preceding state and the move alone, so
/// no run of the same sequence can diverge from another.
pub proof fn lemma_replay_deterministic(ms: Seq<(usize, usize)>, g1: GameView, g2: GameView)
    requires
        g1 == replay(init_view(), ms),
        g2 == replay(init_view(), ms),
    ensures
        g1 == g2,
{
}

/// Law: a decided winner owns one of the eight lines on the current
/// board, and the turn rests with the winner: it never advanced past the
/// winning move.
pub proof fn lemma_winner_has_line(g: GameView, p: Player)
    requires
        g.wf(),
        g.winner == Some(p),
    ensures
        winning(g.board, p),
        g.current_player == p,
{
}

/// Law: while the game is running, a move outside the grid fails with
/// `OutOfBounds` and changes nothing. (Once a winner is decided, the
/// `GameEnded` failure takes precedence over the bounds check.)
pub proof fn lemma_out_of_bounds_rejected(g: GameView, row: usize, col: usize)
    requires
        g.winner is None,
        row > 2 || col > 2,
    ensures
        move_result(g, row, col) == Err::<(), GameError>(GameError::OutOfBounds),
        step(g, row, col) == g,
{
}

/// Law: once a winner is decided the state is terminal: every further move
/// request fails with `GameEnded` and changes nothing.
pub proof fn lemma_ended_game_rejects_moves(g: GameView, row: usize, col: usize)
    requires
        g.winner is Some,
    ensures
        move_result(g, row, col) == Err::<(), GameError>(GameError::GameEnded),
        step(g, row, col) == g,
{
}

/// Law: while the game is running, a move onto an occupied square fails
/// with `CellOccupied` and changes nothing.
pub proof fn lemma_occupied_square_rejected(g: GameView, row: usize, col: usize)
    requires
        g.winner is None,
        row < 3,
        col < 3,
        g.at((row, col)) != Cell::Empty,
    ensures
        move_result(g, row, col) == Err::<(), GameError>(GameError::CellOccupied),
        step(g, row, col) == g,
{
}

} // verus!

//! Proofs that every reachable game state is well formed, and the counting
//! facts that relate the board to the move histories.

use vstd::prelude::*;

use crate::model::board_after;
use crate::model::count_empty;
use crate::model::count_marks;
use crate::model::hist_after;
use crate::model::idx;
use crate::model::mark;
use crate::model::moved;
use crate::model::valid_rc;
use crate::model::Cell;
use crate::model::GameView;
use crate::model::Player;

verus! {

/// Distinct squares of the grid have distinct row-major indices.
pub proof fn lemma_idx_injective(a: (usize, usize), b: (usize, usize))
    requires
        valid_rc(a),
        valid_rc(b),
        idx(a) == idx(b),
    ensures
        a == b,
{
    assert(a.0 == b.0 && a.1 == b.1);
}

/// Membership in a pushed sequence: the old members plus the new element.
proof fn lemma_push_contains(s: Seq<(usize, usize)>, v: (usize, usize), rc: (usize, usize))
    ensures
        s.push(v).contains(rc) <==> (s.contains(rc) || rc == v),
{
    if s.contains(rc) {
        let i = choose|i: int| 0 <= i < s.len() && s[i] == rc;
        assert(s.push(v)[i] == rc);
    }
    if rc == v {
        assert(s.push(v)[s.len() as int] == rc);
    }
    if s.push(v).contains(rc) {
        let i = choose|i: int| 0 <= i < s.push(v).len() && s.push(v)[i] == rc;
        if i < s.len() {
            assert(s[i] == rc);
        }
    }
}

/// Membership in the tail of a duplicate-free sequence: the old members
/// except the head.
proof fn lemma_tail_contains(h: Seq<(usize, usize)>, rc: (usize, usize))
    requires
        h.no_duplicates(),
        h.len() > 0,
    ensures
        h.subrange(1, h.len() as int).contains(rc) <==> (h.contains(rc) && rc != h[0]),
{
    let t = h.subrange(1, h.len() as int);
    if t.contains(rc) {
        let i = choose|i: int| 0 <= i < t.len() && t[i] == rc;
        assert(h[i + 1] == rc);
        assert(h.contains(rc));
        assert(h[0] != h[i + 1]);
    }
    if h.contains(rc) && rc != h[0] {
        let i = choose|i: int| 0 <= i < h.len() && h[i] == rc;
        assert(i != 0);
        assert(t[i - 1] == rc);
        assert(t.contains(rc));
    }
}

/// Updating one square changes the two counts by exactly the contribution
/// of the old and the new cell value.
proof fn lemma_counts_update(b: Seq<Cell>, p: Player, j: int, v: Cell)
    requires
        0 <= j < b.len(),
    ensures
        count_marks(b.update(j, v), p) == count_marks(b, p) - (if b[j] == mark(p) {
            1int
        } else {
            0int
        }) + (if v == mark(p) {
            1int
        } else {
            0int
        }),
        count_empty(b.update(j, v)) == count_empty(b) - (if b[j] == Cell::Empty {
            1int
        } else {
            0int
        }) + (if v == Cell::Empty {
            1int
        } else {
            0int
        }),
    decreases b.len(),
{
    let b2 = b.update(j, v);
    if j == b.len() - 1 {
        assert(b2.drop_last() =~= b.drop_last());
        assert(b2.last() == v);
    } else {
        assert(b2.drop_last() =~= b.drop_last().update(j, v));
        lemma_counts_update(b.drop_last(), p, j, v);
        assert(b2.last() == b.last());
    }
}

/// A board without `p`'s mark anywhere counts zero marks for `p`.
proof fn lemma_count_marks_none(b: Seq<Cell>, p: Player)
    requires
        forall|k: int| 0 <= k < b.len() ==> #[trigger] b[k] != mark(p),
    ensures
        count_marks(b, p) == 0,
    decreases b.len(),
{
    if b.len() > 0 {
        lemma_count_marks_none(b.drop_last(), p);
    }
}

/// Each square is empty or marked by one side, so the three counts
/// partition the board.
pub proof fn lemma_counts_partition(b: Seq<Cell>)
    ensures
        count_empty(b) + count_marks(b, Player::X) + count_marks(b, Player::O) == b.len(),
    decreases b.len(),
{
    if b.len() > 0 {
        lemma_counts_partition(b.drop_last());
        match b.last() {
            Cell::Empty => {},
            Cell::Occupied(p) => {
                assert(b.last() == mark(p));
            },
        }
    }
}

/// A positive count of empty squares yields an empty square.
pub proof fn lemma_empty_cell_exists(b: Seq<Cell>)
    requires
        count_empty(b) > 0,
    ensures
        exists|k: int| 0 <= k < b.len() && b[k] == Cell::Empty,
    decreases b.len(),
{
    if b.last() == Cell::Empty {
        assert(b[b.len() - 1] == Cell::Empty);
    } else {
        lemma_empty_cell_exists(b.drop_last());
        let k = choose|k: int|
            0 <= k < b.drop_last().len() && b.drop_last()[k] == Cell::Empty;
        assert(b[k] == Cell::Empty);
    }
}

/// A board whose `p`-marked squares are exactly the members of a
/// duplicate-free coordinate sequence holds as many `p` marks as that
/// sequence has entries.
proof fn lemma_count_marks_from_hist(b: Seq<Cell>, h: Seq<(usize, usize)>, p: Player)
    requires
        b.len() == 9,
        h.no_duplicates(),
        forall|i: int| 0 <= i < h.len() ==> valid_rc(#[trigger] h[i]),
        forall|rc: (usize, usize)|
            valid_rc(rc) ==> (b[idx(rc)] == mark(p) <==> #[trigger] h.contains(rc)),
    ensures
        count_marks(b, p) == h.len(),
    decreases h.len(),
{
    if h.len() == 0 {
        assert forall|k: int| 0 <= k < b.len() implies #[trigger] b[k] != mark(p) by {
            let rc = ((k / 3) as usize, (k % 3) as usize);
            assert(valid_rc(rc));
            assert(idx(rc) == k);
            assert(!h.contains(rc));
        }
        lemma_count_marks_none(b, p);
    } else {
        let rc0 = h.last();
        assert(h[h.len() - 1] == rc0);
        assert(h.contains(rc0));
        assert(valid_rc(rc0));
        assert(b[idx(rc0)] == mark(p));
        let b2 = b.update(idx(rc0), Cell::Empty);
        let h2 = h.drop_last();
        assert forall|rc: (usize, usize)|
            valid_rc(rc) implies (b2[idx(rc)] == mark(p) <==> #[trigger] h2.contains(rc)) by {
            if rc == rc0 {
                assert(b2[idx(rc)] == Cell::Empty);
                if h2.contains(rc0) {
                    let i = choose|i: int| 0 <= i < h2.len() && h2[i] == rc0;
                    assert(h[i] == h[h.len() - 1]);
                    assert(false);
                }
            } else {
                if idx(rc) == idx(rc0) {
                    lemma_idx_injective(rc, rc0);
                }
                assert(b2[idx(rc)] == b[idx(rc)]);
                if h2.contains(rc) {
                    let i = choose|i: int| 0 <= i < h2.len() && h2[i] == rc;
                    assert(h[i] == rc);
                    assert(h.contains(rc));
                }
                if h.contains(rc) {
                    let i = choose|i: int| 0 <= i < h.len() && h[i] == rc;
                    assert(i != h.len() - 1);
                    assert(h2[i] == rc);
                    assert(h2.contains(rc));
                }
            }
        }
        lemma_count_marks_from_hist(b2, h2, p);
        lemma_counts_update(b, p, idx(rc0), Cell::Empty);
        assert(count_marks(b2, p) == count_marks(b, p) - 1);
    }
}

/// In a well-formed state each side's mark count equals its history length.
pub proof fn lemma_marks_match_count(g: GameView, p: Player)
    requires
        g.wf(),
    ensures
        count_marks(g.board, p) == g.hist(p).len(),
{
    assert forall|rc: (usize, usize)|
        valid_rc(rc) implies (g.board[idx(rc)] == mark(p) <==> #[trigger] g.hist(p).contains(
        rc,
    )) by {
        assert(g.at(rc) == g.board[idx(rc)]);
    }
    lemma_count_marks_from_hist(g.board, g.hist(p), p);
}

/// A well-formed state has at most six occupied squares, so an empty square
/// always remains.
pub proof fn lemma_empty_square_exists(g: GameView)
    requires
        g.wf(),
    ensures
        count_empty(g.board) >= 3,
        exists|k: int| 0 <= k < 9 && g.board[k] == Cell::Empty,
{
    lemma_marks_match_count(g, Player::X);
    lemma_marks_match_count(g, Player::O);
    lemma_counts_partition(g.board);
    lemma_empty_cell_exists(g.board);
}

/// Placing a piece, with the retirement of the oldest piece when three are
/// already on the board, keeps the state well formed. The mover `p` need
/// not be the player whose turn it is: the lookahead overrides the turn.
pub proof fn lemma_moved_wf(g: GameView, p: Player, row: usize, col: usize)
    requires
        g.wf(),
        g.winner is None,
        row < 3,
        col < 3,
        g.at((row, col)) == Cell::Empty,
    ensures
        moved(g, p, row, col).wf(),
{
    let rc_new = (row, col);
    let q = p.spec_other();
    let h = g.hist(p);
    let g2 = moved(g, p, row, col);
    let nb = board_after(g, p, row, col);
    let nh = hist_after(g, p, row, col);

    assert(valid_rc(rc_new));
    assert(!h.contains(rc_new));
    assert(!g.hist(q).contains(rc_new));
    assert(g2.hist(p) == nh);
    assert(g2.hist(q) == g.hist(q));

    let retires = h.len() >= 3;
    let rc_old = h[0];
    let t = if retires {
        h.subrange(1, h.len() as int)
    } else {
        h
    };
    if retires {
        assert(h.contains(rc_old));
        assert(g.at(rc_old) == mark(p));
        assert(rc_old != rc_new);
    }

    // The new history is duplicate-free and on the grid.
    assert forall|i: int| 0 <= i < nh.len() implies valid_rc(#[trigger] nh[i]) by {
        if i < t.len() {
            if retires {
                assert(t[i] == h[i + 1]);
            }
        } else {
            assert(nh[i] == rc_new);
        }
    }
    assert forall|i: int, j: int| 0 <= i < j < nh.len() implies nh[i] != nh[j] by {
        if j < t.len() {
            if retires {
                assert(t[i] == h[i + 1] && t[j] == h[j + 1]);
            }
        } else {
            // nh[j] is the new coordinate, which the old history lacks.
            let e = nh[i];
            if retires {
                assert(e == h[i + 1]);
            }
            assert(h.contains(e));
            assert(e != rc_new);
        }
    }

    // The board and the mover's history still agree.
    assert forall|rc: (usize, usize)|
        valid_rc(rc) implies (g2.at(rc) == mark(p) <==> g2.hist(p).contains(rc)) by {
        lemma_push_contains(t, rc_new, rc);
        if rc == rc_new {
            assert(nb[idx(rc_new)] == mark(p));
            assert(nh.contains(rc));
        } else {
            if idx(rc) == idx(rc_new) {
                lemma_idx_injective(rc, rc_new);
            }
            if retires {
                lemma_tail_contains(h, rc);
                if rc == rc_old {
                    if idx(rc) == idx(rc_new) {
                        lemma_idx_injective(rc, rc_new);
                    }
                    assert(nb[idx(rc)] == Cell::Empty);
                    assert(!nh.contains(rc));
                } else {
                    if idx(rc) == idx(rc_old) {
                        lemma_idx_injective(rc, rc_old);
                    }
                    assert(nb[idx(rc)] == g.board[idx(rc)]);
                    assert(g.at(rc) == g.board[idx(rc)]);
                    assert(nh.contains(rc) <==> h.contains(rc));
                }
            } else {
                assert(nb[idx(rc)] == g.board[idx(rc)]);
                assert(g.at(rc) == g.board[idx(rc)]);
                assert(nh.contains(rc) <==> h.contains(rc));
            }
        }
    }

    // The board and the other side's history still agree.
    assert forall|rc: (usize, usize)|
        valid_rc(rc) implies (g2.at(rc) == mark(q) <==> g2.hist(q).contains(rc)) by {
        assert(mark(p) != mark(q));
        if rc == rc_new {
            assert(nb[idx(rc)] == mark(p));
        } else {
            if idx(rc) == idx(rc_new) {
                lemma_idx_injective(rc, rc_new);
            }
            if retires && rc == rc_old {
                assert(nb[idx(rc)] == Cell::Empty);
                assert(g.at(rc_old) == mark(p));
            } else {
                if retires {
                    if idx(rc) == idx(rc_old) {
                        lemma_idx_injective(rc, rc_old);
                    }
                }
                assert(nb[idx(rc)] == g.board[idx(rc)]);
                assert(g.at(rc) == g.board[idx(rc)]);
            }
        }
    }

    assert(g2.marks_match(p));
    assert(g2.marks_match(q));
    assert(g2.marks_match(Player::X) && g2.marks_match(Player::O));
    assert(g2.coords_valid(Player::X) && g2.coords_valid(Player::O));
}

} // verus!

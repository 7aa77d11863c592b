//! Whole games replayed from the start: the state a sequence of move
//! requests leads to, and proofs that the turn alternates strictly and that
//! a recorded result is final until reset.

use crate::game::{apply_move, initial_game, move_accepted, other_player, Cell, GameView, Player};
use vstd::prelude::*;

verus! {

/// The state after the move requests in `moves`, in order, starting from a
/// fresh game.
pub open spec fn play(moves: Seq<usize>) -> GameView
    decreases moves.len(),
{
    if moves.len() == 0 {
        initial_game()
    } else {
        apply_move(play(moves.drop_last()), moves.last())
    }
}

/// Every requested cell index is on the board.
pub open spec fn in_range(moves: Seq<usize>) -> bool {
    forall|k: int| 0 <= k < moves.len() ==> moves[k] < 9
}

/// No move request is made once a result is recorded: before each request
/// the game is still open.
pub open spec fn no_move_after_result(moves: Seq<usize>) -> bool {
    forall|k: int| 0 <= k < moves.len() ==> play(#[trigger] moves.take(k)).winner is None
}

/// The player whose turn it is before the move with position `k`, counting
/// from zero: X on even positions, O on odd ones.
pub open spec fn player_for_round(k: int) -> Player {
    if k % 2 == 0 {
        Player::X
    } else {
        Player::O
    }
}

/// A finished game ignores every further move request.
pub proof fn lemma_result_stable(g: GameView, idx: usize)
    requires
        g.winner is Some,
    ensures
        apply_move(g, idx) == g,
{
}

/// Once some prefix of the requests has produced a result, the remaining
/// requests change nothing: the final state is the state at that prefix.
pub proof fn lemma_result_lasts(moves: Seq<usize>, k: int)
    requires
        0 <= k <= moves.len(),
        play(moves.take(k)).winner is Some,
    ensures
        play(moves) == play(moves.take(k)),
    decreases moves.len() - k,
{
    if k == moves.len() {
        assert(moves.take(k) =~= moves);
    } else {
        assert(moves.take(k + 1).drop_last() =~= moves.take(k));
        assert(moves.take(k + 1).last() == moves[k]);
        lemma_result_stable(play(moves.take(k)), moves[k]);
        assert(play(moves.take(k + 1)) == play(moves.take(k)));
        lemma_result_lasts(moves, k + 1);
    }
}

/// From the start of a game, distinct in-range requests made while the game
/// is open are all accepted: a cell is occupied exactly when its index has
/// been played.
pub proof fn lemma_played_cells(moves: Seq<usize>)
    requires
        in_range(moves),
        moves.no_duplicates(),
        no_move_after_result(moves),
    ensures
        play(moves).board.len() == 9,
        forall|i: int|
            0 <= i < 9 ==> ((play(moves).board[i] != Cell::Empty) <==> (exists|k: int|
                0 <= k < moves.len() && moves[k] as int == i)),
    decreases moves.len(),
{
    if moves.len() == 0 {
    } else {
        let prev = moves.drop_last();
        let x = moves.last();
        assert forall|k: int| 0 <= k < prev.len() implies play(
            #[trigger] prev.take(k),
        ).winner is None by {
            assert(prev.take(k) =~= moves.take(k));
        }
        lemma_played_cells(prev);
        assert(prev =~= moves.take(moves.len() - 1));
        assert(play(prev).winner is None);
        assert(!(exists|k: int| 0 <= k < prev.len() && prev[k] as int == x as int)) by {
            assert forall|k: int| 0 <= k < prev.len() implies prev[k] as int != x as int by {
                assert(moves[k] != moves[moves.len() - 1]);
            }
        }
        assert(play(prev).board[x as int] == Cell::Empty);
        assert(move_accepted(play(prev), x));
        assert(play(moves).board == play(prev).board.update(x as int, Cell::Taken(
            play(prev).player_turn,
        )));
        assert forall|i: int| 0 <= i < 9 implies ((play(moves).board[i] != Cell::Empty)
            <==> (exists|k: int| 0 <= k < moves.len() && moves[k] as int == i)) by {
            if play(moves).board[i] != Cell::Empty {
                if i == x as int {
                    assert(0 <= moves.len() - 1 < moves.len() && moves[moves.len() - 1] as int
                        == i);
                } else {
                    assert(play(prev).board[i] != Cell::Empty);
                    let k = choose|k: int| 0 <= k < prev.len() && prev[k] as int == i;
                    assert(0 <= k < moves.len() && moves[k] as int == i);
                }
            }
            if exists|k: int| 0 <= k < moves.len() && moves[k] as int == i {
                let k = choose|k: int| 0 <= k < moves.len() && moves[k] as int == i;
                if i == x as int {
                    assert(play(moves).board[i] == Cell::Taken(play(prev).player_turn));
                } else {
                    assert(k < prev.len() && prev[k] as int == i);
                    assert(play(prev).board[i] != Cell::Empty);
                }
            }
        }
    }
}

/// Played from the start on distinct free cells while the game stays open,
/// the turn strictly alternates beginning with X: before the move with
/// position `k` — and after the last one, if the game is still open — the
/// mover is X for even `k` and O for odd `k`.
pub proof fn lemma_turns_alternate(moves: Seq<usize>)
    requires
        in_range(moves),
        moves.no_duplicates(),
        no_move_after_result(moves),
    ensures
        forall|k: int|
            0 <= k <= moves.len() && play(#[trigger] moves.take(k)).winner is None ==> play(
                moves.take(k),
            ).player_turn == player_for_round(k),
    decreases moves.len(),
{
    if moves.len() == 0 {
        assert forall|k: int|
            0 <= k <= moves.len() && play(#[trigger] moves.take(k)).winner is None implies play(
            moves.take(k),
        ).player_turn == player_for_round(k) by {
            assert(moves.take(k).len() == 0);
        }
    } else {
        let prev = moves.drop_last();
        let x = moves.last();
        let n = moves.len() as int;
        assert forall|k: int| 0 <= k < prev.len() implies play(
            #[trigger] prev.take(k),
        ).winner is None by {
            assert(prev.take(k) =~= moves.take(k));
        }
        assert forall|j: int, k: int| 0 <= j < k < prev.len() implies prev[j] != prev[k] by {
            assert(moves[j] != moves[k]);
        }
        lemma_turns_alternate(prev);
        lemma_played_cells(prev);
        assert(prev =~= moves.take(n - 1));
        assert(play(prev).winner is None);
        assert(prev.take(n - 1) =~= prev);
        assert(play(prev.take(n - 1)).winner is None);
        assert(play(prev).player_turn == player_for_round(n - 1));
        assert(!(exists|k: int| 0 <= k < prev.len() && prev[k] as int == x as int)) by {
            assert forall|k: int| 0 <= k < prev.len() implies prev[k] as int != x as int by {
                assert(moves[k] != moves[n - 1]);
            }
        }
        assert(play(prev).board[x as int] == Cell::Empty);
        assert(move_accepted(play(prev), x));
        assert forall|k: int|
            0 <= k <= moves.len() && play(#[trigger] moves.take(k)).winner is None implies play(
            moves.take(k),
        ).player_turn == player_for_round(k) by {
            if k < n {
                assert(moves.take(k) =~= prev.take(k));
            } else {
                assert(moves.take(k) =~= moves);
                assert(play(moves) == apply_move(play(prev), x));
                assert(play(moves).player_turn == other_player(play(prev).player_turn));
            }
        }
    }
}

} // verus!

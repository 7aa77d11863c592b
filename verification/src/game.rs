//! The game state and its operations, with a ghost-level model (`GameView`)
//! and a spec transition function (`apply_move`) that the executable
//! operations are proved to follow exactly.

use std::collections::VecDeque;
use vstd::prelude::*;

verus! {

/// One of the two players. X always moves first.
#[derive(Clone, Copy, PartialEq, Eq, Structural, Debug)]
pub enum Player {
    X,
    O,
}

/// One cell of the board: empty, or marked by a player.
#[derive(Clone, Copy, PartialEq, Eq, Structural, Debug)]
pub enum Cell {
    Empty,
    Taken(Player),
}

/// How a finished game ended. A game with no outcome yet is still being played.
#[derive(Clone, Copy, PartialEq, Eq, Structural, Debug)]
pub enum Outcome {
    Win(Player),
    Draw,
}

/// The player whose turn comes after `p` moves.
pub open spec fn other_player(p: Player) -> Player {
    match p {
        Player::X => Player::O,
        Player::O => Player::X,
    }
}

/// All three cells at indices `a`, `b`, `c` carry `p`'s mark.
pub open spec fn line_taken(board: Seq<Cell>, p: Player, a: int, b: int, c: int) -> bool {
    board[a] == Cell::Taken(p) && board[b] == Cell::Taken(p) && board[c] == Cell::Taken(p)
}

/// `p` has won: one of the eight lines of the 3x3 board — three rows, three
/// columns, two diagonals, in row-major indexing (cell = column + row * 3) —
/// is filled with `p`'s mark.
pub open spec fn winning(board: Seq<Cell>, p: Player) -> bool {
    ||| line_taken(board, p, 0, 1, 2)
    ||| line_taken(board, p, 3, 4, 5)
    ||| line_taken(board, p, 6, 7, 8)
    ||| line_taken(board, p, 0, 3, 6)
    ||| line_taken(board, p, 1, 4, 7)
    ||| line_taken(board, p, 2, 5, 8)
    ||| line_taken(board, p, 0, 4, 8)
    ||| line_taken(board, p, 2, 4, 6)
}

/// Every cell of the board is occupied.
pub open spec fn board_full(board: Seq<Cell>) -> bool {
    forall|i: int| 0 <= i < 9 ==> board[i] != Cell::Empty
}

/// The abstract game state: what the executable state looks like in ghost
/// terms. The theme flag is not part of it — the theme lives independently of
/// the game.
#[verifier::ext_equal]
pub struct GameView {
    pub board: Seq<Cell>,
    pub player_turn: Player,
    pub moves_history: Seq<(usize, Player)>,
    pub winner: Option<Outcome>,
}

impl GameView {
    /// Well-formedness: the board always has exactly nine cells.
    pub open spec fn wf(self) -> bool {
        self.board.len() == 9
    }
}

/// The state of a freshly constructed (or just reset) game: nine empty
/// cells, X to move, no history, no result.
pub open spec fn initial_game() -> GameView {
    GameView {
        board: Seq::new(9, |i: int| Cell::Empty),
        player_turn: Player::X,
        moves_history: Seq::empty(),
        winner: None,
    }
}

/// A move request at `idx` is accepted exactly when the cell is empty and no
/// result has been recorded; any other request is ignored without error.
pub open spec fn move_accepted(g: GameView, idx: usize) -> bool {
    g.board[idx as int] == Cell::Empty && g.winner is None
}

/// The state after a move request at `idx`. A rejected request changes
/// nothing. An accepted one marks the cell for the mover and appends the move
/// to the history; then, in order: a completed line records a win for the
/// mover (the turn does not pass), else a full board records a draw, else the
/// turn passes to the other player.
pub open spec fn apply_move(g: GameView, idx: usize) -> GameView {
    if !move_accepted(g, idx) {
        g
    } else {
        let p = g.player_turn;
        let board = g.board.update(idx as int, Cell::Taken(p));
        let moves_history = g.moves_history.push((idx, p));
        if winning(board, p) {
            GameView { board, moves_history, player_turn: p, winner: Some(Outcome::Win(p)) }
        } else if board_full(board) {
            GameView { board, moves_history, player_turn: p, winner: Some(Outcome::Draw) }
        } else {
            GameView { board, moves_history, player_turn: other_player(p), winner: None }
        }
    }
}

/// The whole application state: the game plus the theme flag.
pub struct TicTacToeApp {
    pub board: Vec<Cell>,
    pub player_turn: Player,
    pub moves_history: VecDeque<(usize, Player)>,
    pub winner: Option<Outcome>,
    pub dark_mode: bool,
}

impl View for TicTacToeApp {
    type V = GameView;

    open spec fn view(&self) -> GameView {
        GameView {
            board: self.board@,
            player_turn: self.player_turn,
            moves_history: self.moves_history@,
            winner: self.winner,
        }
    }
}

/// A board of nine empty cells.
fn empty_board() -> (board: Vec<Cell>)
    ensures
        board@ == Seq::new(9, |i: int| Cell::Empty),
{
    let mut board: Vec<Cell> = Vec::new();
    let mut i: usize = 0;
    while i < 9
        invariant
            i <= 9,
            board@.len() == i,
            forall|j: int| 0 <= j < i ==> board@[j] == Cell::Empty,
        decreases 9 - i,
    {
        board.push(Cell::Empty);
        i = i + 1;
    }
    proof {
        assert(board@ =~= Seq::new(9, |i: int| Cell::Empty));
    }
    board
}

impl Default for TicTacToeApp {
    /// A fresh game in the light theme.
    fn default() -> (s: Self)
        ensures
            s@ == initial_game(),
            s.dark_mode == false,
    {
        let s = TicTacToeApp {
            board: empty_board(),
            player_turn: Player::X,
            moves_history: VecDeque::new(),
            winner: None,
            dark_mode: false,
        };
        proof {
            assert(s@ =~= initial_game());
        }
        s
    }
}

impl TicTacToeApp {
    /// Well-formedness of the executable state: nine cells on the board.
    pub open spec fn wf(&self) -> bool {
        self@.wf()
    }

    /// Pass the turn to the other player; nothing else changes.
    pub fn switch_player(&mut self)
        ensures
            final(self).player_turn == other_player(old(self).player_turn),
            final(self).board@ == old(self).board@,
            final(self).moves_history@ == old(self).moves_history@,
            final(self).winner == old(self).winner,
            final(self).dark_mode == old(self).dark_mode,
    {
        self.player_turn = if self.player_turn == Player::X {
            Player::O
        } else {
            Player::X
        };
    }

    /// True exactly when the player whose turn it is has a completed line.
    /// Only the mover can have gained a line on the move just made, so
    /// checking the mover alone is sufficient.
    pub fn check_winner(&self) -> (won: bool)
        requires
            self.wf(),
        ensures
            won == winning(self@.board, self@.player_turn),
    {
        self.line_won(0, 1, 2) || self.line_won(3, 4, 5) || self.line_won(6, 7, 8)
            || self.line_won(0, 3, 6) || self.line_won(1, 4, 7) || self.line_won(2, 5, 8)
            || self.line_won(0, 4, 8) || self.line_won(2, 4, 6)
    }

    /// True exactly when cells `a`, `b`, `c` all carry the mover's mark.
    fn line_won(&self, a: usize, b: usize, c: usize) -> (r: bool)
        requires
            self.wf(),
            a < 9,
            b < 9,
            c < 9,
        ensures
            r == line_taken(self@.board, self@.player_turn, a as int, b as int, c as int),
    {
        let p = self.player_turn;
        self.board[a] == Cell::Taken(p) && self.board[b] == Cell::Taken(p) && self.board[c]
            == Cell::Taken(p)
    }

    /// True exactly when every cell is occupied.
    pub fn check_draw(&self) -> (full: bool)
        requires
            self.wf(),
        ensures
            full == board_full(self@.board),
    {
        let mut i: usize = 0;
        while i < 9
            invariant
                self.wf(),
                i <= 9,
                forall|j: int| 0 <= j < i ==> self@.board[j] != Cell::Empty,
            decreases 9 - i,
        {
            if self.board[i] == Cell::Empty {
                return false;
            }
            i = i + 1;
        }
        true
    }

    /// Request a mark at `idx` for the player whose turn it is. A request on
    /// an occupied cell, or after the game has ended, is a silent no-op: no
    /// error, no state change. An accepted move follows `apply_move`: the
    /// cell is marked, the move is logged, and the game either records a win
    /// for the mover, records a draw on a full board, or passes the turn.
    pub fn handle_move(&mut self, idx: usize)
        requires
            old(self).wf(),
            idx < 9,
        ensures
            final(self).wf(),
            final(self)@ == apply_move(old(self)@, idx),
            final(self).dark_mode == old(self).dark_mode,
            (old(self)@.board[idx as int] != Cell::Empty || old(self)@.winner is Some)
                ==> final(self)@ == old(self)@,
    {
        if self.board[idx] == Cell::Empty && self.winner.is_none() {
            let p = self.player_turn;
            self.board[idx] = Cell::Taken(p);
            self.moves_history.push_back((idx, p));
            if self.check_winner() {
                self.winner = Some(Outcome::Win(p));
            } else if self.check_draw() {
                self.winner = Some(Outcome::Draw);
            } else {
                self.switch_player();
            }
        }
    }

    /// Return to the starting position, whatever the current state; the
    /// theme flag is kept, its lifecycle being independent of the game.
    pub fn reset_game(&mut self)
        ensures
            final(self).wf(),
            final(self)@ == initial_game(),
            final(self).dark_mode == old(self).dark_mode,
    {
        self.board = empty_board();
        self.moves_history.clear();
        self.winner = None;
        self.player_turn = Player::X;
        proof {
            assert(self@ =~= initial_game());
        }
    }
}

} // verus!

use std::collections::VecDeque;
use tic_tac_toe::game::{Cell, Outcome, Player, TicTacToeApp};

fn play_all(app: &mut TicTacToeApp, moves: &[usize]) {
    for &idx in moves {
        app.handle_move(idx);
    }
}

#[test]
fn fresh_game_is_empty() {
    let app = TicTacToeApp::default();
    assert_eq!(app.board.len(), 9);
    for i in 0..9 {
        assert_eq!(app.board[i], Cell::Empty);
    }
    assert_eq!(app.player_turn, Player::X);
    assert!(app.winner.is_none());
    assert!(app.moves_history.is_empty());
    assert!(!app.dark_mode);
}

#[test]
fn turn_alternates_from_x() {
    let mut app = TicTacToeApp::default();
    assert_eq!(app.player_turn, Player::X);
    app.handle_move(0);
    assert_eq!(app.player_turn, Player::O);
    app.handle_move(1);
    assert_eq!(app.player_turn, Player::X);
    app.handle_move(4);
    assert_eq!(app.player_turn, Player::O);
    app.handle_move(5);
    assert_eq!(app.player_turn, Player::X);
}

#[test]
fn occupied_cell_is_ignored() {
    let mut app = TicTacToeApp::default();
    app.handle_move(0);
    let board_before = app.board.clone();
    let history_before = app.moves_history.clone();
    let player_before = app.player_turn;
    let winner_before = app.winner;

    app.handle_move(0);

    assert_eq!(app.board, board_before);
    assert_eq!(app.moves_history, history_before);
    assert_eq!(app.player_turn, player_before);
    assert_eq!(app.winner, winner_before);
    assert_eq!(app.player_turn, Player::O);
    assert_eq!(app.moves_history.len(), 1);
}

#[test]
fn x_wins_on_main_diagonal() {
    let mut app = TicTacToeApp::default();
    play_all(&mut app, &[0, 1, 4, 2]);
    assert!(app.winner.is_none());
    app.handle_move(8);
    assert_eq!(app.winner, Some(Outcome::Win(Player::X)));
    assert!(app.check_winner());
    assert_eq!(app.player_turn, Player::X);

    app.handle_move(3);
    assert_eq!(app.board[3], Cell::Empty);
    assert_eq!(app.winner, Some(Outcome::Win(Player::X)));
    assert_eq!(app.moves_history.len(), 5);
}

#[test]
fn full_board_is_a_draw() {
    let mut app = TicTacToeApp::default();
    play_all(&mut app, &[0, 1, 2, 4, 3, 5, 7, 6]);
    assert!(app.winner.is_none());
    app.handle_move(8);
    assert!(app.check_draw());
    assert_eq!(app.winner, Some(Outcome::Draw));
    assert_eq!(app.player_turn, Player::X);
}

#[test]
fn win_is_checked_before_draw() {
    let mut app = TicTacToeApp::default();
    play_all(&mut app, &[0, 2, 1, 3, 4, 6, 5, 7]);
    assert!(app.winner.is_none());
    app.handle_move(8);
    assert!(app.check_draw());
    assert_eq!(app.winner, Some(Outcome::Win(Player::X)));
}

#[test]
fn result_is_final_until_reset() {
    let mut app = TicTacToeApp::default();
    play_all(&mut app, &[0, 1, 4, 2, 8]);
    assert_eq!(app.winner, Some(Outcome::Win(Player::X)));
    let board_before = app.board.clone();

    app.handle_move(5);
    app.handle_move(6);
    assert_eq!(app.winner, Some(Outcome::Win(Player::X)));
    assert_eq!(app.board, board_before);

    app.reset_game();
    assert!(app.winner.is_none());
}

#[test]
fn reset_restores_start() {
    let mut app = TicTacToeApp::default();
    app.dark_mode = true;
    play_all(&mut app, &[0, 1, 4, 2, 8]);

    app.reset_game();

    assert_eq!(app.board.len(), 9);
    for i in 0..9 {
        assert_eq!(app.board[i], Cell::Empty);
    }
    assert!(app.moves_history.is_empty());
    assert!(app.winner.is_none());
    assert_eq!(app.player_turn, Player::X);
    assert!(app.dark_mode);
}

#[test]
fn every_line_wins() {
    let lines: [[usize; 3]; 8] = [
        [0, 1, 2],
        [3, 4, 5],
        [6, 7, 8],
        [0, 3, 6],
        [1, 4, 7],
        [2, 5, 8],
        [0, 4, 8],
        [2, 4, 6],
    ];
    for line in lines {
        let mut fillers = Vec::new();
        for i in 0..9 {
            if !line.contains(&i) {
                fillers.push(i);
            }
        }
        let mut app = TicTacToeApp::default();
        app.handle_move(line[0]);
        app.handle_move(fillers[0]);
        app.handle_move(line[1]);
        app.handle_move(fillers[1]);
        app.handle_move(line[2]);
        assert!(app.check_winner());
        assert_eq!(app.winner, Some(Outcome::Win(Player::X)));
        assert_eq!(app.player_turn, Player::X);
    }
}

#[test]
fn no_win_or_draw_early() {
    let mut app = TicTacToeApp::default();
    assert!(!app.check_winner());
    assert!(!app.check_draw());
    app.handle_move(4);
    assert!(!app.check_winner());
    assert!(!app.check_draw());
    assert!(app.winner.is_none());
}

#[test]
fn switch_player_toggles() {
    let mut app = TicTacToeApp::default();
    app.switch_player();
    assert_eq!(app.player_turn, Player::O);
    app.switch_player();
    assert_eq!(app.player_turn, Player::X);
}

#[test]
fn history_records_moves_in_order() {
    let mut app = TicTacToeApp::default();
    play_all(&mut app, &[6, 3, 0]);
    let expected: VecDeque<(usize, Player)> =
        VecDeque::from(vec![(6, Player::X), (3, Player::O), (0, Player::X)]);
    assert_eq!(app.moves_history, expected);
}

#[test]
fn o_can_win_a_column() {
    let mut app = TicTacToeApp::default();
    play_all(&mut app, &[0, 2, 3, 5, 7, 8]);
    assert_eq!(app.winner, Some(Outcome::Win(Player::O)));
    assert_eq!(app.player_turn, Player::O);
}

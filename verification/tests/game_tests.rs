use infinite_ttt::Cell;
use infinite_ttt::Game;
use infinite_ttt::GameError;
use infinite_ttt::Player;

#[test]
fn test_new_game_starts_with_empty_board() {
    let game = Game::new();
    for row in 0..3 {
        for col in 0..3 {
            assert_eq!(game.cell_at(row, col), Cell::Empty);
        }
    }
    assert_eq!(game.current_turn(), Player::X);
    assert_eq!(game.winner(), None);
}

#[test]
fn test_play_and_check_winner_row() {
    let mut game = Game::new();
    game.play(0, 0).unwrap(); // X
    game.play(1, 0).unwrap(); // O
    game.play(0, 1).unwrap(); // X
    game.play(1, 1).unwrap(); // O
    game.play(0, 2).unwrap(); // X wins

    assert_eq!(game.winner(), Some(Player::X));
}

#[test]
fn winner_on_fifth_move_keeps_turn() {
    // (0,0)X, (1,0)O, (0,1)X, (1,1)O, (0,2)X completes row 0.
    let mut game = Game::new();
    game.play(0, 0).unwrap();
    game.play(1, 0).unwrap();
    game.play(0, 1).unwrap();
    game.play(1, 1).unwrap();
    assert_eq!(game.winner(), None);
    game.play(0, 2).unwrap();
    assert_eq!(game.winner(), Some(Player::X));
    assert!(game.check_winner(Player::X));
    assert!(!game.check_winner(Player::O));
    // The turn does not advance past the winner.
    assert_eq!(game.current_turn(), Player::X);
}

#[test]
fn fourth_piece_retires_oldest() {
    // X places three pieces that complete no line, O stays elsewhere and
    // completes none either; X's fourth placement retires X's oldest.
    let mut game = Game::new();
    game.play(0, 0).unwrap(); // X
    game.play(2, 0).unwrap(); // O
    game.play(0, 1).unwrap(); // X
    game.play(2, 2).unwrap(); // O
    game.play(1, 1).unwrap(); // X
    game.play(1, 2).unwrap(); // O
    assert_eq!(game.winner(), None);
    game.play(1, 0).unwrap(); // X's fourth piece: (0,0) retires
    assert_eq!(game.cell_at(0, 0), Cell::Empty);
    assert_eq!(game.cell_at(1, 0), Cell::Occupied(Player::X));
    let expected: Vec<(usize, usize)> = vec![(0, 1), (1, 1), (1, 0)];
    assert_eq!(game.history(Player::X), &expected);
    assert_eq!(game.winner(), None);
}

#[test]
fn out_of_bounds_always_rejected() {
    let mut game = Game::new();
    assert_eq!(game.play(3, 0), Err(GameError::OutOfBounds));
    assert_eq!(game.play(0, 3), Err(GameError::OutOfBounds));
    // Also mid-game, whatever the position.
    game.play(1, 1).unwrap();
    assert_eq!(game.play(3, 0), Err(GameError::OutOfBounds));
    assert_eq!(game.play(0, 3), Err(GameError::OutOfBounds));
    assert_eq!(game.cell_at(1, 1), Cell::Occupied(Player::X));
    assert_eq!(game.current_turn(), Player::O);
}

#[test]
fn occupied_square_rejected_and_state_kept() {
    let mut game = Game::new();
    game.play(0, 0).unwrap(); // X
    assert_eq!(game.play(0, 0), Err(GameError::CellOccupied));
    // Board, histories and turn are unchanged by the failure.
    assert_eq!(game.cell_at(0, 0), Cell::Occupied(Player::X));
    let expected_x: Vec<(usize, usize)> = vec![(0, 0)];
    let expected_o: Vec<(usize, usize)> = Vec::new();
    assert_eq!(game.history(Player::X), &expected_x);
    assert_eq!(game.history(Player::O), &expected_o);
    assert_eq!(game.current_turn(), Player::O);
    assert_eq!(game.winner(), None);
}

#[test]
fn ended_game_rejects_everything() {
    let mut game = Game::new();
    game.play(0, 0).unwrap(); // X
    game.play(1, 0).unwrap(); // O
    game.play(0, 1).unwrap(); // X
    game.play(1, 1).unwrap(); // O
    game.play(0, 2).unwrap(); // X wins
    assert_eq!(game.winner(), Some(Player::X));
    assert_eq!(game.play(2, 2), Err(GameError::GameEnded));
    assert_eq!(game.play_ai_move(), Err(GameError::GameEnded));
    // Nothing changed.
    assert_eq!(game.winner(), Some(Player::X));
    assert_eq!(game.current_turn(), Player::X);
    assert_eq!(game.cell_at(2, 2), Cell::Empty);
    let expected_x: Vec<(usize, usize)> = vec![(0, 0), (0, 1), (0, 2)];
    let expected_o: Vec<(usize, usize)> = vec![(1, 0), (1, 1)];
    assert_eq!(game.history(Player::X), &expected_x);
    assert_eq!(game.history(Player::O), &expected_o);
}

#[test]
fn replaying_the_same_moves_reaches_the_same_state() {
    let moves: [(usize, usize); 7] = [(0, 0), (1, 0), (2, 2), (1, 1), (0, 1), (2, 1), (0, 0)];
    let mut a = Game::new();
    let mut b = Game::new();
    for &(r, c) in moves.iter() {
        let ra = a.play(r, c);
        let rb = b.play(r, c);
        assert_eq!(ra, rb);
    }
    for row in 0..3 {
        for col in 0..3 {
            assert_eq!(a.cell_at(row, col), b.cell_at(row, col));
        }
    }
    assert_eq!(a.current_turn(), b.current_turn());
    assert_eq!(a.winner(), b.winner());
    assert_eq!(a.history(Player::X), b.history(Player::X));
    assert_eq!(a.history(Player::O), b.history(Player::O));
}

#[test]
fn column_and_diagonal_wins_detected() {
    // O completes column 0.
    let mut game = Game::new();
    game.play(1, 1).unwrap(); // X
    game.play(0, 0).unwrap(); // O
    game.play(1, 2).unwrap(); // X
    game.play(1, 0).unwrap(); // O
    game.play(2, 2).unwrap(); // X
    game.play(2, 0).unwrap(); // O wins column 0
    assert_eq!(game.winner(), Some(Player::O));

    // X completes the main diagonal.
    let mut game = Game::new();
    game.play(0, 0).unwrap(); // X
    game.play(0, 1).unwrap(); // O
    game.play(1, 1).unwrap(); // X
    game.play(0, 2).unwrap(); // O
    game.play(2, 2).unwrap(); // X wins diagonal
    assert_eq!(game.winner(), Some(Player::X));
}

use infinite_ttt::Cell;
use infinite_ttt::Game;
use infinite_ttt::GameError;
use infinite_ttt::Player;

#[test]
fn ai_refuses_when_not_its_turn() {
    let mut game = Game::new();
    assert_eq!(game.play_ai_move(), Err(GameError::NotOpponentTurn));
    // Nothing changed: it is still X's move on an empty board.
    assert_eq!(game.current_turn(), Player::X);
    for row in 0..3 {
        for col in 0..3 {
            assert_eq!(game.cell_at(row, col), Cell::Empty);
        }
    }
}

#[test]
fn ai_blocks_two_in_a_row() {
    // X holds (0,0) and (0,1); O holds (2,2) and cannot win this turn.
    // The block at (0,2) must be chosen, not a random square.
    let mut game = Game::new();
    game.play(0, 0).unwrap(); // X
    game.play(2, 2).unwrap(); // O
    game.play(0, 1).unwrap(); // X
    assert_eq!(game.current_turn(), Player::O);
    game.play_ai_move().unwrap();
    assert_eq!(game.cell_at(0, 2), Cell::Occupied(Player::O));
    assert_eq!(game.winner(), None);
    assert_eq!(game.current_turn(), Player::X);
}

#[test]
fn ai_takes_a_winning_square_over_a_block() {
    // O holds (2,0) and (2,1): (2,2) wins now. X holds (0,0) and (0,1):
    // (0,2) merely blocks. The win must be preferred.
    let mut game = Game::new();
    game.play(0, 0).unwrap(); // X
    game.play(2, 0).unwrap(); // O
    game.play(1, 1).unwrap(); // X
    game.play(2, 1).unwrap(); // O
    game.play(0, 1).unwrap(); // X
    assert_eq!(game.current_turn(), Player::O);
    game.play_ai_move().unwrap();
    assert_eq!(game.cell_at(2, 2), Cell::Occupied(Player::O));
    assert_eq!(game.winner(), Some(Player::O));
    assert_eq!(game.current_turn(), Player::O);
}

#[test]
fn ai_fallback_places_one_piece_on_an_empty_square() {
    // No win and no block exists: the move still lands on some empty
    // square, O gains exactly one piece, and the turn returns to X.
    let mut game = Game::new();
    game.play(1, 1).unwrap(); // X
    assert_eq!(game.current_turn(), Player::O);
    game.play_ai_move().unwrap();
    assert_eq!(game.history(Player::O).len(), 1);
    let &(r, c) = &game.history(Player::O)[0];
    assert!(r < 3 && c < 3);
    assert!(!(r == 1 && c == 1));
    assert_eq!(game.cell_at(r, c), Cell::Occupied(Player::O));
    assert_eq!(game.cell_at(1, 1), Cell::Occupied(Player::X));
    assert_eq!(game.current_turn(), Player::X);
    assert_eq!(game.winner(), None);
}

#[test]
fn ai_win_check_honours_its_own_retirement() {
    // Both sides already hold three pieces, so every simulated placement
    // retires the mover's oldest piece first; the scan must honour that.
    let mut game = Game::new();
    game.play(0, 0).unwrap(); // X - oldest, retired below
    game.play(1, 0).unwrap(); // O - oldest
    game.play(0, 2).unwrap(); // X
    game.play(2, 0).unwrap(); // O
    game.play(2, 1).unwrap(); // X
    game.play(1, 1).unwrap(); // O
    game.play(1, 2).unwrap(); // X's fourth piece: (0,0) retires
    assert_eq!(game.cell_at(0, 0), Cell::Empty);
    assert_eq!(game.current_turn(), Player::O);
    // Naively, O at (0,0) completes column 0 - but placing there retires
    // O's own (1,0) and the column no longer stands. Naively, X at (2,2)
    // completes column 2 - but that placement would retire X's (0,2), so
    // there is nothing to block. Neither tier fires: the fallback plays
    // some empty square, and O's oldest piece (1,0) retires on commit.
    game.play_ai_move().unwrap();
    assert_eq!(game.winner(), None);
    assert_eq!(game.cell_at(1, 0), Cell::Empty);
    assert_eq!(game.history(Player::O).len(), 3);
    assert_eq!(game.current_turn(), Player::X);
}

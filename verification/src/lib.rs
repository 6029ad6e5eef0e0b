//! Infinite tic-tac-toe engine: a 3x3 board on which each player keeps at
//! most three pieces; placing a fourth retires that player's oldest piece.
//! The whole game logic is verified; a thin console front end can drive it
//! through `Game::new`, `Game::play` and `Game::play_ai_move`.

pub mod game;
pub mod invariants;
pub mod laws;
pub mod model;
mod rng;

pub use game::Game;

pub use model::Cell;
pub use model::GameError;
pub use model::GameView;
pub use model::Player;

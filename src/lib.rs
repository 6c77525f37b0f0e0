//! Rules engine for Kelasu, a two-player game on a 10×10 board: positions and pieces,
//! the text of boards and of move commands, the legality of moves, and the game's
//! course from the first move to a win or a draw.

pub mod piece;
pub mod board;
pub mod util;
pub mod moves;
pub mod game;
pub mod lobby;

pub use game::Game;

//! The first version of the game: a player moved on a square grid by the
//! arrow keys.
pub mod grid;
pub mod game;

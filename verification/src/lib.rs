//! Rustle: the rules of a five-letter word-guessing game.

pub mod actions;
pub mod app;
pub mod conflicts;
pub mod feedback;
pub mod key;
pub mod keyboard;
pub mod play;
pub mod screen;
pub mod state;
pub mod text;

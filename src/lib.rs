//! A single-round word-guessing game engine.

pub mod text;
pub mod words;
pub mod model;
pub mod game;
pub mod laws;

pub use game::{GameError, HangmanGameState, Outcome, implied_word_length};
pub use text::normalize_guess;
pub use words::words_of_length;

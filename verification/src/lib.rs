//! A word-guessing game: a hidden word, a bounded number of attempts, and
//! per-letter feedback after each attempt.

pub mod application;
pub mod dictionary;
pub mod error;
pub mod game;
pub mod guess;
pub mod laws;
pub mod letters;
pub mod lines;
pub mod options;
pub mod scoring;

//! Hangman: a single-player word-guessing game.
//!
//! The crate holds the verified core of the game: the round state machine
//! ([`game_logic`]), the preparation of the word list ([`file_reader`]),
//! command-line configuration ([`config`]) and the decisions of the
//! interactive session ([`main_loop`]). Input and output are left to the
//! program built around it.

pub mod config;
pub mod file_reader;
pub mod game_logic;
pub mod main_loop;
pub mod text;

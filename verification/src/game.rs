//! The game: its entities, its rules, and the engine that applies them.

pub mod actions;
pub mod board;
pub mod clock;
pub mod cycle;
pub mod day;
pub mod entity;
pub mod error;
pub mod game;
pub mod geometry;
pub mod laws;
pub mod limits;
pub mod log;
pub mod player;
pub mod random;
pub mod rules;
pub mod seqs;
pub mod spawn;
pub mod state;
pub mod text;
pub mod token;
pub mod totem;
pub mod validity;
pub mod zord;

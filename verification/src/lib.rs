//! The state engine of a day-structured territory game: players command
//! zords on a bounded grid, shoot, move, shield, donate and build within a
//! daily budget of actions, and collect points from two totems.

pub mod config;
pub mod game;

//! A two-player board game on a 3×3 grid whose players take strict turns on
//! one shared state: the board, the turn state with its single mutator, and
//! the per-iteration decision of a player actor.

pub mod board;
pub mod game;
pub mod actor;
pub mod callback;

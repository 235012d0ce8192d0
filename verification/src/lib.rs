//! A verified engine for a two-player, turn-based game on a 3x3 grid.
//!
//! The library owns the board representation, move validation, win and tie
//! detection, and the round-by-round state transition. All I/O (reading a
//! line from the operator, drawing the grid) is left to the surrounding
//! program, which hands the engine plain values and gets plain values back.

pub mod board;
pub mod console;
pub mod game;
pub mod input;

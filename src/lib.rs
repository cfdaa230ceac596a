//! Simulation core of a falling-block puzzle game: board, piece shapes with
//! rotation kicks, bag randomizer, timing state machine and clear classifier.

pub mod enums;
pub mod board;
pub mod kicks;
pub mod pieces;
pub mod app_structs;
pub mod score;
pub mod bag;
pub mod app;

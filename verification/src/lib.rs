//! A two-player territory-capture game on a fixed 6-by-6 board, with a
//! depth-limited minimax player driven by pluggable heuristic evaluators.
pub mod analyzer;
pub mod bot;
pub mod field;

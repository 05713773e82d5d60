//! A chess rules engine: it owns the board state, enumerates legal moves,
//! detects check, and applies moves (including castling and en passant).
//! Rendering, input handling and promotion-piece selection are left to callers.

pub mod piece;
pub mod board;
pub mod attack;
pub mod moves;
pub mod laws;

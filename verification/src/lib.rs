//! A Reversi (Othello) engine on 64-bit bitboards.
//!
//! The board is a pair of disjoint bitmasks, one per player, with cell index
//! `row * 8 + column`. The engine generates legal moves by bit-parallel
//! directional flood fill, computes captures with the outflank technique,
//! and picks its own moves with a depth-limited alpha-beta negamax search.
//! Every operation carries a contract that pins its result down exactly.

pub mod bits;
pub mod flips;
pub mod moves;
pub mod reversi;
pub mod search;

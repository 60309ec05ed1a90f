//! Rules engine for a two-player chess game.
//!
//! Given a board position, the engine computes the set of squares a piece may
//! legally move to, accounting for capture rules, piece-specific movement
//! patterns, check, pinning, and en-passant history.  All move generation is
//! pure: generators and filters never mutate the board they are given.
#![verifier::loop_isolation(false)]

pub mod app;
pub mod board;
pub mod pieces;
pub mod utils;

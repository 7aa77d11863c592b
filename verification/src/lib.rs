//! A verified tic-tac-toe core: a 3x3 board, strict turn alternation,
//! win and draw detection, an append-only move log, and a reset operation.
//!
//! The `game` module holds the executable state machine together with the
//! spec-level transition function its contracts are stated against; the
//! `replay` module proves properties of whole games played from the start.

pub mod game;
pub mod replay;

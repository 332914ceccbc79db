//! Rules engine for two-player backgammon.
//!
//! The engine tracks the 24-point board and the two bar slots, validates and
//! applies moves (ordinary moves, re-entry from the bar, bearing off),
//! manages the dice pool including doubles, drives turn transitions, and
//! detects the win condition.  Rendering and input translation are left to
//! callers, which feed the engine discrete intents and read its state back.

pub mod board;
pub mod dice;
pub mod game;
pub mod moves;
pub mod win;

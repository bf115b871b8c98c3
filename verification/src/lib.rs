//! Simulation core of a grid-based snake game.
//!
//! The crate advances one or more snakes on a bounded grid in fixed ticks,
//! spawns and expires food with distinct effects, and decides which snakes
//! leave the game. Time is counted in whole microseconds; frame pacing,
//! device input and drawing are left to the caller.

pub mod cell;
pub mod config;
pub mod feed;
pub mod food;
pub mod game;
pub mod gesture;
pub mod laws;
mod random;
pub mod snake;
pub mod spawn;
pub mod termination;

//! A two-player turn-based grid battle game: each side hides a fleet of
//! ships on a square grid and the sides alternately fire at coordinates
//! until one fleet is fully destroyed.
//!
//! This crate holds the verified core: the board model (ship placement
//! with bounds/overlap checking, shot resolution, win detection), the
//! turn engine, and the random opponent move generator. Terminal
//! rendering and input collection live outside the library.
use vstd::prelude::*;

pub mod board;
pub mod engine;
pub mod placement;
mod rng;

verus! {

/// The side length of the square grid.
pub const BOARD_SIZE: usize = 10;

} // verus!

//! Conway's Game of Life on a bounded grid, paced by a clock.
//!
//! The grid is a fixed rectangle without wrap-around: a cell on the edge has
//! fewer than eight neighbours. A generation takes two full passes over the
//! grid, one that counts the living neighbours of every cell and one that
//! applies the rule to every cell with its count, so that every cell meets
//! the rule on the same snapshot of the board.
//!
//! - [`board`]: the mathematical model of a board, of counting and of a
//!   generation, in which all contracts are stated
//! - [`grid`], [`neighbors`], [`rule`]: the grid, the neighbour counts, the
//!   two passes
//! - [`spawn`]: a first generation drawn at random
//! - [`clock`], [`simulation`]: the episode clock and the frame-by-frame
//!   pipeline around the grid
//! - [`patterns`], [`pacing`]: what is proved of the rule on known patterns,
//!   and of the number of generations that a run of frames brings

pub mod board;
pub mod clock;
pub mod error;
pub mod grid;
pub mod neighbors;
pub mod pacing;
pub mod patterns;
pub mod rule;
pub mod simulation;
pub mod spawn;

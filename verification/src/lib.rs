//! A rule-based water simulation on a pixel grid.
//!
//! The grid is an RGB image: black pixels are walls, blue pixels are water
//! and everything else is air. Each step moves the water of one row by one
//! cell, downwards if it can, sideways if it cannot, and upwards as a last
//! resort. A driver repeats the step until the water rests and hands out a
//! numbered frame after each.
//!
//! - `cell`: colours, and the cells that they stand for under the exact and
//!   the approximate policy.
//! - `grid`: the grid, its view, and the calls into the `image` crate that
//!   store it.
//! - `engine`: the step and what it computes.
//! - `hint`: proofs that the bound handed from step to step never changes
//!   what a step does.
//! - `measure`: proofs that every step that moves water uses up air.
//! - `driver`: the run as a state machine, and proofs about whole runs.
//! - `normal`: proofs that a run on a normalized grid mirrors the run on the
//!   grid itself.
//! - `sink`: labels for the files of the frames, which sort as the frames do.

pub mod cell;
pub mod driver;
pub mod engine;
pub mod grid;
pub mod hint;
pub mod measure;
pub mod normal;
pub mod sink;

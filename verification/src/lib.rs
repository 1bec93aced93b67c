//! Fullscreen terminal color animation engine.
//!
//! The heart of this crate is a grid of independently animated cells: every
//! cell holds a current RGB color and a goal RGB color, and on each tick every
//! channel of every cell walks one unit toward its goal, drawing a fresh
//! random goal the moment the cell arrives. Around that engine sit a small
//! deterministic pseudo-random generator, a frame renderer that serializes
//! the grid into one escape-sequence byte stream, an input listener that
//! recognizes exit keys, and an idempotent terminal-mode teardown.

pub mod cli;
pub mod grid;
pub mod input;
pub mod rng;
pub mod term;
pub mod validate;

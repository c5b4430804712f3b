//! Logic core of a falling-block puzzle game: piece geometry and kinematics,
//! the board with its line-clear lifecycle, the bag randomizer, scoring and
//! leveling rules, and the time-based animation regulator.
//!
//! Rendering, audio playback, input polling and the wall clock live outside
//! this crate; the core exchanges plain values (cell positions, event kinds,
//! millisecond timestamps) with that outer layer.

pub mod animator;
pub mod constants;
pub mod data;
pub mod game;
pub mod grid;
pub mod selector;
pub mod tetromino;

//! Board dimensions and animation timing shared by the whole core.
//!
//! Times are in milliseconds; animation progress values are scaled integers
//! in `0 ..= RATIO_ONE`.

use vstd::prelude::*;

verus! {

/// Number of rows of the board.
pub const NUM_ROWS: usize = 20;

/// Number of columns of the board.
pub const NUM_COLS: usize = 10;

/// Duration of the game-over fade-in, in milliseconds.
pub const GAMEOVER_ANIM_DURATION: u64 = 1000;

/// Duration of the row-collapse effect, in milliseconds.
pub const ROW_DISSAPEAR_ANIM_DURATION: u64 = 800;

/// A fully elapsed animation ratio; ratios run from 0 to this value.
pub const RATIO_ONE: u32 = 1000;

/// Upper bound on an animation duration (a little over 11 days), which keeps
/// the fixed-point ratio arithmetic free of overflow.
pub const MAX_ANIM_DURATION: u64 = 1000000000;

/// Duration of one ghost-outline blink phase, in milliseconds.
pub const GHOST_BLINK_ANIM_DURATION: u64 = 400;

/// Animation identifier reserved for the game-over fade.
pub const GAMEOVER_ANIM_ID: u16 = 0;

/// Animation identifier reserved for the ghost-piece blink.
pub const GHOST_BLINK_ANIM_ID: u16 = 1;

} // verus!

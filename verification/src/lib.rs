//! Entity-simulation and collision engine for a small LED-matrix game
//! console: bitmask sprite figures, an 8x32 frame buffer, a deterministic
//! pseudo-random generator, and the Tanks game built on top of them.
#![verifier::loop_isolation(false)]

pub mod color;
pub mod digits;
pub mod dot;
pub mod figure;
pub mod framebuffer;
pub mod prng;
pub mod tanks;

use vstd::prelude::*;

verus! {

/// Logical width of the LED matrix, in cells.
pub const SCREEN_WIDTH: usize = 8;

/// Logical height of the LED matrix, in cells.
pub const SCREEN_HEIGHT: usize = 32;

} // verus!

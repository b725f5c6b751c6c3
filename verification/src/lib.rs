//! Timed-spawn director and spatial-zone registry of a top-down arcade game.
//!
//! The crate decides what appears, how many, when and where: a small builder
//! compiles an authored list of waves into a runtime schedule, a scheduler
//! releases one bucket at a time as the clock advances, and a registry of
//! axis-aligned zones answers containment queries and samples points.
//!
//! All quantities are integers. Lengths and coordinates are counted in units
//! of an eighth of a pixel, so that the eighth of a viewport's side, which
//! the layout of the zones works with, is a whole number whenever the side is
//! a whole number of pixels. The frame has its origin in the top-left corner
//! of the viewport and `y` growing upwards, so the visible area spans
//! `0..=width` in `x` and `-height..=0` in `y`. Times are counted in ticks of
//! one millisecond.

pub mod builder;
pub mod play;
pub mod random;
pub mod regions;
pub mod scheduler;
pub mod targets;
pub mod waves;
pub mod zones;

use vstd::prelude::*;

verus! {

/// How many units of length make one pixel.
pub const UNITS_PER_PIXEL: i64 = 8;

/// Radius of a target, in pixels.
pub const TARGET_SIZE: i64 = 30;

/// How far past the viewport the world border reaches, in pixels. Anything
/// that leaves the world border has fully left play.
pub const WINDOW_EXPANSION: i64 = 200;

} // verus!

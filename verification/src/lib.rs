//! A verified core for an animated "lava lamp" renderer.
//!
//! Soft circular blobs rise across the screen; their geometry is batched
//! into vertex lists, uploaded through a grow-only device store, and the
//! resulting image is composited through a chain of ping-pong effect
//! passes. All coordinates are fixed-point integers with [`FP_ONE`]
//! standing for 1.0; the unverified rendering shell converts them to the
//! floating-point values the graphics device expects.

use vstd::prelude::*;

pub mod fxsurface;
pub mod lamp;
pub mod range;
pub mod rng;
pub mod shape;

verus! {

/// Fixed-point scale: the integer that stands for the real value 1.0.
pub const FP_ONE: i64 = 1024;

/// Bound on every simulation coordinate, velocity, radius and screen
/// dimension (in fixed-point units), chosen so that all the arithmetic
/// below stays well inside `i64`.
pub const COORD_LIMIT: i64 = 0x100_0000_0000;

} // verus!

//! A small 2D game-engine sketch, verified.
//!
//! The library procedurally generates a roughly circular planet whose
//! boundary is a circle perturbed by a noise field, answers point-in-planet
//! queries against that boundary, rasterizes the planet into an RGBA pixel
//! grid, and maps between screen space and world space under a pan/zoom
//! camera.  All geometry is carried in integer fixed-point arithmetic:
//! angles are integer units with [`ANGLE_SCALE`] units per surface sample,
//! and trigonometric values are scaled by [`trig::TRIG_ONE`].
//!
//! Window handling, input polling and the floating-point simplex noise
//! generator live outside the library; they hand plain integer values in
//! and take plain values back.

use vstd::prelude::*;

pub mod camera;
pub mod common;
pub mod noise;
pub mod planet;
pub mod player;
pub mod square;
pub mod trig;
pub mod world;

verus! {

/// Angle units per surface sample: a surface with `n` samples has
/// `n * ANGLE_SCALE` angle units in its full turn, and sample `i` sits at
/// angle `i * ANGLE_SCALE` exactly.
pub const ANGLE_SCALE: u64 = 1024;

} // verus!

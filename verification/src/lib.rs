//! Per-frame simulation core for a scrolling 3D flight scene: landscape
//! scrolling with boundary culling, interval-driven procedural spawning,
//! a two-phase weapon system with accelerating projectiles, target-seeking
//! craft motion, and an orbit camera rig.
//!
//! All quantities are fixed-point integers: times are milliseconds,
//! positions are micro-units, and speeds are milli-units per second, so a
//! speed times a delta is an exact position increment.

use vstd::prelude::*;

pub mod camera;
pub mod fixed;
pub mod guns;
pub mod landscape;
pub mod laser;
pub mod plane;
pub mod registry;
pub mod rng;
pub mod spawn;
pub mod spawner;
pub mod timer;
pub mod vec3;

verus! {

/// Half-extent of the playable landscape, in whole units.
pub const LANDSCAPE_SIZE: i64 = 1200;

/// Half of `LANDSCAPE_SIZE`, in micro-units: the world boundary used by
/// every culling decision.
pub const LANDSCAPE_SIZE_HALF: i64 = 600_000_000;

} // verus!

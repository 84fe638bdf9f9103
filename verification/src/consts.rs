//! Configuration constants of the simulation.

use vstd::prelude::*;

verus! {

/// Physics steps per second of simulated time.
pub const STEPS_PER_SECOND: i64 = 60;

/// Substeps that make up one physics step.
pub const NUM_SUBSTEPS: u32 = 10;

/// Substeps per second of simulated time: the reciprocal of the substep
/// duration, which is what the integrator divides and multiplies by.
pub const SUBSTEPS_PER_SECOND: i64 = 600;

/// Duration of one physics step in nanoseconds (a sixtieth of a second,
/// rounded to the nearest nanosecond).
pub const DELTA_TIME: u64 = 16_666_667;

/// The factor `k` of the broad-phase safety margin `k * frame_dt * |velocity|`.
pub const COLLISION_PAIR_VEL_MARGIN_FACTOR: i64 = 2;

} // verus!

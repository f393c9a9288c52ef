//! A small gravitational N-body simulation core.
//!
//! The library keeps every kinematic quantity in exact fixed-point integer
//! arithmetic: positions, velocities and accelerations are `i128` components
//! measured in micro-units (micrometres, micrometres per second, and
//! micrometres per second squared), and masses are `u128` kilograms. All
//! arithmetic is therefore exact and fully specified, and every update the
//! engine makes is pinned down by its contract.
//!
//! The pieces are:
//! - the body state and the per-frame physics passes (`satellite`):
//!   pairwise gravitational accumulation and the integrator;
//! - the registry that owns the bodies and drives one frame (`registry`);
//! - the timewarp clock (this file and `controls`): a discrete level selects
//!   a time multiplier from a fixed table;
//! - input-state translation helpers (`controls`).

use vstd::prelude::*;

pub mod arith;
pub mod controls;
pub mod laws;
pub mod registry;
pub mod satellite;
pub mod vec3;

verus! {

/// Number of entries in the timewarp scale table.
pub const TIMEWARP_LEVELS: usize = 7;

/// The timewarp scale table: level `l` selects a multiplier that converts
/// real elapsed time into simulated elapsed time.
pub open spec fn spec_scale(level: int) -> u64 {
    if level <= 0 {
        1
    } else if level == 1 {
        5
    } else if level == 2 {
        10
    } else if level == 3 {
        100
    } else if level == 4 {
        1000
    } else if level == 5 {
        10000
    } else {
        100000
    }
}

/// Discrete timewarp level: an index into the fixed scale table.
pub struct TimewarpLevel(pub usize);

/// Timewarp factor: the multiplier selected by the current level.
pub struct TimewarpFactor(pub u64);

/// Looks the scale table up at `level`.
pub fn scale_of(level: usize) -> (s: u64)
    requires
        level < TIMEWARP_LEVELS,
    ensures
        s == spec_scale(level as int),
{
    match level {
        0 => 1,
        1 => 5,
        2 => 10,
        3 => 100,
        4 => 1000,
        5 => 10000,
        _ => 100000,
    }
}

/// Well-formedness of the timewarp clock: the level indexes the table and
/// the factor is exactly the table entry at that level.
pub open spec fn timewarp_wf(level: TimewarpLevel, factor: TimewarpFactor) -> bool {
    &&& level.0 < TIMEWARP_LEVELS
    &&& factor.0 == spec_scale(level.0 as int)
}

} // verus!

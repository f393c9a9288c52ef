//! Operator commands: the discrete timewarp transitions and the translation
//! of per-axis activation state into a camera move vector.
//!
//! The timewarp commands are edge-triggered: the caller hands in whether the
//! increase and the decrease command fired this frame (a press edge, not a
//! held key), and the clock moves at most one level per frame.

use vstd::prelude::*;

use crate::vec3::Vec3;
use crate::TimewarpFactor;
use crate::TimewarpLevel;
use crate::TIMEWARP_LEVELS;
use crate::scale_of;
use crate::spec_scale;

verus! {

/// The level after one frame's command intake. An increase wins over a
/// simultaneous decrease; a command at the boundary of the table is a no-op.
pub open spec fn next_level(increase: bool, decrease: bool, level: int) -> int {
    if increase && level < TIMEWARP_LEVELS - 1 {
        level + 1
    } else if decrease && level > 0 {
        level - 1
    } else {
        level
    }
}

/// The factor after one frame's command intake: it is recomputed from the
/// table whenever a command fired, and untouched otherwise.
pub open spec fn next_factor(increase: bool, decrease: bool, level: int, factor: u64) -> u64 {
    if increase || decrease {
        spec_scale(next_level(increase, decrease, level))
    } else {
        factor
    }
}

/// Applies one frame's timewarp commands to the clock.
///
/// `increase` and `decrease` report the press edges of the two commands for
/// this frame; the level moves by at most one step and never leaves the
/// table, and the factor is the table entry at the new level whenever a
/// command fired.
pub fn handle_timewarp_input(
    increase: bool,
    decrease: bool,
    level: &mut TimewarpLevel,
    factor: &mut TimewarpFactor,
)
    requires
        old(level).0 < TIMEWARP_LEVELS,
    ensures
        final(level).0 == next_level(increase, decrease, old(level).0 as int),
        final(factor).0 == next_factor(
            increase,
            decrease,
            old(level).0 as int,
            old(factor).0,
        ),
        final(level).0 < TIMEWARP_LEVELS,
{
    if increase && level.0 < TIMEWARP_LEVELS - 1 {
        level.0 = level.0 + 1;
    } else if decrease && level.0 > 0 {
        level.0 = level.0 - 1;
    }
    if increase || decrease {
        factor.0 = scale_of(level.0);
    }
}

/// Per-axis activation state handed in by the input-translation layer:
/// each field is 1 while its axis is active and 0 otherwise.
pub struct ControlState {
    pub forward: isize,
    pub backward: isize,
    pub left: isize,
    pub right: isize,
    pub zoom_in: isize,
    pub zoom_out: isize,
}

/// Whether every axis field is an activation value (0 or 1).
pub open spec fn control_state_wf(state: ControlState) -> bool {
    &&& 0 <= state.forward <= 1
    &&& 0 <= state.backward <= 1
    &&& 0 <= state.left <= 1
    &&& 0 <= state.right <= 1
    &&& 0 <= state.zoom_in <= 1
    &&& 0 <= state.zoom_out <= 1
}

/// A camera move request: one step of -1, 0 or 1 per axis.
pub struct MoveVector(pub Vec3);

/// One key binding per camera axis, as platform scan codes.
pub enum ControlScheme {
    Keyboard {
        forward: u32,
        backward: u32,
        left: u32,
        right: u32,
        zoom_in: u32,
        zoom_out: u32,
    },
}

/// Combines the per-axis activation state into a signed move vector:
/// opposite axes cancel, each component ends up in -1, 0 or 1.
pub fn handle_camera_move_input(state: &ControlState) -> (mv: MoveVector)
    requires
        control_state_wf(*state),
    ensures
        mv.0.x == state.right - state.left,
        mv.0.y == state.forward - state.backward,
        mv.0.z == state.zoom_out - state.zoom_in,
{
    MoveVector(
        Vec3 {
            x: (state.right - state.left) as i128,
            y: (state.forward - state.backward) as i128,
            z: (state.zoom_out - state.zoom_in) as i128,
        },
    )
}

} // verus!

use orbits::controls::handle_camera_move_input;
use orbits::controls::handle_timewarp_input;
use orbits::controls::ControlState;
use orbits::registry::sim_dt;
use orbits::scale_of;
use orbits::TimewarpFactor;
use orbits::TimewarpLevel;
use orbits::TIMEWARP_LEVELS;

// The scale table in order.
#[test]
fn scale_table() {
    let expected: [u64; 7] = [1, 5, 10, 100, 1000, 10000, 100000];
    for (level, want) in expected.iter().enumerate() {
        assert_eq!(scale_of(level), *want);
    }
    assert_eq!(TIMEWARP_LEVELS, 7);
}

// Starting at level 0, repeated decrease commands leave the level at 0 and
// the factor at the first table entry.
#[test]
fn decrease_clamps_at_zero() {
    let mut level = TimewarpLevel(0);
    let mut factor = TimewarpFactor(1);
    for _ in 0..10 {
        handle_timewarp_input(false, true, &mut level, &mut factor);
        assert_eq!(level.0, 0);
        assert_eq!(factor.0, 1);
    }
}

// Starting at the maximum level, repeated increase commands leave the level
// unchanged and the factor at the last table entry.
#[test]
fn increase_clamps_at_max() {
    let mut level = TimewarpLevel(TIMEWARP_LEVELS - 1);
    let mut factor = TimewarpFactor(100000);
    for _ in 0..10 {
        handle_timewarp_input(true, false, &mut level, &mut factor);
        assert_eq!(level.0, TIMEWARP_LEVELS - 1);
        assert_eq!(factor.0, 100000);
    }
}

// The factor is recomputed to exactly the table entry on a transition, and
// untouched on frames without a command.
#[test]
fn factor_tracks_transitions_only() {
    let mut level = TimewarpLevel(0);
    let mut factor = TimewarpFactor(1);
    handle_timewarp_input(true, false, &mut level, &mut factor);
    assert_eq!((level.0, factor.0), (1, 5));
    handle_timewarp_input(true, false, &mut level, &mut factor);
    assert_eq!((level.0, factor.0), (2, 10));
    // No command: nothing moves, even if the factor was stale.
    factor.0 = 999;
    handle_timewarp_input(false, false, &mut level, &mut factor);
    assert_eq!((level.0, factor.0), (2, 999));
    // A command resynchronises the factor with the table.
    handle_timewarp_input(false, true, &mut level, &mut factor);
    assert_eq!((level.0, factor.0), (1, 5));
}

// Both commands on one frame: the increase wins; at the top of the table
// the decrease then applies, as the command intake is ordered.
#[test]
fn simultaneous_commands() {
    let mut level = TimewarpLevel(0);
    let mut factor = TimewarpFactor(1);
    handle_timewarp_input(true, true, &mut level, &mut factor);
    assert_eq!((level.0, factor.0), (1, 5));
    let mut level = TimewarpLevel(TIMEWARP_LEVELS - 1);
    let mut factor = TimewarpFactor(100000);
    handle_timewarp_input(true, true, &mut level, &mut factor);
    assert_eq!((level.0, factor.0), (5, 10000));
}

// A frame's simulated step is the real delta scaled by the factor.
#[test]
fn sim_dt_scales_frame_delta() {
    let factor = TimewarpFactor(100000);
    assert_eq!(sim_dt(16_666, &factor), 1_666_600_000);
    let unit = TimewarpFactor(1);
    assert_eq!(sim_dt(16_666, &unit), 16_666);
}

// Opposite camera axes cancel; each component is -1, 0 or 1.
#[test]
fn camera_move_vector() {
    let state = ControlState {
        forward: 1,
        backward: 0,
        left: 1,
        right: 1,
        zoom_in: 0,
        zoom_out: 1,
    };
    let mv = handle_camera_move_input(&state);
    assert_eq!(mv.0.x, 0);
    assert_eq!(mv.0.y, 1);
    assert_eq!(mv.0.z, 1);
    let idle = ControlState {
        forward: 0,
        backward: 0,
        left: 0,
        right: 0,
        zoom_in: 0,
        zoom_out: 0,
    };
    let mv = handle_camera_move_input(&idle);
    assert_eq!((mv.0.x, mv.0.y, mv.0.z), (0, 0, 0));
}

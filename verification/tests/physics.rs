use orbits::satellite::interact_satellites;
use orbits::satellite::update_satellite;
use orbits::satellite::Satellite;
use orbits::vec3::Vec3;

fn body(name: &str, mass: u128, position: Vec3, velocity: Vec3) -> Satellite {
    Satellite {
        mass,
        velocity,
        position,
        acceleration: Vec3 { x: 0, y: 0, z: 0 },
        name: name.to_string(),
    }
}

// Two equal masses 10 metres... 10^7 metres apart on the x axis: the
// acceleration of each is exactly G*m/d^2 in micro-units, equal in
// magnitude, opposite in direction, each pointing at the other body.
#[test]
fn force_symmetry_pair() {
    let m: u128 = 1_000_000_000_000_000_000_000_000; // 10^24 kg
    let mut bodies = vec![
        body("a", m, Vec3::new(0, 0, 0), Vec3::new(0, 0, 0)),
        body("b", m, Vec3::new(10_000_000_000_000, 0, 0), Vec3::new(0, 0, 0)),
    ];
    interact_satellites(&mut bodies);
    // G*m/d^2 = 6.67e-11 * 1e24 / 1e14 = 0.667 m/s^2 = 667_000 micro.
    assert_eq!(bodies[0].acceleration.x, 667_000);
    assert_eq!(bodies[1].acceleration.x, -667_000);
    assert_eq!(bodies[0].acceleration.x, -bodies[1].acceleration.x);
    assert_eq!(bodies[0].acceleration.y, 0);
    assert_eq!(bodies[0].acceleration.z, 0);
}

// Unequal masses, on inputs where every division is exact: each
// acceleration scales with the other body's mass and the mass-weighted
// pulls balance exactly here. In general the truncating divisions leave an
// imbalance, bounded by 2*(m1 + m2) per component (see
// force_balance_bound_witness below).
#[test]
fn force_symmetry_unequal_masses() {
    let m1: u128 = 1_000_000_000_000_000_000_000_000; // 10^24 kg
    let m2: u128 = 2_000_000_000_000_000_000_000_000; // 2x10^24 kg
    let mut bodies = vec![
        body("light", m1, Vec3::new(0, 0, 0), Vec3::new(0, 0, 0)),
        body("heavy", m2, Vec3::new(10_000_000_000_000, 0, 0), Vec3::new(0, 0, 0)),
    ];
    interact_satellites(&mut bodies);
    // The light body feels the heavy one: 2 * 667_000.
    assert_eq!(bodies[0].acceleration.x, 1_334_000);
    assert_eq!(bodies[1].acceleration.x, -667_000);
    // Newton's third law on the forces: m1*a1 == -m2*a2.
    assert_eq!(
        m1 as i128 * bodies[0].acceleration.x,
        -(m2 as i128 * bodies[1].acceleration.x)
    );
}

// Masses chosen so both acceleration magnitudes floor to a single
// micro-unit: the mass-weighted pulls then differ as much as truncation
// allows, and stay within the proven bound of 2*(m1 + m2) per component.
#[test]
fn force_balance_bound_witness() {
    let m1: u128 = 15_000_000_000; // 1.5e10 kg
    let m2: u128 = 22_500_000_000; // 2.25e10 kg
    let mut bodies = vec![
        body("a", m1, Vec3::new(0, 0, 0), Vec3::new(0, 0, 0)),
        body("b", m2, Vec3::new(1_000_000_000, 0, 0), Vec3::new(0, 0, 0)), // one km
    ];
    interact_satellites(&mut bodies);
    // 667 * m / 1e13 floors to 1 for both masses; the full kilometre of
    // direction keeps the magnitude.
    assert_eq!(bodies[0].acceleration.x, 1);
    assert_eq!(bodies[1].acceleration.x, -1);
    let imbalance = m1 as i128 * bodies[0].acceleration.x + m2 as i128 * bodies[1].acceleration.x;
    assert_eq!(imbalance, -7_500_000_000);
    assert!(imbalance.abs() <= 2 * (m1 + m2) as i128);
}

// Three mutually interacting bodies: each acceleration is the sum of the
// contributions from both other bodies, not the last pair processed.
#[test]
fn three_body_accumulation() {
    let m: u128 = 1_000_000_000_000_000_000_000_000; // 10^24 kg
    let mut bodies = vec![
        body("mid", m, Vec3::new(0, 0, 0), Vec3::new(0, 0, 0)),
        body("right", m, Vec3::new(10_000_000_000_000, 0, 0), Vec3::new(0, 0, 0)),
        body("left", m, Vec3::new(-10_000_000_000_000, 0, 0), Vec3::new(0, 0, 0)),
    ];
    interact_satellites(&mut bodies);
    // The middle body is pulled equally both ways: exact cancellation.
    assert_eq!(bodies[0].acceleration.x, 0);
    // Each outer body: 667_000 from the middle plus 166_750 from the far
    // body (at twice the distance: a quarter of the pull).
    assert_eq!(bodies[1].acceleration.x, -833_750);
    assert_eq!(bodies[2].acceleration.x, 833_750);
}

// The accumulator replaces stale accelerations instead of adding to them.
#[test]
fn acceleration_is_recomputed_not_carried_over() {
    let m: u128 = 1_000_000_000_000_000_000_000_000;
    let mut bodies = vec![
        body("a", m, Vec3::new(0, 0, 0), Vec3::new(0, 0, 0)),
        body("b", m, Vec3::new(10_000_000_000_000, 0, 0), Vec3::new(0, 0, 0)),
    ];
    bodies[0].acceleration = Vec3::new(123, 456, 789);
    bodies[1].acceleration = Vec3::new(-1, -2, -3);
    interact_satellites(&mut bodies);
    assert_eq!(bodies[0].acceleration.x, 667_000);
    assert_eq!(bodies[0].acceleration.y, 0);
    assert_eq!(bodies[0].acceleration.z, 0);
    interact_satellites(&mut bodies);
    assert_eq!(bodies[0].acceleration.x, 667_000);
}

// Two bodies at identical coordinates: the clamp makes both contributions
// finite (here exactly zero, the separation having no direction), and
// masses, positions and velocities are untouched.
#[test]
fn degenerate_distance_coincident() {
    let m: u128 = 1_989_000_000_000_000_000_000_000_000_000; // 1.989e30 kg
    let p = Vec3::new(42, -7, 9);
    let mut bodies = vec![
        body("a", m, p, Vec3::new(1, 2, 3)),
        body("b", m, p, Vec3::new(4, 5, 6)),
    ];
    interact_satellites(&mut bodies);
    assert_eq!(bodies[0].acceleration.x, 0);
    assert_eq!(bodies[0].acceleration.y, 0);
    assert_eq!(bodies[0].acceleration.z, 0);
    assert_eq!(bodies[1].acceleration.x, 0);
    assert_eq!(bodies[0].velocity.x, 1);
    assert_eq!(bodies[1].position.x, 42);
}

// Two bodies one metre apart: the squared separation is clamped up to
// EPS_D2 (10^6 square metres), bounding the pull.
#[test]
fn degenerate_distance_clamped() {
    let m: u128 = 1_000_000_000_000_000_000_000_000; // 10^24 kg
    let mut bodies = vec![
        body("a", m, Vec3::new(0, 0, 0), Vec3::new(0, 0, 0)),
        body("b", m, Vec3::new(1_000_000, 0, 0), Vec3::new(0, 0, 0)),
    ];
    interact_satellites(&mut bodies);
    // am = 667 * 1e24 / (1e7 * 1e6) = 6.67e13; direction r/d = 1/1000.
    assert_eq!(bodies[0].acceleration.x, 66_700_000_000);
    assert_eq!(bodies[1].acceleration.x, -66_700_000_000);
}

// The integrator's exact update rule: velocity first, then position from
// the already-updated velocity plus the half acceleration term.
#[test]
fn integrator_update_rule() {
    let m: u128 = 1_000_000_000_000_000_000_000_000;
    let mut bodies = vec![body(
        "a",
        m,
        Vec3::new(0, 0, 0),
        Vec3::new(1_000_000, 0, 0), // 1 m/s
    )];
    bodies[0].acceleration = Vec3::new(2_000_000, 0, 0); // 2 m/s^2
    update_satellite(&mut bodies, 3_000_000); // 3 s
    // v' = 1 + 2*3 = 7 m/s.
    assert_eq!(bodies[0].velocity.x, 7_000_000);
    // p' = v'*t + a*t^2/2 = 21 + 9 = 30 m: the updated velocity is used.
    assert_eq!(bodies[0].position.x, 30_000_000);
    // Acceleration, mass and name are untouched.
    assert_eq!(bodies[0].acceleration.x, 2_000_000);
    assert_eq!(bodies[0].mass, m);
    assert_eq!(bodies[0].name, "a");
}

// One frame conserves the total momentum of an equal-mass pair exactly.
#[test]
fn momentum_conservation_equal_pair_exact() {
    let m: u128 = 1_000_000_000_000_000_000_000_000;
    let mut bodies = vec![
        body("a", m, Vec3::new(0, 0, 0), Vec3::new(5_000_000, -300, 7)),
        body("b", m, Vec3::new(10_000_000_000_000, 2_000_000_000, 0), Vec3::new(-20, 44, 1)),
    ];
    let before: (i128, i128, i128) = momentum(&bodies);
    for _ in 0..50 {
        interact_satellites(&mut bodies);
        update_satellite(&mut bodies, 1_000_000);
    }
    let after = momentum(&bodies);
    assert_eq!(before, after);
}

// A three-body system of unequal masses conserves momentum within the
// rounding of the integer divisions over many steps.
#[test]
fn momentum_conservation_three_body_tolerance() {
    let mut bodies = vec![
        body(
            "sun",
            1_989_000_000_000_000_000_000_000_000_000,
            Vec3::new(0, 0, 0),
            Vec3::new(0, 0, 0),
        ),
        body(
            "earth",
            5_970_000_000_000_000_000_000_000,
            Vec3::new(149_600_000_000_000_000, 0, 0),
            Vec3::new(0, 29_779_301_841, 0),
        ),
        body(
            "moon",
            73_500_000_000_000_000_000_000,
            Vec3::new(149_984_400_000_000_000, 0, 0),
            Vec3::new(0, 30_801_301_841, 0),
        ),
    ];
    let before = momentum_f64(&bodies);
    for _ in 0..100 {
        interact_satellites(&mut bodies);
        update_satellite(&mut bodies, 10_000_000_000); // 10^4 s per step
    }
    let after = momentum_f64(&bodies);
    let scale = 1.989e30_f64 * 3.0e4_f64 * 1.0e6_f64; // a momentum yardstick
    assert!(((after.0 - before.0) / scale).abs() < 1.0e-2);
    assert!(((after.1 - before.1) / scale).abs() < 1.0e-2);
    assert!(((after.2 - before.2) / scale).abs() < 1.0e-2);
}

fn momentum(bodies: &[Satellite]) -> (i128, i128, i128) {
    let mut px: i128 = 0;
    let mut py: i128 = 0;
    let mut pz: i128 = 0;
    for b in bodies {
        px += b.mass as i128 * b.velocity.x;
        py += b.mass as i128 * b.velocity.y;
        pz += b.mass as i128 * b.velocity.z;
    }
    (px, py, pz)
}

fn momentum_f64(bodies: &[Satellite]) -> (f64, f64, f64) {
    let mut px: f64 = 0.0;
    let mut py: f64 = 0.0;
    let mut pz: f64 = 0.0;
    for b in bodies {
        px += b.mass as f64 * b.velocity.x as f64;
        py += b.mass as f64 * b.velocity.y as f64;
        pz += b.mass as f64 * b.velocity.z as f64;
    }
    (px, py, pz)
}

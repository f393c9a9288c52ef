use orbits::registry::BodyRegistry;
use orbits::registry::ConfigError;
use orbits::satellite::circular_orbit_speed;
use orbits::satellite::InfoTimer;
use orbits::vec3::Vec3;

// A zero mass is rejected at setup as InvalidBodyConfig; the registry is
// untouched by the rejection.
#[test]
fn zero_mass_rejected() {
    let mut reg = BodyRegistry::new();
    let r = reg.add_body("ghost".to_string(), 0, Vec3::zero(), Vec3::zero());
    assert_eq!(r, Err(ConfigError::InvalidBodyConfig));
    assert_eq!(reg.len(), 0);
    let r = reg.add_body("real".to_string(), 1, Vec3::zero(), Vec3::zero());
    assert_eq!(r, Ok(()));
    assert_eq!(reg.len(), 1);
}

// A body is admitted with the caller's state and zero acceleration,
// whatever acceleration history the caller might imagine.
#[test]
fn added_body_starts_with_zero_acceleration() {
    let mut reg = BodyRegistry::new();
    reg.add_body(
        "probe".to_string(),
        42,
        Vec3::new(1, 2, 3),
        Vec3::new(4, 5, 6),
    )
    .unwrap();
    let b = reg.body(0);
    assert_eq!(b.name, "probe");
    assert_eq!(b.mass, 42);
    assert_eq!((b.position.x, b.position.y, b.position.z), (1, 2, 3));
    assert_eq!((b.velocity.x, b.velocity.y, b.velocity.z), (4, 5, 6));
    assert_eq!((b.acceleration.x, b.acceleration.y, b.acceleration.z), (0, 0, 0));
}

// A frame within the admitted ranges advances the bodies; a step beyond
// the cap refuses and leaves everything in place.
#[test]
fn step_advances_or_refuses() {
    let mut reg = BodyRegistry::new();
    reg.add_body(
        "a".to_string(),
        1_000_000_000_000_000_000_000_000,
        Vec3::new(0, 0, 0),
        Vec3::zero(),
    )
    .unwrap();
    reg.add_body(
        "b".to_string(),
        1_000_000_000_000_000_000_000_000,
        Vec3::new(10_000_000_000_000, 0, 0),
        Vec3::zero(),
    )
    .unwrap();
    // dt over the cap: refused, untouched.
    assert!(!reg.step(10_000_000_001));
    assert_eq!(reg.body(0).velocity.x, 0);
    assert_eq!(reg.body(0).acceleration.x, 0);
    // One second: both bodies accelerate toward each other.
    assert!(reg.step(1_000_000));
    assert_eq!(reg.body(0).acceleration.x, 667_000);
    assert_eq!(reg.body(0).velocity.x, 667_000);
    assert_eq!(reg.body(1).velocity.x, -667_000);
}

// A body beyond the region the force accumulator covers: the frame is
// refused outright and nothing moves, accelerations included.
#[test]
fn step_refuses_out_of_force_range() {
    let mut reg = BodyRegistry::new();
    reg.add_body(
        "far".to_string(),
        1_000_000_000_000_000_000_000_000,
        Vec3::new(100_000_000_000_000_000_001, 0, 0), // just past 10^20
        Vec3::new(7, 0, 0),
    )
    .unwrap();
    reg.add_body(
        "near".to_string(),
        1_000_000_000_000_000_000_000_000,
        Vec3::zero(),
        Vec3::zero(),
    )
    .unwrap();
    assert!(!reg.step(1_000_000));
    assert_eq!(reg.body(0).position.x, 100_000_000_000_000_000_001);
    assert_eq!(reg.body(0).velocity.x, 7);
    assert_eq!(reg.body(0).acceleration.x, 0);
}

// The telemetry timer fires exactly when its real-time interval is
// crossed, and keeps the leftover.
#[test]
fn info_timer_cadence() {
    let mut t = InfoTimer::new(1_000_000); // one second
    assert!(!t.tick(400_000));
    assert_eq!(t.elapsed_micros, 400_000);
    assert!(t.tick(700_000));
    assert_eq!(t.elapsed_micros, 100_000);
    assert!(!t.tick(899_999));
    assert!(t.tick(1));
    assert_eq!(t.elapsed_micros, 0);
    // A long stall that spans several intervals still fires once, keeping
    // the remainder within the interval.
    assert!(t.tick(3_500_000));
    assert_eq!(t.elapsed_micros, 500_000);
}

// The circular-orbit speed for the solar configuration, exactly as the
// integer formula states it (29779.3 m/s in micro-units).
#[test]
fn orbit_speed_solar() {
    let v = circular_orbit_speed(1_989_000_000_000_000_000_000_000_000_000, 149_600_000_000);
    assert_eq!(v, 29_779_301_841);
}

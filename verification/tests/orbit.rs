use orbits::registry::BodyRegistry;
use orbits::satellite::circular_orbit_speed;
use orbits::vec3::Vec3;

// End-to-end orbit scenario. A central body of mass 1.989e30 kg sits at
// the origin, stationary; a satellite orbits at 1.496e11 m with the
// circular-orbit speed perpendicular to the radius. Running at timewarp
// factor 1 for 1/1000 of the analytic period 2*pi*sqrt(r^3/(G*M)) must
// move the satellite tangentially by the small-angle arc within 1%, while
// its distance from the central body drifts by less than 0.1%.
#[test]
fn orbit_small_angle() {
    let mass_sun: u128 = 1_989_000_000_000_000_000_000_000_000_000;
    let radius_m: u128 = 149_600_000_000;
    let radius_micro: i128 = 149_600_000_000_000_000;
    let v = circular_orbit_speed(mass_sun, radius_m); // micro-units
    assert_eq!(v, 29_779_301_841);

    let mut reg = BodyRegistry::new();
    reg.add_body("Sun".to_string(), mass_sun, Vec3::zero(), Vec3::zero())
        .unwrap();
    reg.add_body(
        "sat".to_string(),
        1000,
        Vec3::new(radius_micro, 0, 0),
        Vec3::new(0, v as i128, 0),
    )
    .unwrap();

    let g = 6.67e-11_f64;
    let r = radius_m as f64;
    let period = 2.0 * std::f64::consts::PI * (r * r * r / (g * mass_sun as f64)).sqrt();
    let duration = period / 1000.0;
    let steps: u32 = 100;
    let dt_micros = (duration / steps as f64 * 1.0e6) as u64;
    for _ in 0..steps {
        assert!(reg.step(dt_micros));
    }

    let simulated = dt_micros as f64 * steps as f64 / 1.0e6;
    let sat = reg.body(1);
    let x = sat.position.x as f64 / 1.0e6;
    let y = sat.position.y as f64 / 1.0e6;
    let sx = reg.body(0).position.x as f64 / 1.0e6;
    let sy = reg.body(0).position.y as f64 / 1.0e6;

    // Tangential movement matches the analytic small-angle arc within 1%.
    let expected_arc = v as f64 / 1.0e6 * simulated;
    assert!(
        (y - expected_arc).abs() < 0.01 * expected_arc,
        "tangential movement {y} vs expected {expected_arc}"
    );

    // The separation from the central body must not drift by more than 0.1%.
    let dist = ((x - sx) * (x - sx) + (y - sy) * (y - sy)).sqrt();
    assert!(
        (dist - r).abs() < 0.001 * r,
        "radial drift: {dist} vs {r}"
    );

    // The satellite has turned inward: the radial velocity is negative and
    // small against the tangential one.
    assert!(sat.velocity.x < 0);
    assert!(sat.velocity.x.abs() < sat.velocity.y.abs() / 100);
}

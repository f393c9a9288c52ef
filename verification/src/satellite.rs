//! Body state and the two per-frame physics passes.
//!
//! `interact_satellites` is the force accumulator: from a frozen snapshot of
//! masses and positions it recomputes every body's acceleration as the sum
//! of the pairwise gravitational contributions from all other bodies,
//! replacing any prior value. `update_satellite` is the integrator: it
//! advances velocity first, then position using the already-updated velocity
//! plus a second-order acceleration term. This exact ordering is kept on
//! purpose; it double-counts part of the acceleration's contribution to
//! displacement and drifts in energy as the step grows.
//!
//! Units. Positions, velocities and accelerations are stored in micro-units
//! (micrometres, micrometres per second, micrometres per second squared);
//! masses in kilograms; time deltas in microseconds. The gravitational
//! constant is the exact rational `G_NUM / G_DEN` in SI units, so the
//! acceleration exerted by a mass `m` at squared distance `d2` square metres
//! is `G_NUM * m / (ACCEL_DIV * d2)` micro-units, where
//! `ACCEL_DIV == G_DEN / SCALE`.
//!
//! Near-coincident bodies: when the squared separation falls below `EPS_D2`
//! square metres it is clamped up to `EPS_D2`, which bounds every pairwise
//! contribution by `CONTRIB_MAX`. A degenerate separation is handled, never
//! reported as an error.

use vstd::prelude::*;

use crate::arith::abs_int;
use crate::arith::lemma_sqrt_floor_bounds;
use crate::arith::sdiv;
use crate::arith::sqrt_floor;
use crate::arith::isqrt;
use crate::vec3::GVec3;
use crate::vec3::Vec3;
use crate::vec3::sdiv128;

verus! {

/// Micro-units per SI unit.
pub const SCALE: u128 = 1_000_000;

/// Numerator of the gravitational constant: `G == G_NUM / G_DEN`.
pub const G_NUM: u128 = 667;

/// Denominator of the gravitational constant (`G == 6.67e-11`).
pub const G_DEN: u128 = 10_000_000_000_000;

/// `G_DEN / SCALE`: the divisor that yields accelerations in micro-units.
pub const ACCEL_DIV: u128 = 10_000_000;

/// Clamp floor for the squared separation, in square metres: separations
/// under a kilometre are treated as a kilometre by the force law.
pub const EPS_D2: u128 = 1_000_000;

/// Largest admitted body mass, in kilograms (10^33, five hundred suns).
pub const MASS_MAX: u128 = 1_000_000_000_000_000_000_000_000_000_000_000;

/// Largest magnitude of a pairwise acceleration contribution:
/// `G_NUM * MASS_MAX / (ACCEL_DIV * EPS_D2)`.
pub const CONTRIB_MAX: u128 = 66_700_000_000_000_000_000_000;

/// Largest position component the force accumulator admits, in
/// micrometres (10^14 metres, about 670 astronomical units).
pub const POS_FORCE_MAX: i128 = 100_000_000_000_000_000_000;

/// Largest body count the force accumulator admits.
pub const N_MAX: usize = 4096;

/// Largest simulated time step, in microseconds (10^4 seconds). The cap is
/// what the second-order position term leaves room for in `i128` at the
/// engine's velocity and acceleration caps (the step enters that term
/// squared), and it covers the maximum timewarp (100,000x) at any frame
/// rate of ten frames per second or faster; a caller whose frame would
/// exceed it clamps the step, trading a sliver of simulated time for a
/// frame that never fails.
pub const DT_MAX: u64 = 10_000_000_000;

/// Largest velocity component the integrator admits, in micro-units.
pub const VEL_MAX: i128 = 1_000_000_000_000_000_000_000_000;

/// Largest acceleration component the integrator admits, in micro-units.
pub const ACC_MAX: i128 = 1_000_000_000_000_000_000_000_000;

/// Largest position component the integrator admits, in micro-units.
pub const POS_MAX: i128 = 1_000_000_000_000_000_000_000_000_000_000_000;

/// A simulated point mass.
pub struct Satellite {
    /// Mass in kilograms; positive for every admitted body.
    pub mass: u128,
    /// Velocity in micrometres per second.
    pub velocity: Vec3,
    /// Position in micrometres.
    pub position: Vec3,
    /// Acceleration in micrometres per second squared. Derived state:
    /// fully recomputed from the position snapshot each frame.
    pub acceleration: Vec3,
    /// Diagnostic label.
    pub name: String,
}

/// Marker for the central body of a scene.
pub struct Star;

/// A body the engine admits: positive mass, within the mass cap.
pub open spec fn body_valid(b: Satellite) -> bool {
    1 <= b.mass <= MASS_MAX
}

/// The body's position is within the region the force accumulator covers.
pub open spec fn in_force_range(b: Satellite) -> bool {
    b.position.bounded(POS_FORCE_MAX as int)
}

/// Micrometres brought down to whole metres, truncating toward zero.
pub open spec fn metres(x: int) -> int {
    sdiv(x, SCALE as int)
}

/// Squared distance between two positions, in square metres.
pub open spec fn dist2_m(p: GVec3, q: GVec3) -> int {
    let rx = metres(p.x - q.x);
    let ry = metres(p.y - q.y);
    let rz = metres(p.z - q.z);
    rx * rx + ry * ry + rz * rz
}

/// Squared distance with the singularity clamp applied.
pub open spec fn dist2_clamped(p: GVec3, q: GVec3) -> int {
    if dist2_m(p, q) < EPS_D2 {
        EPS_D2 as int
    } else {
        dist2_m(p, q)
    }
}

/// Magnitude of the acceleration exerted by a mass `m` at clamped squared
/// distance `d2c`, in micro-units.
pub open spec fn accel_mag(m: int, d2c: int) -> int {
    (G_NUM as int) * m / ((ACCEL_DIV as int) * d2c)
}

/// The acceleration contribution on a body at `p_self` from a body of mass
/// `m_other` at `p_other`: directed from the receiving body toward the
/// attracting one, with magnitude `accel_mag` spread over the direction.
pub open spec fn accel_contrib(m_other: int, p_self: GVec3, p_other: GVec3) -> GVec3 {
    let d2c = dist2_clamped(p_self, p_other);
    let d = sqrt_floor(d2c as nat) as int;
    let am = accel_mag(m_other, d2c);
    GVec3 {
        x: sdiv(am * -metres(p_self.x - p_other.x), d),
        y: sdiv(am * -metres(p_self.y - p_other.y), d),
        z: sdiv(am * -metres(p_self.z - p_other.z), d),
    }
}

/// Sum of the contributions on body `i` from bodies `0 .. k`, skipping `i`
/// itself.
pub open spec fn accel_sum(bodies: Seq<Satellite>, i: int, k: int) -> GVec3
    decreases k,
{
    if k <= 0 {
        GVec3::zero()
    } else {
        let rest = accel_sum(bodies, i, k - 1);
        if k - 1 == i {
            rest
        } else {
            rest.plus(
                accel_contrib(
                    bodies[k - 1].mass as int,
                    bodies[i].position@,
                    bodies[k - 1].position@,
                ),
            )
        }
    }
}

/// The acceleration of body `i`: the vector sum of the contributions from
/// every other body.
pub open spec fn total_accel(bodies: Seq<Satellite>, i: int) -> GVec3 {
    accel_sum(bodies, i, bodies.len() as int)
}

/// Velocity component after one step: semi-implicit Euler.
pub open spec fn vel_step(v: int, a: int, dt: int) -> int {
    v + sdiv(a * dt, SCALE as int)
}

/// Position component after one step: uses the already-updated velocity
/// plus the second-order acceleration term.
pub open spec fn pos_step(p: int, v: int, a: int, dt: int) -> int {
    let v1 = vel_step(v, a, dt);
    p + sdiv(v1 * dt, SCALE as int) + sdiv(sdiv(a * dt, SCALE as int) * dt, (2 * SCALE) as int)
}

/// The acceleration magnitude is bounded once the mass is capped and the
/// clamp is in force.
pub proof fn lemma_accel_mag_bound(m: int, d2c: int)
    requires
        0 <= m <= MASS_MAX,
        d2c >= EPS_D2,
    ensures
        0 <= accel_mag(m, d2c) <= CONTRIB_MAX,
{
    let num = (G_NUM as int) * m;
    let den = (ACCEL_DIV as int) * d2c;
    assert((G_NUM as int) * m <= (G_NUM as int) * (MASS_MAX as int)) by (nonlinear_arith)
        requires
            0 <= m <= MASS_MAX,
    ;
    assert((ACCEL_DIV as int) * d2c >= (ACCEL_DIV as int) * (EPS_D2 as int))
        by (nonlinear_arith)
        requires
            d2c >= EPS_D2,
    ;
    vstd::arithmetic::div_mod::lemma_div_basics_4(num, den);
    vstd::arithmetic::div_mod::lemma_div_is_ordered(
        num,
        (G_NUM as int) * (MASS_MAX as int),
        den,
    );
    vstd::arithmetic::div_mod::lemma_div_is_ordered_by_denominator(
        (G_NUM as int) * (MASS_MAX as int),
        (ACCEL_DIV as int) * (EPS_D2 as int),
        den,
    );
    assert((G_NUM as int) * (MASS_MAX as int) == (CONTRIB_MAX as int) * ((ACCEL_DIV as int) * (
    EPS_D2 as int)));
    vstd::arithmetic::div_mod::lemma_div_by_multiple(
        CONTRIB_MAX as int,
        (ACCEL_DIV as int) * (EPS_D2 as int),
    );
}

/// A non-negative integer whose square is at most `n` is at most
/// `sqrt_floor(n)`.
pub proof fn lemma_le_sqrt(r: int, n: nat)
    requires
        r >= 0,
        r * r <= n,
    ensures
        r <= sqrt_floor(n),
{
    lemma_sqrt_floor_bounds(n);
    let s = sqrt_floor(n);
    assert(r <= s) by (nonlinear_arith)
        requires
            r >= 0,
            s >= 0,
            r * r <= n,
            n < (s + 1) * (s + 1),
    ;
}

/// Each component of a pairwise contribution has magnitude at most
/// `accel_mag`, itself at most `CONTRIB_MAX`.
pub proof fn lemma_contrib_bounded(m_other: int, p_self: GVec3, p_other: GVec3)
    requires
        0 <= m_other <= MASS_MAX,
    ensures
        accel_contrib(m_other, p_self, p_other).bounded(accel_mag(
            m_other,
            dist2_clamped(p_self, p_other),
        )),
        accel_contrib(m_other, p_self, p_other).bounded(CONTRIB_MAX as int),
{
    let d2c = dist2_clamped(p_self, p_other);
    let d = sqrt_floor(d2c as nat) as int;
    let am = accel_mag(m_other, d2c);
    lemma_accel_mag_bound(m_other, d2c);
    lemma_sqrt_floor_bounds(d2c as nat);
    assert(d >= 1) by (nonlinear_arith)
        requires
            d2c >= EPS_D2,
            d2c < (d + 1) * (d + 1),
            d >= 0,
    ;
    let rx = metres(p_self.x - p_other.x);
    let ry = metres(p_self.y - p_other.y);
    let rz = metres(p_self.z - p_other.z);
    assert(dist2_m(p_self, p_other) == rx * rx + ry * ry + rz * rz);
    assert(rx * rx >= 0 && ry * ry >= 0 && rz * rz >= 0) by (nonlinear_arith);
    lemma_contrib_comp(am, rx, d2c, d);
    lemma_contrib_comp(am, ry, d2c, d);
    lemma_contrib_comp(am, rz, d2c, d);
}

/// One component of a contribution is bounded by the magnitude, provided
/// the component of the separation is accounted for in `d2c`.
proof fn lemma_contrib_comp(am: int, r: int, d2c: int, d: int)
    requires
        am >= 0,
        d >= 1,
        d == sqrt_floor(d2c as nat),
        r * r <= d2c,
        d2c >= 0,
    ensures
        abs_int(sdiv(am * -r, d)) <= am,
{
    let ra = if r >= 0 {
        r
    } else {
        -r
    };
    assert(ra * ra == r * r) by (nonlinear_arith)
        requires
            ra == r || ra == -r,
    ;
    lemma_le_sqrt(ra, d2c as nat);
    let t = am * ra;
    assert(t >= 0) by (nonlinear_arith)
        requires
            am >= 0,
            ra >= 0,
            t == am * ra,
    ;
    assert(am * -r == t || am * -r == -t) by (nonlinear_arith)
        requires
            t == am * ra,
            ra == r || ra == -r,
    ;
    assert(t <= am * d) by (nonlinear_arith)
        requires
            am >= 0,
            ra <= d,
            t == am * ra,
    ;
    vstd::arithmetic::div_mod::lemma_div_basics_4(t, d);
    vstd::arithmetic::div_mod::lemma_div_is_ordered(t, am * d, d);
    vstd::arithmetic::div_mod::lemma_div_by_multiple(am, d);
    assert(abs_int(sdiv(t, d)) == t / d);
    assert(abs_int(sdiv(-t, d)) == t / d);
}

/// Squares a whole-metre component into an unsigned square.
fn sq_m(x: i128) -> (r: u128)
    requires
        abs_int(x as int) <= 1_000_000_000_000_000,
    ensures
        r == (x as int) * (x as int),
        r <= 1_000_000_000_000_000_000_000_000_000_000,
{
    let m: u128 = if x >= 0 {
        x as u128
    } else {
        (-x) as u128
    };
    proof {
        assert(m * m == (x as int) * (x as int) && m * m
            <= 1_000_000_000_000_000_000_000_000_000_000) by (nonlinear_arith)
            requires
                m == x as int || m == -(x as int),
                m <= 1_000_000_000_000_000,
        ;
    }
    m * m
}

/// Scales the unit direction along one separation component by the
/// acceleration magnitude: computes `sdiv(am * -r_m, d)`.
fn scaled_dir(am: u128, r_m: i128, d: u128) -> (c: i128)
    requires
        1 <= d <= 2_000_000_000_000_000,
        am <= CONTRIB_MAX,
        abs_int(r_m as int) <= d,
    ensures
        c == sdiv((am as int) * -(r_m as int), d as int),
        abs_int(c as int) <= am,
{
    let m: u128 = if r_m >= 0 {
        r_m as u128
    } else {
        (-r_m) as u128
    };
    proof {
        assert(am * m <= am * d && am * d <= CONTRIB_MAX * 2_000_000_000_000_000int)
            by (nonlinear_arith)
            requires
                am >= 0,
                m <= d,
                d <= 2_000_000_000_000_000,
                am <= CONTRIB_MAX,
        ;
    }
    let q: u128 = (am * m) / d;
    proof {
        vstd::arithmetic::div_mod::lemma_div_basics_4((am * m) as int, d as int);
        vstd::arithmetic::div_mod::lemma_div_is_ordered(
            (am * m) as int,
            (am as int) * (d as int),
            d as int,
        );
        vstd::arithmetic::div_mod::lemma_div_by_multiple(am as int, d as int);
        assert((r_m >= 0 ==> (am as int) * -(r_m as int) == -((am * m) as int)) && (r_m < 0 ==> (
        am as int) * -(r_m as int) == (am * m) as int)) by (nonlinear_arith)
            requires
                r_m >= 0 ==> m == r_m as int,
                r_m < 0 ==> m == -(r_m as int),
        ;
        vstd::arithmetic::div_mod::lemma_div_of0(d as int);
        assert(sdiv(-((am * m) as int), d as int) == -(((am * m) as int) / (d as int)));
        assert(sdiv((am * m) as int, d as int) == ((am * m) as int) / (d as int));
    }
    if r_m >= 0 {
        -(q as i128)
    } else {
        q as i128
    }
}

/// The acceleration contribution one body receives from another, computed
/// exactly as `accel_contrib` states it.
fn pair_contrib(p_self: Vec3, p_other: Vec3, m_other: u128) -> (c: Vec3)
    requires
        1 <= m_other <= MASS_MAX,
        p_self.bounded(POS_FORCE_MAX as int),
        p_other.bounded(POS_FORCE_MAX as int),
    ensures
        c@ == accel_contrib(m_other as int, p_self@, p_other@),
        c.bounded(CONTRIB_MAX as int),
{
    let rx = p_self.x - p_other.x;
    let ry = p_self.y - p_other.y;
    let rz = p_self.z - p_other.z;
    proof {
        crate::arith::lemma_sdiv_quotient_bound(rx as int, SCALE as int, 200_000_000_000_000int);
        crate::arith::lemma_sdiv_quotient_bound(ry as int, SCALE as int, 200_000_000_000_000int);
        crate::arith::lemma_sdiv_quotient_bound(rz as int, SCALE as int, 200_000_000_000_000int);
    }
    let rxm = sdiv128(rx, 1_000_000);
    let rym = sdiv128(ry, 1_000_000);
    let rzm = sdiv128(rz, 1_000_000);
    let d2: u128 = sq_m(rxm) + sq_m(rym) + sq_m(rzm);
    let d2c: u128 = if d2 < EPS_D2 {
        EPS_D2
    } else {
        d2
    };
    let d: u128 = isqrt(d2c);
    proof {
        assert(d >= 1) by (nonlinear_arith)
            requires
                d2c >= 1,
                d2c < (d + 1) * (d + 1),
                d >= 0,
        ;
        assert(d <= 2_000_000_000_000_000) by (nonlinear_arith)
            requires
                d * d <= d2c,
                d2c <= 3_000_000_000_000_000_000_000_000_000_000int,
                d >= 0,
        ;
        assert((rxm as int) * (rxm as int) <= d2c && (rym as int) * (rym as int) <= d2c && (
        rzm as int) * (rzm as int) <= d2c) by (nonlinear_arith)
            requires
                d2c >= (rxm as int) * (rxm as int) + (rym as int) * (rym as int) + (rzm as int) * (
                rzm as int),
        ;
        assert(abs_int(rxm as int) <= d && abs_int(rym as int) <= d && abs_int(rzm as int) <= d)
            by {
            let rax = abs_int(rxm as int);
            assert(rax * rax == (rxm as int) * (rxm as int)) by (nonlinear_arith)
                requires
                    rax == rxm as int || rax == -(rxm as int),
            ;
            lemma_le_sqrt(rax, d2c as nat);
            let ray = abs_int(rym as int);
            assert(ray * ray == (rym as int) * (rym as int)) by (nonlinear_arith)
                requires
                    ray == rym as int || ray == -(rym as int),
            ;
            lemma_le_sqrt(ray, d2c as nat);
            let raz = abs_int(rzm as int);
            assert(raz * raz == (rzm as int) * (rzm as int)) by (nonlinear_arith)
                requires
                    raz == rzm as int || raz == -(rzm as int),
            ;
            lemma_le_sqrt(raz, d2c as nat);
        }
        lemma_accel_mag_bound(m_other as int, d2c as int);
    }
    let am: u128 = (G_NUM * m_other) / (ACCEL_DIV * d2c);
    let c = Vec3 { x: scaled_dir(am, rxm, d), y: scaled_dir(am, rym, d), z: scaled_dir(am, rzm, d) };
    proof {
        assert(dist2_m(p_self@, p_other@) == d2);
        assert(d2c == dist2_clamped(p_self@, p_other@));
        assert(am == accel_mag(m_other as int, d2c as int));
        assert(c@ == accel_contrib(m_other as int, p_self@, p_other@));
    }
    c
}

/// Recomputes every body's acceleration from the current snapshot of
/// masses and positions: the sum, over all other bodies, of the pairwise
/// gravitational contributions. Prior accelerations are replaced, never
/// blended; nothing else about any body changes; degenerate separations
/// are clamped, never reported.
pub fn interact_satellites(bodies: &mut Vec<Satellite>)
    requires
        old(bodies)@.len() <= N_MAX,
        forall|k: int|
            0 <= k < old(bodies)@.len() ==> body_valid(#[trigger] old(bodies)@[k])
                && in_force_range(old(bodies)@[k]),
    ensures
        final(bodies)@.len() == old(bodies)@.len(),
        forall|k: int|
            0 <= k < old(bodies)@.len() ==> {
                let b = #[trigger] final(bodies)@[k];
                let o = old(bodies)@[k];
                &&& b.mass == o.mass
                &&& b.position == o.position
                &&& b.velocity == o.velocity
                &&& b.name == o.name
                &&& b.acceleration@ == total_accel(old(bodies)@, k)
                &&& b.acceleration.bounded(
                    old(bodies)@.len() * (CONTRIB_MAX as int),
                )
            },
{
    let ghost orig: Seq<Satellite> = bodies@;
    let n = bodies.len();
    let mut accs: Vec<Vec3> = Vec::new();
    let mut i: usize = 0;
    while i < n
        invariant
            bodies@ == orig,
            n == orig.len(),
            n <= N_MAX,
            forall|k: int|
                0 <= k < orig.len() ==> body_valid(#[trigger] orig[k]) && in_force_range(orig[k]),
            i <= n,
            accs@.len() == i,
            forall|k: int|
                0 <= k < i ==> (#[trigger] accs@[k])@ == total_accel(orig, k) && accs@[k].bounded(
                    orig.len() * (CONTRIB_MAX as int),
                ),
        decreases n - i,
    {
        let mut ax: i128 = 0;
        let mut ay: i128 = 0;
        let mut az: i128 = 0;
        let mut j: usize = 0;
        while j < n
            invariant
                bodies@ == orig,
                n == orig.len(),
                n <= N_MAX,
                forall|k: int|
                    0 <= k < orig.len() ==> body_valid(#[trigger] orig[k]) && in_force_range(
                        orig[k],
                    ),
                i < n,
                j <= n,
                (GVec3 { x: ax as int, y: ay as int, z: az as int }) == accel_sum(
                    orig,
                    i as int,
                    j as int,
                ),
                abs_int(ax as int) <= j * (CONTRIB_MAX as int),
                abs_int(ay as int) <= j * (CONTRIB_MAX as int),
                abs_int(az as int) <= j * (CONTRIB_MAX as int),
            decreases n - j,
        {
            if j != i {
                let c = pair_contrib(bodies[i].position, bodies[j].position, bodies[j].mass);
                ax = ax + c.x;
                ay = ay + c.y;
                az = az + c.z;
            }
            j = j + 1;
            proof {
                assert(accel_sum(orig, i as int, j as int) == if j - 1 == i {
                    accel_sum(orig, i as int, j - 1)
                } else {
                    accel_sum(orig, i as int, j - 1).plus(
                        accel_contrib(orig[j - 1].mass as int, orig[i as int].position@, orig[j
                            - 1].position@),
                    )
                });
            }
        }
        accs.push(Vec3 { x: ax, y: ay, z: az });
        i = i + 1;
    }
    let mut w: usize = 0;
    while w < n
        invariant
            n == orig.len(),
            bodies@.len() == orig.len(),
            accs@.len() == n,
            w <= n,
            forall|k: int|
                0 <= k < n ==> (#[trigger] accs@[k])@ == total_accel(orig, k) && accs@[k].bounded(
                    orig.len() * (CONTRIB_MAX as int),
                ),
            forall|k: int| w <= k < n ==> #[trigger] bodies@[k] == orig[k],
            forall|k: int|
                0 <= k < w ==> {
                    let b = #[trigger] bodies@[k];
                    &&& b.mass == orig[k].mass
                    &&& b.position == orig[k].position
                    &&& b.velocity == orig[k].velocity
                    &&& b.name == orig[k].name
                    &&& b.acceleration == accs@[k]
                },
        decreases n - w,
    {
        bodies[w].acceleration = accs[w];
        w = w + 1;
    }
}

/// Advances one component of one body: velocity first, then position from
/// the already-updated velocity plus the second-order acceleration term.
fn step_comp(p: i128, v: i128, a: i128, dt: u64) -> (r: (i128, i128))
    requires
        dt <= DT_MAX,
        abs_int(v as int) <= VEL_MAX,
        abs_int(a as int) <= ACC_MAX,
        abs_int(p as int) <= POS_MAX,
    ensures
        r.0 == vel_step(v as int, a as int, dt as int),
        r.1 == pos_step(p as int, v as int, a as int, dt as int),
{
    proof {
        assert(-ACC_MAX <= a as int <= ACC_MAX && -VEL_MAX <= v as int <= VEL_MAX && -POS_MAX
            <= p as int <= POS_MAX);
        assert(-10_000_000_000_000_000_000_000_000_000_000_000int <= (a as int) * (dt as int)
            <= 10_000_000_000_000_000_000_000_000_000_000_000int) by (nonlinear_arith)
            requires
                -ACC_MAX <= a as int <= ACC_MAX,
                0 <= dt as int <= DT_MAX,
        ;
    }
    let adt: i128 = a * (dt as i128);
    proof {
        crate::arith::lemma_sdiv_quotient_bound(
            adt as int,
            SCALE as int,
            10_000_000_000_000_000_000_000_000_000int,
        );
    }
    let dv: i128 = sdiv128(adt, 1_000_000);
    let v1: i128 = v + dv;
    proof {
        assert(-110_000_000_000_000_000_000_000_000_000_000_000_000int <= (v1 as int) * (dt as int)
            <= 110_000_000_000_000_000_000_000_000_000_000_000_000int) by (nonlinear_arith)
            requires
                -10_010_000_000_000_000_000_000_000_000int <= v1 as int
                    <= 10_010_000_000_000_000_000_000_000_000int,
                0 <= dt as int <= DT_MAX,
        ;
        assert(-100_000_000_000_000_000_000_000_000_000_000_000_000int <= (dv as int) * (dt as int)
            <= 100_000_000_000_000_000_000_000_000_000_000_000_000int) by (nonlinear_arith)
            requires
                -10_000_000_000_000_000_000_000_000_000int <= dv as int
                    <= 10_000_000_000_000_000_000_000_000_000int,
                0 <= dt as int <= DT_MAX,
        ;
    }
    let vdt: i128 = v1 * (dt as i128);
    let ddt: i128 = dv * (dt as i128);
    proof {
        crate::arith::lemma_sdiv_quotient_bound(
            vdt as int,
            SCALE as int,
            110_000_000_000_000_000_000_000_000_000_000int,
        );
        crate::arith::lemma_sdiv_quotient_bound(
            ddt as int,
            2 * SCALE as int,
            50_000_000_000_000_000_000_000_000_000_000int,
        );
    }
    let dp1: i128 = sdiv128(vdt, 1_000_000);
    let dp2: i128 = sdiv128(ddt, 2_000_000);
    let p1: i128 = p + dp1 + dp2;
    (v1, p1)
}

/// Advances every body by the simulated step `dt` (microseconds): velocity
/// from the body's current acceleration, then position from the new
/// velocity plus the second-order acceleration term. Masses, names and
/// accelerations are untouched.
pub fn update_satellite(bodies: &mut Vec<Satellite>, dt: u64)
    requires
        dt <= DT_MAX,
        forall|k: int|
            0 <= k < old(bodies)@.len() ==> {
                let b = #[trigger] old(bodies)@[k];
                &&& b.velocity.bounded(VEL_MAX as int)
                &&& b.acceleration.bounded(ACC_MAX as int)
                &&& b.position.bounded(POS_MAX as int)
            },
    ensures
        final(bodies)@.len() == old(bodies)@.len(),
        forall|k: int|
            0 <= k < old(bodies)@.len() ==> {
                let b = #[trigger] final(bodies)@[k];
                let o = old(bodies)@[k];
                &&& b.mass == o.mass
                &&& b.name == o.name
                &&& b.acceleration == o.acceleration
                &&& b.velocity.x == vel_step(o.velocity.x as int, o.acceleration.x as int, dt as int)
                &&& b.velocity.y == vel_step(o.velocity.y as int, o.acceleration.y as int, dt as int)
                &&& b.velocity.z == vel_step(o.velocity.z as int, o.acceleration.z as int, dt as int)
                &&& b.position.x == pos_step(
                    o.position.x as int,
                    o.velocity.x as int,
                    o.acceleration.x as int,
                    dt as int,
                )
                &&& b.position.y == pos_step(
                    o.position.y as int,
                    o.velocity.y as int,
                    o.acceleration.y as int,
                    dt as int,
                )
                &&& b.position.z == pos_step(
                    o.position.z as int,
                    o.velocity.z as int,
                    o.acceleration.z as int,
                    dt as int,
                )
            },
{
    let n = bodies.len();
    let mut i: usize = 0;
    while i < n
        invariant
            dt <= DT_MAX,
            n == old(bodies)@.len(),
            bodies@.len() == n,
            i <= n,
            forall|k: int|
                0 <= k < n ==> {
                    let b = #[trigger] old(bodies)@[k];
                    &&& b.velocity.bounded(VEL_MAX as int)
                    &&& b.acceleration.bounded(ACC_MAX as int)
                    &&& b.position.bounded(POS_MAX as int)
                },
            forall|k: int| i <= k < n ==> #[trigger] bodies@[k] == old(bodies)@[k],
            forall|k: int|
                0 <= k < i ==> {
                    let b = #[trigger] bodies@[k];
                    let o = old(bodies)@[k];
                    &&& b.mass == o.mass
                    &&& b.name == o.name
                    &&& b.acceleration == o.acceleration
                    &&& b.velocity.x == vel_step(
                        o.velocity.x as int,
                        o.acceleration.x as int,
                        dt as int,
                    )
                    &&& b.velocity.y == vel_step(
                        o.velocity.y as int,
                        o.acceleration.y as int,
                        dt as int,
                    )
                    &&& b.velocity.z == vel_step(
                        o.velocity.z as int,
                        o.acceleration.z as int,
                        dt as int,
                    )
                    &&& b.position.x == pos_step(
                        o.position.x as int,
                        o.velocity.x as int,
                        o.acceleration.x as int,
                        dt as int,
                    )
                    &&& b.position.y == pos_step(
                        o.position.y as int,
                        o.velocity.y as int,
                        o.acceleration.y as int,
                        dt as int,
                    )
                    &&& b.position.z == pos_step(
                        o.position.z as int,
                        o.velocity.z as int,
                        o.acceleration.z as int,
                        dt as int,
                    )
                },
        decreases n - i,
    {
        let a = bodies[i].acceleration;
        let v = bodies[i].velocity;
        let p = bodies[i].position;
        let (vx, px) = step_comp(p.x, v.x, a.x, dt);
        let (vy, py) = step_comp(p.y, v.y, a.y, dt);
        let (vz, pz) = step_comp(p.z, v.z, a.z, dt);
        bodies[i].velocity = Vec3 { x: vx, y: vy, z: vz };
        bodies[i].position = Vec3 { x: px, y: py, z: pz };
        i = i + 1;
    }
}

/// The speed, in micro-units, of a circular orbit of radius `radius_m`
/// metres around a central mass: the integer square root of
/// `G * mass / radius` scaled into micro-units (the divisor 10 is
/// `G_DEN / (SCALE * SCALE)`).
pub fn circular_orbit_speed(central_mass: u128, radius_m: u128) -> (v: u128)
    requires
        1 <= central_mass <= MASS_MAX,
        1 <= radius_m <= 100_000_000_000_000_000,
    ensures
        v == sqrt_floor(((G_NUM * central_mass) / (10 * radius_m)) as nat),
{
    isqrt((G_NUM * central_mass) / (10 * radius_m))
}

/// The telemetry cadence: accumulates real elapsed time and fires each time
/// the fixed interval is crossed.
pub struct InfoTimer {
    /// The reporting interval, in microseconds of real time.
    pub interval_micros: u64,
    /// Real time accumulated since the last report.
    pub elapsed_micros: u64,
}

/// The timer's invariant: a positive interval, with the accumulator
/// strictly inside it.
pub open spec fn timer_wf(t: InfoTimer) -> bool {
    &&& 1 <= t.interval_micros
    &&& t.elapsed_micros < t.interval_micros
}

impl InfoTimer {
    /// A fresh timer that first fires once `interval_micros` has elapsed.
    pub fn new(interval_micros: u64) -> (t: InfoTimer)
        requires
            interval_micros >= 1,
        ensures
            timer_wf(t),
            t.interval_micros == interval_micros,
            t.elapsed_micros == 0,
    {
        InfoTimer { interval_micros, elapsed_micros: 0 }
    }

    /// Accumulates `delta_micros` of real time; reports whether the
    /// interval was crossed, and keeps the leftover time.
    pub fn tick(&mut self, delta_micros: u64) -> (fired: bool)
        requires
            timer_wf(*old(self)),
        ensures
            timer_wf(*final(self)),
            final(self).interval_micros == old(self).interval_micros,
            fired == (old(self).elapsed_micros + delta_micros >= old(self).interval_micros),
            fired ==> final(self).elapsed_micros == (old(self).elapsed_micros + delta_micros - old(
                self,
            ).interval_micros) % (old(self).interval_micros as int),
            !fired ==> final(self).elapsed_micros == old(self).elapsed_micros + delta_micros,
    {
        let interval: u128 = self.interval_micros as u128;
        let total: u128 = self.elapsed_micros as u128 + delta_micros as u128;
        if total >= interval {
            let rem: u128 = (total - interval) % interval;
            proof {
                vstd::arithmetic::div_mod::lemma_mod_bound(
                    (total - interval) as int,
                    interval as int,
                );
            }
            self.elapsed_micros = rem as u64;
            true
        } else {
            self.elapsed_micros = total as u64;
            false
        }
    }
}

/// The running sums in the accumulator stay bounded.
pub proof fn lemma_accel_sum_bounded(bodies: Seq<Satellite>, i: int, k: int)
    requires
        0 <= k <= bodies.len(),
        forall|j: int| 0 <= j < bodies.len() ==> body_valid(#[trigger] bodies[j]),
    ensures
        accel_sum(bodies, i, k).bounded(k * CONTRIB_MAX),
    decreases k,
{
    if k > 0 {
        lemma_accel_sum_bounded(bodies, i, k - 1);
        if k - 1 != i {
            lemma_contrib_bounded(
                bodies[k - 1].mass as int,
                bodies[i].position@,
                bodies[k - 1].position@,
            );
        }
        assert((k - 1) * CONTRIB_MAX + CONTRIB_MAX == k * CONTRIB_MAX) by (nonlinear_arith);
    }
}

} // verus!

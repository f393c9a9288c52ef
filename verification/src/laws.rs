//! The engine's stated laws: Newton's third law for the pair force, exact
//! momentum conservation for an equal-mass pair, the degenerate-separation
//! guarantee, and the timewarp clamp.

use vstd::prelude::*;

use crate::arith::abs_int;
use crate::arith::lemma_sdiv_odd;
use crate::arith::lemma_sqrt_floor_bounds;
use crate::arith::sdiv;
use crate::arith::sqrt_floor;
use crate::controls::next_factor;
use crate::controls::next_level;
use crate::satellite::ACCEL_DIV;
use crate::satellite::CONTRIB_MAX;
use crate::satellite::EPS_D2;
use crate::satellite::G_NUM;
use crate::satellite::accel_mag;
use crate::satellite::MASS_MAX;
use crate::satellite::SCALE;
use crate::satellite::Satellite;
use crate::satellite::accel_contrib;
use crate::satellite::accel_sum;
use crate::satellite::dist2_clamped;
use crate::satellite::dist2_m;
use crate::satellite::lemma_contrib_bounded;
use crate::satellite::metres;
use crate::satellite::total_accel;
use crate::satellite::vel_step;
use crate::vec3::GVec3;
use crate::TIMEWARP_LEVELS;
use crate::spec_scale;

verus! {

/// Numerator of one component of the gravitational force on a body of mass
/// `m_i` at component `pi_c` from a body of mass `m_j` at component `pj_c`,
/// over the shared positive denominator `force_den`: the force is directed
/// from the receiving body toward the attracting one.
pub open spec fn force_num_comp(m_i: int, m_j: int, pi_c: int, pj_c: int) -> int {
    (G_NUM as int) * m_i * m_j * -metres(pi_c - pj_c)
}

/// The shared positive denominator of the pair force between positions
/// `p_i` and `p_j`, scaled so that `force_num_comp / (m_i * force_den)` is
/// the exact acceleration of body `i` in micro-units.
pub open spec fn force_den(p_i: GVec3, p_j: GVec3) -> int {
    (ACCEL_DIV as int) * dist2_clamped(p_i, p_j) * (sqrt_floor(
        dist2_clamped(p_i, p_j) as nat,
    ) as int)
}

/// Whole-metre separations are antisymmetric in their endpoints.
pub proof fn lemma_metres_antisym(a: int, b: int)
    ensures
        metres(a - b) == -metres(b - a),
{
    lemma_sdiv_odd(b - a, SCALE as int);
}

/// The squared separation, clamped or not, is symmetric in its endpoints.
pub proof fn lemma_dist2_sym(p: GVec3, q: GVec3)
    ensures
        dist2_m(p, q) == dist2_m(q, p),
        dist2_clamped(p, q) == dist2_clamped(q, p),
{
    lemma_metres_antisym(p.x - q.x + q.x, q.x - p.x + p.x);
    lemma_metres_antisym(p.y - q.y + q.y, q.y - p.y + p.y);
    lemma_metres_antisym(p.z - q.z + q.z, q.z - p.z + p.z);
    let rx = metres(p.x - q.x);
    let ry = metres(p.y - q.y);
    let rz = metres(p.z - q.z);
    assert(metres(q.x - p.x) == -rx && metres(q.y - p.y) == -ry && metres(q.z - p.z) == -rz);
    assert((-rx) * (-rx) == rx * rx && (-ry) * (-ry) == ry * ry && (-rz) * (-rz) == rz * rz)
        by (nonlinear_arith);
}

/// Newton's third law, at every separation: the force contribution on one
/// body of a pair is equal in magnitude and opposite in direction to the
/// contribution on the other, componentwise over the shared denominator.
/// `lemma_contrib_tracks_force` ties this ideal force to the engine's
/// computed contributions; `lemma_force_balance_bound` combines the two.
pub proof fn lemma_force_symmetry(m_i: int, m_j: int, p_i: GVec3, p_j: GVec3)
    ensures
        force_num_comp(m_i, m_j, p_i.x, p_j.x) == -force_num_comp(m_j, m_i, p_j.x, p_i.x),
        force_num_comp(m_i, m_j, p_i.y, p_j.y) == -force_num_comp(m_j, m_i, p_j.y, p_i.y),
        force_num_comp(m_i, m_j, p_i.z, p_j.z) == -force_num_comp(m_j, m_i, p_j.z, p_i.z),
        force_den(p_i, p_j) == force_den(p_j, p_i),
        force_den(p_i, p_j) > 0,
{
    lemma_dist2_sym(p_i, p_j);
    lemma_force_symmetry_comp(m_i, m_j, p_i.x, p_j.x);
    lemma_force_symmetry_comp(m_i, m_j, p_i.y, p_j.y);
    lemma_force_symmetry_comp(m_i, m_j, p_i.z, p_j.z);
    let d2c = dist2_clamped(p_i, p_j);
    let d = sqrt_floor(d2c as nat) as int;
    lemma_sqrt_floor_bounds(d2c as nat);
    assert(d >= 1) by (nonlinear_arith)
        requires
            d2c >= EPS_D2,
            d2c < (d + 1) * (d + 1),
            d >= 0,
    ;
    assert((ACCEL_DIV as int) * d2c * d > 0) by (nonlinear_arith)
        requires
            d2c >= EPS_D2,
            d >= 1,
    ;
}

/// One component of Newton's third law.
proof fn lemma_force_symmetry_comp(m_i: int, m_j: int, pi_c: int, pj_c: int)
    ensures
        force_num_comp(m_i, m_j, pi_c, pj_c) == -force_num_comp(m_j, m_i, pj_c, pi_c),
{
    lemma_metres_antisym(pi_c, pj_c);
    let r = metres(pi_c - pj_c);
    assert((G_NUM as int) * m_i * m_j * -r == -((G_NUM as int) * m_j * m_i * -(-r)))
        by (nonlinear_arith);
}

/// For equal masses the computed contributions of a pair are exactly
/// opposite, componentwise.
pub proof fn lemma_contrib_antisym_equal_mass(m: int, p: GVec3, q: GVec3)
    ensures
        accel_contrib(m, q, p) == accel_contrib(m, p, q).neg(),
{
    lemma_dist2_sym(p, q);
    let d2c = dist2_clamped(p, q);
    let d = sqrt_floor(d2c as nat) as int;
    lemma_sqrt_floor_bounds(d2c as nat);
    assert(d >= 1) by (nonlinear_arith)
        requires
            d2c >= EPS_D2,
            d2c < (d + 1) * (d + 1),
            d >= 0,
    ;
    let am = crate::satellite::accel_mag(m, d2c);
    lemma_contrib_antisym_comp(am, p.x, q.x, d);
    lemma_contrib_antisym_comp(am, p.y, q.y, d);
    lemma_contrib_antisym_comp(am, p.z, q.z, d);
}

/// One component of the equal-mass antisymmetry.
proof fn lemma_contrib_antisym_comp(am: int, pc: int, qc: int, d: int)
    requires
        d >= 1,
    ensures
        sdiv(am * -metres(qc - pc), d) == -sdiv(am * -metres(pc - qc), d),
{
    lemma_metres_antisym(pc, qc);
    let r = metres(pc - qc);
    assert(am * -metres(qc - pc) == -(am * -r)) by (nonlinear_arith)
        requires
            metres(qc - pc) == -r,
    ;
    lemma_sdiv_odd(am * -r, d);
}

/// The computed contribution tracks the ideal force: scaled by the shared
/// denominator, the mass-weighted acceleration contribution on a body lies
/// within `2 * m_i * force_den` of the ideal force numerator. The two
/// truncating divisions inside a contribution (the magnitude, then the
/// direction) each cost less than one unit of the denominator.
pub proof fn lemma_contrib_tracks_force(m_i: int, m_j: int, p_i: GVec3, p_j: GVec3)
    requires
        m_i >= 0,
        m_j >= 0,
    ensures
        abs_int(
            m_i * accel_contrib(m_j, p_i, p_j).x * force_den(p_i, p_j) - force_num_comp(
                m_i,
                m_j,
                p_i.x,
                p_j.x,
            ),
        ) <= 2 * m_i * force_den(p_i, p_j),
        abs_int(
            m_i * accel_contrib(m_j, p_i, p_j).y * force_den(p_i, p_j) - force_num_comp(
                m_i,
                m_j,
                p_i.y,
                p_j.y,
            ),
        ) <= 2 * m_i * force_den(p_i, p_j),
        abs_int(
            m_i * accel_contrib(m_j, p_i, p_j).z * force_den(p_i, p_j) - force_num_comp(
                m_i,
                m_j,
                p_i.z,
                p_j.z,
            ),
        ) <= 2 * m_i * force_den(p_i, p_j),
        force_den(p_i, p_j) >= 1,
{
    let d2c = dist2_clamped(p_i, p_j);
    let d = sqrt_floor(d2c as nat) as int;
    lemma_sqrt_floor_bounds(d2c as nat);
    assert(d >= 1) by (nonlinear_arith)
        requires
            d2c >= EPS_D2,
            d2c < (d + 1) * (d + 1),
            d >= 0,
    ;
    let rx = metres(p_i.x - p_j.x);
    let ry = metres(p_i.y - p_j.y);
    let rz = metres(p_i.z - p_j.z);
    assert(dist2_m(p_i, p_j) == rx * rx + ry * ry + rz * rz);
    assert(rx * rx >= 0 && ry * ry >= 0 && rz * rz >= 0) by (nonlinear_arith);
    assert(force_den(p_i, p_j) == (ACCEL_DIV as int) * d2c * d);
    assert((ACCEL_DIV as int) * d2c * d >= 1 && (ACCEL_DIV as int) * d2c * d == ((
    ACCEL_DIV as int) * d2c) * d) by (nonlinear_arith)
        requires
            d2c >= 1,
            d >= 1,
    ;
    lemma_track_comp(m_i, m_j, rx, d2c, d);
    lemma_track_comp(m_i, m_j, ry, d2c, d);
    lemma_track_comp(m_i, m_j, rz, d2c, d);
}

/// One component of the force-tracking bound.
proof fn lemma_track_comp(m_i: int, m_j: int, rc: int, d2c: int, d: int)
    requires
        m_i >= 0,
        m_j >= 0,
        d >= 1,
        d == sqrt_floor(d2c as nat),
        rc * rc <= d2c,
        d2c >= 1,
    ensures
        abs_int(
            m_i * sdiv(accel_mag(m_j, d2c) * -rc, d) * (((ACCEL_DIV as int) * d2c) * d) - (
            G_NUM as int) * m_i * m_j * -rc,
        ) <= 2 * m_i * (((ACCEL_DIV as int) * d2c) * d),
{
    let q = (ACCEL_DIV as int) * d2c;
    vstd::arithmetic::mul::lemma_mul_strictly_positive(ACCEL_DIV as int, d2c);
    assert(q >= 1);
    let am = accel_mag(m_j, d2c);
    // The magnitude division: q * am recovers G_NUM * m_j within q - 1.
    vstd::arithmetic::div_mod::lemma_fundamental_div_mod((G_NUM as int) * m_j, q);
    vstd::arithmetic::div_mod::lemma_mod_bound((G_NUM as int) * m_j, q);
    let sigma = (G_NUM as int) * m_j - q * am;
    assert(0 <= sigma <= q - 1);
    // The direction division: d * c recovers am * -rc within d - 1.
    let c = sdiv(am * -rc, d);
    crate::arith::lemma_sdiv_remainder(am * -rc, d);
    let rho = am * -rc - d * c;
    assert(abs_int(rho) <= d - 1);
    assert(-(d - 1) <= rho <= d - 1);
    // The separation component is bounded by the root of the clamp.
    let ra = if rc >= 0 {
        rc
    } else {
        -rc
    };
    assert(ra * ra == rc * rc) by (nonlinear_arith)
        requires
            ra == rc || ra == -rc,
    ;
    crate::satellite::lemma_le_sqrt(ra, d2c as nat);
    assert(-d <= rc <= d);
    // Scale the computed contribution back up to the force numerator, one
    // multiplication at a time.
    assert(c * (q * d) == q * (am * -rc) - q * rho) by (nonlinear_arith)
        requires
            d * c == am * -rc - rho,
    ;
    assert(q * (am * -rc) == (G_NUM as int) * m_j * -rc - sigma * -rc) by (nonlinear_arith)
        requires
            q * am == (G_NUM as int) * m_j - sigma,
    ;
    assert(c * (q * d) == (G_NUM as int) * m_j * -rc - (sigma * -rc + q * rho));
    assert(m_i * (c * (q * d)) == m_i * ((G_NUM as int) * m_j * -rc) - m_i * (sigma * -rc + q
        * rho)) by (nonlinear_arith)
        requires
            c * (q * d) == (G_NUM as int) * m_j * -rc - (sigma * -rc + q * rho),
    ;
    assert(m_i * c * (q * d) == m_i * (c * (q * d))) by (nonlinear_arith);
    assert(m_i * ((G_NUM as int) * m_j * -rc) == (G_NUM as int) * m_i * m_j * -rc)
        by (nonlinear_arith);
    assert(m_i * c * (q * d) == (G_NUM as int) * m_i * m_j * -rc - m_i * (sigma * -rc + q * rho));
    assert(-(2 * (q * d)) <= sigma * -rc + q * rho <= 2 * (q * d)) by (nonlinear_arith)
        requires
            0 <= sigma <= q - 1,
            -d <= rc <= d,
            -(d - 1) <= rho <= d - 1,
            q >= 1,
            d >= 1,
    ;
    assert(-(2 * m_i * (q * d)) <= m_i * (sigma * -rc + q * rho) <= 2 * m_i * (q * d))
        by (nonlinear_arith)
        requires
            m_i >= 0,
            -(2 * (q * d)) <= sigma * -rc + q * rho <= 2 * (q * d),
    ;
}

/// Newton's third law for the computed engine, quantified: for every pair
/// of masses and positions, the mass-weighted acceleration contributions of
/// the two sides cancel within `2 * (m_i + m_j)` micro-units per component
/// — each side's two truncating divisions cost at most one denominator
/// each. Exact cancellation holds for equal masses
/// (`lemma_contrib_antisym_equal_mass`); this bound covers all masses.
pub proof fn lemma_force_balance_bound(m_i: int, m_j: int, p_i: GVec3, p_j: GVec3)
    requires
        m_i >= 0,
        m_j >= 0,
    ensures
        abs_int(
            m_i * accel_contrib(m_j, p_i, p_j).x + m_j * accel_contrib(m_i, p_j, p_i).x,
        ) <= 2 * (m_i + m_j),
        abs_int(
            m_i * accel_contrib(m_j, p_i, p_j).y + m_j * accel_contrib(m_i, p_j, p_i).y,
        ) <= 2 * (m_i + m_j),
        abs_int(
            m_i * accel_contrib(m_j, p_i, p_j).z + m_j * accel_contrib(m_i, p_j, p_i).z,
        ) <= 2 * (m_i + m_j),
{
    lemma_dist2_sym(p_i, p_j);
    lemma_force_symmetry(m_i, m_j, p_i, p_j);
    lemma_contrib_tracks_force(m_i, m_j, p_i, p_j);
    lemma_contrib_tracks_force(m_j, m_i, p_j, p_i);
    let fd = force_den(p_i, p_j);
    lemma_balance_comp(
        m_i,
        m_j,
        accel_contrib(m_j, p_i, p_j).x,
        accel_contrib(m_i, p_j, p_i).x,
        force_num_comp(m_i, m_j, p_i.x, p_j.x),
        fd,
    );
    lemma_balance_comp(
        m_i,
        m_j,
        accel_contrib(m_j, p_i, p_j).y,
        accel_contrib(m_i, p_j, p_i).y,
        force_num_comp(m_i, m_j, p_i.y, p_j.y),
        fd,
    );
    lemma_balance_comp(
        m_i,
        m_j,
        accel_contrib(m_j, p_i, p_j).z,
        accel_contrib(m_i, p_j, p_i).z,
        force_num_comp(m_i, m_j, p_i.z, p_j.z),
        fd,
    );
}

/// One component of the balance bound: two quantities that each track the
/// same force numerator from opposite signs nearly cancel.
proof fn lemma_balance_comp(m_i: int, m_j: int, c_i: int, c_j: int, num: int, fd: int)
    requires
        m_i >= 0,
        m_j >= 0,
        fd >= 1,
        abs_int(m_i * c_i * fd - num) <= 2 * m_i * fd,
        abs_int(m_j * c_j * fd - -num) <= 2 * m_j * fd,
    ensures
        abs_int(m_i * c_i + m_j * c_j) <= 2 * (m_i + m_j),
{
    let s = m_i * c_i + m_j * c_j;
    assert(s * fd == (m_i * c_i * fd - num) + (m_j * c_j * fd - -num)) by (nonlinear_arith)
        requires
            s == m_i * c_i + m_j * c_j,
    ;
    assert(-(2 * (m_i + m_j) * fd) <= s * fd <= 2 * (m_i + m_j) * fd) by (nonlinear_arith)
        requires
            s * fd == (m_i * c_i * fd - num) + (m_j * c_j * fd - -num),
            -(2 * m_i * fd) <= m_i * c_i * fd - num <= 2 * m_i * fd,
            -(2 * m_j * fd) <= m_j * c_j * fd - -num <= 2 * m_j * fd,
    ;
    assert(-(2 * (m_i + m_j)) <= s <= 2 * (m_i + m_j)) by (nonlinear_arith)
        requires
            fd >= 1,
            m_i + m_j >= 0,
            -(2 * (m_i + m_j) * fd) <= s * fd <= 2 * (m_i + m_j) * fd,
    ;
}

/// Momentum drift of a pair under one frame, for any masses: the total
/// momentum after the velocity update differs from the total before by at
/// most `(m0 + m1) * (2 * dt + SCALE) / SCALE` micro-units per component —
/// the force-balance bound spread over the step, plus one rounding of each
/// velocity update. This is the quantitative form of momentum conservation
/// for unequal masses; for equal masses the drift is exactly zero
/// (`lemma_momentum_conserved_two_equal`).
pub proof fn lemma_momentum_drift_two_bounded(s: Seq<Satellite>, dt: int)
    requires
        s.len() == 2,
        dt >= 0,
    ensures
        (SCALE as int) * abs_int(
            (s[0].mass as int) * vel_step(s[0].velocity.x as int, total_accel(s, 0).x, dt) + (
            s[1].mass as int) * vel_step(s[1].velocity.x as int, total_accel(s, 1).x, dt) - (
            s[0].mass as int) * (s[0].velocity.x as int) - (s[1].mass as int) * (
            s[1].velocity.x as int),
        ) <= ((s[0].mass as int) + (s[1].mass as int)) * (2 * dt + SCALE),
        (SCALE as int) * abs_int(
            (s[0].mass as int) * vel_step(s[0].velocity.y as int, total_accel(s, 0).y, dt) + (
            s[1].mass as int) * vel_step(s[1].velocity.y as int, total_accel(s, 1).y, dt) - (
            s[0].mass as int) * (s[0].velocity.y as int) - (s[1].mass as int) * (
            s[1].velocity.y as int),
        ) <= ((s[0].mass as int) + (s[1].mass as int)) * (2 * dt + SCALE),
        (SCALE as int) * abs_int(
            (s[0].mass as int) * vel_step(s[0].velocity.z as int, total_accel(s, 0).z, dt) + (
            s[1].mass as int) * vel_step(s[1].velocity.z as int, total_accel(s, 1).z, dt) - (
            s[0].mass as int) * (s[0].velocity.z as int) - (s[1].mass as int) * (
            s[1].velocity.z as int),
        ) <= ((s[0].mass as int) + (s[1].mass as int)) * (2 * dt + SCALE),
{
    let m0 = s[0].mass as int;
    let m1 = s[1].mass as int;
    let p0 = s[0].position@;
    let p1 = s[1].position@;
    assert(accel_sum(s, 0, 0) == GVec3::zero());
    assert(accel_sum(s, 1, 0) == GVec3::zero());
    assert(accel_sum(s, 0, 1) == GVec3::zero());
    assert(total_accel(s, 0) == GVec3::zero().plus(accel_contrib(m1, p0, p1)));
    assert(total_accel(s, 1) == accel_sum(s, 1, 1));
    assert(GVec3::zero().plus(accel_contrib(m1, p0, p1)) == accel_contrib(m1, p0, p1));
    assert(GVec3::zero().plus(accel_contrib(m0, p1, p0)) == accel_contrib(m0, p1, p0));
    lemma_force_balance_bound(m0, m1, p0, p1);
    let a0 = total_accel(s, 0);
    let a1 = total_accel(s, 1);
    lemma_drift_comp(m0, m1, s[0].velocity.x as int, s[1].velocity.x as int, a0.x, a1.x, dt);
    lemma_drift_comp(m0, m1, s[0].velocity.y as int, s[1].velocity.y as int, a0.y, a1.y, dt);
    lemma_drift_comp(m0, m1, s[0].velocity.z as int, s[1].velocity.z as int, a0.z, a1.z, dt);
}

/// One component of the pair momentum-drift bound.
proof fn lemma_drift_comp(m0: int, m1: int, v0: int, v1: int, a0: int, a1: int, dt: int)
    requires
        m0 >= 0,
        m1 >= 0,
        dt >= 0,
        abs_int(m0 * a0 + m1 * a1) <= 2 * (m0 + m1),
    ensures
        (SCALE as int) * abs_int(
            m0 * vel_step(v0, a0, dt) + m1 * vel_step(v1, a1, dt) - m0 * v0 - m1 * v1,
        ) <= (m0 + m1) * (2 * dt + SCALE),
{
    let sc = SCALE as int;
    crate::arith::lemma_sdiv_remainder(a0 * dt, sc);
    crate::arith::lemma_sdiv_remainder(a1 * dt, sc);
    let rho0 = a0 * dt - sc * sdiv(a0 * dt, sc);
    let rho1 = a1 * dt - sc * sdiv(a1 * dt, sc);
    assert(-(sc - 1) <= rho0 <= sc - 1 && -(sc - 1) <= rho1 <= sc - 1);
    let s0 = sdiv(a0 * dt, sc);
    let s1 = sdiv(a1 * dt, sc);
    let drift = m0 * vel_step(v0, a0, dt) + m1 * vel_step(v1, a1, dt) - m0 * v0 - m1 * v1;
    assert(drift == m0 * s0 + m1 * s1) by (nonlinear_arith)
        requires
            drift == m0 * (v0 + s0) + m1 * (v1 + s1) - m0 * v0 - m1 * v1,
    ;
    assert(sc * (m0 * s0) == dt * (m0 * a0) - m0 * rho0) by (nonlinear_arith)
        requires
            rho0 == a0 * dt - sc * s0,
    ;
    assert(sc * (m1 * s1) == dt * (m1 * a1) - m1 * rho1) by (nonlinear_arith)
        requires
            rho1 == a1 * dt - sc * s1,
    ;
    assert(sc * drift == sc * (m0 * s0) + sc * (m1 * s1)) by (nonlinear_arith)
        requires
            drift == m0 * s0 + m1 * s1,
    ;
    assert(dt * (m0 * a0) + dt * (m1 * a1) == dt * (m0 * a0 + m1 * a1)) by (nonlinear_arith);
    assert(sc * drift == dt * (m0 * a0 + m1 * a1) - (m0 * rho0 + m1 * rho1));
    assert(-((m0 + m1) * (2 * dt + sc)) <= sc * drift <= (m0 + m1) * (2 * dt + sc))
        by (nonlinear_arith)
        requires
            sc * drift == dt * (m0 * a0 + m1 * a1) - (m0 * rho0 + m1 * rho1),
            -(2 * (m0 + m1)) <= m0 * a0 + m1 * a1 <= 2 * (m0 + m1),
            -(sc - 1) <= rho0 <= sc - 1,
            -(sc - 1) <= rho1 <= sc - 1,
            m0 >= 0,
            m1 >= 0,
            dt >= 0,
            sc >= 1,
    ;
    if drift >= 0 {
        assert(sc * abs_int(drift) == sc * drift);
    } else {
        assert(sc * -drift == -(sc * drift)) by (nonlinear_arith);
        assert(sc * abs_int(drift) == -(sc * drift));
    }
}

/// Exact momentum conservation for a pair of equal masses: one frame of
/// the engine (accumulation followed by the velocity update) leaves the
/// total momentum of a two-body system of equal masses unchanged, exactly
/// and componentwise, for every step size — and therefore across any
/// number of frames, since the statement holds of every state. For unequal
/// masses the engine conserves momentum only within the rounding of its
/// integer divisions; `lemma_momentum_drift_two_bounded` quantifies that
/// rounding.
pub proof fn lemma_momentum_conserved_two_equal(s: Seq<Satellite>, dt: int)
    requires
        s.len() == 2,
        s[0].mass == s[1].mass,
    ensures
        (s[0].mass as int) * vel_step(s[0].velocity.x as int, total_accel(s, 0).x, dt) + (
        s[1].mass as int) * vel_step(s[1].velocity.x as int, total_accel(s, 1).x, dt) == (
        s[0].mass as int) * (s[0].velocity.x as int) + (s[1].mass as int) * (
        s[1].velocity.x as int),
        (s[0].mass as int) * vel_step(s[0].velocity.y as int, total_accel(s, 0).y, dt) + (
        s[1].mass as int) * vel_step(s[1].velocity.y as int, total_accel(s, 1).y, dt) == (
        s[0].mass as int) * (s[0].velocity.y as int) + (s[1].mass as int) * (
        s[1].velocity.y as int),
        (s[0].mass as int) * vel_step(s[0].velocity.z as int, total_accel(s, 0).z, dt) + (
        s[1].mass as int) * vel_step(s[1].velocity.z as int, total_accel(s, 1).z, dt) == (
        s[0].mass as int) * (s[0].velocity.z as int) + (s[1].mass as int) * (
        s[1].velocity.z as int),
{
    let m = s[0].mass as int;
    let p0 = s[0].position@;
    let p1 = s[1].position@;
    let a0 = accel_contrib(m, p0, p1);
    let a1 = accel_contrib(m, p1, p0);
    assert(accel_sum(s, 0, 0) == GVec3::zero());
    assert(accel_sum(s, 1, 0) == GVec3::zero());
    assert(accel_sum(s, 0, 1) == GVec3::zero());
    assert(accel_sum(s, 1, 1) == GVec3::zero().plus(a1));
    assert(total_accel(s, 0) == GVec3::zero().plus(a0));
    assert(total_accel(s, 1) == accel_sum(s, 1, 1));
    assert(GVec3::zero().plus(a0) == a0);
    assert(GVec3::zero().plus(a1) == a1);
    lemma_contrib_antisym_equal_mass(m, p0, p1);
    lemma_momentum_comp(m, s[0].velocity.x as int, s[1].velocity.x as int, a0.x, a1.x, dt);
    lemma_momentum_comp(m, s[0].velocity.y as int, s[1].velocity.y as int, a0.y, a1.y, dt);
    lemma_momentum_comp(m, s[0].velocity.z as int, s[1].velocity.z as int, a0.z, a1.z, dt);
}

/// One component of the equal-mass momentum balance.
proof fn lemma_momentum_comp(m: int, v0: int, v1: int, a0: int, a1: int, dt: int)
    requires
        a1 == -a0,
    ensures
        m * vel_step(v0, a0, dt) + m * vel_step(v1, a1, dt) == m * v0 + m * v1,
{
    assert(a1 * dt == -(a0 * dt)) by (nonlinear_arith)
        requires
            a1 == -a0,
    ;
    lemma_sdiv_odd(a0 * dt, SCALE as int);
    let w0 = vel_step(v0, a0, dt);
    let w1 = vel_step(v1, a1, dt);
    assert(w0 + w1 == v0 + v1);
    assert(m * w0 + m * w1 == m * v0 + m * v1) by (nonlinear_arith)
        requires
            w0 + w1 == v0 + v1,
    ;
}

/// Multi-body accumulation: with three mutually interacting bodies, each
/// body's acceleration is the vector sum of the contributions from both
/// other bodies — contributions accumulate, never overwrite one another.
pub proof fn lemma_three_body_accumulation(s: Seq<Satellite>)
    requires
        s.len() == 3,
    ensures
        total_accel(s, 0) == accel_contrib(s[1].mass as int, s[0].position@, s[1].position@).plus(
            accel_contrib(s[2].mass as int, s[0].position@, s[2].position@),
        ),
        total_accel(s, 1) == accel_contrib(s[0].mass as int, s[1].position@, s[0].position@).plus(
            accel_contrib(s[2].mass as int, s[1].position@, s[2].position@),
        ),
        total_accel(s, 2) == accel_contrib(s[0].mass as int, s[2].position@, s[0].position@).plus(
            accel_contrib(s[1].mass as int, s[2].position@, s[1].position@),
        ),
{
    assert forall|v: GVec3| #[trigger] GVec3::zero().plus(v) == v by {}
    assert(accel_sum(s, 0, 0) == GVec3::zero());
    assert(accel_sum(s, 0, 1) == accel_sum(s, 0, 0));
    assert(accel_sum(s, 0, 2) == accel_sum(s, 0, 1).plus(
        accel_contrib(s[1].mass as int, s[0].position@, s[1].position@),
    ));
    assert(accel_sum(s, 0, 3) == accel_sum(s, 0, 2).plus(
        accel_contrib(s[2].mass as int, s[0].position@, s[2].position@),
    ));
    assert(accel_sum(s, 1, 0) == GVec3::zero());
    assert(accel_sum(s, 1, 1) == accel_sum(s, 1, 0).plus(
        accel_contrib(s[0].mass as int, s[1].position@, s[0].position@),
    ));
    assert(accel_sum(s, 1, 2) == accel_sum(s, 1, 1));
    assert(accel_sum(s, 1, 3) == accel_sum(s, 1, 2).plus(
        accel_contrib(s[2].mass as int, s[1].position@, s[2].position@),
    ));
    assert(accel_sum(s, 2, 0) == GVec3::zero());
    assert(accel_sum(s, 2, 1) == accel_sum(s, 2, 0).plus(
        accel_contrib(s[0].mass as int, s[2].position@, s[0].position@),
    ));
    assert(accel_sum(s, 2, 2) == accel_sum(s, 2, 1).plus(
        accel_contrib(s[1].mass as int, s[2].position@, s[1].position@),
    ));
    assert(accel_sum(s, 2, 3) == accel_sum(s, 2, 2));
}

/// Degenerate-separation safety: two bodies at identical coordinates
/// exchange a contribution that the clamp pins to exactly zero, and every
/// contribution whatever the separation is bounded by `CONTRIB_MAX`.
pub proof fn lemma_degenerate_safety(m: int, p: GVec3, q: GVec3)
    requires
        0 <= m <= MASS_MAX,
    ensures
        accel_contrib(m, p, p) == GVec3::zero(),
        accel_contrib(m, p, q).bounded(CONTRIB_MAX as int),
{
    lemma_contrib_bounded(m, p, q);
    let d2c = dist2_clamped(p, p);
    let d = sqrt_floor(d2c as nat) as int;
    lemma_sqrt_floor_bounds(d2c as nat);
    assert(d >= 1) by (nonlinear_arith)
        requires
            d2c >= EPS_D2,
            d2c < (d + 1) * (d + 1),
            d >= 0,
    ;
    let am = crate::satellite::accel_mag(m, d2c);
    assert(metres(p.x - p.x) == 0 && metres(p.y - p.y) == 0 && metres(p.z - p.z) == 0) by {
        vstd::arithmetic::div_mod::lemma_div_of0(SCALE as int);
    }
    assert(am * -0 == 0) by (nonlinear_arith);
    assert(sdiv(0, d) == 0) by {
        vstd::arithmetic::div_mod::lemma_div_of0(d);
    }
}

/// The timewarp clamp: a decrease at the lowest level and an increase at
/// the highest are no-ops; without a command the factor is untouched; the
/// level never leaves the table; and whenever the clock is well formed the
/// factor after any command is exactly the table entry at the new level.
pub proof fn lemma_timewarp_clamp()
    ensures
        next_level(false, true, 0) == 0,
        next_level(true, false, TIMEWARP_LEVELS - 1) == TIMEWARP_LEVELS - 1,
        forall|l: int, f: u64| #[trigger] next_factor(false, false, l, f) == f,
        forall|inc: bool, dec: bool, l: int|
            0 <= l < TIMEWARP_LEVELS ==> 0 <= #[trigger] next_level(inc, dec, l)
                < TIMEWARP_LEVELS,
        forall|inc: bool, dec: bool, l: int, f: u64|
            0 <= l < TIMEWARP_LEVELS && f == spec_scale(l) ==> #[trigger] next_factor(
                inc,
                dec,
                l,
                f,
            ) == spec_scale(next_level(inc, dec, l)),
{
}

} // verus!

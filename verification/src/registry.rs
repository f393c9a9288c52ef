//! The body registry: the plain indexed collection that owns the simulated
//! bodies, the validated setup path, and the per-frame driver that runs the
//! force accumulator and the integrator in order on one snapshot.

use vstd::prelude::*;

use crate::satellite::ACC_MAX;
use crate::satellite::DT_MAX;
use crate::satellite::MASS_MAX;
use crate::satellite::N_MAX;
use crate::satellite::POS_FORCE_MAX;
use crate::satellite::POS_MAX;
use crate::satellite::Satellite;
use crate::satellite::VEL_MAX;
use crate::satellite::body_valid;
use crate::satellite::in_force_range;
use crate::satellite::interact_satellites;
use crate::satellite::pos_step;
use crate::satellite::total_accel;
use crate::satellite::update_satellite;
use crate::satellite::vel_step;
use crate::vec3::Vec3;
use crate::TimewarpFactor;

verus! {

/// A configuration fault found at setup.
#[derive(Debug, PartialEq, Eq, Structural)]
pub enum ConfigError {
    /// The supplied mass admits no body: it is zero.
    InvalidBodyConfig,
}

/// Owns the authoritative set of simulated bodies. Bodies are added at
/// setup and persist for the run; the physics passes are the only writers
/// of their state.
pub struct BodyRegistry {
    /// The body arena, indexed by insertion order.
    pub bodies: Vec<Satellite>,
}

/// The registry's invariant: every body it admitted is valid, and the
/// count stays within what the accumulator covers.
pub open spec fn registry_wf(r: BodyRegistry) -> bool {
    &&& r.bodies@.len() <= N_MAX
    &&& forall|k: int| 0 <= k < r.bodies@.len() ==> body_valid(#[trigger] r.bodies@[k])
}

/// Every body sits inside the region the force accumulator covers, and the
/// step is within the cap: the precondition for the accumulation pass.
pub open spec fn force_phase_ok(bodies: Seq<Satellite>, dt: u64) -> bool {
    &&& dt <= DT_MAX
    &&& forall|k: int| 0 <= k < bodies.len() ==> in_force_range(#[trigger] bodies[k])
}

/// Every body's state, with the freshly accumulated accelerations, is
/// within what the integrator admits.
pub open spec fn integrate_phase_ok(bodies: Seq<Satellite>) -> bool {
    forall|k: int|
        0 <= k < bodies.len() ==> {
            let b = #[trigger] bodies[k];
            &&& b.velocity.bounded(VEL_MAX as int)
            &&& b.position.bounded(POS_MAX as int)
            &&& total_accel(bodies, k).bounded(ACC_MAX as int)
        }
}

impl BodyRegistry {
    /// An empty registry.
    pub fn new() -> (r: BodyRegistry)
        ensures
            registry_wf(r),
            r.bodies@.len() == 0,
    {
        BodyRegistry { bodies: Vec::new() }
    }

    /// Number of bodies.
    pub fn len(&self) -> (n: usize)
        ensures
            n == self.bodies@.len(),
    {
        self.bodies.len()
    }

    /// Read access to one body.
    pub fn body(&self, i: usize) -> (b: &Satellite)
        requires
            i < self.bodies@.len(),
        ensures
            *b == self.bodies@[i as int],
    {
        &self.bodies[i]
    }

    /// Admits one body at setup. A zero mass is rejected as
    /// `InvalidBodyConfig` and the registry is untouched; otherwise the body
    /// is appended with the given state and zero acceleration, whatever the
    /// supplied history was.
    pub fn add_body(&mut self, name: String, mass: u128, position: Vec3, velocity: Vec3) -> (r:
        Result<(), ConfigError>)
        requires
            registry_wf(*old(self)),
            old(self).bodies@.len() < N_MAX,
            mass <= MASS_MAX,
        ensures
            registry_wf(*final(self)),
            mass == 0 ==> r == Err::<(), ConfigError>(ConfigError::InvalidBodyConfig)
                && final(self).bodies@ == old(self).bodies@,
            mass >= 1 ==> r == Ok::<(), ConfigError>(()) && final(self).bodies@ == old(
                self).bodies@.push(
                Satellite {
                    mass,
                    velocity,
                    position,
                    acceleration: Vec3 { x: 0, y: 0, z: 0 },
                    name,
                },
            ),
    {
        if mass == 0 {
            return Err(ConfigError::InvalidBodyConfig);
        }
        self.bodies.push(
            Satellite { mass, velocity, position, acceleration: Vec3 { x: 0, y: 0, z: 0 }, name },
        );
        Ok(())
    }

    /// Runs one frame on the registry: the force accumulator recomputes
    /// every acceleration from the position snapshot, then the integrator
    /// advances every body by `dt`. Each pass runs only once its inputs are
    /// inside the engine's admitted ranges; the return value reports
    /// whether the frame advanced the bodies.
    pub fn step(&mut self, dt: u64) -> (advanced: bool)
        requires
            registry_wf(*old(self)),
        ensures
            registry_wf(*final(self)),
            final(self).bodies@.len() == old(self).bodies@.len(),
            advanced == (force_phase_ok(old(self).bodies@, dt) && integrate_phase_ok(
                old(self).bodies@,
            )),
            !force_phase_ok(old(self).bodies@, dt) ==> final(self).bodies@ == old(self).bodies@,
            force_phase_ok(old(self).bodies@, dt) ==> forall|k: int|
                0 <= k < old(self).bodies@.len() ==> {
                    let b = #[trigger] final(self).bodies@[k];
                    let o = old(self).bodies@[k];
                    &&& b.mass == o.mass
                    &&& b.name == o.name
                    &&& b.acceleration@ == total_accel(old(self).bodies@, k)
                },
            force_phase_ok(old(self).bodies@, dt) && !integrate_phase_ok(old(self).bodies@)
                ==> forall|k: int|
                0 <= k < old(self).bodies@.len() ==> {
                    let b = #[trigger] final(self).bodies@[k];
                    let o = old(self).bodies@[k];
                    &&& b.velocity == o.velocity
                    &&& b.position == o.position
                },
            force_phase_ok(old(self).bodies@, dt) && integrate_phase_ok(old(self).bodies@)
                ==> forall|k: int|
                0 <= k < old(self).bodies@.len() ==> {
                    let b = #[trigger] final(self).bodies@[k];
                    let o = old(self).bodies@[k];
                    let a = total_accel(old(self).bodies@, k);
                    &&& b.velocity.x == vel_step(o.velocity.x as int, a.x, dt as int)
                    &&& b.velocity.y == vel_step(o.velocity.y as int, a.y, dt as int)
                    &&& b.velocity.z == vel_step(o.velocity.z as int, a.z, dt as int)
                    &&& b.position.x == pos_step(o.position.x as int, o.velocity.x as int, a.x, dt as int)
                    &&& b.position.y == pos_step(o.position.y as int, o.velocity.y as int, a.y, dt as int)
                    &&& b.position.z == pos_step(o.position.z as int, o.velocity.z as int, a.z, dt as int)
                },
    {
        if dt > DT_MAX {
            return false;
        }
        if !all_in_force_range(&self.bodies) {
            return false;
        }
        interact_satellites(&mut self.bodies);
        proof {
            let os = old(self).bodies@;
            let ns = self.bodies@;
            assert forall|k: int| 0 <= k < ns.len() implies {
                let b = #[trigger] ns[k];
                let o = os[k];
                (b.velocity.bounded(VEL_MAX as int) && b.position.bounded(POS_MAX as int)
                    && b.acceleration.bounded(ACC_MAX as int)) == (o.velocity.bounded(
                    VEL_MAX as int,
                ) && o.position.bounded(POS_MAX as int) && total_accel(os, k).bounded(
                    ACC_MAX as int,
                ))
            } by {
                assert(ns[k].velocity == os[k].velocity);
                assert(ns[k].position == os[k].position);
                assert(ns[k].acceleration@ == total_accel(os, k));
            }
        }
        if !all_in_integrate_range(&self.bodies) {
            assert(!integrate_phase_ok(old(self).bodies@));
            return false;
        }
        proof {
            let os = old(self).bodies@;
            let ns = self.bodies@;
            assert forall|k: int| 0 <= k < os.len() implies {
                let o = #[trigger] os[k];
                o.velocity.bounded(VEL_MAX as int) && o.position.bounded(POS_MAX as int)
                    && total_accel(os, k).bounded(ACC_MAX as int)
            } by {
                assert(ns[k].velocity.bounded(VEL_MAX as int) && ns[k].position.bounded(
                    POS_MAX as int,
                ) && ns[k].acceleration.bounded(ACC_MAX as int));
                assert(ns[k].velocity == os[k].velocity);
                assert(ns[k].position == os[k].position);
                assert(ns[k].acceleration@ == total_accel(os, k));
            }
            assert(integrate_phase_ok(os));
        }
        update_satellite(&mut self.bodies, dt);
        true
    }
}

/// Checks that every body is inside the accumulator's region.
fn all_in_force_range(bodies: &Vec<Satellite>) -> (ok: bool)
    ensures
        ok == forall|k: int| 0 <= k < bodies@.len() ==> in_force_range(#[trigger] bodies@[k]),
{
    let n = bodies.len();
    let mut i: usize = 0;
    while i < n
        invariant
            i <= n,
            n == bodies@.len(),
            forall|k: int| 0 <= k < i ==> in_force_range(#[trigger] bodies@[k]),
        decreases n - i,
    {
        let p = bodies[i].position;
        if p.x > POS_FORCE_MAX || p.x < -POS_FORCE_MAX || p.y > POS_FORCE_MAX || p.y
            < -POS_FORCE_MAX || p.z > POS_FORCE_MAX || p.z < -POS_FORCE_MAX {
            assert(!in_force_range(bodies@[i as int]));
            return false;
        }
        i = i + 1;
    }
    true
}

/// Checks that every body's velocity, position and freshly accumulated
/// acceleration are inside what the integrator admits.
fn all_in_integrate_range(bodies: &Vec<Satellite>) -> (ok: bool)
    ensures
        ok == forall|k: int|
            0 <= k < bodies@.len() ==> {
                let b = #[trigger] bodies@[k];
                &&& b.velocity.bounded(VEL_MAX as int)
                &&& b.position.bounded(POS_MAX as int)
                &&& b.acceleration.bounded(ACC_MAX as int)
            },
{
    let n = bodies.len();
    let mut i: usize = 0;
    while i < n
        invariant
            i <= n,
            n == bodies@.len(),
            forall|k: int|
                0 <= k < i ==> {
                    let b = #[trigger] bodies@[k];
                    &&& b.velocity.bounded(VEL_MAX as int)
                    &&& b.position.bounded(POS_MAX as int)
                    &&& b.acceleration.bounded(ACC_MAX as int)
                },
        decreases n - i,
    {
        let v = bodies[i].velocity;
        let p = bodies[i].position;
        let a = bodies[i].acceleration;
        if v.x > VEL_MAX || v.x < -VEL_MAX || v.y > VEL_MAX || v.y < -VEL_MAX || v.z > VEL_MAX
            || v.z < -VEL_MAX {
            return false;
        }
        if p.x > POS_MAX || p.x < -POS_MAX || p.y > POS_MAX || p.y < -POS_MAX || p.z > POS_MAX
            || p.z < -POS_MAX {
            return false;
        }
        if a.x > ACC_MAX || a.x < -ACC_MAX || a.y > ACC_MAX || a.y < -ACC_MAX || a.z > ACC_MAX
            || a.z < -ACC_MAX {
            return false;
        }
        i = i + 1;
    }
    true
}

/// The simulated step for one frame: the real frame delta, in microseconds,
/// scaled by the current timewarp factor.
pub fn sim_dt(frame_delta_micros: u64, factor: &TimewarpFactor) -> (dt: u64)
    requires
        frame_delta_micros * factor.0 <= u64::MAX,
    ensures
        dt == frame_delta_micros * factor.0,
{
    frame_delta_micros * factor.0
}

} // verus!

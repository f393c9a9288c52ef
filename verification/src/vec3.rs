//! Three-component vectors: the executable fixed-point vector that body
//! state is stored in, and its unbounded ghost counterpart for contracts.

use vstd::prelude::*;

use crate::arith::abs_int;
use crate::arith::sdiv;

verus! {

/// A fixed-point 3-vector. Components are `i128` micro-units
/// (micrometres, micrometres per second, or micrometres per second
/// squared, depending on what the vector measures).
#[derive(Clone, Copy, Debug, PartialEq, Eq, Structural)]
pub struct Vec3 {
    pub x: i128,
    pub y: i128,
    pub z: i128,
}

/// A mathematical 3-vector over unbounded integers, used in specifications.
pub ghost struct GVec3 {
    pub x: int,
    pub y: int,
    pub z: int,
}

impl GVec3 {
    /// The zero vector.
    pub open spec fn zero() -> GVec3 {
        GVec3 { x: 0, y: 0, z: 0 }
    }

    /// Componentwise sum.
    pub open spec fn plus(self, other: GVec3) -> GVec3 {
        GVec3 { x: self.x + other.x, y: self.y + other.y, z: self.z + other.z }
    }

    /// Componentwise negation.
    pub open spec fn neg(self) -> GVec3 {
        GVec3 { x: -self.x, y: -self.y, z: -self.z }
    }

    /// Every component has magnitude at most `b`.
    pub open spec fn bounded(self, b: int) -> bool {
        &&& abs_int(self.x) <= b
        &&& abs_int(self.y) <= b
        &&& abs_int(self.z) <= b
    }
}

impl View for Vec3 {
    type V = GVec3;

    /// The ghost vector with the same components.
    open spec fn view(&self) -> GVec3 {
        GVec3 { x: self.x as int, y: self.y as int, z: self.z as int }
    }
}

impl Vec3 {
    /// Every component has magnitude at most `b`.
    pub open spec fn bounded(self, b: int) -> bool {
        self@.bounded(b)
    }

    /// The zero vector.
    pub fn zero() -> (r: Vec3)
        ensures
            r@ == GVec3::zero(),
    {
        Vec3 { x: 0, y: 0, z: 0 }
    }

    /// Builds a vector from its components.
    pub fn new(x: i128, y: i128, z: i128) -> (r: Vec3)
        ensures
            r.x == x && r.y == y && r.z == z,
    {
        Vec3 { x, y, z }
    }
}

/// Division of a micro-unit quantity by a positive scale, truncating
/// toward zero (the sign is handled on the magnitude).
pub fn sdiv128(x: i128, d: u128) -> (r: i128)
    requires
        d >= 1,
        -i128::MAX <= x,
    ensures
        r == sdiv(x as int, d as int),
        abs_int(r as int) <= abs_int(x as int),
{
    proof {
        crate::arith::lemma_sdiv_bound(x as int, d as int);
    }
    if x >= 0 {
        ((x as u128) / d) as i128
    } else {
        let m: u128 = (-x) as u128;
        -((m / d) as i128)
    }
}

} // verus!

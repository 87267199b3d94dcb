//! Rays: an origin, a direction and a time (for motion blur).

use vstd::prelude::*;
use crate::fixed::{Fx, COORD_MAX, DIR_MAX, T_MAX, mul_raw};
use crate::vec3::{Vec3, fits, fits1};

verus! {

/// A ray; never mutated after construction.
#[derive(Clone, Copy, Debug, PartialEq, Eq, Structural)]
pub struct Ray {
    pub origin: Vec3,
    pub direction: Vec3,
    pub time: Fx,
}

/// The origin and direction are within the bounds every intersection
/// routine accepts.
pub open spec fn ray_fits(r: Ray) -> bool {
    fits(r.origin, COORD_MAX as int) && fits(r.direction, DIR_MAX as int)
}

/// x-component of the point the ray reaches at parameter `t`.
pub open spec fn at_x(r: Ray, t: Fx) -> int {
    r.origin.x.raw + mul_raw(r.direction.x.raw as int, t.raw as int)
}

/// y-component of the point the ray reaches at parameter `t`.
pub open spec fn at_y(r: Ray, t: Fx) -> int {
    r.origin.y.raw + mul_raw(r.direction.y.raw as int, t.raw as int)
}

/// z-component of the point the ray reaches at parameter `t`.
pub open spec fn at_z(r: Ray, t: Fx) -> int {
    r.origin.z.raw + mul_raw(r.direction.z.raw as int, t.raw as int)
}

impl Ray {
    pub fn new(origin: Vec3, direction: Vec3, time: Fx) -> (r: Ray)
        ensures
            r.origin == origin,
            r.direction == direction,
            r.time == time,
    {
        Ray { origin, direction, time }
    }

    /// The point `origin + t * direction`.
    pub fn at(&self, t: Fx) -> (r: Vec3)
        requires
            ray_fits(*self),
            fits1(t.raw as int, T_MAX as int),
        ensures
            r.x.raw == at_x(*self, t),
            r.y.raw == at_y(*self, t),
            r.z.raw == at_z(*self, t),
    {
        proof {
            crate::fixed::lemma_mul_raw_bound(
                self.direction.x.raw as int,
                t.raw as int,
                DIR_MAX as int,
                T_MAX as int,
            );
            crate::fixed::lemma_mul_raw_bound(
                self.direction.y.raw as int,
                t.raw as int,
                DIR_MAX as int,
                T_MAX as int,
            );
            crate::fixed::lemma_mul_raw_bound(
                self.direction.z.raw as int,
                t.raw as int,
                DIR_MAX as int,
                T_MAX as int,
            );
        }
        self.origin.add(self.direction.scale(t))
    }
}

/// At parameter zero a ray is at its origin, and the offset `at(t) - origin`
/// is exactly the direction scaled by `t`: evaluation is affine in `t`.
pub proof fn lemma_ray_at_affine(r: Ray, t: Fx)
    ensures
        at_x(r, Fx { raw: 0 }) == r.origin.x.raw,
        at_y(r, Fx { raw: 0 }) == r.origin.y.raw,
        at_z(r, Fx { raw: 0 }) == r.origin.z.raw,
        at_x(r, t) - r.origin.x.raw == mul_raw(r.direction.x.raw as int, t.raw as int),
        at_y(r, t) - r.origin.y.raw == mul_raw(r.direction.y.raw as int, t.raw as int),
        at_z(r, t) - r.origin.z.raw == mul_raw(r.direction.z.raw as int, t.raw as int),
{
    assert((r.direction.x.raw as int) * 0 == 0) by (nonlinear_arith);
    assert((r.direction.y.raw as int) * 0 == 0) by (nonlinear_arith);
    assert((r.direction.z.raw as int) * 0 == 0) by (nonlinear_arith);
    assert(crate::fixed::div_trunc(0, crate::fixed::SCALE as int) == 0) by {
        vstd::arithmetic::div_mod::lemma_div_of0(crate::fixed::SCALE as int);
    }
}

} // verus!

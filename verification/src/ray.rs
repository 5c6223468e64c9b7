//! Rays: an origin point and a direction, with evaluation of the point at
//! a given parametric distance.

use vstd::prelude::*;
use crate::vec3::{vadd_s, vmulk_s, vsub_s, unit_s, Vec3};

verus! {

/// A ray, as an origin and a (not necessarily normalized) direction.
#[derive(Clone, Copy, Debug, PartialEq, Eq, Structural)]
pub struct Ray {
    pub origin: Vec3,
    pub direction: Vec3,
}

/// The point a ray reaches at the given parametric distance.
pub open spec fn point_at_s(ray: Ray, distance: int) -> Vec3 {
    vadd_s(ray.origin, vmulk_s(ray.direction, distance))
}

impl Ray {
    /// The ray with the given origin and direction.
    pub fn new(origin: Vec3, direction: Vec3) -> (r: Ray)
        ensures
            r == (Ray { origin, direction }),
    {
        Ray { origin, direction }
    }

    /// The ray at `origin` whose direction is the normalized offset of
    /// `origin` from `to`.
    pub fn through(origin: Vec3, to: Vec3) -> (r: Ray)
        ensures
            r.origin == origin,
            r.direction == unit_s(vsub_s(origin, to)),
    {
        Ray { origin, direction: origin.sub(&to).unit() }
    }

    /// The point this ray reaches at the given parametric distance.
    pub fn point_at(&self, distance: &i64) -> (r: Vec3)
        ensures
            r == point_at_s(*self, *distance as int),
    {
        self.origin.add(&self.direction.mul_k(*distance))
    }
}

} // verus!

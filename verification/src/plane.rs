//! Infinite planes, analytically traceable: a point on the plane and its
//! normal; a ray hits where its direction is not parallel to the plane
//! and the intersection parameter is non-negative.

use vstd::prelude::*;
use crate::fx::div_s;
use crate::fx::fx_div;
use crate::material::Material;
use crate::ray::Ray;
use crate::vec3::{dot_s, vsub_s, Vec3};

verus! {

/// A plane through `position` with the given normal and material.
#[derive(Clone, Copy, Debug, PartialEq, Eq, Structural)]
pub struct Plane {
    pub position: Vec3,
    pub normal: Vec3,
    pub material: Material,
}

/// The plane's analytic intersection: project the offset to the plane
/// onto the normal and divide by the ray/normal alignment; hits behind
/// the origin are misses.
pub open spec fn plane_trace_s(pl: Plane, ray: Ray) -> Option<(int, Vec3)> {
    let denom = dot_s(pl.normal, ray.direction);
    if denom != 0 {
        let t = div_s(dot_s(vsub_s(pl.position, ray.origin), pl.normal), denom);
        if t >= 0 {
            Some((t, pl.normal))
        } else {
            None
        }
    } else {
        None
    }
}

impl Plane {
    /// The plane with the given point, normal and material.
    pub fn new(position: Vec3, normal: Vec3, material: Material) -> (r: Plane)
        ensures
            r == (Plane { position, normal, material }),
    {
        Plane { position, normal, material }
    }

    /// This plane's material.
    pub fn material(&self) -> (r: Material)
        ensures
            r == self.material,
    {
        self.material
    }

    /// Analytic ray intersection.
    pub fn trace(&self, ray: &Ray) -> (r: Option<(i64, Vec3)>)
        ensures
            match r {
                Some((d, n)) => plane_trace_s(*self, *ray) == Some((d as int, n)),
                None => plane_trace_s(*self, *ray) is None,
            },
    {
        let denom = self.normal.dot(&ray.direction);
        if denom != 0 {
            let t = fx_div(self.position.sub(&ray.origin).dot(&self.normal), denom);
            if t >= 0 {
                Some((t, self.normal))
            } else {
                None
            }
        } else {
            None
        }
    }
}

} // verus!

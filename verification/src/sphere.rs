//! Spheres. A sphere is both analytically traceable (quadratic
//! intersection) and marchable (its signed distance is the distance to
//! the center minus the radius).

use vstd::prelude::*;
use crate::fx::{add_s, div_s, mul_s, sqrt_s, sub_s, fx_add, fx_div, fx_min, fx_mul, fx_sqrt, fx_sub};
use crate::material::Material;
use crate::ray::{point_at_s, Ray};
use crate::vec3::{dot_s, len_s, unit_s, vsub_s, Vec3};

verus! {

/// A sphere with a center, a radius and a material.
#[derive(Clone, Copy, Debug, PartialEq, Eq, Structural)]
pub struct Sphere {
    pub position: Vec3,
    pub radius: i64,
    pub material: Material,
}

/// The sphere's signed distance estimate at a point: distance to the
/// center minus the radius (negative inside).
pub open spec fn sphere_march_s(s: Sphere, p: Vec3) -> int {
    sub_s(len_s(vsub_s(p, s.position)), s.radius as int)
}

/// The sphere's analytic intersection: solve the quadratic along the
/// ray; a positive discriminant gives the nearer root and the outward
/// normal at that point.
pub open spec fn sphere_trace_s(s: Sphere, ray: Ray) -> Option<(int, Vec3)> {
    let oc = vsub_s(ray.origin, s.position);
    let a = dot_s(ray.direction, ray.direction);
    let b = dot_s(oc, ray.direction);
    let c = sub_s(dot_s(oc, oc), mul_s(s.radius as int, s.radius as int));
    let disc = sub_s(mul_s(b, b), mul_s(a, c));
    if disc > 0 {
        let sq = sqrt_s(disc);
        let t1 = div_s(sub_s(sub_s(0, b), sq), a);
        let t2 = div_s(add_s(sub_s(0, b), sq), a);
        let t = if t1 <= t2 {
            t1
        } else {
            t2
        };
        Some((t, unit_s(vsub_s(point_at_s(ray, t), s.position))))
    } else {
        None
    }
}

impl Sphere {
    /// The sphere with the given center, radius and material.
    pub fn new(position: Vec3, radius: i64, material: Material) -> (r: Sphere)
        ensures
            r == (Sphere { position, radius, material }),
    {
        Sphere { position, radius, material }
    }

    /// This sphere's material.
    pub fn material(&self) -> (r: Material)
        ensures
            r == self.material,
    {
        self.material
    }

    /// Analytic ray intersection; no positive discriminant means no hit.
    pub fn trace(&self, ray: &Ray) -> (r: Option<(i64, Vec3)>)
        ensures
            match r {
                Some((d, n)) => sphere_trace_s(*self, *ray) == Some((d as int, n)),
                None => sphere_trace_s(*self, *ray) is None,
            },
    {
        let oc = ray.origin.sub(&self.position);
        let a = ray.direction.dot(&ray.direction);
        let b = oc.dot(&ray.direction);
        let c = fx_sub(oc.dot(&oc), fx_mul(self.radius, self.radius));
        let disc = fx_sub(fx_mul(b, b), fx_mul(a, c));
        if disc > 0 {
            let sq = fx_sqrt(disc);
            let t1 = fx_div(fx_sub(fx_sub(0, b), sq), a);
            let t2 = fx_div(fx_add(fx_sub(0, b), sq), a);
            let t = fx_min(t1, t2);
            let normal = ray.point_at(&t).sub(&self.position).unit();
            Some((t, normal))
        } else {
            None
        }
    }

    /// Signed distance estimate from a point.
    pub fn march(&self, point: &Vec3) -> (r: i64)
        ensures
            r as int == sphere_march_s(*self, *point),
    {
        fx_sub(point.sub(&self.position).length(), self.radius)
    }
}

} // verus!

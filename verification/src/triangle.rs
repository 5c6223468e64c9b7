//! Triangles, analytically traceable through the cross-product form of
//! the ray/triangle test: barycentric coordinates come from scalar
//! triple products, and the hit requires every coordinate (and the
//! intersection parameter) to clear the self-intersection guard. A hit
//! reports the parametric distance along the ray, commensurable with
//! the distances the other shapes report.

use vstd::prelude::*;
use crate::fx::{div_s, mul_s, sub_s, add_s, fx_add, fx_div, fx_min, fx_mul, fx_sub, ONE};
use crate::material::Material;
use crate::ray::Ray;
use crate::render::EPSILON;
use crate::vec3::{cross_s, dot_s, unit_s, vneg_s, vsub_s, Vec3};

verus! {

/// A triangle with three vertices and a material.
#[derive(Clone, Copy, Debug, PartialEq, Eq, Structural)]
pub struct Triangle {
    pub a: Vec3,
    pub b: Vec3,
    pub c: Vec3,
    pub material: Material,
}

/// The triangle's analytic intersection. A degenerate triangle (a
/// zero-area face) has a zero normal, so the divisor is clamped to the
/// finite sentinel instead of producing an invalid value, the
/// intersection parameter collapses to zero, and the barycentric guard
/// reports a miss rather than an invalid hit.
pub open spec fn triangle_trace_s(tr: Triangle, ray: Ray) -> Option<(int, Vec3)> {
    let ab = vsub_s(tr.b, tr.a);
    let ac = vsub_s(tr.c, tr.a);
    let rov0 = vsub_s(ray.origin, tr.a);
    let n = cross_s(ab, ac);
    let q = cross_s(rov0, ray.direction);
    let d = div_s(ONE as int, dot_s(ray.direction, n));
    let u = mul_s(d, dot_s(vneg_s(q), ac));
    let v = mul_s(d, dot_s(q, ab));
    let t = mul_s(d, dot_s(vneg_s(n), rov0));
    let uv = sub_s(ONE as int, add_s(u, v));
    let low = if u <= v {
        u
    } else {
        v
    };
    let low = if low <= t {
        low
    } else {
        t
    };
    let low = if low <= uv {
        low
    } else {
        uv
    };
    if low > EPSILON {
        Some((t, unit_s(n)))
    } else {
        None
    }
}

impl Triangle {
    /// The triangle with the given vertices and material.
    pub fn new(a: Vec3, b: Vec3, c: Vec3, material: Material) -> (r: Triangle)
        ensures
            r == (Triangle { a, b, c, material }),
    {
        Triangle { a, b, c, material }
    }

    /// This triangle's material.
    pub fn material(&self) -> (r: Material)
        ensures
            r == self.material,
    {
        self.material
    }

    /// Analytic ray intersection.
    pub fn trace(&self, ray: &Ray) -> (r: Option<(i64, Vec3)>)
        ensures
            match r {
                Some((d, n)) => triangle_trace_s(*self, *ray) == Some((d as int, n)),
                None => triangle_trace_s(*self, *ray) is None,
            },
    {
        let ab = self.b.sub(&self.a);
        let ac = self.c.sub(&self.a);
        let rov0 = ray.origin.sub(&self.a);
        let n = ab.cross(&ac);
        let q = rov0.cross(&ray.direction);
        let d = fx_div(ONE, ray.direction.dot(&n));
        let u = fx_mul(d, q.neg().dot(&ac));
        let v = fx_mul(d, q.dot(&ab));
        let t = fx_mul(d, n.neg().dot(&rov0));
        let uv = fx_sub(ONE, fx_add(u, v));
        let low = fx_min(fx_min(fx_min(u, v), t), uv);
        if low > EPSILON {
            Some((t, n.unit()))
        } else {
            None
        }
    }
}

} // verus!

//! The analytic hit pass: intersect a ray with every traceable object
//! and keep the closest visible hit. A hit is visible only past the
//! self-intersection guard, and among equally close hits the earliest
//! object in iteration order wins.

use vstd::prelude::*;
use crate::cast::Cast;
use crate::material::Material;
use crate::plane::{plane_trace_s, Plane};
use crate::ray::Ray;
use crate::render::EPSILON;
use crate::sphere::{sphere_trace_s, Sphere};
use crate::triangle::{triangle_trace_s, Triangle};
use crate::vec3::Vec3;

verus! {

/// A traceable object: one that exposes an analytic intersection test.
#[derive(Clone, Copy, Debug, PartialEq, Eq, Structural)]
pub enum Trace {
    Sphere(Sphere),
    Plane(Plane),
    Triangle(Triangle),
}

/// The object's analytic intersection.
pub open spec fn trace_one_s(t: Trace, ray: Ray) -> Option<(int, Vec3)> {
    match t {
        Trace::Sphere(s) => sphere_trace_s(s, ray),
        Trace::Plane(p) => plane_trace_s(p, ray),
        Trace::Triangle(tr) => triangle_trace_s(tr, ray),
    }
}

/// The object's material.
pub open spec fn trace_material_s(t: Trace) -> Material {
    match t {
        Trace::Sphere(s) => s.material,
        Trace::Plane(p) => p.material,
        Trace::Triangle(tr) => tr.material,
    }
}

/// The closest visible analytic hit over a collection of objects:
/// intersections at or below the guard threshold are invisible, and a
/// later object replaces the best hit only when strictly closer.
pub open spec fn trace_best_s(objs: Seq<Trace>, ray: Ray) -> Option<Cast>
    decreases objs.len(),
{
    if objs.len() == 0 {
        None::<Cast>
    } else {
        let best = trace_best_s(objs.drop_last(), ray);
        match trace_one_s(objs.last(), ray) {
            None => best,
            Some((d, n)) => {
                let visible = d > EPSILON;
                let closer = match best {
                    None => true,
                    Some(c) => d < c.distance,
                };
                if visible && closer {
                    Some(
                        Cast {
                            distance: d as i64,
                            normal: n,
                            material: trace_material_s(objs.last()),
                        },
                    )
                } else {
                    best
                }
            },
        }
    }
}

impl Trace {
    /// This object's material.
    pub fn material(&self) -> (r: Material)
        ensures
            r == trace_material_s(*self),
    {
        match self {
            Trace::Sphere(s) => s.material(),
            Trace::Plane(p) => p.material(),
            Trace::Triangle(tr) => tr.material(),
        }
    }

    /// This object's analytic intersection.
    pub fn trace(&self, ray: &Ray) -> (r: Option<(i64, Vec3)>)
        ensures
            match r {
                Some((d, n)) => trace_one_s(*self, *ray) == Some((d as int, n)),
                None => trace_one_s(*self, *ray) is None,
            },
    {
        match self {
            Trace::Sphere(s) => s.trace(ray),
            Trace::Plane(p) => p.trace(ray),
            Trace::Triangle(tr) => tr.trace(ray),
        }
    }

    /// The closest visible analytic hit of the ray over the objects.
    #[verifier::rlimit(50)]
    pub fn hit(trace: &Vec<Trace>, ray: &Ray) -> (r: Option<Cast>)
        ensures
            r == trace_best_s(trace@, *ray),
    {
        let mut best: Option<Cast> = None;
        let mut i: usize = 0;
        while i < trace.len()
            invariant
                i <= trace.len(),
                best == trace_best_s(trace@.take(i as int), *ray),
            decreases trace.len() - i,
        {
            proof {
                assert(trace@.take(i + 1).drop_last() =~= trace@.take(i as int));
                assert(trace@.take(i + 1).last() == trace@[i as int]);
            }
            match trace[i].trace(ray) {
                None => {
                },
                Some((distance, normal)) => {
                    let visible = distance > EPSILON;
                    let closer = match best {
                        None => true,
                        Some(cast) => distance < cast.distance,
                    };
                    if visible && closer {
                        best = Some(
                            Cast { distance, normal, material: trace[i].material() },
                        );
                    }
                },
            }
            i = i + 1;
        }
        proof {
            assert(trace@.take(trace@.len() as int) =~= trace@);
        }
        best
    }
}

} // verus!

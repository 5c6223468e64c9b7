//! Sphere tracing against the scene's combined signed distance field.
//! The field is the minimum distance over all marchable objects (ties
//! keep the first object in iteration order); the marcher steps a ray by
//! that minimum until it is within the guard threshold of a surface or
//! runs out of steps or depth. Surface normals are estimated by a
//! central-difference gradient of the field.

use vstd::prelude::*;
use crate::cast::Cast;
use crate::fx::{add_s, half_up, mul_s, sat, sub_s, fx_add, fx_mul, fx_sub, FX_MAX, ONE};
use crate::material::{sky_s, Material};
use crate::ray::{point_at_s, Ray};
use crate::render::EPSILON;
use crate::sphere::{sphere_march_s, Sphere};
use crate::vec3::{unit_s, vsub_s, Vec3};

verus! {

/// Bound on sphere-tracing iterations per ray.
pub const MAX_STEPS: usize = 64;

/// Far-plane cutoff: marching past this depth is a miss (the
/// fixed-point representation of 40).
pub const MAX_DEPTH: i64 = 40_000_000;

/// Rescaling applied to the central differences of the normal estimate
/// (the fixed-point representation of 1000). The differences span only
/// twice the guard offset, so without rescaling their squares would
/// round away; normalization is scale-invariant in exact arithmetic,
/// and the rescaling keeps it accurate in fixed point.
pub const GRAD_SCALE: i64 = 1_000_000_000;

/// A marchable object: one that exposes a signed distance estimate.
/// Only fields whose estimate is fixed-point arithmetic belong here; a
/// fractal field needs transcendental floating-point math, which the
/// verifier does not accept, so it stays outside the library.
#[derive(Clone, Copy, Debug, PartialEq, Eq, Structural)]
pub enum March {
    Sphere(Sphere),
}

/// The object's signed distance estimate at a point.
pub open spec fn march_dist_s(m: March, p: Vec3) -> int {
    match m {
        March::Sphere(s) => sphere_march_s(s, p),
    }
}

/// The object's material.
pub open spec fn march_material_s(m: March) -> Material {
    match m {
        March::Sphere(s) => s.material,
    }
}

/// The combined field: minimum signed distance over the objects and the
/// material of the first object attaining it; an empty scene reads as
/// the far sentinel with the sky material.
pub open spec fn sdf_s(objs: Seq<March>, p: Vec3) -> (int, Material)
    decreases objs.len(),
{
    if objs.len() == 0 {
        (FX_MAX as int, sky_s())
    } else {
        let prev = sdf_s(objs.drop_last(), p);
        let d = march_dist_s(objs.last(), p);
        if d < prev.0 {
            (d, march_material_s(objs.last()))
        } else {
            prev
        }
    }
}

/// The rescaled central-difference gradient of the combined field:
/// the field differenced across the guard offset along each axis.
pub open spec fn grad_s(objs: Seq<March>, p: Vec3) -> Vec3 {
    let x_hi = Vec3 { x: add_s(p.x as int, EPSILON as int) as i64, y: p.y, z: p.z };
    let x_lo = Vec3 { x: sub_s(p.x as int, EPSILON as int) as i64, y: p.y, z: p.z };
    let y_hi = Vec3 { x: p.x, y: add_s(p.y as int, EPSILON as int) as i64, z: p.z };
    let y_lo = Vec3 { x: p.x, y: sub_s(p.y as int, EPSILON as int) as i64, z: p.z };
    let z_hi = Vec3 { x: p.x, y: p.y, z: add_s(p.z as int, EPSILON as int) as i64 };
    let z_lo = Vec3 { x: p.x, y: p.y, z: sub_s(p.z as int, EPSILON as int) as i64 };
    Vec3 {
        x: mul_s(sub_s(sdf_s(objs, x_hi).0, sdf_s(objs, x_lo).0), GRAD_SCALE as int) as i64,
        y: mul_s(sub_s(sdf_s(objs, y_hi).0, sdf_s(objs, y_lo).0), GRAD_SCALE as int) as i64,
        z: mul_s(sub_s(sdf_s(objs, z_hi).0, sdf_s(objs, z_lo).0), GRAD_SCALE as int) as i64,
    }
}

/// The central-difference normal estimate: the normalized gradient.
pub open spec fn normal_s(objs: Seq<March>, p: Vec3) -> Vec3 {
    unit_s(grad_s(objs, p))
}

/// Marched normals have unit length within tolerance: wherever the
/// field's gradient estimate is of healthy size, the estimated normal
/// squares to one within 0.001.
pub proof fn lemma_normal_near_unit(objs: Seq<March>, p: Vec3)
    requires
        100_000 <= crate::vec3::len_s(grad_s(objs, p)),
        -1_000_000_000_000 <= grad_s(objs, p).x <= 1_000_000_000_000,
        -1_000_000_000_000 <= grad_s(objs, p).y <= 1_000_000_000_000,
        -1_000_000_000_000 <= grad_s(objs, p).z <= 1_000_000_000_000,
    ensures
        (crate::fx::ONE as int) - 1000 <= crate::vec3::ls_s(normal_s(objs, p)) <= (
        crate::fx::ONE as int) + 1000,
{
    crate::vec3::lemma_unit_near_unit(grad_s(objs, p));
}

/// One sphere-tracing run with the given remaining step budget: a hit
/// strictly within the guard threshold records the current depth, the
/// estimated normal and the field's material; stepping past the far
/// plane, or exhausting the budget, is a miss. A reading exactly at
/// the threshold counts as clear, so a ray launched exactly on a
/// surface and aimed off it marches away instead of re-hitting its own
/// launch point.
pub open spec fn march_step_s(objs: Seq<March>, ray: Ray, depth: i64, steps: nat) -> Option<Cast>
    decreases steps,
{
    if steps == 0 {
        None::<Cast>
    } else {
        let p = point_at_s(ray, depth as int);
        let dm = sdf_s(objs, p);
        if dm.0 < EPSILON {
            Some(Cast { distance: depth, normal: normal_s(objs, p), material: dm.1 })
        } else {
            let next = add_s(depth as int, dm.0) as i64;
            if next > MAX_DEPTH {
                None::<Cast>
            } else {
                march_step_s(objs, ray, next, (steps - 1) as nat)
            }
        }
    }
}

/// What marching a ray against a collection of objects returns.
pub open spec fn march_hit_s(objs: Seq<March>, ray: Ray) -> Option<Cast> {
    march_step_s(objs, ray, EPSILON, MAX_STEPS as nat)
}

/// Marching can only move forward, so if the combined field stays at
/// or above the guard threshold at every depth the marcher can visit,
/// every step advances without ever recording a hit.
proof fn lemma_march_clear_steps(objs: Seq<March>, ray: Ray, depth: i64, steps: nat)
    requires
        depth >= EPSILON,
        forall|d: int|
            d >= EPSILON ==> (#[trigger] sdf_s(objs, point_at_s(ray, d))).0 >= EPSILON as int,
    ensures
        march_step_s(objs, ray, depth, steps) is None,
    decreases steps,
{
    if steps != 0 {
        let p = point_at_s(ray, depth as int);
        assert(sdf_s(objs, p).0 >= EPSILON as int);
        let dm = sdf_s(objs, p);
        let next = add_s(depth as int, dm.0) as i64;
        if next <= MAX_DEPTH {
            assert(next >= EPSILON);
            lemma_march_clear_steps(objs, ray, next, (steps - 1) as nat);
        }
    }
}

/// Sphere-tracing termination on a clear ray: a ray along which the
/// combined field never falls below the guard threshold (for any depth
/// the marcher can reach) is reported as a miss — the depth grows
/// monotonically until it passes the far plane or the step budget runs
/// out, and no hit is ever recorded.
pub proof fn lemma_march_clear_misses(objs: Seq<March>, ray: Ray)
    requires
        forall|d: int|
            d >= EPSILON ==> (#[trigger] sdf_s(objs, point_at_s(ray, d))).0 >= EPSILON as int,
    ensures
        march_hit_s(objs, ray) is None,
{
    lemma_march_clear_steps(objs, ray, EPSILON, MAX_STEPS as nat);
}

/// Sphere-tracing termination for a boundary launch: for any
/// representable radius, a ray starting exactly on the boundary of a
/// marched sphere centered at the origin and aimed straight away along
/// the axis is reported as a miss. At every depth the marcher can
/// reach, the axis point's computed length is exact, so the field
/// reads the depth itself — never below the guard — and the march runs
/// off the far plane.
pub proof fn lemma_boundary_launch_misses(radius: i64, material: Material)
    requires
        ONE <= radius <= 1_000_000_000_000,
    ensures
        march_hit_s(
            seq![March::Sphere(Sphere { position: Vec3 { x: 0, y: 0, z: 0 }, radius, material })],
            Ray {
                origin: Vec3 { x: 0, y: 0, z: radius },
                direction: Vec3 { x: 0, y: 0, z: ONE },
            },
        ) is None,
{
    let objs = seq![
        March::Sphere(Sphere { position: Vec3 { x: 0, y: 0, z: 0 }, radius, material }),
    ];
    let ray = Ray { origin: Vec3 { x: 0, y: 0, z: radius }, direction: Vec3 { x: 0, y: 0, z: ONE } };
    assert forall|d: int|
        d >= EPSILON implies (#[trigger] sdf_s(objs, point_at_s(ray, d))).0 >= EPSILON as int by {
        let p = point_at_s(ray, d);
        // The step lands back on the axis: the sideways components
        // stay zero and the depth adds to the launch height.
        assert(0 * d == 0) by (nonlinear_arith);
        assert(mul_s(0, d) == 0);
        assert((1_000_000 * d + 500_000) / 1_000_000 == d) by {
            vstd::arithmetic::div_mod::lemma_div_multiples_vanish_fancy(d, 500_000, 1_000_000);
        }
        assert(mul_s(ONE as int, d) == sat(d));
        let z = add_s(radius as int, sat(d)) as i64;
        assert(p == Vec3 { x: 0, y: 0, z });
        assert(z >= radius + EPSILON);
        // One object: the combined field is the sphere's estimate (or
        // the empty-field sentinel, which also clears the guard).
        assert(objs.len() == 1);
        assert(objs.last() == March::Sphere(
            Sphere { position: Vec3 { x: 0, y: 0, z: 0 }, radius, material },
        ));
        assert(objs.drop_last() =~= Seq::<March>::empty());
        assert(sdf_s(Seq::<March>::empty(), p).0 == FX_MAX as int);
        assert(vsub_s(p, Vec3 { x: 0, y: 0, z: 0 }) == Vec3 { x: 0, y: 0, z });
        let dist = march_dist_s(objs.last(), p);
        if z <= 3_000_000_000_000 {
            crate::vec3::lemma_axis_length(z);
            assert(dist == sub_s(z as int, radius as int));
        } else {
            // Far past the far plane the length may round or saturate,
            // but it stays enormous compared to the radius.
            let zz = (z as int) * (z as int);
            assert(zz >= 9_000_000_000_000_000_000_000_000) by {
                vstd::arithmetic::mul::lemma_mul_inequality(
                    3_000_000_000_000int,
                    z as int,
                    3_000_000_000_000int,
                );
                vstd::arithmetic::mul::lemma_mul_inequality(
                    3_000_000_000_000int,
                    z as int,
                    z as int,
                );
                vstd::arithmetic::mul::lemma_mul_is_commutative(3_000_000_000_000int, z as int);
            }
            assert(half_up(zz, 1_000_000) >= half_up(
                9_000_000_000_000_000_000_000_000,
                1_000_000,
            )) by {
                vstd::arithmetic::div_mod::lemma_div_is_ordered(
                    9_000_000_000_000_000_000_000_000int + 500_000,
                    zz + 500_000,
                    1_000_000,
                );
            }
            assert(half_up(9_000_000_000_000_000_000_000_000, 1_000_000)
                >= 9_000_000_000_000_000_000);
            let lsv = crate::vec3::ls_s(Vec3 { x: 0, y: 0, z });
            assert(mul_s(0, 0) == 0);
            assert(lsv == mul_s(z as int, z as int));
            assert(lsv >= 9_000_000_000_000_000_000);
            assert(1 <= lsv <= FX_MAX as int);
            crate::fx::lemma_sqrt_s_bracket(lsv);
            let len = crate::fx::sqrt_s(lsv);
            assert(len >= 2_000_000_000_000) by (nonlinear_arith)
                requires
                    lsv * 1_000_000 - len * len <= len,
                    lsv >= 9_000_000_000_000_000_000,
                    len >= 1,
            ;
            assert(dist == sub_s(len as int, radius as int));
        }
        assert(dist >= EPSILON as int);
    }
    lemma_march_clear_misses(objs, ray);
}

impl March {
    /// This object's material.
    pub fn material(&self) -> (r: Material)
        ensures
            r == march_material_s(*self),
    {
        match self {
            March::Sphere(s) => s.material(),
        }
    }

    /// This object's signed distance estimate at a point.
    pub fn march(&self, point: &Vec3) -> (r: i64)
        ensures
            r as int == march_dist_s(*self, *point),
    {
        match self {
            March::Sphere(s) => s.march(point),
        }
    }

    /// The combined signed distance field at a point: the minimum
    /// distance over the objects, with the material of the first object
    /// attaining it.
    pub fn sdf(point: &Vec3, march: &Vec<March>) -> (r: (i64, Material))
        ensures
            r.0 as int == sdf_s(march@, *point).0,
            r.1 == sdf_s(march@, *point).1,
    {
        let mut min: i64 = FX_MAX;
        let mut mat: Material = Material::sky();
        let mut i: usize = 0;
        while i < march.len()
            invariant
                i <= march.len(),
                min as int == sdf_s(march@.take(i as int), *point).0,
                mat == sdf_s(march@.take(i as int), *point).1,
            decreases march.len() - i,
        {
            let distance = march[i].march(point);
            proof {
                assert(march@.take(i + 1).drop_last() =~= march@.take(i as int));
                assert(march@.take(i + 1).last() == march@[i as int]);
            }
            if distance < min {
                min = distance;
                mat = march[i].material();
            }
            i = i + 1;
        }
        proof {
            assert(march@.take(march@.len() as int) =~= march@);
        }
        (min, mat)
    }

    /// The central-difference normal estimate at a point on the field.
    pub fn normal(p: &Vec3, march: &Vec<March>) -> (r: Vec3)
        ensures
            r == normal_s(march@, *p),
    {
        let dx = fx_sub(
            March::sdf(&Vec3::new(fx_add(p.x, EPSILON), p.y, p.z), march).0,
            March::sdf(&Vec3::new(fx_sub(p.x, EPSILON), p.y, p.z), march).0,
        );
        let dy = fx_sub(
            March::sdf(&Vec3::new(p.x, fx_add(p.y, EPSILON), p.z), march).0,
            March::sdf(&Vec3::new(p.x, fx_sub(p.y, EPSILON), p.z), march).0,
        );
        let dz = fx_sub(
            March::sdf(&Vec3::new(p.x, p.y, fx_add(p.z, EPSILON)), march).0,
            March::sdf(&Vec3::new(p.x, p.y, fx_sub(p.z, EPSILON)), march).0,
        );
        Vec3::new(fx_mul(dx, GRAD_SCALE), fx_mul(dy, GRAD_SCALE), fx_mul(dz, GRAD_SCALE)).unit()
    }

    /// March a ray through the combined field, up to `MAX_STEPS`
    /// advances and at most the far-plane depth.
    pub fn hit(march: &Vec<March>, ray: &Ray) -> (r: Option<Cast>)
        ensures
            r == march_hit_s(march@, *ray),
    {
        let mut depth: i64 = EPSILON;
        let mut step: usize = 0;
        while step < MAX_STEPS
            invariant
                step <= MAX_STEPS,
                march_hit_s(march@, *ray) == march_step_s(
                    march@,
                    *ray,
                    depth,
                    (MAX_STEPS - step) as nat,
                ),
            decreases MAX_STEPS - step,
        {
            let point = ray.point_at(&depth);
            let dm = March::sdf(&point, march);
            if dm.0 < EPSILON {
                let normal = March::normal(&point, march);
                return Some(Cast { distance: depth, normal, material: dm.1 });
            }
            depth = fx_add(depth, dm.0);
            if depth > MAX_DEPTH {
                return None;
            }
            step = step + 1;
        }
        None
    }
}

} // verus!

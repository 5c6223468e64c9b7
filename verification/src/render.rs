//! The hit resolver and the recursive stochastic shading integrator.
//!
//! The resolver combines the best analytic intersection with the result
//! of sphere-marching the distance field, preferring the analytic hit on
//! a tie because it is exact rather than an epsilon-bounded
//! approximation. The integrator recursively samples diffuse and
//! specular lobes, feeds them back through the resolver, and combines
//! the accumulated radiance with a layered material blend (Fresnel-
//! weighted dielectric base, metallic layer, additive emission).

use vstd::prelude::*;
use crate::camera::{camera_wf, Camera};
use crate::cast::Cast;
use crate::fx::{
    add_s, div_s, mul_s, sqrt_s, sub_s, fx_add, fx_div, fx_max, fx_min, fx_mul, fx_sqrt, fx_sub,
    lemma_mul_s_nonneg, FX_MAX, ONE,
};
use crate::march::{march_material_s, march_step_s, sdf_s, March};
use crate::material::{material_wf, sky_s, Material};
use crate::camera::make_ray_s;
use crate::ray::{point_at_s, Ray};
use crate::rng::rng_next_u32;
use crate::scene::{scene_wf, Scene};
use crate::trace::{trace_best_s, trace_material_s, Trace};
use crate::vec3::{
    dot_s, lemma_vadd_s_nonneg, lemma_vdivk_s_nonneg, lemma_vmul_s_nonneg, lemma_vmulk_s_nonneg,
    ls_s, unit_s, vadd_s, vmul_s, vmulk_s, vnonneg_s, vsub_s, Vec3,
};

verus! {

/// Self-intersection guard: distances at or below this threshold are
/// treated as non-hits (the fixed-point representation of 0.0005).
pub const EPSILON: i64 = 500;

/// The zero vector (black).
pub open spec fn zero_v() -> Vec3 {
    Vec3 { x: 0, y: 0, z: 0 }
}

/// What the hit resolver returns: the closer of the analytic and the
/// marched hit, the analytic one on an exact tie.
pub open spec fn cast_ray_s(scene: Scene, ray: Ray) -> Option<Cast> {
    let marched = crate::march::march_hit_s(scene.march@, ray);
    let traced = trace_best_s(scene.trace@, ray);
    match (marched, traced) {
        (None, None) => None::<Cast>,
        (None, Some(t)) => Some(t),
        (Some(m), None) => Some(m),
        (Some(m), Some(t)) => Some(
            if m.distance < t.distance {
                m
            } else {
                t
            },
        ),
    }
}

/// Resolve the closest surface hit for a ray: the better of the
/// analytic pass and the march pass, preferring the analytic result on
/// a tie.
pub fn cast_ray(scene: &Scene, ray: &Ray) -> (r: Option<Cast>)
    ensures
        r == cast_ray_s(*scene, *ray),
{
    let marched = March::hit(&scene.march, ray);
    let traced = Trace::hit(&scene.trace, ray);
    match (marched, traced) {
        (None, None) => None,
        (None, Some(t)) => Some(t),
        (Some(m), None) => Some(m),
        (Some(m), Some(t)) => Some(
            if m.distance < t.distance {
                m
            } else {
                t
            },
        ),
    }
}

/// The tie-break rule of the resolver: whenever both passes hit and
/// the analytic distance is no farther than the marched one — in
/// particular on an exact tie — the resolver returns the analytic
/// record, because it is exact where the march is epsilon-bounded.
pub proof fn lemma_tie_prefers_trace(scene: Scene, ray: Ray)
    ensures
        match (crate::march::march_hit_s(scene.march@, ray), trace_best_s(scene.trace@, ray)) {
            (Some(m), Some(t)) => t.distance <= m.distance ==> cast_ray_s(scene, ray) == Some(t),
            _ => true,
        },
{
}

/// The materials the combined field can report are the scene's own (or
/// the sky), so they are well-formed in a well-formed scene.
proof fn lemma_sdf_material_wf(objs: Seq<March>, p: Vec3)
    requires
        forall|i: int| 0 <= i < objs.len() ==> material_wf(march_material_s(#[trigger] objs[i])),
    ensures
        material_wf(sdf_s(objs, p).1),
    decreases objs.len(),
{
    if objs.len() == 0 {
    } else {
        assert(forall|i: int|
            0 <= i < objs.drop_last().len() ==> material_wf(
                march_material_s(#[trigger] objs.drop_last()[i]),
            ));
        lemma_sdf_material_wf(objs.drop_last(), p);
        assert(objs.last() == objs[objs.len() - 1]);
    }
}

/// A marched hit reports a material of the combined field.
proof fn lemma_march_material_wf(objs: Seq<March>, ray: Ray, depth: i64, steps: nat)
    requires
        forall|i: int| 0 <= i < objs.len() ==> material_wf(march_material_s(#[trigger] objs[i])),
    ensures
        march_step_s(objs, ray, depth, steps) matches Some(c) ==> material_wf(c.material),
    decreases steps,
{
    if steps != 0 {
        let p = crate::ray::point_at_s(ray, depth as int);
        lemma_sdf_material_wf(objs, p);
        let dm = sdf_s(objs, p);
        if dm.0 >= EPSILON {
            let next = add_s(depth as int, dm.0) as i64;
            if next <= crate::march::MAX_DEPTH {
                lemma_march_material_wf(objs, ray, next, (steps - 1) as nat);
            }
        }
    }
}

/// An analytic hit reports the material of one of the scene's objects.
proof fn lemma_trace_material_wf(objs: Seq<Trace>, ray: Ray)
    requires
        forall|i: int| 0 <= i < objs.len() ==> material_wf(trace_material_s(#[trigger] objs[i])),
    ensures
        trace_best_s(objs, ray) matches Some(c) ==> material_wf(c.material),
    decreases objs.len(),
{
    if objs.len() != 0 {
        assert(forall|i: int|
            0 <= i < objs.drop_last().len() ==> material_wf(
                trace_material_s(#[trigger] objs.drop_last()[i]),
            ));
        lemma_trace_material_wf(objs.drop_last(), ray);
        assert(objs.last() == objs[objs.len() - 1]);
    }
}

/// In a well-formed scene, every resolved hit carries a well-formed
/// material.
pub proof fn lemma_cast_material_wf(scene: Scene, ray: Ray)
    requires
        scene_wf(scene),
    ensures
        cast_ray_s(scene, ray) matches Some(c) ==> material_wf(c.material),
{
    lemma_march_material_wf(
        scene.march@,
        ray,
        EPSILON,
        crate::march::MAX_STEPS as nat,
    );
    lemma_trace_material_wf(scene.trace@, ray);
}

/// Every ray misses a scene with no geometry: the analytic pass has
/// nothing to intersect, and the empty field reads the far sentinel,
/// so the first march step already runs off the far plane.
pub proof fn lemma_cast_empty(scene: Scene, ray: Ray)
    requires
        scene.march@.len() == 0,
        scene.trace@.len() == 0,
    ensures
        cast_ray_s(scene, ray) is None,
{
    assert(trace_best_s(scene.trace@, ray) is None);
    let p0 = point_at_s(ray, EPSILON as int);
    assert(sdf_s(scene.march@, p0).0 == FX_MAX as int);
    assert(crate::march::march_step_s(
        scene.march@,
        ray,
        EPSILON,
        crate::march::MAX_STEPS as nat,
    ) is None);
}

/// A fixed-point value uniform in `[0, 1)`, drawn from the generator.
fn noise_01(rng: &mut rand::rngs::StdRng) -> (r: i64)
    ensures
        0 <= r < ONE,
{
    (rng_next_u32(rng) % 1_000_000) as i64
}

/// A fixed-point value uniform in `[-1, 1)`, drawn from the generator.
fn noise_sym(rng: &mut rand::rngs::StdRng) -> (r: i64)
    ensures
        -ONE <= r < ONE,
{
    ((rng_next_u32(rng) % 2_000_000) as i64) - ONE
}

/// Rejection-sample a point of the unit ball: draw from the enclosing
/// cube until the squared length falls below one. The retry budget is
/// bounded; if every draw is rejected (vanishingly unlikely) the center
/// of the ball is returned, which satisfies the same bounds. Every
/// component lies strictly inside `(-1, 1)`: a component at either
/// edge would already square to one.
pub fn sample_sphere(rng: &mut rand::rngs::StdRng) -> (r: Vec3)
    ensures
        ls_s(r) < ONE as int,
        -ONE < r.x < ONE,
        -ONE < r.y < ONE,
        -ONE < r.z < ONE,
{
    let mut tries: usize = 0;
    while tries < 1024
        invariant
            true,
        decreases 1024 - tries,
    {
        let point = Vec3::new(noise_sym(rng), noise_sym(rng), noise_sym(rng));
        if point.length_squared() < ONE {
            proof {
                crate::fx::lemma_mul_s_square_nonneg(point.x as int);
                crate::fx::lemma_mul_s_square_nonneg(point.y as int);
                crate::fx::lemma_mul_s_square_nonneg(point.z as int);
                assert((-1_000_000) * (-1_000_000) == 1_000_000_000_000) by (nonlinear_arith);
                if point.x == -ONE || point.y == -ONE || point.z == -ONE {
                    assert(mul_s(-1_000_000, -1_000_000) == 1_000_000);
                    assert(false);
                }
            }
            return point;
        }
        tries = tries + 1;
    }
    let center = Vec3::new(0, 0, 0);
    proof {
        lemma_mul_s_nonneg(0, 0);
        assert(ls_s(center) == 0);
    }
    center
}

/// A point of the unit ball pushed to its surface by normalization.
/// Draws shorter than a tenth are rejected — millionth fixed point
/// cannot normalize tiny vectors accurately — so the result is
/// near-unit; if every draw is rejected (vanishingly unlikely), a
/// fixed in-ball point is normalized instead.
pub fn sample_sphere_surface(rng: &mut rand::rngs::StdRng) -> (r: Vec3)
    ensures
        exists|v: Vec3| 10_000 <= ls_s(v) < ONE as int && r == unit_s(v),
        (ONE as int) - 1000 <= ls_s(r) <= (ONE as int) + 1000,
{
    let mut tries: usize = 0;
    while tries < 1024
        invariant
            true,
        decreases 1024 - tries,
    {
        let point = sample_sphere(rng);
        if point.length_squared() >= 10_000 {
            let surface = point.unit();
            proof {
                crate::fx::lemma_sqrt_s_tenth(ls_s(point));
                crate::vec3::lemma_unit_near_unit(point);
                assert(10_000 <= ls_s(point) < ONE as int && surface == unit_s(point));
            }
            return surface;
        }
        tries = tries + 1;
    }
    let anchor = Vec3::new(500_000, 0, 0);
    let surface = anchor.unit();
    proof {
        assert(500_000 * 500_000 == 250_000_000_000) by (nonlinear_arith);
        lemma_mul_s_nonneg(500_000, 500_000);
        lemma_mul_s_nonneg(0, 0);
        assert(ls_s(anchor) == 250_000);
        crate::fx::lemma_sqrt_s_tenth(250_000);
        crate::vec3::lemma_unit_near_unit(anchor);
        assert(10_000 <= ls_s(anchor) < ONE as int && surface == unit_s(anchor));
    }
    surface
}

/// The mirror reflection of `v` about the normal `n`:
/// `v - 2 (v . n) n`.
pub open spec fn reflect_s(v: Vec3, n: Vec3) -> Vec3 {
    vsub_s(v, vmulk_s(n, mul_s(2_000_000, dot_s(v, n))))
}

/// Mirror reflection about a normal.
pub fn reflect(v: &Vec3, n: &Vec3) -> (r: Vec3)
    ensures
        r == reflect_s(*v, *n),
{
    v.sub(&n.mul_k(fx_mul(2_000_000, v.dot(n))))
}

/// Schlick's approximation of the Fresnel factor, clamped into
/// `[0, 1]`: `r0 + (1 - r0)(1 - cosine)^5` with
/// `r0 = ((1 - ior) / (1 + ior))^2` and the cosine taken against the
/// incoming direction.
pub open spec fn fresnel_s(ior: int, normal: Vec3, ray: Ray) -> int {
    let r0a = div_s(sub_s(ONE as int, ior), add_s(ONE as int, ior));
    let cosine = sub_s(0, dot_s(normal, ray.direction));
    let r0 = mul_s(r0a, r0a);
    let om = sub_s(ONE as int, cosine);
    let p2 = mul_s(om, om);
    let p5 = mul_s(mul_s(p2, p2), om);
    let unclamped = add_s(r0, mul_s(sub_s(ONE as int, r0), p5));
    let low = if unclamped <= ONE as int {
        unclamped
    } else {
        ONE as int
    };
    if 0 >= low {
        0
    } else {
        low
    }
}

/// Schlick's Fresnel factor for an incoming ray.
pub fn fresnel(ior: i64, normal: &Vec3, ray: &Ray) -> (r: i64)
    ensures
        r as int == fresnel_s(ior as int, *normal, *ray),
        0 <= r <= ONE,
{
    let r0a = fx_div(fx_sub(ONE, ior), fx_add(ONE, ior));
    let cosine = fx_sub(0, normal.dot(&ray.direction));
    let r0 = fx_mul(r0a, r0a);
    let om = fx_sub(ONE, cosine);
    let p2 = fx_mul(om, om);
    let p5 = fx_mul(fx_mul(p2, p2), om);
    let unclamped = fx_add(r0, fx_mul(fx_sub(ONE, r0), p5));
    fx_max(0, fx_min(unclamped, ONE))
}

/// The refraction discriminant `1 - ni^2 (1 - (unit(v) . n)^2)`; the
/// ray refracts only when it is positive.
pub open spec fn refract_disc_s(v: Vec3, n: Vec3, ni_over_nt: int) -> int {
    let uv = unit_s(v);
    let dt = dot_s(uv, n);
    sub_s(
        ONE as int,
        mul_s(mul_s(ni_over_nt, ni_over_nt), sub_s(ONE as int, mul_s(dt, dt))),
    )
}

/// The refracted direction `ni (unit(v) - n dt) - n sqrt(disc)`.
pub open spec fn refract_dir_s(v: Vec3, n: Vec3, ni_over_nt: int) -> Vec3 {
    let uv = unit_s(v);
    let dt = dot_s(uv, n);
    vsub_s(
        vmulk_s(vsub_s(uv, vmulk_s(n, dt)), ni_over_nt),
        vmulk_s(n, sqrt_s(refract_disc_s(v, n, ni_over_nt))),
    )
}

/// Snell refraction of `v` about `n`. Returns whether the ray
/// refracts; on success the refracted direction is written to the out
/// parameter, otherwise the parameter is left as it was.
pub fn refract(v: &Vec3, n: &Vec3, ni_over_nt: i64, refracted: &mut Vec3) -> (r: bool)
    ensures
        r == (refract_disc_s(*v, *n, ni_over_nt as int) > 0),
        r ==> *final(refracted) == refract_dir_s(*v, *n, ni_over_nt as int),
        !r ==> *final(refracted) == *old(refracted),
{
    let uv = v.unit();
    let dt = uv.dot(n);
    let discriminant = fx_sub(
        ONE,
        fx_mul(fx_mul(ni_over_nt, ni_over_nt), fx_sub(ONE, fx_mul(dt, dt))),
    );
    if discriminant > 0 {
        *refracted = uv.sub(&n.mul_k(dt)).mul_k(ni_over_nt).sub(&n.mul_k(fx_sqrt(discriminant)));
        true
    } else {
        false
    }
}

/// The layered material blend: transmission and diffuse mix into a
/// base, the Fresnel factor layers specular over it, metallic
/// interpolates toward a color-tinted specular, and emission is added
/// on top.
pub open spec fn pbr_s(
    material: Material,
    transmission: Vec3,
    diffuse: Vec3,
    specular: Vec3,
    fresnel: int,
) -> Vec3 {
    let base = vadd_s(
        vmulk_s(transmission, material.transmission as int),
        vmulk_s(diffuse, sub_s(ONE as int, material.transmission as int)),
    );
    let dielectric = vadd_s(
        vmulk_s(specular, fresnel),
        vmulk_s(base, sub_s(ONE as int, fresnel)),
    );
    let electric = vmul_s(specular, material.color);
    let non_emissive = vadd_s(
        vmulk_s(electric, material.metallic as int),
        vmulk_s(dielectric, sub_s(ONE as int, material.metallic as int)),
    );
    vadd_s(non_emissive, vmulk_s(material.color, material.emission as int))
}

/// The blend preserves non-negativity: well-formed weights and
/// non-negative inputs cannot produce a negative color.
pub proof fn lemma_pbr_s_nonneg(
    material: Material,
    transmission: Vec3,
    diffuse: Vec3,
    specular: Vec3,
    fresnel: int,
)
    requires
        material_wf(material),
        vnonneg_s(transmission),
        vnonneg_s(diffuse),
        vnonneg_s(specular),
        0 <= fresnel <= ONE as int,
    ensures
        vnonneg_s(pbr_s(material, transmission, diffuse, specular, fresnel)),
{
    let base = vadd_s(
        vmulk_s(transmission, material.transmission as int),
        vmulk_s(diffuse, sub_s(ONE as int, material.transmission as int)),
    );
    lemma_vmulk_s_nonneg(transmission, material.transmission as int);
    lemma_vmulk_s_nonneg(diffuse, sub_s(ONE as int, material.transmission as int));
    lemma_vadd_s_nonneg(
        vmulk_s(transmission, material.transmission as int),
        vmulk_s(diffuse, sub_s(ONE as int, material.transmission as int)),
    );
    let dielectric = vadd_s(
        vmulk_s(specular, fresnel),
        vmulk_s(base, sub_s(ONE as int, fresnel)),
    );
    lemma_vmulk_s_nonneg(specular, fresnel);
    lemma_vmulk_s_nonneg(base, sub_s(ONE as int, fresnel));
    lemma_vadd_s_nonneg(vmulk_s(specular, fresnel), vmulk_s(base, sub_s(ONE as int, fresnel)));
    let electric = vmul_s(specular, material.color);
    lemma_vmul_s_nonneg(specular, material.color);
    lemma_vmulk_s_nonneg(electric, material.metallic as int);
    lemma_vmulk_s_nonneg(dielectric, sub_s(ONE as int, material.metallic as int));
    lemma_vadd_s_nonneg(
        vmulk_s(electric, material.metallic as int),
        vmulk_s(dielectric, sub_s(ONE as int, material.metallic as int)),
    );
    lemma_vmulk_s_nonneg(material.color, material.emission as int);
    lemma_vadd_s_nonneg(
        vadd_s(
            vmulk_s(electric, material.metallic as int),
            vmulk_s(dielectric, sub_s(ONE as int, material.metallic as int)),
        ),
        vmulk_s(material.color, material.emission as int),
    );
}

/// Combine accumulated samples into one outgoing color in the layered
/// blend.
pub fn pbr(
    material: Material,
    transmission: Vec3,
    diffuse: Vec3,
    specular: Vec3,
    fresnel: i64,
) -> (r: Vec3)
    ensures
        r == pbr_s(material, transmission, diffuse, specular, fresnel as int),
{
    let base = transmission.mul_k(material.transmission).add(
        &diffuse.mul_k(fx_sub(ONE, material.transmission)),
    );
    let dielectric = specular.mul_k(fresnel).add(&base.mul_k(fx_sub(ONE, fresnel)));
    let electric = specular.mul(&material.color);
    let non_emissive = electric.mul_k(material.metallic).add(
        &dielectric.mul_k(fx_sub(ONE, material.metallic)),
    );
    non_emissive.add(&material.color.mul_k(material.emission))
}

/// The implied index of refraction derived from the specular weight:
/// `(1 - 0.28 sqrt(specular)) / (1 + 0.28 sqrt(specular))`.
pub open spec fn ior_s(material: Material) -> int {
    let sqrtm = sqrt_s(material.specular as int);
    div_s(
        sub_s(ONE as int, mul_s(sqrtm, 280_000)),
        add_s(mul_s(sqrtm, 280_000), ONE as int),
    )
}

/// The shape every shaded hit takes: some non-negative diffuse and
/// specular accumulations, combined by the layered blend with the
/// hit's own material and normal and the Fresnel factor of its derived
/// index of refraction. In particular the emission term of the blend
/// is always present in full. (The stochastic accumulations themselves
/// depend on the random draws, so they are existentially quantified.)
pub open spec fn shaded_form(scene: Scene, ray: Ray, r: Vec3) -> bool {
    match cast_ray_s(scene, ray) {
        Some(c) => exists|dif: Vec3, spe: Vec3|
            vnonneg_s(dif) && vnonneg_s(spe) && r == pbr_s(
                c.material,
                zero_v(),
                dif,
                spe,
                fresnel_s(ior_s(c.material), c.normal, ray),
            ),
        None => true,
    }
}

/// Everything the integrator promises of one evaluated ray: the exact
/// background color on a miss, exact black on a hit with an exhausted
/// bounce budget, non-negative radiance in a well-formed scene, and
/// the shaded blend form on a surviving hit. (Opaque so that callers
/// can pass the promise along without re-opening the resolver's
/// definitions; reveal it to read the clauses.)
#[verifier::opaque]
pub open spec fn radiance_ok(scene: Scene, ray: Ray, bounce: int, c: Vec3) -> bool {
    &&& cast_ray_s(scene, ray) is None ==> c == vmulk_s(scene.bg.color, scene.bg.emission as int)
    &&& (cast_ray_s(scene, ray) is Some && bounce == 0) ==> c == zero_v()
    &&& scene_wf(scene) ==> vnonneg_s(c)
    &&& (scene_wf(scene) && bounce != 0) ==> shaded_form(scene, ray, c)
}

/// One diffuse contribution: the albedo times an integrator-promised
/// sample of a scatter ray aimed from the hit point toward the normal
/// displaced by some point of the unit ball, normalized. (Opaque so
/// that contracts quantifying over many contributions stay tractable;
/// reveal it to read one contribution.)
#[verifier::opaque]
pub open spec fn diffuse_scatter_ok(
    scene: Scene,
    position: Vec3,
    normal: Vec3,
    albedo: Vec3,
    bounce: int,
    q: Vec3,
) -> bool {
    exists|w: Vec3, c: Vec3|
        {
            &&& ls_s(w) < ONE as int
            &&& radiance_ok(
                scene,
                Ray { origin: position, direction: unit_s(vadd_s(normal, w)) },
                bounce - 1,
                c,
            )
            &&& q == vmul_s(albedo, c)
        }
}

/// The diffuse side of the integrator: the diffuse accumulation in the
/// blend is the saturating average of exactly `branches` per-branch
/// contributions, each an albedo-weighted, integrator-promised sample
/// of a hemisphere scatter ray one bounce down.
pub open spec fn diffuse_form(scene: Scene, ray: Ray, bounce: int, branches: int, r: Vec3) -> bool {
    match cast_ray_s(scene, ray) {
        Some(c) => exists|dq: Seq<Vec3>, spe: Vec3|
            {
                &&& dq.len() == branches
                &&& forall|i: int|
                    0 <= i < dq.len() ==> #[trigger] diffuse_scatter_ok(
                        scene,
                        point_at_s(ray, c.distance as int),
                        c.normal,
                        c.material.color,
                        bounce,
                        dq[i],
                    )
                &&& vnonneg_s(spe)
                &&& r == pbr_s(
                    c.material,
                    zero_v(),
                    crate::vec3::vdivk_s(crate::vec3::vsum_s(dq), branches * (ONE as int)),
                    spe,
                    fresnel_s(ior_s(c.material), c.normal, ray),
                )
            },
        None => true,
    }
}

/// One rough specular contribution: an integrator-promised sample of
/// a scatter ray aimed from the hit point along the mirror reflection
/// perturbed by a roughness-scaled point of the unit ball. (Opaque
/// like the diffuse contribution.)
#[verifier::opaque]
pub open spec fn rough_scatter_ok(
    scene: Scene,
    position: Vec3,
    incoming: Vec3,
    normal: Vec3,
    roughness: i64,
    bounce: int,
    c: Vec3,
) -> bool {
    exists|w: Vec3|
        {
            &&& ls_s(w) < ONE as int
            &&& radiance_ok(
                scene,
                Ray {
                    origin: position,
                    direction: vadd_s(reflect_s(incoming, normal), vmulk_s(w, roughness as int)),
                },
                bounce - 1,
                c,
            )
        }
}

/// The rough specular side of the integrator: when the hit material is
/// not a perfect mirror, the specular accumulation in the blend is the
/// saturating average of exactly `branches` perturbed-reflection
/// samples, each promised by the integrator one bounce down.
pub open spec fn specular_form(
    scene: Scene,
    ray: Ray,
    bounce: int,
    branches: int,
    r: Vec3,
) -> bool {
    match cast_ray_s(scene, ray) {
        Some(c) => c.material.roughness != 0 ==> exists|sq: Seq<Vec3>, dif: Vec3|
            {
                &&& sq.len() == branches
                &&& forall|i: int|
                    0 <= i < sq.len() ==> #[trigger] rough_scatter_ok(
                        scene,
                        point_at_s(ray, c.distance as int),
                        ray.direction,
                        c.normal,
                        c.material.roughness,
                        bounce,
                        sq[i],
                    )
                &&& vnonneg_s(dif)
                &&& r == pbr_s(
                    c.material,
                    zero_v(),
                    dif,
                    crate::vec3::vdivk_s(crate::vec3::vsum_s(sq), branches * (ONE as int)),
                    fresnel_s(ior_s(c.material), c.normal, ray),
                )
            },
        None => true,
    }
}

/// The deterministic mirror scatter of a hit: the ray from the hit
/// point along the reflection of the incoming direction about the
/// surface normal.
pub open spec fn mirror_scatter_s(ray: Ray, c: Cast) -> Ray {
    Ray {
        origin: point_at_s(ray, c.distance as int),
        direction: reflect_s(ray.direction, c.normal),
    }
}

/// The perfect-mirror case of the integrator: when the hit material
/// has zero roughness, the specular accumulation in the blend is one
/// deterministic sample of the mirror scatter ray, itself satisfying
/// the integrator's promises one bounce down.
pub open spec fn mirror_form(scene: Scene, ray: Ray, bounce: int, r: Vec3) -> bool {
    match cast_ray_s(scene, ray) {
        Some(c) => c.material.roughness == 0 ==> exists|dif: Vec3, spe: Vec3|
            vnonneg_s(dif) && vnonneg_s(spe) && radiance_ok(
                scene,
                mirror_scatter_s(ray, c),
                bounce - 1,
                spe,
            ) && r == pbr_s(
                c.material,
                zero_v(),
                dif,
                spe,
                fresnel_s(ior_s(c.material), c.normal, ray),
            ),
        None => true,
    }
}

/// The recursive integrator. A miss returns the background's emitted
/// color exactly; a hit with an exhausted bounce budget returns black;
/// otherwise the diffuse lobe is sampled `branches` times (recursing
/// without further splitting), the specular lobe deterministically for
/// a perfect mirror and stochastically otherwise (with the branch
/// factor halved), and the lobes are combined by the layered blend.
/// Radiance never goes negative in a well-formed scene, and the lobe
/// forms pin both accumulations to exact averages of promised
/// per-branch samples (one deterministic mirror sample when roughness
/// is zero).
pub fn color(
    scene: &Scene,
    ray: &Ray,
    bounce: usize,
    branches: usize,
    rng: &mut rand::rngs::StdRng,
) -> (r: Vec3)
    requires
        1 <= branches <= 9_000_000_000_000,
    ensures
        radiance_ok(*scene, *ray, bounce as int, r),
        (scene_wf(*scene) && bounce != 0) ==> mirror_form(*scene, *ray, bounce as int, r),
        (scene_wf(*scene) && bounce != 0) ==> diffuse_form(
            *scene,
            *ray,
            bounce as int,
            branches as int,
            r,
        ),
        (scene_wf(*scene) && bounce != 0) ==> specular_form(
            *scene,
            *ray,
            bounce as int,
            branches as int,
            r,
        ),
    decreases bounce,
{
    proof {
        reveal(radiance_ok);
    }
    let cast_opt = cast_ray(scene, ray);
    let cast = match cast_opt {
        None => {
            proof {
                if scene_wf(*scene) {
                    lemma_vmulk_s_nonneg(scene.bg.color, scene.bg.emission as int);
                }
            }
            return scene.bg.color.mul_k(scene.bg.emission);
        },
        Some(c) => {
            if bounce == 0 {
                return Vec3::new(0, 0, 0);
            }
            c
        },
    };
    let distance = cast.distance;
    let normal = cast.normal;
    let material = cast.material;
    proof {
        if scene_wf(*scene) {
            lemma_cast_material_wf(*scene, *ray);
        }
    }

    let position = ray.point_at(&distance);
    let transmission = Vec3::new(0, 0, 0);
    let mut diffuse = Vec3::new(0, 0, 0);
    let ghost mut dq: Seq<Vec3> = Seq::empty();

    let mut i: usize = 0;
    while i < branches
        invariant
            1 <= branches,
            1 <= bounce,
            i <= branches,
            scene_wf(*scene) ==> vnonneg_s(diffuse),
            scene_wf(*scene) ==> material_wf(material),
            dq.len() == i,
            diffuse == crate::vec3::vsum_s(dq),
            forall|j: int|
                0 <= j < dq.len() ==> #[trigger] diffuse_scatter_ok(
                    *scene,
                    position,
                    normal,
                    material.color,
                    bounce as int,
                    dq[j],
                ),
        decreases branches - i,
    {
        let w = sample_sphere(rng);
        let scatter = Ray::new(position, normal.add(&w).unit());
        let sample = color(scene, &scatter, bounce - 1, 1, rng);
        let contribution = material.color.mul(&sample);
        proof {
            reveal(radiance_ok);
            if scene_wf(*scene) {
                lemma_vmul_s_nonneg(material.color, sample);
                lemma_vadd_s_nonneg(diffuse, vmul_s(material.color, sample));
            }
            reveal(diffuse_scatter_ok);
            assert(ls_s(w) < ONE as int && radiance_ok(*scene, scatter, bounce as int - 1, sample)
                && contribution == vmul_s(material.color, sample));
            assert(diffuse_scatter_ok(
                *scene,
                position,
                normal,
                material.color,
                bounce as int,
                contribution,
            ));
            let prev = dq;
            dq = dq.push(contribution);
            assert(dq.drop_last() =~= prev);
            assert(dq.last() == contribution);
            assert forall|j: int|
                0 <= j < dq.len() implies #[trigger] diffuse_scatter_ok(
                    *scene,
                    position,
                    normal,
                    material.color,
                    bounce as int,
                    dq[j],
                ) by {
                if j < prev.len() {
                    assert(dq[j] == prev[j]);
                } else {
                    assert(dq[j] == contribution);
                }
            }
        }
        diffuse = diffuse.add(&contribution);
        i = i + 1;
    }
    let bf: i64 = (branches as i64) * ONE;
    proof {
        if scene_wf(*scene) {
            lemma_vdivk_s_nonneg(diffuse, bf as int);
        }
    }
    let diffuse = diffuse.div_k(bf);
    proof {
        assert(diffuse == crate::vec3::vdivk_s(
            crate::vec3::vsum_s(dq),
            (branches as int) * (ONE as int),
        ));
    }

    let mut specular = Vec3::new(0, 0, 0);
    let ghost mut sq: Seq<Vec3> = Seq::empty();
    if material.roughness == 0 {
        let scatter = Ray::new(position, reflect(&ray.direction, &normal));
        specular = color(scene, &scatter, bounce - 1, branches, rng);
        proof {
            assert(scatter == mirror_scatter_s(*ray, cast));
            assert(radiance_ok(*scene, mirror_scatter_s(*ray, cast), bounce as int - 1, specular));
        }
    } else {
        let sub_branches = if branches / 2 >= 1 {
            branches / 2
        } else {
            1
        };
        let mut i: usize = 0;
        while i < branches
            invariant
                1 <= branches <= 9_000_000_000_000,
                1 <= sub_branches <= 9_000_000_000_000,
                1 <= bounce,
                i <= branches,
                scene_wf(*scene) ==> vnonneg_s(specular),
                sq.len() == i,
                specular == crate::vec3::vsum_s(sq),
                forall|j: int|
                    0 <= j < sq.len() ==> #[trigger] rough_scatter_ok(
                        *scene,
                        position,
                        ray.direction,
                        normal,
                        material.roughness,
                        bounce as int,
                        sq[j],
                    ),
            decreases branches - i,
        {
            let w = sample_sphere(rng);
            let perturb = w.mul_k(material.roughness);
            let scatter = Ray::new(position, reflect(&ray.direction, &normal).add(&perturb));
            let sample = color(scene, &scatter, bounce - 1, sub_branches, rng);
            proof {
                reveal(radiance_ok);
                if scene_wf(*scene) {
                    lemma_vadd_s_nonneg(specular, sample);
                }
                reveal(rough_scatter_ok);
                assert(ls_s(w) < ONE as int && radiance_ok(
                    *scene,
                    scatter,
                    bounce as int - 1,
                    sample,
                ));
                assert(rough_scatter_ok(
                    *scene,
                    position,
                    ray.direction,
                    normal,
                    material.roughness,
                    bounce as int,
                    sample,
                ));
                let prev = sq;
                sq = sq.push(sample);
                assert(sq.drop_last() =~= prev);
                assert(sq.last() == sample);
                assert forall|j: int|
                    0 <= j < sq.len() implies #[trigger] rough_scatter_ok(
                        *scene,
                        position,
                        ray.direction,
                        normal,
                        material.roughness,
                        bounce as int,
                        sq[j],
                    ) by {
                    if j < prev.len() {
                        assert(sq[j] == prev[j]);
                    } else {
                        assert(sq[j] == sample);
                    }
                }
            }
            specular = specular.add(&sample);
            i = i + 1;
        }
        proof {
            if scene_wf(*scene) {
                lemma_vdivk_s_nonneg(specular, bf as int);
            }
        }
        specular = specular.div_k(bf);
        proof {
            assert(specular == crate::vec3::vdivk_s(
                crate::vec3::vsum_s(sq),
                (branches as int) * (ONE as int),
            ));
            assert(sq.len() == branches);
        }
    }

    let sqrtm = fx_sqrt(material.specular);
    let ior = fx_div(
        fx_sub(ONE, fx_mul(sqrtm, 280_000)),
        fx_add(fx_mul(sqrtm, 280_000), ONE),
    );
    let f = fresnel(ior, &normal, ray);
    let result = pbr(material, transmission, diffuse, specular, f);
    proof {
        if scene_wf(*scene) {
            lemma_pbr_s_nonneg(material, transmission, diffuse, specular, f as int);
            assert(vnonneg_s(diffuse) && vnonneg_s(specular) && result == pbr_s(
                material,
                zero_v(),
                diffuse,
                specular,
                fresnel_s(ior_s(material), normal, *ray),
            ));
            if material.roughness == 0 {
                assert(vnonneg_s(diffuse) && vnonneg_s(specular) && radiance_ok(
                    *scene,
                    mirror_scatter_s(*ray, cast),
                    bounce as int - 1,
                    specular,
                ) && result == pbr_s(
                    material,
                    zero_v(),
                    diffuse,
                    specular,
                    fresnel_s(ior_s(material), normal, *ray),
                ));
                assert(mirror_form(*scene, *ray, bounce as int, result));
            }
            assert({
                &&& dq.len() == branches
                &&& forall|j: int|
                    0 <= j < dq.len() ==> #[trigger] diffuse_scatter_ok(
                        *scene,
                        position,
                        normal,
                        material.color,
                        bounce as int,
                        dq[j],
                    )
                &&& vnonneg_s(specular)
                &&& result == pbr_s(
                    material,
                    zero_v(),
                    crate::vec3::vdivk_s(
                        crate::vec3::vsum_s(dq),
                        (branches as int) * (ONE as int),
                    ),
                    specular,
                    fresnel_s(ior_s(material), normal, *ray),
                )
            });
            assert(diffuse_form(*scene, *ray, bounce as int, branches as int, result));
            if material.roughness != 0 {
                assert({
                    &&& sq.len() == branches
                    &&& forall|j: int|
                        0 <= j < sq.len() ==> #[trigger] rough_scatter_ok(
                            *scene,
                            position,
                            ray.direction,
                            normal,
                            material.roughness,
                            bounce as int,
                            sq[j],
                        )
                    &&& vnonneg_s(diffuse)
                    &&& result == pbr_s(
                        material,
                        zero_v(),
                        diffuse,
                        crate::vec3::vdivk_s(
                            crate::vec3::vsum_s(sq),
                            (branches as int) * (ONE as int),
                        ),
                        fresnel_s(ior_s(material), normal, *ray),
                    )
                });
            }
            assert(specular_form(*scene, *ray, bounce as int, branches as int, result));
        }
    }
    result
}

/// One antialiasing sample holds the integrator's promises for the
/// camera ray made from this (jittered) pixel coordinate, with the
/// camera's own bounce budget. (Opaque so that quantified contracts
/// over many samples stay tractable; reveal it to read one sample.)
#[verifier::opaque]
pub open spec fn pixel_sample_ok(scene: Scene, camera: Camera, x: int, y: int, c: Vec3) -> bool {
    radiance_ok(scene, make_ray_s(camera, x, y), camera.bounces as int, c)
}

/// One sample of a pixel, jittered by the given per-axis noise: the
/// noise lies in `[0, 1)` and the color holds the integrator's
/// promises for the jittered camera ray.
pub open spec fn jitter_sample_ok(
    scene: Scene,
    camera: Camera,
    u: int,
    v: int,
    jx: i64,
    jy: i64,
    c: Vec3,
) -> bool {
    &&& 0 <= jx < ONE
    &&& 0 <= jy < ONE
    &&& pixel_sample_ok(scene, camera, add_s(u, jx as int), add_s(v, jy as int), c)
}

/// What the antialiasing sampler returns: the saturating average of
/// one integrator evaluation per sample, each taken on a camera ray
/// for the pixel coordinate jittered by independent per-axis noise in
/// `[0, 1)`. The per-sample colors and jitters depend on the random
/// draws, so they are existentially quantified; each color is pinned
/// by the integrator's promises for its jittered ray. (Opaque for the
/// same reason as the per-sample promise.)
#[verifier::opaque]
pub open spec fn sample_form(scene: Scene, camera: Camera, u: int, v: int, r: Vec3) -> bool {
    exists|cols: Seq<Vec3>, jx: Seq<i64>, jy: Seq<i64>|
        {
            &&& cols.len() == camera.aa
            &&& jx.len() == camera.aa
            &&& jy.len() == camera.aa
            &&& forall|i: int|
                0 <= i < cols.len() ==> #[trigger] jitter_sample_ok(
                    scene,
                    camera,
                    u,
                    v,
                    jx[i],
                    jy[i],
                    cols[i],
                )
            &&& r == crate::vec3::vdivk_s(crate::vec3::vsum_s(cols), camera.aa * (ONE as int))
        }
}

/// A pixel of a scene with no geometry is exactly the background color
/// times its emission: every jittered ray misses, every sample is the
/// same background product, and the average of identical samples is
/// exact whenever the accumulated sum stays representable.
pub proof fn lemma_sample_empty_scene(scene: Scene, camera: Camera, u: int, v: int, r: Vec3)
    requires
        scene.march@.len() == 0,
        scene.trace@.len() == 0,
        camera.aa >= 1,
        sample_form(scene, camera, u, v, r),
        vnonneg_s(vmulk_s(scene.bg.color, scene.bg.emission as int)),
        vmulk_s(scene.bg.color, scene.bg.emission as int).x * camera.aa <= FX_MAX as int,
        vmulk_s(scene.bg.color, scene.bg.emission as int).y * camera.aa <= FX_MAX as int,
        vmulk_s(scene.bg.color, scene.bg.emission as int).z * camera.aa <= FX_MAX as int,
    ensures
        r == vmulk_s(scene.bg.color, scene.bg.emission as int),
{
    let p = vmulk_s(scene.bg.color, scene.bg.emission as int);
    reveal(sample_form);
    let (cols, jx, jy) = choose|cols: Seq<Vec3>, jx: Seq<i64>, jy: Seq<i64>|
        {
            &&& cols.len() == camera.aa
            &&& jx.len() == camera.aa
            &&& jy.len() == camera.aa
            &&& forall|i: int|
                0 <= i < cols.len() ==> #[trigger] jitter_sample_ok(
                    scene,
                    camera,
                    u,
                    v,
                    jx[i],
                    jy[i],
                    cols[i],
                )
            &&& r == crate::vec3::vdivk_s(crate::vec3::vsum_s(cols), camera.aa * (ONE as int))
        };
    assert forall|i: int| 0 <= i < cols.len() implies #[trigger] cols[i] == p by {
        assert(jitter_sample_ok(scene, camera, u, v, jx[i], jy[i], cols[i]));
        reveal(pixel_sample_ok);
        reveal(radiance_ok);
        lemma_cast_empty(
            scene,
            make_ray_s(camera, add_s(u, jx[i] as int), add_s(v, jy[i] as int)),
        );
    }
    crate::vec3::lemma_vsum_s_constant(cols, p);
    crate::fx::lemma_div_s_exact_multiple(p.x as int, camera.aa as int);
    crate::fx::lemma_div_s_exact_multiple(p.y as int, camera.aa as int);
    crate::fx::lemma_div_s_exact_multiple(p.z as int, camera.aa as int);
}

/// Average `aa` jittered samples of one pixel: each sample shakes the
/// pixel coordinate by uniform noise in `[0, 1)` per axis, casts a
/// camera ray and integrates it with the camera's bounce and branch
/// budget.
#[verifier::rlimit(80)]
pub fn sample(
    scene: &Scene,
    camera: &Camera,
    rng: &mut rand::rngs::StdRng,
    u: i64,
    v: i64,
) -> (r: Vec3)
    requires
        camera_wf(*camera),
    ensures
        scene_wf(*scene) ==> vnonneg_s(r),
        sample_form(*scene, *camera, u as int, v as int, r),
{
    let mut aliased = Vec3::new(0, 0, 0);
    let ghost mut cols: Seq<Vec3> = Seq::empty();
    let ghost mut jxs: Seq<i64> = Seq::empty();
    let ghost mut jys: Seq<i64> = Seq::empty();
    let mut s: usize = 0;
    while s < camera.aa
        invariant
            camera_wf(*camera),
            s <= camera.aa,
            scene_wf(*scene) ==> vnonneg_s(aliased),
            cols.len() == s,
            jxs.len() == s,
            jys.len() == s,
            aliased == crate::vec3::vsum_s(cols),
            forall|i: int|
                0 <= i < cols.len() ==> #[trigger] jitter_sample_ok(
                    *scene,
                    *camera,
                    u as int,
                    v as int,
                    jxs[i],
                    jys[i],
                    cols[i],
                ),
        decreases camera.aa - s,
    {
        let jx = noise_01(rng);
        let jy = noise_01(rng);
        let x = fx_add(u, jx);
        let y = fx_add(v, jy);
        let pixel_ray = camera.make_ray(x, y);
        let c = color(scene, &pixel_ray, camera.bounces, camera.branch, rng);
        proof {
            reveal(radiance_ok);
            if scene_wf(*scene) {
                lemma_vadd_s_nonneg(aliased, c);
            }
            reveal(pixel_sample_ok);
            assert(jitter_sample_ok(*scene, *camera, u as int, v as int, jx, jy, c));
            let prev = cols;
            let prev_jx = jxs;
            let prev_jy = jys;
            cols = cols.push(c);
            jxs = jxs.push(jx);
            jys = jys.push(jy);
            assert(cols.drop_last() =~= prev);
            assert(cols.last() == c);
            assert forall|i: int|
                0 <= i < cols.len() implies #[trigger] jitter_sample_ok(
                    *scene,
                    *camera,
                    u as int,
                    v as int,
                    jxs[i],
                    jys[i],
                    cols[i],
                ) by {
                if i == prev.len() {
                    assert(cols[i] == c && jxs[i] == jx && jys[i] == jy);
                } else {
                    assert(cols[i] == prev[i] && jxs[i] == prev_jx[i] && jys[i] == prev_jy[i]);
                    assert(jitter_sample_ok(
                        *scene,
                        *camera,
                        u as int,
                        v as int,
                        prev_jx[i],
                        prev_jy[i],
                        prev[i],
                    ));
                }
            }
        }
        aliased = aliased.add(&c);
        s = s + 1;
    }
    let af: i64 = (camera.aa as i64) * ONE;
    proof {
        if scene_wf(*scene) {
            lemma_vdivk_s_nonneg(aliased, af as int);
        }
    }
    let result = aliased.div_k(af);
    proof {
        reveal(sample_form);
        assert(cols.len() == camera.aa && jxs.len() == camera.aa && jys.len() == camera.aa);
        assert(result == crate::vec3::vdivk_s(
            crate::vec3::vsum_s(cols),
            camera.aa * (ONE as int),
        ));
        assert({
            &&& cols.len() == camera.aa
            &&& jxs.len() == camera.aa
            &&& jys.len() == camera.aa
            &&& forall|i: int|
                0 <= i < cols.len() ==> #[trigger] jitter_sample_ok(
                    *scene,
                    *camera,
                    u as int,
                    v as int,
                    jxs[i],
                    jys[i],
                    cols[i],
                )
            &&& result == crate::vec3::vdivk_s(
                crate::vec3::vsum_s(cols),
                camera.aa * (ONE as int),
            )
        });
        assert(sample_form(*scene, *camera, u as int, v as int, result));
    }
    result
}

} // verus!

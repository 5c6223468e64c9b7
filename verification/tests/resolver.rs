//! The dual hit-testing engine: analytic tracing, sphere marching, and
//! the resolver that combines them (preferring the analytic hit on an
//! exact tie).

use raytracer::cast::Cast;
use raytracer::march::March;
use raytracer::material::Material;
use raytracer::ray::Ray;
use raytracer::render::cast_ray;
use raytracer::scene::Scene;
use raytracer::sphere::Sphere;
use raytracer::trace::Trace;
use raytracer::vec3::Vec3;

const ONE: i64 = 1_000_000;

fn forward_ray() -> Ray {
    // From the origin, straight down the negative z axis.
    Ray::new(Vec3::new(0, 0, 0), Vec3::new(0, 0, -ONE))
}

#[test]
fn trace_sphere_exact_distance() {
    // A unit sphere five units ahead is hit at distance four, with the
    // outward normal pointing straight back: all values are exact in
    // fixed point.
    let sphere = Sphere::new(Vec3::new(0, 0, -5 * ONE), ONE, Material::sky());
    let (distance, normal) = sphere.trace(&forward_ray()).unwrap();
    assert_eq!(distance, 4 * ONE);
    assert_eq!(normal, Vec3::new(0, 0, ONE));
}

#[test]
fn trace_normal_is_unit() {
    // The analytic normal has unit length: exactly on an axis-aligned
    // hit, and within tolerance on an oblique one.
    let sphere = Sphere::new(Vec3::new(0, 0, -5 * ONE), ONE, Material::sky());
    let (_, normal) = sphere.trace(&forward_ray()).unwrap();
    assert_eq!(normal.length_squared(), ONE);

    let oblique = Ray::new(Vec3::new(0, 0, 0), Vec3::new(600_000, 0, -800_000));
    let fat = Sphere::new(Vec3::new(0, 0, -5 * ONE), 3_500_000, Material::sky());
    let (_, normal) = fat.trace(&oblique).unwrap();
    assert!((normal.length_squared() - ONE).abs() <= 2_000);
}

#[test]
fn march_normal_is_unit() {
    // The central-difference normal of a marched sphere on an axis
    // comes out exactly unit length.
    let objs = vec![March::Sphere(Sphere::new(
        Vec3::new(0, 0, -5 * ONE),
        ONE,
        Material::sky(),
    ))];
    let cast: Cast = March::hit(&objs, &forward_ray()).unwrap();
    assert_eq!(cast.distance, 4 * ONE);
    assert_eq!(cast.normal, Vec3::new(0, 0, ONE));
    assert_eq!(cast.normal.length_squared(), ONE);
}

#[test]
fn march_normal_is_unit_oblique() {
    // An oblique marched hit: the rescaled central-difference gradient
    // still normalizes to unit length within tolerance.
    let objs = vec![March::Sphere(Sphere::new(
        Vec3::new(0, 0, -5 * ONE),
        2 * ONE,
        Material::sky(),
    ))];
    let oblique = Ray::new(Vec3::new(0, 0, 0), Vec3::new(280_000, 0, -960_000));
    let cast: Cast = March::hit(&objs, &oblique).unwrap();
    assert!((cast.normal.length_squared() - ONE).abs() <= 20_000);
    // The normal leans toward the ray's side of the sphere.
    assert!(cast.normal.x > 0 && cast.normal.z > 0);
}

#[test]
fn trace_guard_rejects_backward_hits() {
    // A sphere behind the origin yields only negative intersection
    // parameters, which the visibility guard rejects.
    let behind = Sphere::new(Vec3::new(0, 0, 5 * ONE), ONE, Material::sky());
    let objs = vec![Trace::Sphere(behind)];
    assert!(Trace::hit(&objs, &forward_ray()).is_none());
}

#[test]
fn sdf_tie_keeps_first_object() {
    // Two identical marched spheres with different materials: the
    // combined field reports the first object's material on the tie.
    let first = Material::emissive(Vec3::new(ONE, 0, 0), ONE);
    let second = Material::emissive(Vec3::new(0, ONE, 0), ONE);
    let objs = vec![
        March::Sphere(Sphere::new(Vec3::new(0, 0, -5 * ONE), ONE, first)),
        March::Sphere(Sphere::new(Vec3::new(0, 0, -5 * ONE), ONE, second)),
    ];
    let (_, material) = March::sdf(&Vec3::new(0, 0, 0), &objs);
    assert_eq!(material, first);
}

#[test]
fn resolver_tie_prefers_trace() {
    // An analytic sphere and a marched sphere occupy the same surface;
    // both passes report distance four exactly, and the resolver must
    // return the analytic record.
    let traced_material = Material::emissive(Vec3::new(ONE, 0, 0), ONE);
    let marched_material = Material::emissive(Vec3::new(0, ONE, 0), ONE);
    let mut scene = Scene::empty();
    scene.add_trace(Trace::Sphere(Sphere::new(
        Vec3::new(0, 0, -5 * ONE),
        ONE,
        traced_material,
    )));
    scene.add_march(March::Sphere(Sphere::new(
        Vec3::new(0, 0, -5 * ONE),
        ONE,
        marched_material,
    )));

    // Both passes on their own see the surface at the same distance.
    let traced = Trace::hit(&scene.trace, &forward_ray()).unwrap();
    let marched = March::hit(&scene.march, &forward_ray()).unwrap();
    assert_eq!(traced.distance, 4 * ONE);
    assert_eq!(marched.distance, 4 * ONE);

    let cast = cast_ray(&scene, &forward_ray()).unwrap();
    assert_eq!(cast.material, traced_material);
}

#[test]
fn resolver_takes_closer_hit() {
    // With the marched sphere strictly closer, the resolver returns
    // the marched record instead.
    let traced_material = Material::emissive(Vec3::new(ONE, 0, 0), ONE);
    let marched_material = Material::emissive(Vec3::new(0, ONE, 0), ONE);
    let mut scene = Scene::empty();
    scene.add_trace(Trace::Sphere(Sphere::new(
        Vec3::new(0, 0, -5 * ONE),
        ONE,
        traced_material,
    )));
    scene.add_march(March::Sphere(Sphere::new(
        Vec3::new(0, 0, -3 * ONE),
        ONE,
        marched_material,
    )));
    let cast = cast_ray(&scene, &forward_ray()).unwrap();
    assert_eq!(cast.material, marched_material);
}

#[test]
fn march_from_boundary_aimed_away_misses() {
    // A ray starting exactly on the boundary of a marched sphere and
    // aimed straight away: the distance estimate grows monotonically
    // (doubling each step), so the marcher runs past the far plane and
    // reports a miss well within its step budget.
    let objs = vec![March::Sphere(Sphere::new(
        Vec3::new(0, 0, 0),
        ONE,
        Material::sky(),
    ))];
    let away = Ray::new(Vec3::new(0, 0, ONE), Vec3::new(0, 0, ONE));
    assert!(March::hit(&objs, &away).is_none());

    // Through the resolver (with no traceable objects) this is a miss
    // of the whole scene.
    let mut scene = Scene::empty();
    scene.add_march(March::Sphere(Sphere::new(Vec3::new(0, 0, 0), ONE, Material::sky())));
    assert!(cast_ray(&scene, &away).is_none());
}

#[test]
fn march_from_boundary_larger_radius() {
    // The same boundary-launch miss holds for another radius.
    let objs = vec![March::Sphere(Sphere::new(
        Vec3::new(0, 0, 0),
        3 * ONE,
        Material::sky(),
    ))];
    let away = Ray::new(Vec3::new(0, 0, 3 * ONE), Vec3::new(0, 0, ONE));
    assert!(March::hit(&objs, &away).is_none());
}

//! The small value types: rays, materials and their presets, cameras,
//! and scene assembly.

use raytracer::camera::Camera;
use raytracer::cast::CastResult;
use raytracer::march::March;
use raytracer::material::Material;
use raytracer::ray::Ray;
use raytracer::scene::Scene;
use raytracer::sphere::Sphere;
use raytracer::trace::Trace;
use raytracer::triangle::Triangle;
use raytracer::plane::Plane;
use raytracer::vec3::Vec3;

const ONE: i64 = 1_000_000;

#[test]
fn ray_point_at() {
    let ray = Ray::new(Vec3::new(ONE, 0, 0), Vec3::new(0, 0, -ONE));
    assert_eq!(ray.point_at(&(2 * ONE)), Vec3::new(ONE, 0, -2 * ONE));
}

#[test]
fn ray_through_points_toward_origin_side() {
    // The direction is the normalized offset of the origin from the
    // target point.
    let ray = Ray::through(Vec3::new(0, 0, 5 * ONE), Vec3::new(0, 0, 0));
    assert_eq!(ray.origin, Vec3::new(0, 0, 5 * ONE));
    assert_eq!(ray.direction, Vec3::new(0, 0, ONE));
}

#[test]
fn ray_equality_is_componentwise() {
    let a = Ray::new(Vec3::new(1, 2, 3), Vec3::new(4, 5, 6));
    let b = Ray::new(Vec3::new(1, 2, 3), Vec3::new(4, 5, 6));
    let c = Ray::new(Vec3::new(1, 2, 3), Vec3::new(4, 5, 7));
    assert_eq!(a, b);
    assert_ne!(a, c);
}

#[test]
fn cast_result_sentinel() {
    let worst = CastResult::worst();
    assert!(!worst.hit);
    assert_eq!(worst.distance, i64::MAX);
    assert_eq!(worst.material, Material::sky());

    let record = CastResult::new(true, 4 * ONE, Vec3::new(0, 0, ONE), Material::sky());
    let (hit, distance, normal, material) = record.unpack();
    assert!(hit);
    assert_eq!(distance, 4 * ONE);
    assert_eq!(normal, Vec3::new(0, 0, ONE));
    assert_eq!(material, Material::sky());
}

#[test]
fn material_presets() {
    let sky = Material::sky();
    assert_eq!(sky.color, Vec3::new(200_000, ONE, 800_000));
    assert_eq!(sky.emission, 600_000);
    assert_eq!(sky.metallic, 0);

    let lamp = Material::emissive(Vec3::new(ONE, ONE, ONE), 5 * ONE);
    assert_eq!(lamp.emission, 5 * ONE);
    assert_eq!(lamp.roughness, 0);

    let gold = Material::metal(Vec3::new(900_000, 800_000, 500_000), 0, 100_000);
    assert_eq!(gold.metallic, ONE);
    assert_eq!(gold.emission, 0);

    let chalk = Material::dielectric(Vec3::new(500_000, 500_000, 500_000), ONE, 500_000);
    assert_eq!(chalk.metallic, 0);
    assert_eq!(chalk.specular, ONE);
    assert_eq!(chalk.roughness, 500_000);
}

#[test]
fn camera_getters() {
    let camera = Camera::new(
        Vec3::new(0, 0, 0),
        Vec3::new(0, 0, -ONE),
        Vec3::new(0, ONE, 0),
        60 * ONE,
        (720, 450),
        12,
        2,
        3,
    );
    assert_eq!(camera.width(), 720);
    assert_eq!(camera.height(), 450);
    assert_eq!(camera.aa, 12);
    assert_eq!(camera.branch, 2);
    assert_eq!(camera.bounces, 3);
    // The eye ray looks down the negative z axis, normalized.
    assert_eq!(camera.ray.origin, Vec3::new(0, 0, 0));
    assert_eq!(camera.ray.direction, Vec3::new(0, 0, -ONE));
}

#[test]
fn camera_center_ray_looks_forward() {
    // The ray for the centered pixel coordinate starts at the eye and
    // points (almost) straight down the look direction.
    let camera = Camera::new(
        Vec3::new(0, 0, 0),
        Vec3::new(0, 0, -5 * ONE),
        Vec3::new(0, ONE, 0),
        60 * ONE,
        (9, 9),
        1,
        1,
        1,
    );
    let ray = camera.make_ray(4_500_000, 4_500_000);
    assert_eq!(ray.origin, Vec3::new(0, 0, 0));
    assert!(ray.direction.z < -900_000);
    assert!(ray.direction.x.abs() < 10_000);
    assert!(ray.direction.y.abs() < 10_000);
    assert!((ray.direction.length_squared() - ONE).abs() <= 10_000);
}

#[test]
fn scene_collects_objects_in_order() {
    let mut scene = Scene::empty();
    assert!(scene.trace.is_empty());
    assert!(scene.march.is_empty());

    let sphere = Sphere::new(Vec3::new(0, 0, -5 * ONE), ONE, Material::sky());
    let plane = Plane::new(Vec3::new(0, -ONE, 0), Vec3::new(0, ONE, 0), Material::sky());
    let triangle = Triangle::new(
        Vec3::new(0, 0, -ONE),
        Vec3::new(0, 0, ONE),
        Vec3::new(0, 2 * ONE, 0),
        Material::sky(),
    );
    scene.add_trace(Trace::Sphere(sphere));
    scene.add_trace(Trace::Plane(plane));
    scene.add_trace(Trace::Triangle(triangle));
    scene.add_march(March::Sphere(sphere));
    assert_eq!(scene.trace.len(), 3);
    assert_eq!(scene.march.len(), 1);
    assert!(matches!(scene.trace[0], Trace::Sphere(_)));
    assert!(matches!(scene.trace[2], Trace::Triangle(_)));
}

#[test]
fn plane_trace_head_on() {
    // A floor a unit below, hit straight down from above at distance
    // one, reporting the plane's stored normal.
    let plane = Plane::new(Vec3::new(0, -ONE, 0), Vec3::new(0, ONE, 0), Material::sky());
    let ray = Ray::new(Vec3::new(0, 0, 0), Vec3::new(0, -ONE, 0));
    let (distance, normal) = plane.trace(&ray).unwrap();
    assert_eq!(distance, ONE);
    assert_eq!(normal, Vec3::new(0, ONE, 0));
}

#[test]
fn plane_trace_parallel_misses() {
    let plane = Plane::new(Vec3::new(0, -ONE, 0), Vec3::new(0, ONE, 0), Material::sky());
    let ray = Ray::new(Vec3::new(0, 0, 0), Vec3::new(ONE, 0, 0));
    assert!(plane.trace(&ray).is_none());
}

#[test]
fn triangle_trace_interior_hit_parametric_distance() {
    // An interior hit on a triangle in the plane z = -5, shot straight
    // down the axis: the barycentric coordinates are (0.25, 0.25), the
    // parametric distance is exactly 5, and the normal is the
    // normalized face normal.
    let triangle = Triangle::new(
        Vec3::new(-ONE, -ONE, -5 * ONE),
        Vec3::new(3 * ONE, -ONE, -5 * ONE),
        Vec3::new(-ONE, 3 * ONE, -5 * ONE),
        Material::sky(),
    );
    let ray = Ray::new(Vec3::new(0, 0, 0), Vec3::new(0, 0, -ONE));
    let (distance, normal) = triangle.trace(&ray).unwrap();
    assert_eq!(distance, 5 * ONE);
    assert_eq!(normal, Vec3::new(0, 0, ONE));
}

#[test]
fn triangle_trace_misses_outside() {
    // A ray aimed well away from the triangle's plane region misses.
    let triangle = Triangle::new(
        Vec3::new(-ONE, 0, -5 * ONE),
        Vec3::new(ONE, 0, -5 * ONE),
        Vec3::new(0, 2 * ONE, -5 * ONE),
        Material::sky(),
    );
    let away = Ray::new(Vec3::new(0, 0, 0), Vec3::new(0, -ONE, 0));
    assert!(triangle.trace(&away).is_none());
}

#[test]
fn triangle_trace_degenerate_is_miss() {
    // A zero-area triangle has a zero normal: the divisor clamps, the
    // intersection parameter collapses, and the result is a miss
    // rather than an invalid hit.
    let degenerate = Triangle::new(
        Vec3::new(ONE, 0, -5 * ONE),
        Vec3::new(ONE, 0, -5 * ONE),
        Vec3::new(ONE, 0, -5 * ONE),
        Material::sky(),
    );
    let ray = Ray::new(Vec3::new(0, 0, 0), Vec3::new(0, 0, -ONE));
    assert!(degenerate.trace(&ray).is_none());
}

#[test]
fn sphere_march_signed_distance() {
    let sphere = Sphere::new(Vec3::new(0, 0, 0), 2 * ONE, Material::sky());
    // Three units out on an axis: distance one to the surface.
    assert_eq!(sphere.march(&Vec3::new(3 * ONE, 0, 0)), ONE);
    // At the center: negative radius.
    assert_eq!(sphere.march(&Vec3::new(0, 0, 0)), -2 * ONE);
}

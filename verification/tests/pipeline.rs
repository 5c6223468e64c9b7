//! End-to-end renders through the camera, resolver and integrator: an
//! emissive sphere filling the view renders to exactly its emitted
//! color, an empty scene renders to exactly the background product,
//! and row bands come out rectangular.

use rand::SeedableRng;
use raytracer::camera::Camera;
use raytracer::march::March;
use raytracer::material::Material;
use raytracer::scene::Scene;
use raytracer::sphere::Sphere;
use raytracer::trace::Trace;
use raytracer::vec3::Vec3;

const ONE: i64 = 1_000_000;

fn camera_at_origin(bounces: usize) -> Camera {
    Camera::new(
        Vec3::new(0, 0, 0),
        Vec3::new(0, 0, -3 * ONE),
        Vec3::new(0, ONE, 0),
        60 * ONE,
        (9, 9),
        1,
        1,
        bounces,
    )
}

fn emissive_sphere_scene() -> Scene {
    // One emissive sphere, color (1, 1, 1) at emission 3, covering the
    // whole 60-degree view from the origin; black background.
    let mut scene = Scene::empty();
    scene.bg = Material::emissive(Vec3::new(0, 0, 0), 0);
    scene.add_trace(Trace::Sphere(Sphere::new(
        Vec3::new(0, 0, -3 * ONE),
        2_500_000,
        Material::emissive(Vec3::new(ONE, ONE, ONE), 3 * ONE),
    )));
    scene
}

#[test]
fn emissive_sphere_renders_its_emission() {
    // Every pixel covering the sphere (here: all of them) is exactly
    // (3, 3, 3): the emission is additive and every stochastic
    // contribution is exactly zero against the black background.
    let scene = emissive_sphere_scene();
    let camera = camera_at_origin(1);
    let mut rng = rand::rngs::StdRng::seed_from_u64(11);
    let image = camera.section(&scene, &mut rng, 0, 9);
    assert_eq!(image.len(), 9);
    for row in &image {
        assert_eq!(row.len(), 9);
        for pixel in row {
            assert_eq!(*pixel, Vec3::new(3 * ONE, 3 * ONE, 3 * ONE));
        }
    }
}

#[test]
fn exhausted_budget_renders_black() {
    // The same scene with no bounce budget: hits return black.
    let scene = emissive_sphere_scene();
    let camera = camera_at_origin(0);
    let mut rng = rand::rngs::StdRng::seed_from_u64(11);
    let image = camera.section(&scene, &mut rng, 0, 9);
    for row in &image {
        for pixel in row {
            assert_eq!(*pixel, Vec3::new(0, 0, 0));
        }
    }
}

#[test]
fn empty_scene_renders_background_product() {
    // With no geometry every pixel is exactly the background color
    // times its emission: the sky gives (0.12, 0.6, 0.48).
    let scene = Scene::empty();
    let camera = camera_at_origin(3);
    let mut rng = rand::rngs::StdRng::seed_from_u64(5);
    let image = camera.section(&scene, &mut rng, 0, 9);
    for row in &image {
        for pixel in row {
            assert_eq!(*pixel, Vec3::new(120_000, 600_000, 480_000));
        }
    }
}

#[test]
fn marched_scene_renders_emission_too() {
    // The same emissive sphere reached through the march pass instead
    // of the analytic pass.
    let mut scene = Scene::empty();
    scene.bg = Material::emissive(Vec3::new(0, 0, 0), 0);
    scene.add_march(March::Sphere(Sphere::new(
        Vec3::new(0, 0, -3 * ONE),
        2_500_000,
        Material::emissive(Vec3::new(ONE, ONE, ONE), 3 * ONE),
    )));
    let camera = camera_at_origin(1);
    let mut rng = rand::rngs::StdRng::seed_from_u64(11);
    let image = camera.section(&scene, &mut rng, 0, 9);
    for row in &image {
        for pixel in row {
            assert_eq!(*pixel, Vec3::new(3 * ONE, 3 * ONE, 3 * ONE));
        }
    }
}

#[test]
fn section_returns_requested_band() {
    let scene = Scene::empty();
    let camera = camera_at_origin(1);
    let mut rng = rand::rngs::StdRng::seed_from_u64(2);
    let band = camera.section(&scene, &mut rng, 2, 5);
    assert_eq!(band.len(), 3);
    for row in &band {
        assert_eq!(row.len(), 9);
    }
}

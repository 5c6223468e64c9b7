//! The shading integrator and its helpers: the reflection law, Fresnel
//! weighting, refraction, the layered blend, and the integrator's base
//! cases.

use rand::SeedableRng;
use raytracer::march::March;
use raytracer::material::Material;
use raytracer::ray::Ray;
use raytracer::render::{color, fresnel, pbr, reflect, refract};
use raytracer::scene::Scene;
use raytracer::sphere::Sphere;
use raytracer::trace::Trace;
use raytracer::vec3::Vec3;

const ONE: i64 = 1_000_000;

#[test]
fn reflect_across_horizontal_plane() {
    // reflect((1, -1, 0), (0, 1, 0)) == (1, 1, 0), exactly.
    let v = Vec3::new(ONE, -ONE, 0);
    let n = Vec3::new(0, ONE, 0);
    assert_eq!(reflect(&v, &n), Vec3::new(ONE, ONE, 0));
}

#[test]
fn reflect_head_on() {
    // A ray straight into a surface reflects straight back.
    let v = Vec3::new(0, 0, -ONE);
    let n = Vec3::new(0, 0, ONE);
    assert_eq!(reflect(&v, &n), Vec3::new(0, 0, ONE));
}

#[test]
fn fresnel_matched_media_head_on() {
    // With an index of refraction of one and a head-on ray, Schlick's
    // approximation vanishes: r0 is zero and the cosine term is one.
    let normal = Vec3::new(0, 0, ONE);
    let ray = Ray::new(Vec3::new(0, 0, 0), Vec3::new(0, 0, -ONE));
    assert_eq!(fresnel(ONE, &normal, &ray), 0);
}

#[test]
fn fresnel_stays_in_unit_interval() {
    let normal = Vec3::new(0, 0, ONE);
    let grazing = Ray::new(Vec3::new(0, 0, 0), Vec3::new(ONE, 0, 0));
    let f = fresnel(500_000, &normal, &grazing);
    assert!((0..=ONE).contains(&f));
}

#[test]
fn refract_with_zero_ratio() {
    // A zero refraction ratio leaves only the normal term: the
    // discriminant is one and the direction is the negated normal.
    let v = Vec3::new(ONE, 0, 0);
    let n = Vec3::new(0, ONE, 0);
    let mut out = Vec3::new(7, 7, 7);
    assert!(refract(&v, &n, 0, &mut out));
    assert_eq!(out, Vec3::new(0, -ONE, 0));
}

#[test]
fn refract_total_internal_reflection() {
    // A large ratio drives the discriminant negative: no refraction,
    // and the out parameter is untouched.
    let v = Vec3::new(ONE, 0, 0);
    let n = Vec3::new(0, ONE, 0);
    let mut out = Vec3::new(7, 7, 7);
    assert!(!refract(&v, &n, 10 * ONE, &mut out));
    assert_eq!(out, Vec3::new(7, 7, 7));
}

#[test]
fn pbr_dielectric_reduces_to_diffuse_plus_emission() {
    // With no metallic, no transmission and no Fresnel weight, the
    // blend is the diffuse term plus the emitted color.
    let material = Material {
        color: Vec3::new(ONE, ONE, ONE),
        emission: 2 * ONE,
        metallic: 0,
        specular: 0,
        roughness: ONE,
        transmission: 0,
    };
    let zero = Vec3::new(0, 0, 0);
    let diffuse = Vec3::new(250_000, 250_000, 250_000);
    let specular = Vec3::new(100_000, 100_000, 100_000);
    let blended = pbr(material, zero, diffuse, specular, 0);
    assert_eq!(blended, Vec3::new(2_250_000, 2_250_000, 2_250_000));
}

#[test]
fn pbr_fully_metallic_tints_specular() {
    // A fully metallic material ignores the diffuse term: the result
    // is the specular sample tinted by the albedo.
    let material = Material::metal(Vec3::new(500_000, 500_000, ONE), 0, 0);
    let zero = Vec3::new(0, 0, 0);
    let diffuse = Vec3::new(ONE, ONE, ONE);
    let specular = Vec3::new(400_000, 400_000, 400_000);
    let blended = pbr(material, zero, diffuse, specular, 0);
    assert_eq!(blended, Vec3::new(200_000, 200_000, 400_000));
}

#[test]
fn radiance_budget_exhausted_is_black() {
    // A fully rough, non-emissive sphere lit by nothing: a hit with no
    // bounce budget left returns pure black.
    let mut scene = Scene::empty();
    scene.bg = Material::emissive(Vec3::new(500_000, 500_000, ONE), 200_000);
    scene.add_trace(Trace::Sphere(Sphere::new(
        Vec3::new(0, 0, -5 * ONE),
        ONE,
        Material::dielectric(Vec3::new(500_000, 500_000, 500_000), ONE, ONE),
    )));
    let mut rng = rand::rngs::StdRng::seed_from_u64(1);
    let hit_ray = Ray::new(Vec3::new(0, 0, 0), Vec3::new(0, 0, -ONE));
    assert_eq!(color(&scene, &hit_ray, 0, 4, &mut rng), Vec3::new(0, 0, 0));
}

#[test]
fn radiance_miss_is_background_times_emission() {
    // A ray that misses everything returns exactly the background
    // color scaled by its emission, at any bounce depth.
    let mut scene = Scene::empty();
    scene.bg = Material::emissive(Vec3::new(500_000, 500_000, ONE), 200_000);
    scene.add_trace(Trace::Sphere(Sphere::new(
        Vec3::new(0, 0, -5 * ONE),
        ONE,
        Material::dielectric(Vec3::new(500_000, 500_000, 500_000), ONE, ONE),
    )));
    let mut rng = rand::rngs::StdRng::seed_from_u64(1);
    let miss_ray = Ray::new(Vec3::new(0, 0, 0), Vec3::new(0, ONE, 0));
    let expected = Vec3::new(100_000, 100_000, 200_000);
    assert_eq!(color(&scene, &miss_ray, 0, 4, &mut rng), expected);
    assert_eq!(color(&scene, &miss_ray, 3, 2, &mut rng), expected);
}

#[test]
fn radiance_misses_the_sky_scene() {
    // The default sky: color (0.2, 1, 0.8) at emission 0.6 gives
    // exactly (0.12, 0.6, 0.48).
    let scene = Scene::empty();
    let mut rng = rand::rngs::StdRng::seed_from_u64(1);
    let ray = Ray::new(Vec3::new(0, 0, 0), Vec3::new(0, 0, -ONE));
    assert_eq!(
        color(&scene, &ray, 5, 2, &mut rng),
        Vec3::new(120_000, 600_000, 480_000)
    );
}

#[test]
fn radiance_never_negative() {
    // A mixed scene with an emitter and a mirror: every channel of the
    // integrated radiance stays non-negative.
    let mut scene = Scene::empty();
    scene.add_trace(Trace::Sphere(Sphere::new(
        Vec3::new(0, 0, -5 * ONE),
        2 * ONE,
        Material::metal(Vec3::new(900_000, 500_000, 500_000), 0, 0),
    )));
    scene.add_trace(Trace::Sphere(Sphere::new(
        Vec3::new(0, 3 * ONE, -5 * ONE),
        ONE,
        Material::emissive(Vec3::new(ONE, ONE, ONE), 5 * ONE),
    )));
    scene.add_march(March::Sphere(Sphere::new(
        Vec3::new(0, -3 * ONE, -5 * ONE),
        ONE,
        Material::dielectric(Vec3::new(500_000, 500_000, 500_000), ONE, 500_000),
    )));
    let mut rng = rand::rngs::StdRng::seed_from_u64(99);
    let ray = Ray::new(Vec3::new(0, 0, 0), Vec3::new(0, 0, -ONE));
    let c = color(&scene, &ray, 3, 2, &mut rng);
    assert!(c.x >= 0 && c.y >= 0 && c.z >= 0);
}

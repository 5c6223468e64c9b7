//! The randomized unit-ball sampler: every draw lies strictly inside
//! the ball, the empirical mean sits near the origin, and the samples
//! actually vary from draw to draw.

use rand::SeedableRng;
use raytracer::render::{sample_sphere, sample_sphere_surface};

const ONE: i64 = 1_000_000;

#[test]
fn samples_lie_inside_the_unit_ball() {
    let mut rng = rand::rngs::StdRng::seed_from_u64(42);
    let n: i64 = 10_000;
    let mut sum_x: i64 = 0;
    let mut sum_y: i64 = 0;
    let mut sum_z: i64 = 0;
    for _ in 0..n {
        let p = sample_sphere(&mut rng);
        assert!(p.length_squared() < ONE);
        assert!(p.x > -ONE && p.x < ONE);
        assert!(p.y > -ONE && p.y < ONE);
        assert!(p.z > -ONE && p.z < ONE);
        sum_x += p.x;
        sum_y += p.y;
        sum_z += p.z;
    }
    // The empirical mean is within 0.02 of the zero vector per axis.
    let tolerance = 20_000;
    assert!((sum_x / n).abs() < tolerance);
    assert!((sum_y / n).abs() < tolerance);
    assert!((sum_z / n).abs() < tolerance);
}

#[test]
fn samples_vary_between_draws() {
    // A generator that ignored its state would repeat one point
    // forever; a healthy stream produces distinct samples.
    let mut rng = rand::rngs::StdRng::seed_from_u64(7);
    let first = sample_sphere(&mut rng);
    let mut saw_different = false;
    for _ in 0..100 {
        if sample_sphere(&mut rng) != first {
            saw_different = true;
        }
    }
    assert!(saw_different);
}

#[test]
fn surface_samples_have_near_unit_length() {
    // Normalized ball samples land on the unit sphere up to the
    // fixed-point rounding of the normalization.
    let mut rng = rand::rngs::StdRng::seed_from_u64(3);
    for _ in 0..200 {
        let p = sample_sphere_surface(&mut rng);
        assert!((p.length_squared() - ONE).abs() <= 20_000);
    }
}

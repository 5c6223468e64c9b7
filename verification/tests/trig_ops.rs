//! The fixed-point trigonometry behind the camera's focal length:
//! values at well-known angles land within a few thousandths.

use raytracer::trig::{fx_cos, fx_sin, fx_tan};

const ONE: i64 = 1_000_000;

#[test]
fn sine_and_cosine_at_zero() {
    assert_eq!(fx_sin(0), 0);
    assert_eq!(fx_cos(0), ONE);
}

#[test]
fn sine_of_thirty_degrees() {
    // sin(pi/6) == 0.5
    assert!((fx_sin(523_599) - 500_000).abs() <= 2_000);
}

#[test]
fn cosine_of_sixty_degrees() {
    // cos(pi/3) == 0.5
    assert!((fx_cos(1_047_198) - 500_000).abs() <= 2_000);
}

#[test]
fn tangent_of_forty_five_degrees() {
    // tan(pi/4) == 1
    assert!((fx_tan(785_398) - ONE).abs() <= 5_000);
}

//! Componentwise vector arithmetic on exact fixed-point values: every
//! decimal quantity in these scenarios is representable exactly in
//! millionths.

use raytracer::vec3::Vec3;

#[test]
fn test_new() {
    let vec = Vec3::new(1_000_000, -2_000_000, 300_000);
    assert_eq!(vec, Vec3::new(1_000_000, -2_000_000, 300_000));
}

#[test]
fn test_xyz() {
    let vec = Vec3::new(1_000_000, -2_000_000, 300_000);
    assert_eq!(vec.x, 1_000_000);
    assert_eq!(vec.y, -2_000_000);
    assert_eq!(vec.z, 300_000);
}

#[test]
fn test_add_vec() {
    let vec = Vec3::new(1_000_000, -2_000_000, 300_000);
    let other = Vec3::new(-2_000_000, -7_300_000, 1_200_000);

    let test = Vec3::new(-1_000_000, -9_300_000, 1_500_000);

    assert_eq!(vec.add(&other), test);
}

#[test]
fn test_add_scalar() {
    let vec = Vec3::new(1_000_000, -2_000_000, 300_000);
    let scalar = 93_800_000;

    let test = Vec3::new(94_800_000, 91_800_000, 94_100_000);

    assert_eq!(vec.add_k(scalar), test);
}

#[test]
fn test_sub_vec() {
    let vec = Vec3::new(1_000_000, -2_000_000, 300_000);
    let other = Vec3::new(-2_000_000, -7_300_000, 1_200_000);

    let test = Vec3::new(3_000_000, 5_300_000, -900_000);

    assert_eq!(vec.sub(&other), test);
}

#[test]
fn test_sub_scalar() {
    let vec = Vec3::new(1_000_000, -2_000_000, 300_000);
    let scalar = 93_800_000;

    let test = Vec3::new(-92_800_000, -95_800_000, -93_500_000);

    assert_eq!(vec.sub_k(scalar), test);
}

#[test]
fn test_mul_vec() {
    let vec = Vec3::new(1_000_000, -2_000_000, 300_000);
    let other = Vec3::new(-2_000_000, -7_300_000, 1_200_000);

    let test = Vec3::new(-2_000_000, 14_600_000, 360_000);

    assert_eq!(vec.mul(&other), test);
}

#[test]
fn test_mul_scalar() {
    let vec = Vec3::new(1_000_000, -2_000_000, 300_000);
    let scalar = 93_800_000;

    let test = Vec3::new(93_800_000, -187_600_000, 28_140_000);

    assert_eq!(vec.mul_k(scalar), test);
}

#[test]
fn test_div_vec() {
    let vec = Vec3::new(1_000_000, -2_000_000, 300_000);
    let other = Vec3::new(-2_000_000, -7_300_000, 1_200_000);

    // -2 / -7.3 is 0.27397260..., which rounds to 0.273973.
    let test = Vec3::new(-500_000, 273_973, 250_000);

    assert_eq!(vec.div(&other), test);
}

#[test]
fn test_div_scalar() {
    let vec = Vec3::new(1_000_000, -2_000_000, 300_000);
    let scalar = 4_000_000;

    let test = Vec3::new(250_000, -500_000, 75_000);

    assert_eq!(vec.div_k(scalar), test);
}

#[test]
fn test_dot() {
    let vec = Vec3::new(200_000, 400_000, 700_000);
    let other = Vec3::new(100_000, 300_000, 300_000);

    assert_eq!(vec.dot(&other), 350_000);
}

#[test]
fn test_cross() {
    let vec = Vec3::new(3_000_000, -3_000_000, 1_000_000);
    let other = Vec3::new(4_000_000, 9_000_000, 2_000_000);

    let test = Vec3::new(-15_000_000, -2_000_000, 39_000_000);

    assert_eq!(vec.cross(&other), test);
}

#[test]
fn test_length() {
    let vec = Vec3::new(0, -3_000_000, 4_000_000);
    assert_eq!(vec.length(), 5_000_000);
}

#[test]
fn test_length_squared() {
    let vec = Vec3::new(5_000_000, -3_000_000, 4_000_000);
    assert_eq!(vec.length_squared(), 50_000_000);
}

#[test]
fn test_unit() {
    let vec = Vec3::new(0, -3_000_000, 4_000_000);
    let test = Vec3::new(0, -600_000, 800_000);

    assert_eq!(vec.unit(), test);
}

#[test]
fn test_total() {
    let vec = Vec3::new(1_000_000, -2_000_000, 300_000);
    assert_eq!(vec.total(), -700_000);
}

#[test]
fn test_abs() {
    let vec = Vec3::new(-1_000_000, 2_000_000, -300_000);
    assert_eq!(vec.abs(), Vec3::new(1_000_000, 2_000_000, 300_000));
}

#[test]
fn test_colorize_overbright() {
    // An over-bright white pixel compresses to 2.5 per channel, spills
    // nothing (every channel is saturated), clamps to 1 and quantizes
    // to a full byte after gamma correction.
    let over = Vec3::new(10_000_000, 10_000_000, 10_000_000);
    assert_eq!(over.colorize(1_000_000), [255, 255, 255]);
}

#[test]
fn test_colorize_black() {
    let black = Vec3::new(0, 0, 0);
    assert_eq!(black.colorize(1_000_000), [0, 0, 0]);
}

//! A small path-tracing renderer over a fixed-point scalar type.
//!
//! Geometry is hit-tested two ways: analytic ray intersection against
//! spheres, planes and triangles, and sphere tracing against a signed
//! distance field. A recursive stochastic integrator combines diffuse and
//! specular samples under a layered material blend. All real arithmetic is
//! carried out in decimal fixed point (millionths held in `i64`), so every
//! operation has an exact integer specification.

pub mod camera;
pub mod cast;
pub mod fx;
pub mod march;
pub mod material;
pub mod plane;
pub mod ray;
pub mod render;
pub mod rng;
pub mod scene;
pub mod sphere;
pub mod trace;
pub mod triangle;
pub mod trig;
pub mod vec3;

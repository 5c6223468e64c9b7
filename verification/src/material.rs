//! Surface materials: an albedo color plus the scalar parameters that
//! drive the layered shading blend. Materials are small copyable value
//! objects; the presets mirror the common cases (sky, pure emitter,
//! metal, dielectric).

use vstd::prelude::*;
use crate::fx::ONE;
use crate::vec3::Vec3;

verus! {

/// A surface material. `color` is the albedo and also tints emitted
/// light; `emission` is a radiance multiplier (zero for non-emissive
/// surfaces); `metallic`, `specular`, `roughness` and `transmission` are
/// blend weights in `[0, 1]`.
#[derive(Clone, Copy, Debug, PartialEq, Eq, Structural)]
pub struct Material {
    pub color: Vec3,
    pub emission: i64,
    pub metallic: i64,
    pub specular: i64,
    pub roughness: i64,
    pub transmission: i64,
}

/// A well-formed material: non-negative color and emission, blend
/// weights within the unit interval.
pub open spec fn material_wf(m: Material) -> bool {
    &&& m.color.x >= 0
    &&& m.color.y >= 0
    &&& m.color.z >= 0
    &&& m.emission >= 0
    &&& 0 <= m.metallic <= ONE
    &&& 0 <= m.specular <= ONE
    &&& 0 <= m.roughness <= ONE
    &&& 0 <= m.transmission <= ONE
}

/// The default background material.
pub open spec fn sky_s() -> Material {
    emissive_s(Vec3 { x: 200_000, y: 1_000_000, z: 800_000 }, 600_000)
}

/// A pure emitter with the given color and strength.
pub open spec fn emissive_s(color: Vec3, emission: i64) -> Material {
    Material { color, emission, metallic: 0, specular: 0, roughness: 0, transmission: 0 }
}

impl Material {
    /// The default background material: a tinted emitter.
    pub fn sky() -> (r: Material)
        ensures
            r == sky_s(),
            material_wf(r),
    {
        Material::emissive(Vec3::new(200_000, 1_000_000, 800_000), 600_000)
    }

    /// A pure emitter with the given color and strength.
    pub fn emissive(color: Vec3, emission: i64) -> (r: Material)
        ensures
            r == emissive_s(color, emission),
            (crate::vec3::vnonneg_s(color) && emission >= 0) ==> material_wf(r),
    {
        Material { color, emission, metallic: 0, specular: 0, roughness: 0, transmission: 0 }
    }

    /// A fully metallic surface.
    pub fn metal(color: Vec3, specular: i64, roughness: i64) -> (r: Material)
        ensures
            r == (Material {
                color,
                emission: 0,
                metallic: ONE,
                specular,
                roughness,
                transmission: 0,
            }),
            (crate::vec3::vnonneg_s(color) && 0 <= specular <= ONE && 0 <= roughness <= ONE)
                ==> material_wf(r),
    {
        Material { color, emission: 0, metallic: ONE, specular, roughness, transmission: 0 }
    }

    /// A non-metallic surface.
    pub fn dielectric(color: Vec3, specular: i64, roughness: i64) -> (r: Material)
        ensures
            r == (Material {
                color,
                emission: 0,
                metallic: 0,
                specular,
                roughness,
                transmission: 0,
            }),
            (crate::vec3::vnonneg_s(color) && 0 <= specular <= ONE && 0 <= roughness <= ONE)
                ==> material_wf(r),
    {
        Material { color, emission: 0, metallic: 0, specular, roughness, transmission: 0 }
    }
}

} // verus!

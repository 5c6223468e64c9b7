//! The unified hit record handed back by the hit resolver: how far along
//! the ray the surface lies, its outward normal, and its material.

use vstd::prelude::*;
use crate::fx::FX_MAX;
use crate::material::{sky_s, Material};
use crate::vec3::Vec3;

verus! {

/// One resolved surface hit.
#[derive(Clone, Copy, Debug, PartialEq, Eq, Structural)]
pub struct Cast {
    pub distance: i64,
    pub normal: Vec3,
    pub material: Material,
}

/// A hit record with an explicit flag instead of an option: the "no
/// hit" sentinel has the flag cleared, the far sentinel distance and
/// the sky material.
#[derive(Clone, Copy, Debug, PartialEq, Eq, Structural)]
pub struct CastResult {
    pub hit: bool,
    pub distance: i64,
    pub normal: Vec3,
    pub material: Material,
}

impl CastResult {
    /// A record with the given fields.
    pub fn new(hit: bool, distance: i64, normal: Vec3, material: Material) -> (r: CastResult)
        ensures
            r == (CastResult { hit, distance, normal, material }),
    {
        CastResult { hit, distance, normal, material }
    }

    /// The "no hit" sentinel.
    pub fn worst() -> (r: CastResult)
        ensures
            r == (CastResult {
                hit: false,
                distance: FX_MAX,
                normal: Vec3 { x: 0, y: 0, z: 0 },
                material: sky_s(),
            }),
    {
        CastResult {
            hit: false,
            distance: FX_MAX,
            normal: Vec3::new(0, 0, 0),
            material: Material::sky(),
        }
    }

    /// The fields as a tuple.
    pub fn unpack(&self) -> (r: (bool, i64, Vec3, Material))
        ensures
            r == (self.hit, self.distance, self.normal, self.material),
    {
        (self.hit, self.distance, self.normal, self.material)
    }
}

} // verus!

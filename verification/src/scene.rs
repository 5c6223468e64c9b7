//! A scene: the traceable objects, the marchable objects, and the
//! background material. Objects are kept in insertion order; the order
//! only breaks ties, never which surfaces exist. A scene is built once
//! and read-only during rendering.

use vstd::prelude::*;
use crate::march::{march_material_s, March};
use crate::material::{material_wf, sky_s, Material};
use crate::trace::{trace_material_s, Trace};

verus! {

/// A scene: marchable objects, traceable objects, and a background.
pub struct Scene {
    pub march: Vec<March>,
    pub trace: Vec<Trace>,
    pub bg: Material,
}

/// A well-formed scene: every material in it is well-formed.
pub open spec fn scene_wf(s: Scene) -> bool {
    &&& material_wf(s.bg)
    &&& forall|i: int|
        0 <= i < s.march@.len() ==> material_wf(march_material_s(#[trigger] s.march@[i]))
    &&& forall|i: int|
        0 <= i < s.trace@.len() ==> material_wf(trace_material_s(#[trigger] s.trace@[i]))
}

impl Scene {
    /// A scene with no objects and the default sky background.
    pub fn empty() -> (r: Scene)
        ensures
            r.march@.len() == 0,
            r.trace@.len() == 0,
            r.bg == sky_s(),
            scene_wf(r),
    {
        Scene { march: Vec::new(), trace: Vec::new(), bg: Material::sky() }
    }

    /// Append a marchable object.
    pub fn add_march(&mut self, march: March)
        ensures
            final(self).march@ == old(self).march@.push(march),
            final(self).trace == old(self).trace,
            final(self).bg == old(self).bg,
    {
        self.march.push(march);
    }

    /// Append a traceable object.
    pub fn add_trace(&mut self, trace: Trace)
        ensures
            final(self).trace@ == old(self).trace@.push(trace),
            final(self).march == old(self).march,
            final(self).bg == old(self).bg,
    {
        self.trace.push(trace);
    }
}

} // verus!

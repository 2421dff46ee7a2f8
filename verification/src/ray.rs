//! Rays: an origin and a direction, with the point-at-parameter operation.

use crate::fixed::Fx;
use crate::vec3::{vadd, vscale, V3i, Vec3};
use vstd::prelude::*;

verus! {

/// The mathematical model of a ray.
pub ghost struct RayV {
    pub origin: V3i,
    pub direction: V3i,
}

/// The point reached after travelling `t` along the ray:
/// origin + direction * t.
pub open spec fn ray_at(r: RayV, t: int) -> V3i {
    vadd(r.origin, vscale(r.direction, t))
}

/// A ray, owned by whoever constructed it; the direction need not be a
/// unit vector.
#[derive(Clone, Copy, Debug, PartialEq, Eq, Structural)]
pub struct Ray {
    pub origin: Vec3,
    pub direction: Vec3,
}

impl View for Ray {
    type V = RayV;

    open spec fn view(&self) -> RayV {
        RayV { origin: self.origin@, direction: self.direction@ }
    }
}

impl Ray {
    /// Build a ray from an origin and a direction.
    pub fn new(v1: Vec3, v2: Vec3) -> (r: Ray)
        ensures
            r@ == (RayV { origin: v1@, direction: v2@ }),
    {
        Ray { origin: v1, direction: v2 }
    }

    /// The point at parameter `t`, exactly origin + direction * t.
    pub fn at(&self, t: Fx) -> (r: Vec3)
        ensures
            r@ == vadd(self@.origin, vscale(self@.direction, t@)),
            r@ == ray_at(self@, t@),
    {
        self.origin.add(self.direction.mul(t))
    }
}

} // verus!

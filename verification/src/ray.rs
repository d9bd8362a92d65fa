use vstd::prelude::*;
use crate::fx::Fx;
use crate::vec3::{Vec3, v3_add, v3_scale};

verus! {

/// A ray: origin, direction, and the shutter time it was cast at.
/// Immutable once constructed.
#[derive(Clone, Copy, PartialEq, Eq, Structural, Debug)]
pub struct Ray {
    pub origin: Vec3,
    pub direction: Vec3,
    pub time: Fx,
}

/// The point reached after parameter `t`: origin plus `t` times direction.
pub open spec fn ray_at(r: Ray, t: Fx) -> Vec3 {
    v3_add(r.origin, v3_scale(r.direction, t))
}

impl Ray {
    /// A ray from its parts.
    pub fn new(origin: Vec3, direction: Vec3, time: Fx) -> (r: Ray)
        ensures
            r == (Ray { origin, direction, time }),
    {
        Ray { origin, direction, time }
    }

    /// The point at parameter `t` along the ray.
    pub fn at(&self, t: Fx) -> (p: Vec3)
        ensures
            p == ray_at(*self, t),
    {
        self.origin.add(self.direction.scale(t))
    }
}

} // verus!

//! A ray: origin plus direction, with evaluation of the point a given
//! parameter distance along it.

use vstd::prelude::*;
use crate::vec3::{v_wf, vadd_s, vscale_s, Vec3};

verus! {

/// A half-line from `origin` along `direction` (not required to be unit
/// length), parameterized by a scalar distance.
#[derive(Clone, Copy, PartialEq, Eq, Structural, Debug)]
pub struct Ray {
    pub origin: Vec3,
    pub direction: Vec3,
}

/// Both endpoints of the ray description are well-formed vectors.
pub open spec fn ray_wf(r: Ray) -> bool {
    v_wf(r.origin@) && v_wf(r.direction@)
}

/// Model of `Ray::at`: origin + direction * t.
pub open spec fn ray_at_s(r: Ray, t: int) -> (int, int, int) {
    vadd_s(r.origin@, vscale_s(r.direction@, t))
}

impl Ray {
    /// Builds a ray from its origin and direction.
    pub fn new(origin: Vec3, direction: Vec3) -> (r: Ray)
        ensures
            r.origin == origin,
            r.direction == direction,
    {
        Ray { origin, direction }
    }

    /// The point at parameter `k` along the ray.
    pub fn at(&self, k: i64) -> (r: Vec3)
        ensures
            r@ == ray_at_s(*self, k as int),
            v_wf(r@),
    {
        self.origin.add(&self.direction.scale(k))
    }
}

} // verus!

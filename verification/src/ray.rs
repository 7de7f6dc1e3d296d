use vstd::prelude::*;

use crate::vec3::{add_spec, scale_spec, Point3, Vec3};

verus! {

/// A half-line through space: an origin and a direction.
#[derive(Clone, Copy, Debug, PartialEq, Eq, Structural)]
pub struct Ray {
    pub origin: Point3,
    pub direction: Vec3,
}

/// Value of the point the ray reaches at parameter `t`.
pub open spec fn at_spec(r: Ray, t: i64) -> Point3 {
    add_spec(r.origin, scale_spec(t, r.direction))
}

impl Ray {
    /// Build a ray from its origin and direction.
    pub fn new(origin: Point3, direction: Vec3) -> (r: Ray)
        ensures
            r == (Ray { origin, direction }),
    {
        Ray { origin, direction }
    }

    /// The point `origin + t * direction`.
    pub fn at(&self, t: i64) -> (p: Point3)
        ensures
            p == at_spec(*self, t),
    {
        self.origin.add(self.direction.scale(t))
    }
}

} // verus!

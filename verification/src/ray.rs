//! Rays: an origin plus a direction, evaluated at parametric distances.

use vstd::prelude::*;
use crate::fixed::Fx;
use crate::vec3::Point3;
use crate::vec3::Vec3;
use crate::vec3::vadd;
use crate::vec3::vscale;

verus! {

#[derive(Copy, Clone, PartialEq, Eq, Structural, Debug)]
pub struct Ray {
    pub orig: Point3,
    pub dir: Vec3,
}

/// The point a ray reaches after parameter `t`: `origin + direction * t`.
pub open spec fn ray_at(r: Ray, t: Fx) -> Point3 {
    vadd(r.orig, vscale(r.dir, t))
}

impl Ray {
    pub fn new(orig: Point3, dir: Vec3) -> (r: Self)
        ensures
            r == (Ray { orig, dir }),
    {
        Ray { orig, dir }
    }

    pub fn origin(self) -> (r: Point3)
        ensures
            r == self.orig,
    {
        self.orig
    }

    pub fn direction(self) -> (r: Vec3)
        ensures
            r == self.dir,
    {
        self.dir
    }

    /// Evaluate the ray at distance `t`; the caller owns the valid range.
    pub fn at(self, t: Fx) -> (r: Point3)
        ensures
            r == ray_at(self, t),
    {
        self.orig.add(self.dir.scale(t))
    }
}

} // verus!

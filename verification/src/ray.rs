//! Rays: an origin and a direction.

use vstd::prelude::*;
use crate::scalar::Scalar;
use crate::vec3::{Point3, Vec3};

verus! {

/// The half-line of the points `orig + t * dir`.
#[derive(Clone, Copy, Debug)]
pub struct Ray {
    pub orig: Vec3,
    pub dir: Vec3,
}

impl Default for Ray {
    fn default() -> (r: Ray)
        ensures
            r == (Ray { orig: Vec3::spec_zero(), dir: Vec3::spec_zero() }),
    {
        Ray { orig: Vec3::default(), dir: Vec3::default() }
    }
}

impl Ray {
    /// The point at parameter `t`: the origin plus `t` times the direction.
    pub open spec fn spec_at(&self, t: Scalar) -> Point3 {
        self.orig.add(self.dir.scale(t))
    }

    pub fn new(orig: Vec3, dir: Vec3) -> (r: Ray)
        ensures
            r == (Ray { orig, dir }),
    {
        Ray { orig, dir }
    }

    pub fn origin(&self) -> (p: Point3)
        ensures
            p == self.orig,
    {
        self.orig
    }

    pub fn direction(&self) -> (d: Vec3)
        ensures
            d == self.dir,
    {
        self.dir
    }

    #[verifier::when_used_as_spec(spec_at)]
    pub fn at(&self, t: Scalar) -> (p: Point3)
        ensures
            p == self.spec_at(t),
    {
        self.orig.add(self.dir.scale(t))
    }
}

} // verus!

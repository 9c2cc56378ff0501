//! Rays: an origin and a direction.
use crate::fixed::FixedI32;
use crate::vec3::Vec3FI32;
use vstd::prelude::*;

verus! {

/// A half-line from `origin` along `dir`, which need not have unit length.
#[derive(Clone, Copy, Debug)]
pub struct Ray {
    pub origin: Vec3FI32,
    pub dir: Vec3FI32,
}

impl Ray {
    /// The point `origin + dir * t`.
    pub open spec fn spec_at(self, t: FixedI32) -> Vec3FI32 {
        self.origin.spec_add(self.dir.scale(t))
    }

    pub fn new(origin: Vec3FI32, dir: Vec3FI32) -> (r: Ray)
        ensures
            r == (Ray { origin, dir }),
    {
        Ray { origin, dir }
    }

    pub fn origin(&self) -> (r: Vec3FI32)
        ensures
            r == self.origin,
    {
        self.origin
    }

    pub fn dir(&self) -> (r: Vec3FI32)
        ensures
            r == self.dir,
    {
        self.dir
    }

    pub fn at(&self, t: FixedI32) -> (r: Vec3FI32)
        ensures
            r == self.spec_at(t),
    {
        self.origin + self.dir * t
    }
}

} // verus!

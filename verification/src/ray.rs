//! A ray: origin plus direction, with the point-at-parameter operation.

use crate::fixed::fmul_s;
use crate::vec3::{add_s, bounded, scale_s, Point3, Vec3, VFIT};
use vstd::math::abs;
use vstd::prelude::*;

verus! {

#[derive(Clone, Copy, PartialEq, Eq, Structural, Debug)]
pub struct Ray {
    pub orig: Point3,
    pub dir: Vec3,
}

/// The point reached after travelling `t` along the direction.
pub open spec fn at_s(r: Ray, t: int) -> Vec3 {
    add_s(r.orig, scale_s(t, r.dir))
}

impl Ray {
    pub fn new(origin: Point3, direction: Vec3) -> (r: Ray)
        ensures
            r == (Ray { orig: origin, dir: direction }),
    {
        Ray { orig: origin, dir: direction }
    }

    pub fn origin(&self) -> (r: Point3)
        ensures
            r == self.orig,
    {
        self.orig
    }

    pub fn direction(&self) -> (r: Vec3)
        ensures
            r == self.dir,
    {
        self.dir
    }

    /// `origin + t * direction`.
    pub fn at(&self, t: i64) -> (r: Vec3)
        requires
            bounded(self.orig, VFIT as int),
            bounded(self.dir, VFIT as int),
            abs(t as int) <= VFIT as int,
            abs(fmul_s(t as int, self.dir.x as int)) + abs(self.orig.x as int) <= VFIT as int,
            abs(fmul_s(t as int, self.dir.y as int)) + abs(self.orig.y as int) <= VFIT as int,
            abs(fmul_s(t as int, self.dir.z as int)) + abs(self.orig.z as int) <= VFIT as int,
        ensures
            r == at_s(*self, t as int),
    {
        self.orig.add(self.dir.scale(t))
    }
}

} // verus!

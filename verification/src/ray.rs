//! Rays: an origin and a direction, with parametrized point evaluation.

use crate::vec3::{v_add_s, v_scale_s, Vec3};
use vstd::prelude::*;

verus! {

#[derive(Clone, Copy, Debug, PartialEq, Eq, Structural)]
pub struct Ray {
    pub orig: Vec3,
    pub dir: Vec3,
}

/// The point a ray reaches at parameter `t`: `origin + t * direction`.
pub open spec fn ray_at_s(r: Ray, t: int) -> Vec3 {
    v_add_s(r.orig, v_scale_s(r.dir, t))
}

impl Ray {
    pub fn new(orig: Vec3, dir: Vec3) -> (r: Ray)
        ensures
            r == (Ray { orig, dir }),
    {
        Ray { orig, dir }
    }

    pub fn origin(&self) -> (v: Vec3)
        ensures
            v == self.orig,
    {
        self.orig
    }

    pub fn direction(&self) -> (v: Vec3)
        ensures
            v == self.dir,
    {
        self.dir
    }

    pub fn at(&self, t: i64) -> (p: Vec3)
        ensures
            p == ray_at_s(*self, t as int),
    {
        self.orig.add(self.dir.scale(t))
    }
}

} // verus!

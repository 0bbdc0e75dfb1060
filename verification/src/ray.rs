//! Rays: an origin and a direction.

use vstd::prelude::*;
use crate::vec3::Vec3;

verus! {

/// The half-line of the points `a + t b`. The direction `b` need not have
/// unit length.
#[derive(Clone, Copy, Debug)]
pub struct Ray {
    pub a: Vec3,
    pub b: Vec3,
}

impl Ray {
    /// Origin and direction are equal, as numbers, to their counterparts.
    pub open spec fn same(self, other: Ray) -> bool {
        self.a.same(other.a) && self.b.same(other.b)
    }

    /// The ray from `a` in the direction `b`.
    pub fn new(a: &Vec3, b: &Vec3) -> (ray: Ray)
        ensures
            ray == (Ray { a: *a, b: *b }),
    {
        Ray { a: *a, b: *b }
    }

    /// The point the ray starts from.
    pub fn origin(&self) -> (o: &Vec3)
        ensures
            *o == self.a,
    {
        &self.a
    }

    /// The direction the ray runs in.
    pub fn direction(&self) -> (d: &Vec3)
        ensures
            *d == self.b,
    {
        &self.b
    }
}

impl PartialEq for Ray {
    /// `self == other`, component by component, as numbers.
    fn eq(&self, other: &Ray) -> (r: bool) {
        self.a == other.a && self.b == other.b
    }
}

impl vstd::std_specs::cmp::PartialEqSpecImpl for Ray {
    open spec fn obeys_eq_spec() -> bool {
        true
    }

    open spec fn eq_spec(&self, other: &Ray) -> bool {
        self.same(*other)
    }
}

} // verus!

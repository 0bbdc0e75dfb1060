//! Triples of scalars: points, directions and colours.

use vstd::prelude::*;
use crate::scalar::Scalar;

verus! {

/// Three scalars, read as a point, a direction or a colour.
#[derive(Clone, Copy, Debug)]
pub struct Vec3 {
    pub x: Scalar,
    pub y: Scalar,
    pub z: Scalar,
}

impl Vec3 {
    /// Every component is equal, as a number, to its counterpart.
    pub open spec fn same(self, other: Vec3) -> bool {
        &&& self.x.same(other.x)
        &&& self.y.same(other.y)
        &&& self.z.same(other.z)
    }

    /// Every component is below the bound.
    pub open spec fn below(self, bound: Scalar) -> bool {
        &&& self.x.below(bound)
        &&& self.y.below(bound)
        &&& self.z.below(bound)
    }

    /// The triple with every sign changed.
    pub open spec fn negated(self) -> Vec3 {
        Vec3 { x: self.x.negated(), y: self.y.negated(), z: self.z.negated() }
    }

    /// The triple of the three scalars.
    pub fn new(x: Scalar, y: Scalar, z: Scalar) -> (v: Vec3)
        ensures
            v == (Vec3 { x, y, z }),
    {
        Vec3 { x, y, z }
    }

    /// The triple of zeros: the origin, and the colour black.
    pub fn zeros() -> (v: Vec3)
        ensures
            v == (Vec3 { x: Scalar::zero(), y: Scalar::zero(), z: Scalar::zero() }),
    {
        Vec3 { x: Scalar::zero(), y: Scalar::zero(), z: Scalar::zero() }
    }

    /// The triple of ones: the colour white.
    pub fn ones() -> (v: Vec3)
        ensures
            v == (Vec3 { x: Scalar::one(), y: Scalar::one(), z: Scalar::one() }),
    {
        Vec3 { x: Scalar::one(), y: Scalar::one(), z: Scalar::one() }
    }

    /// The first component.
    pub fn x(&self) -> (s: Scalar)
        ensures
            s == self.x,
    {
        self.x
    }

    /// The second component.
    pub fn y(&self) -> (s: Scalar)
        ensures
            s == self.y,
    {
        self.y
    }

    /// The third component.
    pub fn z(&self) -> (s: Scalar)
        ensures
            s == self.z,
    {
        self.z
    }

    /// The first component, read as the red channel of a colour.
    pub fn r(&self) -> (s: Scalar)
        ensures
            s == self.x,
    {
        self.x
    }

    /// The second component, read as the green channel of a colour.
    pub fn g(&self) -> (s: Scalar)
        ensures
            s == self.y,
    {
        self.y
    }

    /// The third component, read as the blue channel of a colour.
    pub fn b(&self) -> (s: Scalar)
        ensures
            s == self.z,
    {
        self.z
    }

    /// The triple with every sign changed.
    pub fn neg(&self) -> (v: Vec3)
        ensures
            v == self.negated(),
    {
        Vec3 { x: self.x.neg(), y: self.y.neg(), z: self.z.neg() }
    }

    /// Whether every component is below the bound.
    pub fn all_below(&self, bound: Scalar) -> (r: bool)
        ensures
            r == self.below(bound),
    {
        self.x.lt(&bound) && self.y.lt(&bound) && self.z.lt(&bound)
    }
}

impl PartialEq for Vec3 {
    /// `self == other`, component by component, as numbers.
    fn eq(&self, other: &Vec3) -> (r: bool) {
        self.x == other.x && self.y == other.y && self.z == other.z
    }
}

impl vstd::std_specs::cmp::PartialEqSpecImpl for Vec3 {
    open spec fn obeys_eq_spec() -> bool {
        true
    }

    open spec fn eq_spec(&self, other: &Vec3) -> bool {
        self.same(*other)
    }
}

/// The colour red.
pub fn red() -> (v: Vec3)
    ensures
        v == (Vec3 { x: Scalar::one(), y: Scalar::zero(), z: Scalar::zero() }),
{
    Vec3::new(Scalar::one(), Scalar::zero(), Scalar::zero())
}

/// Changing every sign twice gives the triple back.
pub proof fn lemma_neg_involution(v: Vec3)
    ensures
        v.negated().negated() == v,
{
}

} // verus!

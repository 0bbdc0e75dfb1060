//! Surfaces as a ray meets them, and the choice of the nearest hit.

use vstd::prelude::*;
use crate::scalar::Scalar;
use crate::vec3::Vec3;

verus! {

/// What is known of a ray where it strikes a surface: the ray's parameter
/// there, the point, the outward unit normal, and the place of the surface's
/// material in the scene's list of materials.
#[derive(Clone, Copy, Debug)]
pub struct HitRecord {
    pub t: Scalar,
    pub p: Vec3,
    pub normal: Vec3,
    pub material: usize,
}

/// A sphere of a scene. Its material is named by its place in the scene's list
/// of materials, so that many spheres can share one.
#[derive(Clone, Copy, Debug)]
pub struct Sphere {
    pub center: Vec3,
    pub radius: Scalar,
    pub material: usize,
}

impl Sphere {
    /// The sphere with the given centre, radius and material.
    pub fn new(center: &Vec3, radius: Scalar, material: usize) -> (s: Sphere)
        ensures
            s == (Sphere { center: *center, radius, material }),
    {
        Sphere { center: *center, radius, material }
    }
}

/// A sphere as one ray meets it: the discriminant of the quadratic in the
/// ray's parameter, and the two roots, the near one first.
///
/// With `oc` the ray's origin minus the centre, `a = dir.dir`, `b = oc.dir`
/// and `c = oc.oc - radius^2`, the discriminant is `b^2 - a c` and the roots
/// are `(-b - sqrt(discriminant)) / a` and `(-b + sqrt(discriminant)) / a`.
#[derive(Clone, Copy, Debug)]
pub struct Crossing {
    pub discriminant: Scalar,
    pub near: Scalar,
    pub far: Scalar,
}

/// `t` lies strictly between the two bounds.
pub open spec fn within(t: Scalar, t_min: Scalar, t_max: Scalar) -> bool {
    t.below(t_max) && t.above(t_min)
}

impl Crossing {
    /// The ray's line meets the sphere in two places. A line that only
    /// touches the sphere counts as missing it.
    pub open spec fn crosses(self) -> bool {
        self.discriminant.above(Scalar::zero())
    }

    /// `t` is a root at which the ray's line crosses the sphere, strictly
    /// between the two bounds.
    pub open spec fn root_within(self, t: Scalar, t_min: Scalar, t_max: Scalar) -> bool {
        self.crosses() && (t == self.near || t == self.far) && within(t, t_min, t_max)
    }

    /// The far root is not before the near one. This holds of the roots of
    /// every quadratic whose leading coefficient is not negative.
    pub open spec fn ordered(self) -> bool {
        !self.far.below(self.near)
    }

    /// The parameter of the hit: the near root if it lies strictly between the
    /// bounds, else the far root if that one does.
    pub open spec fn first_root(self, t_min: Scalar, t_max: Scalar) -> Option<Scalar> {
        if !self.crosses() {
            None
        } else if within(self.near, t_min, t_max) {
            Some(self.near)
        } else if within(self.far, t_min, t_max) {
            Some(self.far)
        } else {
            None
        }
    }

    /// The crossing with the given discriminant and roots.
    pub fn new(discriminant: Scalar, near: Scalar, far: Scalar) -> (c: Crossing)
        ensures
            c == (Crossing { discriminant, near, far }),
    {
        Crossing { discriminant, near, far }
    }

    /// Where the ray hits the sphere within the open interval from `t_min` to
    /// `t_max`, if it does.
    pub fn hit(&self, t_min: Scalar, t_max: Scalar) -> (r: Option<Scalar>)
        ensures
            r == self.first_root(t_min, t_max),
            r matches Some(t) ==> self.root_within(t, t_min, t_max),
    {
        if self.discriminant.gt(&Scalar::zero()) {
            if self.near.lt(&t_max) && self.near.gt(&t_min) {
                return Some(self.near);
            }
            if self.far.lt(&t_max) && self.far.gt(&t_min) {
                return Some(self.far);
            }
        }
        None
    }
}

/// The nearest hit in a collection: the member's place, and the ray's
/// parameter at the hit.
#[derive(Clone, Copy, Debug)]
pub struct Hit {
    pub index: usize,
    pub t: Scalar,
}

/// The upper bound that remains for later members once `found` is known.
pub open spec fn bound_after(found: Option<Hit>, t_max: Scalar) -> Scalar {
    match found {
        Some(h) => h.t,
        None => t_max,
    }
}

/// The hit that a scan of `objs` in order ends with, when every accepted hit
/// lowers the upper bound for the members after it.
pub open spec fn nearest(objs: Seq<Crossing>, t_min: Scalar, t_max: Scalar) -> Option<Hit>
    decreases objs.len(),
{
    if objs.len() == 0 {
        None
    } else {
        let earlier = nearest(objs.drop_last(), t_min, t_max);
        match objs.last().first_root(t_min, bound_after(earlier, t_max)) {
            Some(t) => Some(Hit { index: (objs.len() - 1) as usize, t }),
            None => earlier,
        }
    }
}

/// Every member's far root is not before its near root.
pub open spec fn all_ordered(objs: Seq<Crossing>) -> bool {
    forall|j: int| 0 <= j < objs.len() ==> (#[trigger] objs[j]).ordered()
}

/// The surfaces of a scene as one ray meets them, in the scene's order.
#[derive(Debug)]
pub struct Collection {
    pub objs: Vec<Crossing>,
}

impl View for Collection {
    type V = Seq<Crossing>;

    open spec fn view(&self) -> Seq<Crossing> {
        self.objs@
    }
}

impl Collection {
    /// The nearest hit of the ray on any member, within the open interval from
    /// `t_min` to `t_max`. Of two members hit at the same parameter the one
    /// that comes first in the collection is returned.
    pub fn hit(&self, t_min: Scalar, t_max: Scalar) -> (r: Option<Hit>)
        ensures
            r == nearest(self@, t_min, t_max),
            r matches Some(h) ==> h.index < self@.len() && self@[h.index as int].root_within(
                h.t,
                t_min,
                t_max,
            ),
            r is None <==> forall|j: int|
                0 <= j < self@.len() ==> (#[trigger] self@[j]).first_root(t_min, t_max) is None,
    {
        let mut closest: Option<Hit> = None;
        let mut closest_so_far = t_max;
        let mut i: usize = 0;
        while i < self.objs.len()
            invariant
                i <= self.objs.len(),
                closest == nearest(self@.take(i as int), t_min, t_max),
                closest_so_far == bound_after(closest, t_max),
            decreases self.objs.len() - i,
        {
            proof {
                assert(self@.take(i + 1).drop_last() == self@.take(i as int));
                assert(self@.take(i + 1).last() == self@[i as int]);
            }
            match self.objs[i].hit(t_min, closest_so_far) {
                Some(t) => {
                    closest_so_far = t;
                    closest = Some(Hit { index: i, t });
                },
                None => {},
            }
            i += 1;
        }
        proof {
            assert(self@.take(i as int) == self@);
            lemma_nearest_is_root(self@, t_min, t_max);
            lemma_miss_is_miss_of_all(self@, t_min, t_max);
        }
        closest
    }
}

/// Whether a point may stand for a point inside the unit sphere: its squared
/// length is strictly less than one.
pub fn in_unit_sphere(squared_length: Scalar) -> (r: bool)
    ensures
        r == squared_length.below(Scalar::one()),
{
    squared_length.lt(&Scalar::one())
}

/// A hit lies strictly inside the interval it was looked for in. With a lower
/// bound of zero no hit is at the ray's own origin.
pub proof fn lemma_hit_strictly_inside(c: Crossing, t_min: Scalar, t_max: Scalar)
    ensures
        c.first_root(t_min, t_max) matches Some(t) ==> {
            &&& t.rank() > t_min.rank()
            &&& t.rank() < t_max.rank()
            &&& !t.nan()
            &&& c.crosses()
            &&& (t == c.near || t == c.far)
        },
        c.first_root(Scalar::zero(), t_max) matches Some(t) ==> t.rank() > 0,
{
}

/// A hit within a narrower interval is a hit within the wider one, though it
/// may be at another root.
proof fn lemma_first_root_widens(c: Crossing, t_min: Scalar, bound: Scalar, t_max: Scalar)
    requires
        bound == t_max || bound.below(t_max),
        c.first_root(t_min, bound) is Some,
    ensures
        c.first_root(t_min, t_max) is Some,
        within(c.first_root(t_min, bound)->0, t_min, t_max),
{
}

/// The hit that a scan ends with is a root of the member it names, strictly
/// between the bounds.
pub proof fn lemma_nearest_is_root(objs: Seq<Crossing>, t_min: Scalar, t_max: Scalar)
    requires
        objs.len() <= usize::MAX,
    ensures
        nearest(objs, t_min, t_max) matches Some(h) ==> {
            &&& h.index < objs.len()
            &&& objs[h.index as int].root_within(h.t, t_min, t_max)
        },
    decreases objs.len(),
{
    if objs.len() > 0 {
        let earlier = nearest(objs.drop_last(), t_min, t_max);
        lemma_nearest_is_root(objs.drop_last(), t_min, t_max);
        let bound = bound_after(earlier, t_max);
        if objs.last().first_root(t_min, bound) is Some {
            lemma_first_root_widens(objs.last(), t_min, bound, t_max);
        }
    }
}

/// A scan ends without a hit exactly when no member is hit within the bounds.
pub proof fn lemma_miss_is_miss_of_all(objs: Seq<Crossing>, t_min: Scalar, t_max: Scalar)
    requires
        objs.len() <= usize::MAX,
    ensures
        nearest(objs, t_min, t_max) is None <==> forall|j: int|
            0 <= j < objs.len() ==> (#[trigger] objs[j]).first_root(t_min, t_max) is None,
    decreases objs.len(),
{
    if objs.len() > 0 {
        let front = objs.drop_last();
        let earlier = nearest(front, t_min, t_max);
        lemma_miss_is_miss_of_all(front, t_min, t_max);
        lemma_nearest_is_root(front, t_min, t_max);
        let bound = bound_after(earlier, t_max);
        assert forall|j: int| 0 <= j < front.len() implies front[j] == objs[j] by {}
        if earlier is Some {
            let h = earlier->0;
            assert(front[h.index as int] == objs[h.index as int]);
            assert(objs[h.index as int].first_root(t_min, t_max) is Some);
        } else {
            if objs.last().first_root(t_min, bound) is None {
                assert forall|j: int| 0 <= j < objs.len() implies (#[trigger] objs[j]).first_root(
                    t_min,
                    t_max,
                ) is None by {
                    if j < front.len() {
                        assert(front[j] == objs[j]);
                    }
                }
            } else {
                assert(objs[objs.len() - 1].first_root(t_min, t_max) is Some);
            }
        }
    }
}

/// No member has a root between the lower bound and the hit that a scan ends
/// with: the hit is the nearest. Members that come before the one hit have
/// their roots strictly farther, so of equal hits the first is kept.
pub proof fn lemma_nearest_is_least(objs: Seq<Crossing>, t_min: Scalar, t_max: Scalar)
    requires
        objs.len() <= usize::MAX,
        all_ordered(objs),
    ensures
        nearest(objs, t_min, t_max) matches Some(h) ==> {
            &&& forall|j: int, t: Scalar|
                0 <= j < objs.len() && #[trigger] objs[j].root_within(t, t_min, t_max)
                    ==> !t.below(h.t)
            &&& forall|j: int, t: Scalar|
                0 <= j < h.index && #[trigger] objs[j].root_within(t, t_min, t_max) ==> h.t.below(
                    t,
                )
        },
    decreases objs.len(),
{
    if objs.len() > 0 {
        let front = objs.drop_last();
        let last = objs.last();
        let earlier = nearest(front, t_min, t_max);
        let bound = bound_after(earlier, t_max);
        assert(all_ordered(front)) by {
            assert forall|j: int| 0 <= j < front.len() implies (#[trigger] front[j]).ordered() by {
                assert(objs[j].ordered());
            }
        }
        lemma_nearest_is_least(front, t_min, t_max);
        lemma_nearest_is_root(front, t_min, t_max);
        lemma_nearest_is_root(objs, t_min, t_max);
        lemma_miss_is_miss_of_all(front, t_min, t_max);
        assert(last.ordered());
        if nearest(objs, t_min, t_max) is Some {
            let h = nearest(objs, t_min, t_max)->0;
            assert forall|j: int, t: Scalar|
                0 <= j < objs.len() && #[trigger] objs[j].root_within(
                    t,
                    t_min,
                    t_max,
                ) implies !t.below(h.t) by {
                if j < front.len() {
                    assert(front[j] == objs[j]);
                    assert(front[j].root_within(t, t_min, t_max));
                    assert(front[j].first_root(t_min, t_max) is Some);
                    assert(earlier is Some);
                    assert(!t.below(earlier->0.t));
                }
            }
            assert forall|j: int, t: Scalar|
                0 <= j < h.index && #[trigger] objs[j].root_within(
                    t,
                    t_min,
                    t_max,
                ) implies h.t.below(t) by {
                assert(front[j] == objs[j]);
                assert(front[j].root_within(t, t_min, t_max));
                assert(front[j].first_root(t_min, t_max) is Some);
                assert(earlier is Some);
                assert(!t.below(earlier->0.t));
            }
        }
    }
}

/// The nearest hit does not depend on the order of the members: two
/// collections with the same members are both missed, or are hit at equal
/// parameters.
pub proof fn lemma_nearest_any_order(
    first: Seq<Crossing>,
    second: Seq<Crossing>,
    t_min: Scalar,
    t_max: Scalar,
)
    requires
        first.len() <= usize::MAX,
        second.len() <= usize::MAX,
        all_ordered(first),
        all_ordered(second),
        forall|i: int| 0 <= i < first.len() ==> second.contains(#[trigger] first[i]),
        forall|i: int| 0 <= i < second.len() ==> first.contains(#[trigger] second[i]),
    ensures
        nearest(first, t_min, t_max) is None <==> nearest(second, t_min, t_max) is None,
        nearest(first, t_min, t_max) matches Some(h) ==> h.t.same(
            nearest(second, t_min, t_max)->0.t,
        ),
{
    lemma_nearest_is_root(first, t_min, t_max);
    lemma_nearest_is_root(second, t_min, t_max);
    lemma_miss_is_miss_of_all(first, t_min, t_max);
    lemma_miss_is_miss_of_all(second, t_min, t_max);
    lemma_nearest_is_least(first, t_min, t_max);
    lemma_nearest_is_least(second, t_min, t_max);
    let a = nearest(first, t_min, t_max);
    let b = nearest(second, t_min, t_max);
    if a is Some {
        let h = a->0;
        let member = first[h.index as int];
        assert(second.contains(member));
        let j = choose|j: int| 0 <= j < second.len() && second[j] == member;
        assert(second[j].root_within(h.t, t_min, t_max));
        assert(second[j].first_root(t_min, t_max) is Some);
        assert(b is Some);
        let g = b->0;
        let other = second[g.index as int];
        assert(first.contains(other));
        let i = choose|i: int| 0 <= i < first.len() && first[i] == other;
        assert(first[i].root_within(g.t, t_min, t_max));
        assert(!h.t.below(g.t));
        assert(!g.t.below(h.t));
        assert(h.t.same(g.t));
    } else {
        if b is Some {
            let g = b->0;
            let other = second[g.index as int];
            assert(first.contains(other));
            let i = choose|i: int| 0 <= i < first.len() && first[i] == other;
            assert(first[i].root_within(g.t, t_min, t_max));
            assert(first[i].first_root(t_min, t_max) is Some);
        }
    }
}

} // verus!

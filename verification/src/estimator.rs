//! The life of one light path: cast, scatter, cast again, until the path
//! leaves the scene, is absorbed, or is cut off.

use vstd::prelude::*;
use crate::objects::nearest;
use crate::objects::Collection;
use crate::objects::Hit;
use crate::ray::Ray;
use crate::scalar::Scalar;
use crate::vec3::Vec3;

verus! {

/// The greatest depth at which a path may still scatter.
pub const MAX_DEPTH: u16 = 50;

/// The bit pattern of `0.001`, the lower bound of every cast. It keeps a
/// scattered ray from hitting the surface it has just left.
pub const T_MIN_BITS: u32 = 0x3a83_126f;

/// What becomes of a path when its ray has been cast into the scene.
#[derive(Clone, Copy, Debug)]
pub enum Verdict {
    /// The ray leaves the scene: the path ends with the colour of the sky in
    /// the ray's direction.
    Sky,
    /// The ray hits a surface, but the path is too deep: it ends in black.
    Black,
    /// The ray hits a surface, and the material there is asked to scatter it.
    Scatter(Hit),
}

/// The model of an estimator: the depth it was started at, and the
/// attenuations of the bounces made since, the first bounce first.
pub struct Path {
    pub start: nat,
    pub attenuations: Seq<Vec3>,
}

impl Path {
    /// The depth of the ray that is cast next.
    pub open spec fn depth(self) -> nat {
        self.start + self.attenuations.len()
    }

    /// The path after one more bounce.
    pub open spec fn push(self, attenuation: Vec3) -> Path {
        Path { start: self.start, attenuations: self.attenuations.push(attenuation) }
    }
}

/// The lower bound of every cast.
pub open spec fn t_min() -> Scalar {
    Scalar { bits: T_MIN_BITS }
}

/// The verdict on a ray of the given depth, from what it hits.
pub open spec fn verdict(depth: nat, hit: Option<Hit>) -> Verdict {
    match hit {
        None => Verdict::Sky,
        Some(h) => if depth > MAX_DEPTH {
            Verdict::Black
        } else {
            Verdict::Scatter(h)
        },
    }
}

/// A path of the given depth goes on after the material's answer.
pub open spec fn continues(depth: nat, answer: Option<(Ray, Vec3)>) -> bool {
    depth <= MAX_DEPTH && answer is Some
}

/// The path after the material's answer to one hit: one bounce longer where
/// the path goes on, else as it was.
pub open spec fn bounced(path: Path, answer: Option<(Ray, Vec3)>) -> Path {
    match answer {
        Some(pair) => if path.depth() <= MAX_DEPTH {
            path.push(pair.1)
        } else {
            path
        },
        None => path,
    }
}

/// The path after the answers to a run of hits, the first answer first.
pub open spec fn after(path: Path, answers: Seq<Option<(Ray, Vec3)>>) -> Path
    decreases answers.len(),
{
    if answers.len() == 0 {
        path
    } else {
        bounced(after(path, answers.drop_last()), answers.last())
    }
}

/// The state of one light path.
///
/// The colour of a finished path is the colour it ends with, black or the
/// sky's, multiplied channel by channel with the attenuations, the last bounce
/// first.
#[derive(Debug)]
pub struct Estimator {
    start: u16,
    attenuations: Vec<Vec3>,
}

impl View for Estimator {
    type V = Path;

    closed spec fn view(&self) -> Path {
        Path { start: self.start as nat, attenuations: self.attenuations@ }
    }
}

impl Estimator {
    #[verifier::type_invariant]
    spec fn bounded(self) -> bool {
        self.attenuations@.len() > 0 ==> self.start + self.attenuations@.len() <= MAX_DEPTH + 1
    }

    /// A path whose first ray has the given depth.
    pub fn new(depth: u16) -> (e: Estimator)
        ensures
            e@ == (Path { start: depth as nat, attenuations: Seq::empty() }),
    {
        Estimator { start: depth, attenuations: Vec::new() }
    }

    /// The depth of the ray that is cast next. A path that has bounced is at
    /// most one deeper than the greatest depth at which paths scatter.
    pub fn depth(&self) -> (d: u16)
        ensures
            d == self@.depth(),
            self@.attenuations.len() > 0 ==> d <= MAX_DEPTH + 1,
    {
        proof {
            use_type_invariant(self);
        }
        let bounces: usize = self.attenuations.len();
        if bounces == 0 {
            self.start
        } else {
            self.start + (bounces as u16)
        }
    }

    /// The attenuations of the bounces made, the first bounce first.
    pub fn attenuations(&self) -> (a: &Vec<Vec3>)
        ensures
            a@ == self@.attenuations,
            a@.len() > 0 ==> self@.start + a@.len() <= MAX_DEPTH + 1,
    {
        proof {
            use_type_invariant(self);
        }
        &self.attenuations
    }

    /// Casts the path's ray into the scene, given as the scene's surfaces as
    /// that ray meets them, and says what becomes of the path.
    pub fn cast(&self, scene: &Collection) -> (v: Verdict)
        ensures
            v == verdict(self@.depth(), nearest(scene@, t_min(), Scalar::max())),
            v matches Verdict::Scatter(h) ==> h.index < scene@.len() && scene@[h.index as int]
                .root_within(h.t, t_min(), Scalar::max()),
    {
        match scene.hit(Scalar::from_bits(T_MIN_BITS), Scalar::max()) {
            None => Verdict::Sky,
            Some(h) => {
                if self.depth() > MAX_DEPTH {
                    Verdict::Black
                } else {
                    Verdict::Scatter(h)
                }
            },
        }
    }

    /// Takes the answer of the material that was hit. Where the material
    /// scattered the ray, the path is one bounce deeper and the scattered ray
    /// is the next to cast. Where it absorbed the ray, or the path is already
    /// beyond the greatest depth, the path ends in black: nothing is returned,
    /// and the path is as it was.
    pub fn bounce(&mut self, answer: Option<(Ray, Vec3)>) -> (next: Option<Ray>)
        ensures
            final(self)@ == bounced(old(self)@, answer),
            continues(old(self)@.depth(), answer) ==> (answer matches Some(pair) && next == Some(
                pair.0,
            ) && final(self)@ == old(self)@.push(pair.1)),
            !continues(old(self)@.depth(), answer) ==> next is None && final(self)@ == old(self)@,
    {
        proof {
            use_type_invariant(&*self);
        }
        if self.depth() > MAX_DEPTH {
            return None;
        }
        match answer {
            Some((ray, attenuation)) => {
                let mut taken = Estimator { start: self.start, attenuations: Vec::new() };
                core::mem::swap(self, &mut taken);
                let Estimator { start, mut attenuations } = taken;
                attenuations.push(attenuation);
                *self = Estimator { start, attenuations };
                Some(ray)
            },
            None => None,
        }
    }
}

/// A ray that hits anything at a depth beyond the greatest ends the path in
/// black, whatever the scene and the material are.
pub proof fn lemma_cut_off(depth: nat, hit: Option<Hit>)
    requires
        depth > MAX_DEPTH,
        hit is Some,
    ensures
        verdict(depth, hit) == Verdict::Black,
{
}

/// A ray that hits nothing ends the path with the sky, at every depth.
pub proof fn lemma_miss_is_sky(depth: nat)
    ensures
        verdict(depth, None) == Verdict::Sky,
{
}

/// No path scatters without end: however many materials answer with a
/// scattered ray, a path is never deeper than one beyond the greatest depth,
/// unless it was started deeper, and then it stays as it was started.
pub proof fn lemma_bounces_are_bounded(path: Path, answers: Seq<Option<(Ray, Vec3)>>)
    ensures
        after(path, answers).start == path.start,
        path.depth() <= MAX_DEPTH + 1 ==> after(path, answers).depth() <= MAX_DEPTH + 1,
        path.depth() > MAX_DEPTH ==> after(path, answers) == path,
        after(path, answers).attenuations.len() >= path.attenuations.len(),
    decreases answers.len(),
{
    if answers.len() > 0 {
        lemma_bounces_are_bounded(path, answers.drop_last());
    }
}

} // verus!

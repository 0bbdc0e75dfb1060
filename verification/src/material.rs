//! Materials, and their choice between scattering a ray and absorbing it.

use vstd::prelude::*;
use crate::objects::HitRecord;
use crate::ray::Ray;
use crate::scalar::Scalar;
use crate::vec3::Vec3;

verus! {

/// A diffuse material. It scatters every ray that strikes it.
#[derive(Clone, Copy, Debug)]
pub struct Lambertian {
    pub albedo: Vec3,
}

/// A mirror-like material. It scatters a ray only where the reflection leaves
/// the surface.
#[derive(Clone, Copy, Debug)]
pub struct Metal {
    pub albedo: Vec3,
}

/// The materials a surface can have.
#[derive(Clone, Copy, Debug)]
pub enum Material {
    Lambertian(Lambertian),
    Metal(Metal),
}

/// The ray that leaves the point of a hit in the given direction, with the
/// colour by which it is attenuated.
pub open spec fn scattered(hit_rec: HitRecord, direction: Vec3, albedo: Vec3) -> (Ray, Vec3) {
    (Ray { a: hit_rec.p, b: direction }, albedo)
}

impl Lambertian {
    /// The scattered ray and its attenuation. `direction` is the normal at the
    /// hit plus a random point inside the unit sphere.
    pub fn scatter(&self, hit_rec: &HitRecord, direction: &Vec3) -> (r: Option<(Ray, Vec3)>)
        ensures
            r == Some(scattered(*hit_rec, *direction, self.albedo)),
    {
        Some((Ray::new(&hit_rec.p, direction), self.albedo))
    }
}

impl Metal {
    /// The reflection leaves the surface: its component along the normal is
    /// positive.
    pub open spec fn reflects(facing: Scalar) -> bool {
        facing.above(Scalar::zero())
    }

    /// The reflected ray and its attenuation, or nothing where the ray is
    /// absorbed. `reflected` is the unit incoming direction `v` mirrored at the
    /// normal `n`, that is `v - 2 (v.n) n`, and `facing` is `reflected.n`.
    pub fn scatter(&self, hit_rec: &HitRecord, reflected: &Vec3, facing: Scalar) -> (r: Option<
        (Ray, Vec3),
    >)
        ensures
            Metal::reflects(facing) ==> r == Some(scattered(*hit_rec, *reflected, self.albedo)),
            !Metal::reflects(facing) ==> r is None,
    {
        if facing.gt(&Scalar::zero()) {
            Some((Ray::new(&hit_rec.p, reflected), self.albedo))
        } else {
            None
        }
    }
}

impl Material {
    /// The reflectance of the material, channel by channel.
    pub open spec fn spec_albedo(&self) -> Vec3 {
        match *self {
            Material::Lambertian(m) => m.albedo,
            Material::Metal(m) => m.albedo,
        }
    }

    /// The material scatters a ray whose outgoing direction has the component
    /// `facing` along the normal.
    pub open spec fn scatters(self, facing: Scalar) -> bool {
        match self {
            Material::Lambertian(_) => true,
            Material::Metal(_) => Metal::reflects(facing),
        }
    }

    /// The reflectance of the material, channel by channel.
    #[verifier::when_used_as_spec(spec_albedo)]
    pub fn albedo(&self) -> (a: Vec3)
        ensures
            a == self.spec_albedo(),
    {
        match self {
            Material::Lambertian(m) => m.albedo,
            Material::Metal(m) => m.albedo,
        }
    }

    /// The ray that leaves the hit in `direction`, with the material's albedo
    /// as its attenuation, or nothing where the material absorbs the ray.
    /// `facing` is the component of `direction` along the normal at the hit.
    pub fn scatter(&self, hit_rec: &HitRecord, direction: &Vec3, facing: Scalar) -> (r: Option<
        (Ray, Vec3),
    >)
        ensures
            self.scatters(facing) ==> r == Some(scattered(*hit_rec, *direction, self.albedo())),
            !self.scatters(facing) ==> r is None,
    {
        match self {
            Material::Lambertian(m) => m.scatter(hit_rec, direction),
            Material::Metal(m) => m.scatter(hit_rec, direction, facing),
        }
    }
}

/// A diffuse material never absorbs. A metal absorbs exactly where the
/// reflection does not leave the surface, which includes a component along the
/// normal that is zero or not a number. Whatever is scattered is attenuated by
/// the albedo.
pub proof fn lemma_scatter_policy(material: Material, facing: Scalar)
    ensures
        material is Lambertian ==> material.scatters(facing),
        material is Metal ==> (material.scatters(facing) <==> !facing.nan() && facing.rank() > 0),
{
}

} // verus!

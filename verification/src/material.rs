//! How surfaces scatter the rays that hit them.

use vstd::prelude::*;
use crate::color::Color;
use crate::hittable::HitRecord;
use crate::ray::Ray;
use crate::scalar::{Scalar, ONE_BITS};
use crate::vec3::{reflect, refract, spec_reflect, unit_vector, Vec3};

verus! {

/// A scattered ray and the share of its light that the surface lets through,
/// colour by colour.
pub struct Scattered {
    pub ray: Ray,
    pub attenuation: Color,
}

impl Scattered {
    pub fn new(ray: Ray, attenuation: Color) -> (r: Scattered)
        ensures
            r == (Scattered { ray, attenuation }),
    {
        Scattered { ray, attenuation }
    }
}

/// A surface's way to scatter a ray.
pub trait Material {
    /// What `scatter` returns.
    spec fn scatter_spec(&self, r_in: Ray, rec: HitRecord, sample: Vec3) -> Option<Scattered>;

    /// The ray into which the surface turns the ray `r_in` that hit it as
    /// `rec` records, with its attenuation, or `None` where the surface
    /// absorbs the ray. `sample` is a random unit vector, for the surfaces
    /// that scatter at random.
    fn scatter(&self, r_in: &Ray, rec: &HitRecord, sample: &Vec3) -> (res: Option<Scattered>)
        ensures
            res == self.scatter_spec(*r_in, *rec, *sample),
    ;
}

/// A matt surface.
pub struct Lambertian {
    pub albedo: Color,
}

/// The direction in which a matt surface with unit normal `normal` scatters,
/// given the random unit vector `sample`: their sum, or the normal where the
/// sum nearly vanishes.
pub open spec fn lambertian_direction(normal: Vec3, sample: Vec3) -> Vec3 {
    let sum = normal.add(sample);
    if sum.near_zero() {
        normal
    } else {
        sum
    }
}

impl Material for Lambertian {
    open spec fn scatter_spec(&self, r_in: Ray, rec: HitRecord, sample: Vec3) -> Option<Scattered> {
        Some(
            Scattered {
                ray: Ray { orig: rec.p, dir: lambertian_direction(rec.normal, sample) },
                attenuation: self.albedo,
            },
        )
    }

    fn scatter(&self, r_in: &Ray, rec: &HitRecord, sample: &Vec3) -> (res: Option<Scattered>) {
        let mut scatter_direction = rec.normal.add(*sample);
        if scatter_direction.near_zero() {
            scatter_direction = rec.normal;
        }
        let scatter_ray = Ray::new(rec.p, scatter_direction);
        Some(Scattered::new(scatter_ray, self.albedo))
    }
}

/// A mirroring surface, blurred by `fuzz`.
pub struct Metal {
    albedo: Color,
    fuzz: Scalar,
}

/// `fuzz` brought into the range from zero to one; a NaN becomes one.
pub open spec fn clamp_fuzz(fuzz: Scalar) -> Scalar {
    fuzz.min(Scalar { bits: ONE_BITS }).max(Scalar { bits: 0 })
}

/// The direction in which a mirror with unit normal `normal` and blur `fuzz`
/// sends a ray of direction `incoming`, given the random unit vector
/// `sample`: the unit vector of the mirror image, plus `fuzz` times the
/// sample.
pub open spec fn metal_direction(incoming: Vec3, normal: Vec3, fuzz: Scalar, sample: Vec3) -> Vec3 {
    unit_vector(spec_reflect(incoming, normal)).add(sample.scale(fuzz))
}

impl Metal {
    #[verifier::type_invariant]
    spec fn fuzz_in_range(self) -> bool {
        Scalar { bits: 0 }.le(self.fuzz) && self.fuzz.le(Scalar { bits: ONE_BITS })
    }

    pub closed spec fn albedo(&self) -> Color {
        self.albedo
    }

    pub closed spec fn fuzz(&self) -> Scalar {
        self.fuzz
    }

    /// A mirror with the given albedo; `fuzz` is brought into the range from
    /// zero to one.
    pub fn new(albedo: Color, fuzz: Scalar) -> (m: Metal)
        ensures
            m.albedo() == albedo,
            m.fuzz() == clamp_fuzz(fuzz),
            Scalar::zero().le(m.fuzz()),
            m.fuzz().le(Scalar::one()),
    {
        let fuzz = fuzz.min(Scalar { bits: ONE_BITS }).max(Scalar { bits: 0 });
        Metal { albedo, fuzz }
    }
}

impl Material for Metal {
    open spec fn scatter_spec(&self, r_in: Ray, rec: HitRecord, sample: Vec3) -> Option<Scattered> {
        Some(
            Scattered {
                ray: Ray {
                    orig: rec.p,
                    dir: metal_direction(r_in.dir, rec.normal, self.fuzz(), sample),
                },
                attenuation: self.albedo(),
            },
        )
    }

    fn scatter(&self, r_in: &Ray, rec: &HitRecord, sample: &Vec3) -> (res: Option<Scattered>)
        ensures
            Scalar::zero().le(self.fuzz()),
            self.fuzz().le(Scalar::one()),
    {
        proof {
            use_type_invariant(self);
        }
        let mut reflected = reflect(&r_in.direction(), &rec.normal);
        reflected = unit_vector(reflected).add(sample.scale(self.fuzz));
        Some(Scattered::new(Ray::new(rec.p, reflected), self.albedo))
    }
}

/// A clear surface that always refracts.
pub struct Dielectric {
    refraction_index: Scalar,
}

/// The ratio of refractive indices that a ray meets at a surface of index
/// `refraction_index`: the reciprocal when it enters, the index when it
/// leaves.
pub open spec fn relative_index(refraction_index: Scalar, front_face: bool) -> Scalar {
    if front_face {
        Scalar { bits: ONE_BITS }.div(refraction_index)
    } else {
        refraction_index
    }
}

impl Dielectric {
    pub closed spec fn refraction_index(&self) -> Scalar {
        self.refraction_index
    }

    /// A clear surface with the given refractive index, relative to the
    /// medium around it.
    pub fn new(refraction_index: Scalar) -> (d: Dielectric)
        ensures
            d.refraction_index() == refraction_index,
    {
        Dielectric { refraction_index }
    }
}

impl Material for Dielectric {
    open spec fn scatter_spec(&self, r_in: Ray, rec: HitRecord, sample: Vec3) -> Option<Scattered> {
        let ri = relative_index(self.refraction_index(), rec.front_face);
        Some(
            Scattered {
                ray: Ray { orig: rec.p, dir: refract(unit_vector(r_in.dir), rec.normal, ri) },
                attenuation: Vec3::spec_new(
                    Scalar { bits: ONE_BITS },
                    Scalar { bits: ONE_BITS },
                    Scalar { bits: ONE_BITS },
                ),
            },
        )
    }

    fn scatter(&self, r_in: &Ray, rec: &HitRecord, sample: &Vec3) -> (res: Option<Scattered>) {
        let ri = if rec.front_face {
            Scalar { bits: ONE_BITS }.div(self.refraction_index)
        } else {
            self.refraction_index
        };
        let unit_direction = unit_vector(r_in.direction());
        let refracted = refract(unit_direction, rec.normal, ri);
        let scattered = Ray::new(rec.p, refracted);
        let attenuation = Color::new(
            Scalar { bits: ONE_BITS },
            Scalar { bits: ONE_BITS },
            Scalar { bits: ONE_BITS },
        );
        Some(Scattered::new(scattered, attenuation))
    }
}

/// A matt surface scatters every ray, from the point of the hit, along the
/// normal plus the sample, or along the normal where every part of that sum
/// lies within `1e-8` of zero. The ray that came in has no part in it. Where
/// the normal does not vanish, neither does the direction.
pub proof fn lemma_lambertian_scatter(
    matt: Lambertian,
    r_in: Ray,
    other_in: Ray,
    rec: HitRecord,
    sample: Vec3,
)
    ensures
        matt.scatter_spec(r_in, rec, sample) is Some,
        matt.scatter_spec(r_in, rec, sample) == matt.scatter_spec(other_in, rec, sample),
        matt.scatter_spec(r_in, rec, sample)->0.ray.orig == rec.p,
        matt.scatter_spec(r_in, rec, sample)->0.ray.dir == (if rec.normal.add(
            sample,
        ).near_zero() {
            rec.normal
        } else {
            rec.normal.add(sample)
        }),
        !rec.normal.near_zero() ==> !matt.scatter_spec(r_in, rec, sample)->0.ray.dir.near_zero(),
{
}

/// Matt surfaces and mirrors always scatter, and attenuate by their albedo.
pub proof fn lemma_attenuation_is_albedo(
    matt: Lambertian,
    mirror: Metal,
    r_in: Ray,
    rec: HitRecord,
    sample: Vec3,
)
    ensures
        matt.scatter_spec(r_in, rec, sample) is Some,
        matt.scatter_spec(r_in, rec, sample)->0.attenuation == matt.albedo,
        mirror.scatter_spec(r_in, rec, sample) is Some,
        mirror.scatter_spec(r_in, rec, sample)->0.attenuation == mirror.albedo(),
{
}

/// One of the three materials, for scenes that mix them.
pub enum MaterialKind {
    Lambertian(Lambertian),
    Metal(Metal),
    Dielectric(Dielectric),
}

impl Material for MaterialKind {
    open spec fn scatter_spec(&self, r_in: Ray, rec: HitRecord, sample: Vec3) -> Option<Scattered> {
        match self {
            MaterialKind::Lambertian(m) => m.scatter_spec(r_in, rec, sample),
            MaterialKind::Metal(m) => m.scatter_spec(r_in, rec, sample),
            MaterialKind::Dielectric(m) => m.scatter_spec(r_in, rec, sample),
        }
    }

    fn scatter(&self, r_in: &Ray, rec: &HitRecord, sample: &Vec3) -> (res: Option<Scattered>) {
        match self {
            MaterialKind::Lambertian(m) => m.scatter(r_in, rec, sample),
            MaterialKind::Metal(m) => m.scatter(r_in, rec, sample),
            MaterialKind::Dielectric(m) => m.scatter(r_in, rec, sample),
        }
    }
}

} // verus!

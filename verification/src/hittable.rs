//! What a ray can hit, and the record of a hit.

use vstd::prelude::*;
use std::rc::Rc;
use crate::aabb::AABB;
use crate::interval::Interval;
use crate::material::MaterialKind;
use crate::ray::Ray;
use crate::scalar::Scalar;
use crate::vec3::{dot, Point3, Vec3};

verus! {

/// Where and how a ray met a surface.
pub struct HitRecord {
    /// The point of the hit.
    pub p: Point3,
    /// The ray parameter of the hit.
    pub t: Scalar,
    /// The unit normal of the surface, on the side the ray came from.
    pub normal: Vec3,
    /// Whether the ray met the surface from outside.
    pub front_face: bool,
    /// The material of the surface, where it has one.
    pub mat: Option<Rc<MaterialKind>>,
}

impl Default for HitRecord {
    fn default() -> (r: HitRecord)
        ensures
            r == HitRecord::spec_blank(),
    {
        HitRecord {
            p: Vec3::default(),
            t: Scalar { bits: 0 },
            normal: Vec3::default(),
            front_face: false,
            mat: None,
        }
    }
}

impl HitRecord {
    /// The record of zeros, with no material.
    pub open spec fn spec_blank() -> HitRecord {
        HitRecord {
            p: Vec3::spec_zero(),
            t: Scalar { bits: 0 },
            normal: Vec3::spec_zero(),
            front_face: false,
            mat: None,
        }
    }

    /// Whether a ray meets from outside a surface whose outward normal is
    /// `outward_normal`: the ray runs against the normal.
    pub open spec fn faces_front(r: Ray, outward_normal: Vec3) -> bool {
        dot(r.dir, outward_normal).lt(Scalar { bits: 0 })
    }

    /// The record with its side and normal set for the ray `r` and the
    /// outward normal `outward_normal`: the normal kept for a hit from
    /// outside, and turned round for a hit from inside.
    pub open spec fn with_face_normal(self, r: Ray, outward_normal: Vec3) -> HitRecord {
        let front_face = HitRecord::faces_front(r, outward_normal);
        HitRecord {
            front_face,
            normal: if front_face {
                outward_normal
            } else {
                outward_normal.neg()
            },
            ..self
        }
    }

    /// Sets the side of the hit and the normal, which then points against
    /// the ray. `outward_normal` is taken to have unit length.
    pub fn set_face_normal(&mut self, r: &Ray, outward_normal: &Vec3)
        ensures
            *final(self) == old(self).with_face_normal(*r, *outward_normal),
    {
        self.front_face = dot(r.direction(), *outward_normal).lt(Scalar { bits: 0 });
        self.normal = if self.front_face {
            *outward_normal
        } else {
            outward_normal.neg()
        };
    }
}

/// A thing that a ray can hit and that a box can bound.
pub trait Hittable {
    /// The hit that `hit` reports for the ray `r` and the parameter range
    /// `ray_t`.
    spec fn hit_spec(&self, r: Ray, ray_t: Interval) -> Option<HitRecord>;

    /// The box that `bounding_box` returns.
    spec fn bounding_box_spec(&self) -> AABB;

    /// The hit of the ray `r` at a parameter strictly inside `ray_t`, if
    /// there is one.
    fn hit(&self, r: &Ray, ray_t: Interval) -> (res: Option<HitRecord>)
        ensures
            res == self.hit_spec(*r, ray_t),
    ;

    /// The box that bounds the thing.
    fn bounding_box(&self) -> (bbox: AABB)
        ensures
            bbox == self.bounding_box_spec(),
    ;
}

/// The hits that the object reports for the ray in different ranges fit
/// together: a hit lies strictly inside the range asked for, is still the
/// answer for a narrower range that surrounds it, and a range inside one
/// without a hit has none.
pub open spec fn hits_cohere<H: Hittable>(object: Rc<H>, r: Ray) -> bool {
    forall|wide: Interval, narrow: Interval|
        #![trigger object.hit_spec(r, wide), object.hit_spec(r, narrow)]
        narrow.within(wide) ==> {
            &&& object.hit_spec(r, wide) matches Some(rec) ==> {
                &&& wide.surrounds(rec.t)
                &&& narrow.surrounds(rec.t) ==> object.hit_spec(r, narrow) == Some(rec)
            }
            &&& object.hit_spec(r, wide) is None ==> object.hit_spec(r, narrow) is None
        }
}

/// The box keeps the hits that the object has within the range `ray_t`:
/// whenever the object reports a hit for a range inside `ray_t`, the ray
/// passes the slab test with `ray_t`, and the range that the test leaves
/// surrounds the hit.
pub open spec fn bounds_hits<H: Hittable>(bbox: AABB, object: Rc<H>, r: Ray, ray_t: Interval) -> bool {
    forall|asked: Interval|
        #![trigger object.hit_spec(r, asked)]
        asked.within(ray_t) && object.hit_spec(r, asked) is Some ==> {
            &&& bbox.hit_trace(r, ray_t).0
            &&& bbox.hit_trace(r, ray_t).1.surrounds(object.hit_spec(r, asked)->0.t)
        }
}

} // verus!

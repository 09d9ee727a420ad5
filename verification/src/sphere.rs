//! Spheres.

use vstd::prelude::*;
use std::rc::Rc;
use crate::aabb::{AABB, AABBParameter};
use crate::bvh::{lemma_bvh_hit_is_closest_hit, BVHChild, BVHNode};
use crate::hittable::{bounds_hits, hits_cohere, HitRecord, Hittable};
use crate::hittable_list::{closest_hit, remaining};
use crate::interval::Interval;
use crate::material::MaterialKind;
use crate::ray::Ray;
use crate::scalar::Scalar;
use crate::vec3::{dot, Point3, Vec3};

verus! {

/// A sphere of one material.
pub struct Sphere {
    center: Point3,
    radius: Scalar,
    mat: Rc<MaterialKind>,
    bbox: AABB,
}

/// The box between the corners `center - (r, r, r)` and `center + (r, r, r)`.
pub open spec fn sphere_box(center: Point3, radius: Scalar) -> AABB {
    let rvec = Vec3::spec_new(radius, radius, radius);
    AABB::from_corners(center.sub(rvec), center.add(rvec))
}

impl Sphere {
    #[verifier::type_invariant]
    spec fn well_formed(self) -> bool {
        &&& Scalar::zero().le(self.radius)
        &&& self.bbox == sphere_box(self.center, self.radius)
    }

    pub closed spec fn center(&self) -> Point3 {
        self.center
    }

    pub closed spec fn radius(&self) -> Scalar {
        self.radius
    }

    pub closed spec fn material(&self) -> MaterialKind {
        *self.mat
    }

    pub closed spec fn bbox(&self) -> AABB {
        self.bbox
    }

    /// The vector from the ray's origin to the centre.
    pub open spec fn offset(&self, r: Ray) -> Vec3 {
        self.center().sub(r.orig)
    }

    /// The discriminant `h * h - a * c` of the equation `a t^2 - 2 h t + c = 0`
    /// for the parameters at which the ray is on the sphere, where `a` is the
    /// squared length of the direction, `h` the dot product of the direction
    /// and the offset, and `c` the squared length of the offset less the
    /// squared radius.
    pub open spec fn discriminant(&self, r: Ray) -> Scalar {
        let oc = self.offset(r);
        let a = r.dir.length_squared();
        let h = dot(r.dir, oc);
        let c = oc.length_squared().sub(self.radius().mul(self.radius()));
        h.mul(h).sub(a.mul(c))
    }

    /// The lesser solution `(h - sqrt(d)) / a`.
    pub open spec fn near_root(&self, r: Ray) -> Scalar {
        let h = dot(r.dir, self.offset(r));
        h.sub(self.discriminant(r).sqrt()).div(r.dir.length_squared())
    }

    /// The greater solution `(h + sqrt(d)) / a`.
    pub open spec fn far_root(&self, r: Ray) -> Scalar {
        let h = dot(r.dir, self.offset(r));
        h.add(self.discriminant(r).sqrt()).div(r.dir.length_squared())
    }

    /// The outward normal at the point `p`: the vector from the centre to
    /// `p`, divided by the radius.
    pub open spec fn outward_normal(&self, p: Point3) -> Vec3 {
        p.sub(self.center()).div(self.radius())
    }

    /// The record of the hit at the ray parameter `root`.
    pub open spec fn record_at(&self, r: Ray, root: Scalar) -> HitRecord {
        let p = r.at(root);
        let outward = self.outward_normal(p);
        HitRecord {
            p,
            t: root,
            normal: outward,
            front_face: false,
            mat: Some(Rc::new(self.material())),
        }.with_face_normal(r, outward)
    }

    /// Whether the slab test with the range `ray_t` keeps the solution
    /// `root`: where the range surrounds the solution, the box takes the ray
    /// and what it leaves of the range surrounds the solution too.
    pub open spec fn root_kept(bbox: AABB, r: Ray, ray_t: Interval, root: Scalar) -> bool {
        ray_t.surrounds(root) ==> {
            &&& bbox.hit_trace(r, ray_t).0
            &&& bbox.hit_trace(r, ray_t).1.surrounds(root)
        }
    }

    /// Whether the box keeps every hit that the ray can have on the sphere
    /// within the range `ray_t`: the ray has none, the discriminant being
    /// negative, or the box keeps both solutions.
    pub open spec fn spec_admitted_by(&self, bbox: AABB, r: Ray, ray_t: Interval) -> bool {
        self.discriminant(r).lt(Scalar::zero()) || (Sphere::root_kept(
            bbox,
            r,
            ray_t,
            self.near_root(r),
        ) && Sphere::root_kept(bbox, r, ray_t, self.far_root(r)))
    }

    /// Whether the box keeps every hit that the ray can have on the sphere
    /// within the range `ray_t`.
    pub fn admitted_by(&self, bbox: &AABB, r: &Ray, ray_t: Interval) -> (b: bool)
        ensures
            b == self.spec_admitted_by(*bbox, *r, ray_t),
    {
        let oc = self.center.sub(r.origin());
        let a = r.direction().length_squared();
        let h = dot(r.direction(), oc);
        let c = oc.length_squared().sub(self.radius.mul(self.radius));
        let discriminant = h.mul(h).sub(a.mul(c));
        if discriminant.lt(Scalar::zero()) {
            return true;
        }
        let sqrtd = discriminant.sqrt();
        let near = h.sub(sqrtd).div(a);
        let far = h.add(sqrtd).div(a);
        let boxed = bbox.hit_within(r, ray_t);
        (!ray_t.surrounds(near) || (boxed.0 && boxed.1.surrounds(near))) && (!ray_t.surrounds(far)
            || (boxed.0 && boxed.1.surrounds(far)))
    }

    /// The sphere with the given centre and material, and with the radius
    /// `radius`, or zero where `radius` is negative or a NaN.
    pub fn new(center: Point3, radius: Scalar, mat: Rc<MaterialKind>) -> (s: Sphere)
        ensures
            s.center() == center,
            s.radius() == Scalar::zero().max(radius),
            s.material() == *mat,
            s.bbox() == sphere_box(center, s.radius()),
            Scalar::zero().le(s.radius()),
    {
        let radius = Scalar::zero().max(radius);
        let rvec = Vec3::new(radius, radius, radius);
        let bbox = AABB::new(AABBParameter::Point { a: center.sub(rvec), b: center.add(rvec) });
        Sphere { center, radius, mat, bbox }
    }
}

impl Hittable for Sphere {
    /// No hit where the discriminant is negative. Else the hit at the lesser
    /// solution, where `ray_t` surrounds it; else the hit at the greater
    /// solution, where `ray_t` surrounds that; else no hit.
    open spec fn hit_spec(&self, r: Ray, ray_t: Interval) -> Option<HitRecord> {
        if self.discriminant(r).lt(Scalar::zero()) {
            None
        } else if ray_t.surrounds(self.near_root(r)) {
            Some(self.record_at(r, self.near_root(r)))
        } else if ray_t.surrounds(self.far_root(r)) {
            Some(self.record_at(r, self.far_root(r)))
        } else {
            None
        }
    }

    open spec fn bounding_box_spec(&self) -> AABB {
        self.bbox()
    }

    fn hit(&self, r: &Ray, ray_t: Interval) -> (res: Option<HitRecord>) {
        let oc = self.center.sub(r.origin());
        let a = r.direction().length_squared();
        let h = dot(r.direction(), oc);
        let c = oc.length_squared().sub(self.radius.mul(self.radius));
        let discriminant = h.mul(h).sub(a.mul(c));

        if discriminant.lt(Scalar::zero()) {
            return None;
        }
        let sqrtd = discriminant.sqrt();
        let mut root = h.sub(sqrtd).div(a);
        if !ray_t.surrounds(root) {
            root = h.add(sqrtd).div(a);
            if !ray_t.surrounds(root) {
                return None;
            }
        }
        let p = r.at(root);
        let outward_normal = p.sub(self.center).div(self.radius);
        let mut rec = HitRecord {
            p,
            t: root,
            normal: outward_normal,
            front_face: false,
            mat: Some(Rc::clone(&self.mat)),
        };
        rec.set_face_normal(r, &outward_normal);
        Some(rec)
    }

    fn bounding_box(&self) -> (bbox: AABB)
        ensures
            bbox == sphere_box(self.center(), self.radius()),
            Scalar::zero().le(self.radius()),
    {
        proof {
            use_type_invariant(self);
        }
        self.bbox
    }
}

/// A hit of a sphere lies strictly inside the parameter range asked for, at
/// one of the two solutions, and its record has the side and the normal that
/// the ray and the outward normal at the point give.
pub proof fn lemma_sphere_hit(s: Sphere, r: Ray, ray_t: Interval)
    ensures
        s.hit_spec(r, ray_t) matches Some(rec) ==> {
            &&& ray_t.surrounds(rec.t)
            &&& rec.t == s.near_root(r) || rec.t == s.far_root(r)
            &&& rec.p == r.at(rec.t)
            &&& rec.front_face == HitRecord::faces_front(r, s.outward_normal(rec.p))
            &&& rec.front_face ==> rec.normal == s.outward_normal(rec.p)
            &&& !rec.front_face ==> rec.normal == s.outward_normal(rec.p).neg()
        },
{
}

/// The hits of a sphere fit together: a hit lies strictly inside the range
/// asked for and stays the answer in every narrower range that surrounds
/// it, and a range inside one without a hit has none.
pub proof fn lemma_sphere_hits_cohere(s: Sphere, r: Ray)
    ensures
        hits_cohere(Rc::new(s), r),
{
    let object = Rc::new(s);
    assert forall|wide: Interval, narrow: Interval| narrow.within(wide) implies {
        &&& object.hit_spec(r, wide) matches Some(rec) ==> {
            &&& wide.surrounds(rec.t)
            &&& narrow.surrounds(rec.t) ==> object.hit_spec(r, narrow) == Some(rec)
        }
        &&& object.hit_spec(r, wide) is None ==> object.hit_spec(r, narrow) is None
    } by {
        lemma_sphere_hit(s, r, wide);
        lemma_sphere_hit(s, r, narrow);
    }
}

/// A box that keeps every hit that the ray can have on a sphere within a
/// range keeps the hits that the sphere reports within the range.
pub proof fn lemma_admitted_sphere(object: Rc<Sphere>, bbox: AABB, r: Ray, ray_t: Interval)
    requires
        object.spec_admitted_by(bbox, r, ray_t),
    ensures
        bounds_hits(bbox, object, r, ray_t),
{
    assert forall|asked: Interval|
        asked.within(ray_t) && object.hit_spec(r, asked) is Some implies {
        &&& bbox.hit_trace(r, ray_t).0
        &&& bbox.hit_trace(r, ray_t).1.surrounds(object.hit_spec(r, asked)->0.t)
    } by {
        lemma_sphere_hit(*object, r, asked);
        let t = object.hit_spec(r, asked)->0.t;
        assert(asked.surrounds(t));
        assert(ray_t.surrounds(t));
    }
}

/// Whether the box keeps every hit that the ray can have, within the range
/// `ray_t`, on the spheres below `child`.
pub open spec fn spec_leaves_admitted(
    child: BVHChild<Sphere>,
    bbox: AABB,
    r: Ray,
    ray_t: Interval,
) -> bool
    decreases child,
{
    match child {
        BVHChild::Leaf(sphere) => sphere.spec_admitted_by(bbox, r, ray_t),
        BVHChild::Node(node) => spec_leaves_admitted(node.left, bbox, r, ray_t)
            && spec_leaves_admitted(node.right, bbox, r, ray_t),
    }
}

/// Whether the node, reached with the range `ray_t`, and every node below
/// that the ray gets to, asked with the range that reaches it, has a box that
/// keeps every hit that the ray can have within that range on the spheres
/// below the node.
pub open spec fn spec_boxes_admit(node: BVHNode<Sphere>, r: Ray, ray_t: Interval) -> bool
    decreases node,
{
    let boxed = node.bbox.hit_trace(r, ray_t);
    &&& spec_leaves_admitted(node.left, node.bbox, r, ray_t)
    &&& spec_leaves_admitted(node.right, node.bbox, r, ray_t)
    &&& boxed.0 ==> {
        let below = remaining(boxed.1, node.left.hit_spec(r, boxed.1));
        &&& node.left matches BVHChild::Node(under) ==> spec_boxes_admit(*under, r, boxed.1)
        &&& node.right matches BVHChild::Node(under) ==> spec_boxes_admit(*under, r, below)
    }
}

/// The hit of the hierarchy is for certain the hit that a search through its
/// leaves ends with: the range has numbers at its ends, the boxes that the
/// ray gets to keep the hits of the spheres, and no right child has a hit
/// nearer than its left sibling's.
pub open spec fn spec_search_is_matched(node: BVHNode<Sphere>, r: Ray, ray_t: Interval) -> bool {
    ray_t.has_ends() && spec_boxes_admit(node, r, ray_t) && node.spec_left_first(r, ray_t)
}

/// Whether the box keeps every hit that the ray can have, within the range
/// `ray_t`, on the spheres below `child`.
pub fn leaves_admitted(child: &BVHChild<Sphere>, bbox: &AABB, r: &Ray, ray_t: Interval) -> (b: bool)
    ensures
        b == spec_leaves_admitted(*child, *bbox, *r, ray_t),
    decreases child,
{
    match child {
        BVHChild::Leaf(sphere) => sphere.admitted_by(bbox, r, ray_t),
        BVHChild::Node(node) => leaves_admitted(&node.left, bbox, r, ray_t) && leaves_admitted(
            &node.right,
            bbox,
            r,
            ray_t,
        ),
    }
}

/// Whether the node, reached with the range `ray_t`, and every node below
/// that the ray gets to has a box that keeps every hit that the ray can have
/// on the spheres below it within the range that reaches it.
pub fn boxes_admit(node: &BVHNode<Sphere>, r: &Ray, ray_t: Interval) -> (b: bool)
    ensures
        b == spec_boxes_admit(*node, *r, ray_t),
    decreases node,
{
    if !leaves_admitted(&node.left, &node.bbox, r, ray_t) || !leaves_admitted(
        &node.right,
        &node.bbox,
        r,
        ray_t,
    ) {
        return false;
    }
    let boxed = node.bbox.hit_within(r, ray_t);
    if !boxed.0 {
        return true;
    }
    let hit_left = node.left.hit(r, boxed.1);
    let below = match &hit_left {
        Some(rec) => Interval { min: boxed.1.min, max: rec.t },
        None => boxed.1,
    };
    let left_fine = match &node.left {
        BVHChild::Leaf(sphere) => true,
        BVHChild::Node(under) => boxes_admit(under, r, boxed.1),
    };
    if !left_fine {
        return false;
    }
    match &node.right {
        BVHChild::Leaf(sphere) => true,
        BVHChild::Node(under) => boxes_admit(under, r, below),
    }
}

/// Whether the hit of the hierarchy is for certain the hit that a search
/// through its leaves ends with; where it is, the two are one.
pub fn search_is_matched(node: &BVHNode<Sphere>, r: &Ray, ray_t: Interval) -> (b: bool)
    ensures
        b == spec_search_is_matched(*node, *r, ray_t),
        b ==> node.hit_spec(*r, ray_t) == closest_hit(
            node.leaves(),
            *r,
            ray_t,
            node.leaves().len(),
        ),
{
    let b = ray_t.has_ends() && boxes_admit(node, r, ray_t) && node.left_first(r, ray_t);
    proof {
        if b {
            lemma_sphere_tree_hit_is_closest_hit(*node, *r, ray_t);
        }
    }
    b
}

/// A box that keeps the hits of the spheres below a child within a range
/// keeps the hits that each leaf of the child reports within the range.
pub proof fn lemma_leaves_admitted(
    child: BVHChild<Sphere>,
    bbox: AABB,
    r: Ray,
    ray_t: Interval,
    i: int,
)
    requires
        spec_leaves_admitted(child, bbox, r, ray_t),
        0 <= i < child.leaves().len(),
    ensures
        bounds_hits(bbox, child.leaves()[i], r, ray_t),
    decreases child,
{
    match child {
        BVHChild::Leaf(_) => {
            lemma_admitted_sphere(child.leaves()[0], bbox, r, ray_t);
        },
        BVHChild::Node(node) => {
            let ll = node.left.leaves();
            if i < ll.len() {
                assert(node.leaves()[i] == ll[i]);
                lemma_leaves_admitted(node.left, bbox, r, ray_t, i);
            } else {
                assert(node.leaves()[i] == node.right.leaves()[i - ll.len()]);
                lemma_leaves_admitted(node.right, bbox, r, ray_t, i - ll.len());
            }
        },
    }
}

/// Where the boxes that the ray gets to keep the hits of the spheres, they
/// keep the hits that the leaves report.
pub proof fn lemma_boxes_admit(node: BVHNode<Sphere>, r: Ray, ray_t: Interval)
    requires
        spec_boxes_admit(node, r, ray_t),
    ensures
        node.boxes_bound(r, ray_t),
    decreases node,
{
    let ll = node.left.leaves();
    assert forall|i: int| 0 <= i < node.leaves().len() implies bounds_hits(
        node.bbox,
        #[trigger] node.leaves()[i],
        r,
        ray_t,
    ) by {
        if i < ll.len() {
            assert(node.leaves()[i] == ll[i]);
            lemma_leaves_admitted(node.left, node.bbox, r, ray_t, i);
        } else {
            assert(node.leaves()[i] == node.right.leaves()[i - ll.len()]);
            lemma_leaves_admitted(node.right, node.bbox, r, ray_t, i - ll.len());
        }
    }
    let boxed = node.bbox.hit_trace(r, ray_t);
    if boxed.0 {
        let below = remaining(boxed.1, node.left.hit_spec(r, boxed.1));
        match node.left {
            BVHChild::Leaf(_) => {},
            BVHChild::Node(under) => {
                lemma_boxes_admit(*under, r, boxed.1);
            },
        }
        match node.right {
            BVHChild::Leaf(_) => {},
            BVHChild::Node(under) => {
                lemma_boxes_admit(*under, r, below);
            },
        }
    }
}

/// For a hierarchy over spheres, the hit of the hierarchy is the hit that a
/// search through its leaves ends with, where the range has numbers at its
/// ends, every node that the ray gets to has a box that keeps the hits that
/// the ray can have on the spheres below it within the range that reaches
/// the node, and no such node has a right child with a hit nearer than its
/// left child's.
pub proof fn lemma_sphere_tree_hit_is_closest_hit(node: BVHNode<Sphere>, r: Ray, ray_t: Interval)
    requires
        ray_t.has_ends(),
        spec_boxes_admit(node, r, ray_t),
        node.spec_left_first(r, ray_t),
    ensures
        node.hit_spec(r, ray_t) == closest_hit(node.leaves(), r, ray_t, node.leaves().len()),
{
    assert forall|i: int| 0 <= i < node.leaves().len() implies hits_cohere(
        #[trigger] node.leaves()[i],
        r,
    ) by {
        lemma_sphere_hits_cohere(*node.leaves()[i], r);
    }
    lemma_boxes_admit(node, r, ray_t);
    lemma_bvh_hit_is_closest_hit(node, r, ray_t);
}

} // verus!

//! Lists of things to hit, searched from first to last.

use vstd::prelude::*;
use std::rc::Rc;
use crate::aabb::{lemma_enclose_encloses, lemma_encloses_transitive, AABB, AABBParameter};
use crate::hittable::{hits_cohere, HitRecord, Hittable};
use crate::interval::{Interval, IntervalParameter};
use crate::ray::Ray;

verus! {

/// A list of objects, with the box that bounds them all.
pub struct HittableList<H: Hittable> {
    pub objects: Vec<Rc<H>>,
    pub bbox: AABB,
}

/// The box that encloses the boxes of all of `objects`, taken in from first
/// to last; the empty box where there are none.
pub open spec fn boxes_union<H: Hittable>(objects: Seq<Rc<H>>) -> AABB
    decreases objects.len(),
{
    if objects.len() == 0 {
        AABB::spec_empty()
    } else {
        AABB::enclose(boxes_union(objects.drop_last()), objects.last().bounding_box_spec())
    }
}

/// The range in which the search goes on after `best`: up to the parameter of
/// the hit found, or all of `ray_t` where none was found.
pub open spec fn remaining(ray_t: Interval, best: Option<HitRecord>) -> Interval {
    match best {
        Some(rec) => Interval { min: ray_t.min, max: rec.t },
        None => ray_t,
    }
}

/// The hit that a search through the first `n` of `objects` ends with. Each
/// object is asked for a hit below the parameter of the hit found before it,
/// so a hit found later is never farther than one found earlier.
pub open spec fn closest_hit<H: Hittable>(
    objects: Seq<Rc<H>>,
    r: Ray,
    ray_t: Interval,
    n: nat,
) -> Option<HitRecord>
    decreases n,
{
    if n == 0 {
        None
    } else {
        let before = closest_hit(objects, r, ray_t, (n - 1) as nat);
        match objects[n - 1].hit_spec(r, remaining(ray_t, before)) {
            Some(rec) => Some(rec),
            None => before,
        }
    }
}

impl<H: Hittable> Default for HittableList<H> {
    fn default() -> (list: HittableList<H>)
        ensures
            list.objects@ == Seq::<Rc<H>>::empty(),
            list.wf(),
    {
        HittableList { objects: Vec::new(), bbox: AABB::empty() }
    }
}

impl<H: Hittable> HittableList<H> {
    /// The box kept is the box that encloses the boxes of the objects.
    pub open spec fn wf(&self) -> bool {
        self.bbox == boxes_union(self.objects@)
    }

    /// The list of the one object.
    pub fn new(object: Rc<H>) -> (list: HittableList<H>)
        ensures
            list.objects@ == seq![object],
            list.wf(),
    {
        let mut this: HittableList<H> = HittableList { objects: Vec::new(), bbox: AABB::empty() };
        this.add(object);
        this
    }

    /// Takes every object out of the list.
    pub fn clear(&mut self)
        ensures
            final(self).objects@ == Seq::<Rc<H>>::empty(),
            final(self).wf(),
    {
        self.objects.clear();
        self.bbox = AABB::empty();
    }

    /// Puts one more object at the end of the list.
    pub fn add(&mut self, object: Rc<H>)
        ensures
            final(self).objects@ == old(self).objects@.push(object),
            final(self).bbox == AABB::enclose(old(self).bbox, object.bounding_box_spec()),
            old(self).wf() ==> final(self).wf(),
    {
        self.bbox = AABB::new(
            AABBParameter::Box { box1: self.bbox, box2: object.bounding_box() },
        );
        self.objects.push(object);
        proof {
            assert(self.objects@.drop_last() == old(self).objects@);
        }
    }
}

impl<H: Hittable> Hittable for HittableList<H> {
    open spec fn hit_spec(&self, r: Ray, ray_t: Interval) -> Option<HitRecord> {
        closest_hit(self.objects@, r, ray_t, self.objects@.len())
    }

    open spec fn bounding_box_spec(&self) -> AABB {
        self.bbox
    }

    fn hit(&self, r: &Ray, ray_t: Interval) -> (res: Option<HitRecord>) {
        let mut best: Option<HitRecord> = None;
        let mut closest_so_far = ray_t.max;
        let mut i: usize = 0;
        while i < self.objects.len()
            invariant
                i <= self.objects.len(),
                best == closest_hit(self.objects@, *r, ray_t, i as nat),
                (Interval { min: ray_t.min, max: closest_so_far }) == remaining(ray_t, best),
            decreases self.objects.len() - i,
        {
            let range = Interval::new(
                IntervalParameter::Range { min: ray_t.min, max: closest_so_far },
            );
            if let Some(temp) = self.objects[i].hit(r, range) {
                closest_so_far = temp.t;
                best = Some(temp);
            }
            i += 1;
        }
        best
    }

    fn bounding_box(&self) -> (bbox: AABB) {
        self.bbox
    }
}

/// The box that encloses the boxes of objects encloses the box of each.
pub proof fn lemma_boxes_union_encloses<H: Hittable>(objects: Seq<Rc<H>>, i: int)
    requires
        0 <= i < objects.len(),
    ensures
        boxes_union(objects).encloses(objects[i].bounding_box_spec()),
    decreases objects.len(),
{
    let front = objects.drop_last();
    lemma_enclose_encloses(boxes_union(front), objects.last().bounding_box_spec());
    if i < objects.len() - 1 {
        lemma_boxes_union_encloses(front, i);
        lemma_encloses_transitive(
            boxes_union(objects),
            boxes_union(front),
            objects[i].bounding_box_spec(),
        );
    }
}

/// A search through the first `n` objects looks at no others.
pub proof fn lemma_closest_hit_prefix<H: Hittable>(
    objects: Seq<Rc<H>>,
    longer: Seq<Rc<H>>,
    r: Ray,
    ray_t: Interval,
    n: nat,
)
    requires
        n <= objects.len() <= longer.len(),
        forall|i: int| 0 <= i < n ==> objects[i] == longer[i],
    ensures
        closest_hit(objects, r, ray_t, n) == closest_hit(longer, r, ray_t, n),
    decreases n,
{
    if n > 0 {
        lemma_closest_hit_prefix(objects, longer, r, ray_t, (n - 1) as nat);
    }
}

/// A search through a list followed by a second list ends as the search
/// through the second ends when it starts below the hit of the first.
pub proof fn lemma_closest_hit_concat<H: Hittable>(
    first: Seq<Rc<H>>,
    second: Seq<Rc<H>>,
    r: Ray,
    ray_t: Interval,
    n: nat,
)
    requires
        n <= second.len(),
    ensures
        closest_hit(first + second, r, ray_t, first.len() + n) == ({
            let found = closest_hit(first, r, ray_t, first.len());
            match closest_hit(second, r, remaining(ray_t, found), n) {
                Some(rec) => Some(rec),
                None => found,
            }
        }),
    decreases n,
{
    let both = first + second;
    if n == 0 {
        lemma_closest_hit_prefix(first, both, r, ray_t, first.len());
    } else {
        lemma_closest_hit_concat(first, second, r, ray_t, (n - 1) as nat);
        assert(both[first.len() + n - 1] == second[n - 1]);
    }
}

/// Among objects whose hits fit together, a search ends with a hit
/// strictly inside the range searched, or with none.
pub proof fn lemma_closest_hit_inside<H: Hittable>(
    objects: Seq<Rc<H>>,
    r: Ray,
    ray_t: Interval,
    n: nat,
)
    requires
        n <= objects.len(),
        ray_t.has_ends(),
        forall|i: int| 0 <= i < objects.len() ==> hits_cohere(#[trigger] objects[i], r),
    ensures
        closest_hit(objects, r, ray_t, n) matches Some(rec) ==> ray_t.surrounds(rec.t),
    decreases n,
{
    if n > 0 {
        lemma_closest_hit_inside(objects, r, ray_t, (n - 1) as nat);
        let before = closest_hit(objects, r, ray_t, (n - 1) as nat);
        let asked = remaining(ray_t, before);
        let object = objects[n - 1];
        assert(hits_cohere(object, r));
        assert(asked.within(asked));
        assert(object.hit_spec(r, asked) matches Some(rec) ==> asked.surrounds(rec.t));
    }
}

/// A search ends with the nearest hit. Among objects whose hits fit
/// together, wherever one of the first `n` objects has a hit in the range
/// searched, the search through them ends with a hit, and with one no
/// farther than that of the object.
pub proof fn lemma_closest_hit_is_nearest<H: Hittable>(
    objects: Seq<Rc<H>>,
    r: Ray,
    ray_t: Interval,
    n: nat,
    i: int,
)
    requires
        0 <= i < n <= objects.len(),
        ray_t.has_ends(),
        forall|k: int| 0 <= k < objects.len() ==> hits_cohere(#[trigger] objects[k], r),
        objects[i].hit_spec(r, ray_t) is Some,
    ensures
        closest_hit(objects, r, ray_t, n) is Some,
        closest_hit(objects, r, ray_t, n)->0.t.le(objects[i].hit_spec(r, ray_t)->0.t),
    decreases n,
{
    let before = closest_hit(objects, r, ray_t, (n - 1) as nat);
    let asked = remaining(ray_t, before);
    let object = objects[n - 1];
    let own = objects[i].hit_spec(r, ray_t)->0;
    lemma_closest_hit_inside(objects, r, ray_t, (n - 1) as nat);
    assert(hits_cohere(object, r));
    assert(hits_cohere(objects[i], r));
    assert(ray_t.within(ray_t));
    assert(asked.within(asked));
    assert(asked.within(ray_t));
    assert(ray_t.surrounds(own.t));
    assert(object.hit_spec(r, asked) matches Some(rec) ==> asked.surrounds(rec.t));
    if i < n - 1 {
        lemma_closest_hit_is_nearest(objects, r, ray_t, (n - 1) as nat, i);
    } else {
        if asked.surrounds(own.t) {
            assert(object.hit_spec(r, asked) == Some(own));
        }
    }
}

} // verus!

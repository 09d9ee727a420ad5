//! Axis-aligned bounding boxes and the slab test of a ray against them.

use vstd::prelude::*;
use crate::interval::{Interval, IntervalParameter};
use crate::ray::Ray;
use crate::scalar::Scalar;
use crate::vec3::Point3;

verus! {

/// A box with faces parallel to the axes: one interval for each axis.
#[derive(Clone, Copy, Debug)]
pub struct AABB {
    pub x: Interval,
    pub y: Interval,
    pub z: Interval,
}

/// The ways to make a box.
pub enum AABBParameter {
    /// The box with the given interval on each axis.
    Default { x: Interval, y: Interval, z: Interval },
    /// The box that has the points `a` and `b` as opposite corners.
    Point { a: Point3, b: Point3 },
    /// The tightest box that encloses both `box1` and `box2`.
    Box { box1: AABB, box2: AABB },
}

impl Default for AABB {
    fn default() -> (r: AABB)
        ensures
            r == AABB::spec_empty(),
    {
        AABB::empty()
    }
}

/// The interval between two scalars given in either order.
pub open spec fn span(a: Scalar, b: Scalar) -> Interval {
    Interval { min: a.min(b), max: a.max(b) }
}

/// The ray parameters at which a ray with the given origin and direction
/// component crosses the planes at the two ends of `iv`.
pub open spec fn slab_crossing(iv: Interval, origin: Scalar, direction: Scalar) -> (Scalar, Scalar) {
    (iv.min.sub(origin).div(direction), iv.max.sub(origin).div(direction))
}

/// The part of `ray_t` between the crossings `t0` and `t1`, which may come in
/// either order. A NaN crossing leaves the end it would have moved.
pub open spec fn clip(ray_t: Interval, t0: Scalar, t1: Scalar) -> Interval {
    if t0.lt(t1) {
        Interval { min: t0.max(ray_t.min), max: t1.min(ray_t.max) }
    } else {
        Interval { min: t1.max(ray_t.min), max: t0.min(ray_t.max) }
    }
}

impl AABB {
    /// The box that is empty on every axis.
    pub open spec fn spec_empty() -> AABB {
        AABB { x: Interval::spec_empty(), y: Interval::spec_empty(), z: Interval::spec_empty() }
    }

    /// The box that is the whole line on every axis.
    pub open spec fn spec_universe() -> AABB {
        AABB {
            x: Interval::spec_universe(),
            y: Interval::spec_universe(),
            z: Interval::spec_universe(),
        }
    }

    /// The union hull of two boxes, axis by axis.
    pub open spec fn enclose(box1: AABB, box2: AABB) -> AABB {
        AABB {
            x: Interval::enclose(box1.x, box2.x),
            y: Interval::enclose(box1.y, box2.y),
            z: Interval::enclose(box1.z, box2.z),
        }
    }

    /// The box with the corners `a` and `b`.
    pub open spec fn from_corners(a: Point3, b: Point3) -> AABB {
        AABB { x: span(a.x(), b.x()), y: span(a.y(), b.y()), z: span(a.z(), b.z()) }
    }

    /// What `new` makes of each parameter.
    pub open spec fn spec_new(param: AABBParameter) -> AABB {
        match param {
            AABBParameter::Default { x, y, z } => AABB { x, y, z },
            AABBParameter::Point { a, b } => AABB::from_corners(a, b),
            AABBParameter::Box { box1, box2 } => AABB::enclose(box1, box2),
        }
    }

    /// The interval of axis `n`: `y` for 1, `z` for 2, `x` for every other
    /// index.
    pub open spec fn spec_axis_interval(&self, n: usize) -> Interval {
        if n == 1 {
            self.y
        } else if n == 2 {
            self.z
        } else {
            self.x
        }
    }

    /// `ray_t` after the slab of axis `axis` has been cut out of it.
    pub open spec fn clip_axis(&self, r: Ray, ray_t: Interval, axis: usize) -> Interval {
        let crossing = slab_crossing(self.spec_axis_interval(axis), r.orig.e[axis as int], r.dir.e[axis as int]);
        clip(ray_t, crossing.0, crossing.1)
    }

    /// The slab test carried through the first `n` axes: whether each of them
    /// left something of the interval, and the interval as it stands after
    /// the last axis tried. The first axis that leaves nothing ends the test.
    pub open spec fn hit_upto(&self, r: Ray, ray_t: Interval, n: nat) -> (bool, Interval)
        decreases n,
    {
        if n == 0 {
            (true, ray_t)
        } else {
            let before = self.hit_upto(r, ray_t, (n - 1) as nat);
            if !before.0 {
                before
            } else {
                let cut = self.clip_axis(r, before.1, (n - 1) as usize);
                (!cut.max.lt(cut.min), cut)
            }
        }
    }

    /// The slab test on all three axes.
    pub open spec fn hit_trace(&self, r: Ray, ray_t: Interval) -> (bool, Interval) {
        self.hit_upto(r, ray_t, 3)
    }

    pub open spec fn spec_longest_axis(&self) -> usize {
        if self.x.size().gt(self.y.size()) {
            if self.x.size().gt(self.z.size()) {
                0
            } else {
                2
            }
        } else {
            if self.y.size().gt(self.z.size()) {
                1
            } else {
                2
            }
        }
    }

    #[verifier::when_used_as_spec(spec_empty)]
    pub fn empty() -> (r: AABB)
        ensures
            r == AABB::spec_empty(),
    {
        AABB { x: Interval::empty(), y: Interval::empty(), z: Interval::empty() }
    }

    #[verifier::when_used_as_spec(spec_universe)]
    pub fn universe() -> (r: AABB)
        ensures
            r == AABB::spec_universe(),
    {
        AABB { x: Interval::universe(), y: Interval::universe(), z: Interval::universe() }
    }

    #[verifier::when_used_as_spec(spec_new)]
    pub fn new(param: AABBParameter) -> (r: AABB)
        ensures
            r == AABB::spec_new(param),
    {
        match param {
            AABBParameter::Default { x, y, z } => AABB { x, y, z },
            AABBParameter::Point { a, b } => {
                let x_param = IntervalParameter::Range {
                    min: a.x().min(b.x()),
                    max: a.x().max(b.x()),
                };
                let y_param = IntervalParameter::Range {
                    min: a.y().min(b.y()),
                    max: a.y().max(b.y()),
                };
                let z_param = IntervalParameter::Range {
                    min: a.z().min(b.z()),
                    max: a.z().max(b.z()),
                };
                AABB {
                    x: Interval::new(x_param),
                    y: Interval::new(y_param),
                    z: Interval::new(z_param),
                }
            },
            AABBParameter::Box { box1, box2 } => AABB {
                x: Interval::new(IntervalParameter::EncloseInterval { a: box1.x, b: box2.x }),
                y: Interval::new(IntervalParameter::EncloseInterval { a: box1.y, b: box2.y }),
                z: Interval::new(IntervalParameter::EncloseInterval { a: box1.z, b: box2.z }),
            },
        }
    }

    pub fn axis_interval(&self, n: usize) -> (iv: &Interval)
        ensures
            *iv == self.spec_axis_interval(n),
    {
        match n {
            1 => &self.y,
            2 => &self.z,
            _ => &self.x,
        }
    }

    /// Whether the ray passes through the box at a parameter within `ray_t`.
    /// `ray_t` is narrowed, axis by axis, to the parameters at which the ray
    /// is inside the slabs tried; when the answer is `false` it is left as
    /// the axis that failed made it.
    pub fn hit(&self, r: &Ray, ray_t: &mut Interval) -> (res: bool)
        ensures
            (res, *final(ray_t)) == self.hit_trace(*r, *old(ray_t)),
    {
        let ray_orig = r.origin();
        let ray_dir = r.direction();
        let mut axis: usize = 0;
        while axis < 3
            invariant
                axis <= 3,
                ray_orig == r.orig,
                ray_dir == r.dir,
                (true, *ray_t) == self.hit_upto(*r, *old(ray_t), axis as nat),
            decreases 3 - axis,
        {
            let ax = self.axis_interval(axis);
            let t0 = ax.min.sub(ray_orig.index(axis)).div(ray_dir.index(axis));
            let t1 = ax.max.sub(ray_orig.index(axis)).div(ray_dir.index(axis));
            if t0.lt(t1) {
                ray_t.min = t0.max(ray_t.min);
                ray_t.max = t1.min(ray_t.max);
            } else {
                ray_t.min = t1.max(ray_t.min);
                ray_t.max = t0.min(ray_t.max);
            }
            if ray_t.max.lt(ray_t.min) {
                proof {
                    reveal_with_fuel(AABB::hit_upto, 4);
                }
                return false;
            }
            axis += 1;
        }
        true
    }

    /// The index of the axis on which the box is longest. Ties, and sizes
    /// that do not compare, go to the later axis.
    #[verifier::when_used_as_spec(spec_longest_axis)]
    pub fn longest_axis(&self) -> (axis: usize)
        ensures
            axis == self.spec_longest_axis(),
    {
        if self.x.size().gt(self.y.size()) {
            if self.x.size().gt(self.z.size()) {
                0
            } else {
                2
            }
        } else {
            if self.y.size().gt(self.z.size()) {
                1
            } else {
                2
            }
        }
    }
}

/// Cutting a slab out of an interval moves neither end outwards.
pub proof fn lemma_clip_narrows(ray_t: Interval, t0: Scalar, t1: Scalar)
    requires
        ray_t.has_ends(),
    ensures
        clip(ray_t, t0, t1).within(ray_t),
{
}

/// The slab test moves neither end of the interval outwards, however far it
/// gets.
pub proof fn lemma_hit_narrows(bbox: AABB, r: Ray, ray_t: Interval)
    requires
        ray_t.has_ends(),
    ensures
        bbox.hit_trace(r, ray_t).1.within(ray_t),
{
    reveal_with_fuel(AABB::hit_upto, 4);
    let i0 = ray_t;
    let c0 = slab_crossing(bbox.spec_axis_interval(0), r.orig.e[0], r.dir.e[0]);
    lemma_clip_narrows(i0, c0.0, c0.1);
    let i1 = bbox.clip_axis(r, i0, 0);
    let c1 = slab_crossing(bbox.spec_axis_interval(1), r.orig.e[1], r.dir.e[1]);
    lemma_clip_narrows(i1, c1.0, c1.1);
    let i2 = bbox.clip_axis(r, i1, 1);
    let c2 = slab_crossing(bbox.spec_axis_interval(2), r.orig.e[2], r.dir.e[2]);
    lemma_clip_narrows(i2, c2.0, c2.1);
}

/// The slab between two crossings in either order.
pub open spec fn slab(t0: Scalar, t1: Scalar) -> Interval {
    if t0.lt(t1) {
        Interval { min: t0, max: t1 }
    } else {
        Interval { min: t1, max: t0 }
    }
}

/// A wider slab leaves more of a wider interval: where `inner` lies within
/// `outer` and the slab between `t0` and `t1` within the slab between `u0`
/// and `u1`, what the first slab leaves of `inner` lies within what the
/// second leaves of `outer`; and where the first leaves something, so does
/// the second.
pub proof fn lemma_clip_monotone(
    inner: Interval,
    outer: Interval,
    t0: Scalar,
    t1: Scalar,
    u0: Scalar,
    u1: Scalar,
)
    requires
        inner.within(outer),
        slab(t0, t1).within(slab(u0, u1)),
    ensures
        clip(inner, t0, t1).within(clip(outer, u0, u1)),
        !clip(inner, t0, t1).max.lt(clip(inner, t0, t1).min) ==> !clip(outer, u0, u1).max.lt(
            clip(outer, u0, u1).min,
        ),
{
}

impl AABB {
    /// The ray parameters between which the ray is inside the slab of axis
    /// `axis`.
    pub open spec fn spec_axis_slab(&self, r: Ray, axis: usize) -> Interval {
        let crossing = slab_crossing(
            self.spec_axis_interval(axis),
            r.orig.e[axis as int],
            r.dir.e[axis as int],
        );
        slab(crossing.0, crossing.1)
    }

    /// On every axis the ray is inside the slab of `outer` for all
    /// parameters for which it is inside the slab of `self`.
    pub open spec fn spec_slabs_within(&self, outer: AABB, r: Ray) -> bool {
        &&& self.spec_axis_slab(r, 0).within(outer.spec_axis_slab(r, 0))
        &&& self.spec_axis_slab(r, 1).within(outer.spec_axis_slab(r, 1))
        &&& self.spec_axis_slab(r, 2).within(outer.spec_axis_slab(r, 2))
    }
}

impl AABB {
    /// The ray parameters between which the ray is inside the slab of axis
    /// `axis`, the lesser first.
    pub fn axis_slab(&self, r: &Ray, axis: usize) -> (slab: Interval)
        requires
            axis < 3,
        ensures
            slab == self.spec_axis_slab(*r, axis),
    {
        let ax = self.axis_interval(axis);
        let t0 = ax.min.sub(r.origin().index(axis)).div(r.direction().index(axis));
        let t1 = ax.max.sub(r.origin().index(axis)).div(r.direction().index(axis));
        if t0.lt(t1) {
            Interval { min: t0, max: t1 }
        } else {
            Interval { min: t1, max: t0 }
        }
    }

    /// Whether, on every axis, the ray is inside the slab of `outer` for all
    /// parameters for which it is inside the slab of `self`.
    pub fn slabs_within(&self, outer: &AABB, r: &Ray) -> (b: bool)
        ensures
            b == self.spec_slabs_within(*outer, *r),
    {
        self.axis_slab(r, 0).within(outer.axis_slab(r, 0)) && self.axis_slab(r, 1).within(
            outer.axis_slab(r, 1),
        ) && self.axis_slab(r, 2).within(outer.axis_slab(r, 2))
    }

    /// Whether the slab test with the range `ray_t` takes the ray, and what it
    /// leaves of the range, given as a pair and not through the range.
    pub fn hit_within(&self, r: &Ray, ray_t: Interval) -> (res: (bool, Interval))
        ensures
            res == self.hit_trace(*r, ray_t),
    {
        let mut left = ray_t;
        let taken = self.hit(r, &mut left);
        (taken, left)
    }
}

/// A box with wider slabs takes every ray that a box with narrower slabs
/// takes, and leaves at least as much of the range: where the ray crosses
/// the slabs of `outer` no later on the way in and no earlier on the way out
/// than those of `inner`, and passes the slab test of `inner`, it passes the
/// slab test of `outer`. This speaks of the crossings as they are computed;
/// that the box enclosing two boxes has the wider slabs is a matter of how
/// subtraction and division round and is not shown here.
pub proof fn lemma_wider_slabs_accept(inner: AABB, outer: AABB, r: Ray, ray_t: Interval)
    requires
        ray_t.has_ends(),
        inner.spec_slabs_within(outer, r),
        inner.hit_trace(r, ray_t).0,
    ensures
        outer.hit_trace(r, ray_t).0,
        inner.hit_trace(r, ray_t).1.within(outer.hit_trace(r, ray_t).1),
{
    reveal_with_fuel(AABB::hit_upto, 4);
    assert(ray_t.within(ray_t));
    let a0 = slab_crossing(inner.spec_axis_interval(0), r.orig.e[0], r.dir.e[0]);
    let b0 = slab_crossing(outer.spec_axis_interval(0), r.orig.e[0], r.dir.e[0]);
    lemma_clip_monotone(ray_t, ray_t, a0.0, a0.1, b0.0, b0.1);
    let i1 = inner.clip_axis(r, ray_t, 0);
    let o1 = outer.clip_axis(r, ray_t, 0);
    let a1 = slab_crossing(inner.spec_axis_interval(1), r.orig.e[1], r.dir.e[1]);
    let b1 = slab_crossing(outer.spec_axis_interval(1), r.orig.e[1], r.dir.e[1]);
    lemma_clip_monotone(i1, o1, a1.0, a1.1, b1.0, b1.1);
    let i2 = inner.clip_axis(r, i1, 1);
    let o2 = outer.clip_axis(r, o1, 1);
    let a2 = slab_crossing(inner.spec_axis_interval(2), r.orig.e[2], r.dir.e[2]);
    let b2 = slab_crossing(outer.spec_axis_interval(2), r.orig.e[2], r.dir.e[2]);
    lemma_clip_monotone(i2, o2, a2.0, a2.1, b2.0, b2.1);
}

impl AABB {
    /// Whether `outer` is known to take every ray that `self` takes with the
    /// range `ray_t`: the range has numbers at its ends and the slabs of
    /// `outer` are the wider on every axis. Where that is so and `self` takes
    /// the ray, `outer` takes it and leaves no less of the range.
    pub fn takes_no_more_than(&self, outer: &AABB, r: &Ray, ray_t: Interval) -> (b: bool)
        ensures
            b == (ray_t.has_ends() && self.spec_slabs_within(*outer, *r)),
            b && self.hit_trace(*r, ray_t).0 ==> {
                &&& outer.hit_trace(*r, ray_t).0
                &&& self.hit_trace(*r, ray_t).1.within(outer.hit_trace(*r, ray_t).1)
            },
    {
        let b = ray_t.has_ends() && self.slabs_within(outer, r);
        proof {
            if b && self.hit_trace(*r, ray_t).0 {
                lemma_wider_slabs_accept(*self, *outer, *r, ray_t);
            }
        }
        b
    }

    /// On every axis on which `inner` has numbers at both ends, it reaches no
    /// further than `self`.
    pub open spec fn encloses(&self, inner: AABB) -> bool {
        &&& inner.x.has_ends() ==> inner.x.within(self.x)
        &&& inner.y.has_ends() ==> inner.y.within(self.y)
        &&& inner.z.has_ends() ==> inner.z.within(self.z)
    }
}

/// The box that encloses two boxes encloses each of them.
pub proof fn lemma_enclose_encloses(box1: AABB, box2: AABB)
    ensures
        AABB::enclose(box1, box2).encloses(box1),
        AABB::enclose(box1, box2).encloses(box2),
{
}

/// A box encloses what a box inside it encloses.
pub proof fn lemma_encloses_transitive(outer: AABB, middle: AABB, inner: AABB)
    requires
        outer.encloses(middle),
        middle.encloses(inner),
    ensures
        outer.encloses(inner),
{
}

} // verus!

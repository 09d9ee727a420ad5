//! The bounding-volume hierarchy: a binary tree of boxes over the objects of
//! a scene, which lets a ray skip every subtree whose box it misses.

use vstd::prelude::*;
use vstd::arithmetic::div_mod::{
    lemma_fundamental_div_mod, lemma_fundamental_div_mod_converse_mod, lemma_mod_pos_bound,
};
use std::rc::Rc;
use crate::aabb::{
    lemma_enclose_encloses, lemma_encloses_transitive, lemma_hit_narrows, AABB, AABBParameter,
};
use crate::hittable::{bounds_hits, hits_cohere, HitRecord, Hittable};
use crate::hittable_list::{closest_hit, lemma_closest_hit_concat, remaining, HittableList};
use crate::interval::Interval;
use crate::ray::Ray;
use crate::rtweekend::random_below;

verus! {

/// One side of a node: an object of the scene, or a node below.
pub enum BVHChild<H: Hittable> {
    Leaf(Rc<H>),
    Node(Box<BVHNode<H>>),
}

/// A node of the hierarchy: two children and the box that encloses both.
pub struct BVHNode<H: Hittable> {
    pub left: BVHChild<H>,
    pub right: BVHChild<H>,
    pub bbox: AABB,
}

/// What a hierarchy is built from.
pub enum BVHParameter<H: Hittable> {
    /// The objects of a list.
    HittableList(HittableList<H>),
    /// The objects given.
    Objects { objects: Vec<Rc<H>> },
}

/// The place of an object in the order along `axis`: that of the lower end of
/// its box on that axis, in the total order of scalars.
pub open spec fn box_key<H: Hittable>(object: Rc<H>, axis: usize) -> int {
    object.bounding_box_spec().spec_axis_interval(axis).min.total_rank()
}

/// `sorted` with `object` put in behind the last object whose key does not
/// exceed its own.
pub open spec fn insert_by_key<H: Hittable>(sorted: Seq<Rc<H>>, object: Rc<H>, axis: usize) -> Seq<
    Rc<H>,
>
    decreases sorted.len(),
{
    if sorted.len() == 0 {
        seq![object]
    } else if box_key(sorted.last(), axis) <= box_key(object, axis) {
        sorted.push(object)
    } else {
        insert_by_key(sorted.drop_last(), object, axis).push(sorted.last())
    }
}

/// The objects in the order of their keys along `axis`, objects of equal keys
/// in the order in which they stand in `objects`.
pub open spec fn sort_by_axis<H: Hittable>(objects: Seq<Rc<H>>, axis: usize) -> Seq<Rc<H>>
    decreases objects.len(),
{
    if objects.len() == 0 {
        Seq::empty()
    } else {
        insert_by_key(sort_by_axis(objects.drop_last(), axis), objects.last(), axis)
    }
}

/// The keys along `axis` never fall from one object to the next.
pub open spec fn ordered_by_axis<H: Hittable>(objects: Seq<Rc<H>>, axis: usize) -> bool {
    forall|i: int, j: int|
        0 <= i <= j < objects.len() ==> box_key(objects[i], axis) <= box_key(objects[j], axis)
}

/// Putting an object in adds one object, keeps the order of the keys and
/// keeps every object that was there.
pub proof fn lemma_insert_by_key<H: Hittable>(sorted: Seq<Rc<H>>, object: Rc<H>, axis: usize)
    ensures
        insert_by_key(sorted, object, axis).len() == sorted.len() + 1,
        insert_by_key(sorted, object, axis).to_multiset() == sorted.to_multiset().insert(object),
        ordered_by_axis(sorted, axis) ==> ordered_by_axis(insert_by_key(sorted, object, axis), axis),
    decreases sorted.len(),
{
    broadcast use vstd::seq_lib::group_to_multiset_ensures;

    let result = insert_by_key(sorted, object, axis);
    if sorted.len() == 0 {
        assert(sorted =~= Seq::empty());
        assert(result =~= sorted.push(object));
    } else if box_key(sorted.last(), axis) <= box_key(object, axis) {
    } else {
        let front = sorted.drop_last();
        let inner = insert_by_key(front, object, axis);
        lemma_insert_by_key(front, object, axis);
        assert(sorted =~= front.push(sorted.last()));
        assert(result.to_multiset() =~= sorted.to_multiset().insert(object));
        if ordered_by_axis(sorted, axis) {
            assert(ordered_by_axis(front, axis));
            assert forall|i: int, j: int| 0 <= i <= j < result.len() implies box_key(
                result[i],
                axis,
            ) <= box_key(result[j], axis) by {
                if j < inner.len() {
                } else if i < inner.len() {
                    // every object of `inner` is `object` or an object of `front`
                    assert(inner.to_multiset().count(inner[i]) > 0);
                    if inner[i] != object {
                        assert(front.to_multiset().count(inner[i]) > 0);
                        assert(front.contains(inner[i]));
                        let k = choose|k: int| 0 <= k < front.len() && front[k] == inner[i];
                        assert(box_key(sorted[k], axis) <= box_key(
                            sorted[sorted.len() - 1],
                            axis,
                        ));
                    }
                }
            }
        }
    }
}

/// Sorting keeps the number of objects and the objects themselves, and puts
/// their keys in order.
pub proof fn lemma_sort_by_axis<H: Hittable>(objects: Seq<Rc<H>>, axis: usize)
    ensures
        sort_by_axis(objects, axis).len() == objects.len(),
        sort_by_axis(objects, axis).to_multiset() == objects.to_multiset(),
        ordered_by_axis(sort_by_axis(objects, axis), axis),
    decreases objects.len(),
{
    broadcast use vstd::seq_lib::group_to_multiset_ensures;

    if objects.len() == 0 {
        assert(objects =~= Seq::empty());
    } else {
        let front = objects.drop_last();
        lemma_sort_by_axis(front, axis);
        lemma_insert_by_key(sort_by_axis(front, axis), objects.last(), axis);
        assert(objects =~= front.push(objects.last()));
    }
}

/// Where `object` goes into `sorted`: in front of the objects from `at` on,
/// given that all of those have greater keys and that the one before them,
/// if there is one, has not.
proof fn lemma_insert_position<H: Hittable>(
    sorted: Seq<Rc<H>>,
    object: Rc<H>,
    axis: usize,
    at: int,
)
    requires
        0 <= at <= sorted.len(),
        forall|k: int| at <= k < sorted.len() ==> box_key(sorted[k], axis) > box_key(object, axis),
        at > 0 ==> box_key(sorted[at - 1], axis) <= box_key(object, axis),
    ensures
        insert_by_key(sorted, object, axis) == sorted.insert(at, object),
    decreases sorted.len(),
{
    if sorted.len() == 0 {
        assert(sorted.insert(at, object) =~= seq![object]);
    } else if at == sorted.len() {
        assert(sorted.insert(at, object) =~= sorted.push(object));
    } else {
        let front = sorted.drop_last();
        lemma_insert_position(front, object, axis, at);
        assert(sorted.insert(at, object) =~= front.insert(at, object).push(sorted.last()));
    }
}

/// The number of nodes of the tree over `n` objects: one for one or two
/// objects, and for more, one above the trees over the two halves.
pub open spec fn nodes_built(n: nat) -> nat
    decreases n,
{
    if n <= 2 {
        1
    } else {
        1 + nodes_built(n / 2) + nodes_built((n - n / 2) as nat)
    }
}

/// The axis that the node with the number `turn` takes from `axes`. The
/// nodes take the axes in turn and start over when the list is used up. The
/// entry 0 stands for the first axis, 1 for the second and every other entry
/// for the third.
pub open spec fn axis_in_turn(axes: Seq<usize>, turn: int) -> usize {
    let entry = axes[turn % (axes.len() as int)];
    if entry == 0 {
        0
    } else if entry == 1 {
        1
    } else {
        2
    }
}

/// The place in a list of `len` axes moves on by one, and from the last
/// place to the first.
proof fn lemma_next_turn(turn: int, len: int)
    requires
        0 <= turn,
        0 < len,
    ensures
        0 <= turn % len < len,
        (turn + 1) % len == (if turn % len + 1 == len {
            0
        } else {
            turn % len + 1
        }),
{
    lemma_mod_pos_bound(turn, len);
    lemma_fundamental_div_mod(turn, len);
    let q = turn / len;
    let r = turn % len;
    assert(turn == len * q + r);
    if r + 1 == len {
        assert(turn + 1 == (q + 1) * len + 0) by (nonlinear_arith)
            requires
                turn == len * q + r,
                r + 1 == len,
        ;
        lemma_fundamental_div_mod_converse_mod(turn + 1, len, q + 1, 0);
    } else {
        assert(turn + 1 == q * len + (r + 1)) by (nonlinear_arith)
            requires
                turn == len * q + r,
        ;
        lemma_fundamental_div_mod_converse_mod(turn + 1, len, q, r + 1);
    }
}

impl<H: Hittable> BVHParameter<H> {
    /// The objects that the parameter holds.
    pub open spec fn objects(&self) -> Seq<Rc<H>> {
        match self {
            BVHParameter::HittableList(list) => list.objects@,
            BVHParameter::Objects { objects } => objects@,
        }
    }
}

impl<H: Hittable> BVHChild<H> {
    /// The hit of an object, or that of the node below.
    pub open spec fn hit_spec(&self, r: Ray, ray_t: Interval) -> Option<HitRecord>
        decreases self,
    {
        match self {
            BVHChild::Leaf(object) => object.hit_spec(r, ray_t),
            BVHChild::Node(node) => node.node_hit(r, ray_t),
        }
    }

    pub open spec fn bounding_box_spec(&self) -> AABB {
        match self {
            BVHChild::Leaf(object) => object.bounding_box_spec(),
            BVHChild::Node(node) => node.bbox,
        }
    }

    /// The objects below, from left to right.
    pub open spec fn leaves(&self) -> Seq<Rc<H>>
        decreases self,
    {
        match self {
            BVHChild::Leaf(object) => seq![*object],
            BVHChild::Node(node) => node.leaves(),
        }
    }

    /// Every node below has the box that encloses the boxes of its children.
    pub open spec fn wf(&self) -> bool
        decreases self,
    {
        match self {
            BVHChild::Leaf(object) => true,
            BVHChild::Node(node) => node.wf(),
        }
    }

    /// Every node below that the ray gets to, asked with the range that
    /// reaches it, has a box that keeps the hits of the objects below it.
    pub open spec fn boxes_bound(&self, r: Ray, ray_t: Interval) -> bool
        decreases self,
    {
        match self {
            BVHChild::Leaf(object) => true,
            BVHChild::Node(node) => node.boxes_bound(r, ray_t),
        }
    }

    /// No node met on the way of the ray has a right child with a hit nearer
    /// than its left child's.
    pub open spec fn spec_left_first(&self, r: Ray, ray_t: Interval) -> bool
        decreases self,
    {
        match self {
            BVHChild::Leaf(object) => true,
            BVHChild::Node(node) => node.spec_left_first(r, ray_t),
        }
    }

    /// Whether no node met on the way of the ray has a right child with a hit
    /// nearer than its left child's.
    pub fn left_first(&self, r: &Ray, ray_t: Interval) -> (b: bool)
        ensures
            b == self.spec_left_first(*r, ray_t),
        decreases self,
    {
        match self {
            BVHChild::Leaf(object) => true,
            BVHChild::Node(node) => node.left_first(r, ray_t),
        }
    }

    pub fn hit(&self, r: &Ray, ray_t: Interval) -> (res: Option<HitRecord>)
        ensures
            res == self.hit_spec(*r, ray_t),
        decreases self,
    {
        match self {
            BVHChild::Leaf(object) => object.hit(r, ray_t),
            BVHChild::Node(node) => node.hit_node(r, ray_t),
        }
    }

    pub fn bounding_box(&self) -> (bbox: AABB)
        ensures
            bbox == self.bounding_box_spec(),
    {
        match self {
            BVHChild::Leaf(object) => object.bounding_box(),
            BVHChild::Node(node) => node.bbox,
        }
    }
}

impl<H: Hittable> BVHNode<H> {
    /// No hit where the ray misses the box within `ray_t`. Else the left
    /// child is asked for a hit within the range that the box left of
    /// `ray_t`, then the right child for one below the left child's; the
    /// answer is the left child's hit where it has one, else the right
    /// child's.
    pub open spec fn node_hit(&self, r: Ray, ray_t: Interval) -> Option<HitRecord>
        decreases self,
    {
        let boxed = self.bbox.hit_trace(r, ray_t);
        if !boxed.0 {
            None
        } else {
            let hit_left = self.left.hit_spec(r, boxed.1);
            let hit_right = self.right.hit_spec(r, remaining(boxed.1, hit_left));
            match hit_left {
                Some(rec) => Some(rec),
                None => hit_right,
            }
        }
    }

    /// The objects below, from left to right. The object of a node over a
    /// single object stands twice.
    pub open spec fn leaves(&self) -> Seq<Rc<H>>
        decreases self,
    {
        self.left.leaves() + self.right.leaves()
    }

    /// This node and every node below has the box that encloses the boxes of
    /// its children.
    pub open spec fn wf(&self) -> bool
        decreases self,
    {
        &&& self.bbox == AABB::enclose(self.left.bounding_box_spec(), self.right.bounding_box_spec())
        &&& self.left.wf()
        &&& self.right.wf()
    }

    /// This node, reached with the range `ray_t`, and every node below that
    /// the ray gets to, asked with the range that reaches it, has a box that
    /// keeps the hits of the objects below it: whatever hit an object
    /// reports within the range lies strictly inside what the box leaves of
    /// the range.
    pub open spec fn boxes_bound(&self, r: Ray, ray_t: Interval) -> bool
        decreases self,
    {
        let boxed = self.bbox.hit_trace(r, ray_t);
        &&& forall|i: int|
            0 <= i < self.leaves().len() ==> bounds_hits(
                self.bbox,
                #[trigger] self.leaves()[i],
                r,
                ray_t,
            )
        &&& boxed.0 ==> {
            let hit_left = self.left.hit_spec(r, boxed.1);
            &&& self.left.boxes_bound(r, boxed.1)
            &&& self.right.boxes_bound(r, remaining(boxed.1, hit_left))
        }
    }

    /// Neither this node nor a node below that the ray gets to, asked with
    /// the range that reaches it, has a right child with a hit nearer than
    /// its left child's.
    pub open spec fn spec_left_first(&self, r: Ray, ray_t: Interval) -> bool
        decreases self,
    {
        let boxed = self.bbox.hit_trace(r, ray_t);
        boxed.0 ==> {
            let hit_left = self.left.hit_spec(r, boxed.1);
            &&& hit_left is Some ==> self.right.hit_spec(r, remaining(boxed.1, hit_left)) is None
            &&& self.left.spec_left_first(r, boxed.1)
            &&& self.right.spec_left_first(r, remaining(boxed.1, hit_left))
        }
    }

    /// The children are nodes built from the two halves of `objects` as
    /// sorted along `axis`: the left from the first half, rounded down, the
    /// right from the rest.
    pub open spec fn halves_built(&self, objects: Seq<Rc<H>>, axis: usize) -> bool
        decreases self, 0nat,
    {
        let sorted = sort_by_axis(objects, axis);
        let mid = objects.len() / 2;
        match (self.left, self.right) {
            (BVHChild::Node(l), BVHChild::Node(rn)) => {
                &&& l.built_from(sorted.subrange(0, mid as int))
                &&& rn.built_from(sorted.subrange(mid as int, objects.len() as int))
            },
            _ => false,
        }
    }

    /// Whether this is a tree that `new` may build from `objects`. A single
    /// object becomes both children. Two objects become the left and the
    /// right child. Three or more are sorted along one of the three axes and
    /// halved, and each half is built into a child. The box of every node
    /// encloses the boxes of its children.
    pub open spec fn built_from(&self, objects: Seq<Rc<H>>) -> bool
        decreases self, 1nat,
    {
        &&& self.bbox == AABB::enclose(self.left.bounding_box_spec(), self.right.bounding_box_spec())
        &&& if objects.len() == 1 {
            self.left == BVHChild::Leaf(objects[0]) && self.right == BVHChild::Leaf(objects[0])
        } else if objects.len() == 2 {
            self.left == BVHChild::Leaf(objects[0]) && self.right == BVHChild::Leaf(objects[1])
        } else {
            &&& objects.len() >= 3
            &&& (self.halves_built(objects, 0) || self.halves_built(objects, 1)
                || self.halves_built(objects, 2))
        }
    }

    /// Whether this is the tree over `objects` in which the nodes take their
    /// axes from `axes` in turn, this node having the number `turn`, the
    /// nodes of its left child the numbers that follow, and those of its
    /// right child the numbers after these. A node over one or two objects
    /// takes its turn and makes no use of the axis.
    pub open spec fn built_in_turn(&self, objects: Seq<Rc<H>>, axes: Seq<usize>, turn: int) -> bool
        decreases self,
    {
        &&& self.bbox == AABB::enclose(self.left.bounding_box_spec(), self.right.bounding_box_spec())
        &&& if objects.len() == 1 {
            self.left == BVHChild::Leaf(objects[0]) && self.right == BVHChild::Leaf(objects[0])
        } else if objects.len() == 2 {
            self.left == BVHChild::Leaf(objects[0]) && self.right == BVHChild::Leaf(objects[1])
        } else {
            let sorted = sort_by_axis(objects, axis_in_turn(axes, turn));
            let mid = objects.len() / 2;
            &&& objects.len() >= 3
            &&& match (self.left, self.right) {
                (BVHChild::Node(l), BVHChild::Node(rn)) => {
                    &&& l.built_in_turn(sorted.subrange(0, mid as int), axes, turn + 1)
                    &&& rn.built_in_turn(
                        sorted.subrange(mid as int, objects.len() as int),
                        axes,
                        turn + 1 + nodes_built(mid),
                    )
                },
                _ => false,
            }
        }
    }

    /// The hierarchy over the objects of `param`, of which there is at least
    /// one, with the axes of its nodes taken in turn from `axes`, which holds
    /// one axis at least: the root takes the first, then come the nodes of
    /// the left child, then those of the right.
    pub fn new_with_axes(param: BVHParameter<H>, axes: &Vec<usize>) -> (node: BVHNode<H>)
        requires
            param.objects().len() > 0,
            axes@.len() > 0,
        ensures
            node.built_in_turn(param.objects(), axes@, 0),
            node.built_from(param.objects()),
    {
        let objects = match param {
            BVHParameter::HittableList(list) => list.objects,
            BVHParameter::Objects { objects } => objects,
        };
        proof {
            lemma_next_turn(0, axes@.len() as int);
        }
        let built = BVHNode::build_in_turn(objects, axes, 0, Ghost(0));
        proof {
            lemma_built_in_turn_is_built(built.0, objects@, axes@, 0);
        }
        built.0
    }

    /// The tree whose root has the number `turn`, and the place in `axes` of
    /// the first node after the tree.
    fn build_in_turn(
        objects: Vec<Rc<H>>,
        axes: &Vec<usize>,
        at: usize,
        Ghost(turn): Ghost<int>,
    ) -> (built: (BVHNode<H>, usize))
        requires
            objects@.len() > 0,
            0 <= turn,
            at < axes@.len(),
            at == turn % (axes@.len() as int),
        ensures
            built.0.built_in_turn(objects@, axes@, turn),
            built.1 < axes@.len(),
            built.1 == (turn + nodes_built(objects@.len())) % (axes@.len() as int),
        decreases objects@.len(),
    {
        let entry = axes[at];
        let axis: usize = if entry == 0 {
            0
        } else if entry == 1 {
            1
        } else {
            2
        };
        let mut next: usize = if at == axes.len() - 1 {
            0
        } else {
            at + 1
        };
        proof {
            lemma_next_turn(turn, axes@.len() as int);
        }
        let left: BVHChild<H>;
        let right: BVHChild<H>;
        let object_span = objects.len();
        if object_span == 1 {
            left = BVHChild::Leaf(objects[0].clone());
            right = BVHChild::Leaf(objects[0].clone());
        } else if object_span == 2 {
            left = BVHChild::Leaf(objects[0].clone());
            right = BVHChild::Leaf(objects[1].clone());
        } else {
            proof {
                lemma_sort_by_axis(objects@, axis);
            }
            let halves = split_by_axis(&objects, axis);
            let ghost mid = (objects@.len() / 2) as nat;
            let built_left = BVHNode::build_in_turn(halves.0, axes, next, Ghost(turn + 1));
            let built_right = BVHNode::build_in_turn(
                halves.1,
                axes,
                built_left.1,
                Ghost(turn + 1 + nodes_built(mid)),
            );
            next = built_right.1;
            left = BVHChild::Node(Box::new(built_left.0));
            right = BVHChild::Node(Box::new(built_right.0));
        }
        let bbox = AABB::new(
            AABBParameter::Box { box1: left.bounding_box(), box2: right.bounding_box() },
        );
        (BVHNode { left, right, bbox }, next)
    }

    /// The hierarchy over the objects of `param`, of which there is at least
    /// one. The axis along which a node with three or more objects sorts them
    /// is picked at random.
    pub fn new(param: BVHParameter<H>) -> (node: BVHNode<H>)
        requires
            param.objects().len() > 0,
        ensures
            node.built_from(param.objects()),
    {
        let objects = match param {
            BVHParameter::HittableList(list) => list.objects,
            BVHParameter::Objects { objects } => objects,
        };
        BVHNode::build_with_objects(objects)
    }

    fn build_with_objects(objects: Vec<Rc<H>>) -> (node: BVHNode<H>)
        requires
            objects@.len() > 0,
        ensures
            node.built_from(objects@),
        decreases objects@.len(),
    {
        let axis = random_below(3);
        let left: BVHChild<H>;
        let right: BVHChild<H>;
        let object_span = objects.len();
        if object_span == 1 {
            left = BVHChild::Leaf(objects[0].clone());
            right = BVHChild::Leaf(objects[0].clone());
        } else if object_span == 2 {
            left = BVHChild::Leaf(objects[0].clone());
            right = BVHChild::Leaf(objects[1].clone());
        } else {
            proof {
                lemma_sort_by_axis(objects@, axis);
            }
            let halves = split_by_axis(&objects, axis);
            left = BVHChild::Node(Box::new(BVHNode::build_with_objects(halves.0)));
            right = BVHChild::Node(Box::new(BVHNode::build_with_objects(halves.1)));
        }
        let bbox = AABB::new(
            AABBParameter::Box { box1: left.bounding_box(), box2: right.bounding_box() },
        );
        let node = BVHNode { left, right, bbox };
        proof {
            if object_span > 2 {
                assert(node.halves_built(objects@, axis));
            }
        }
        node
    }

    /// Whether neither this node nor a node below that the ray gets to, asked
    /// with the range that reaches it, has a right child with a hit nearer
    /// than its left child's.
    pub fn left_first(&self, r: &Ray, ray_t: Interval) -> (b: bool)
        ensures
            b == self.spec_left_first(*r, ray_t),
        decreases self,
    {
        let boxed = self.bbox.hit_within(r, ray_t);
        if !boxed.0 {
            return true;
        }
        let hit_left = self.left.hit(r, boxed.1);
        let below = match &hit_left {
            Some(rec) => Interval { min: boxed.1.min, max: rec.t },
            None => boxed.1,
        };
        if hit_left.is_some() && self.right.hit(r, below).is_some() {
            return false;
        }
        self.left.left_first(r, boxed.1) && self.right.left_first(r, below)
    }

    pub fn hit_node(&self, r: &Ray, ray_t: Interval) -> (res: Option<HitRecord>)
        ensures
            res == self.node_hit(*r, ray_t),
        decreases self,
    {
        let mut ray_t = ray_t;
        if !self.bbox.hit(r, &mut ray_t) {
            return None;
        }
        let hit_left = self.left.hit(r, ray_t);
        let upper = match &hit_left {
            Some(rec) => rec.t,
            None => ray_t.max,
        };
        let hit_right = self.right.hit(r, Interval { min: ray_t.min, max: upper });
        match hit_left {
            Some(rec) => Some(rec),
            None => hit_right,
        }
    }
}

/// Whether the box of `a` starts no later along `axis` than the box of `b`.
pub fn box_before<H: Hittable>(a: &Rc<H>, b: &Rc<H>, axis: usize) -> (r: bool)
    ensures
        r == (box_key(*a, axis) <= box_key(*b, axis)),
{
    let a_box = a.bounding_box();
    let b_box = b.bounding_box();
    a_box.axis_interval(axis).min.total_le(b_box.axis_interval(axis).min)
}

/// The objects sorted along `axis`.
pub fn sorted_by_axis<H: Hittable>(objects: &Vec<Rc<H>>, axis: usize) -> (sorted: Vec<Rc<H>>)
    ensures
        sorted@ == sort_by_axis(objects@, axis),
{
    let mut sorted: Vec<Rc<H>> = Vec::new();
    let mut i: usize = 0;
    while i < objects.len()
        invariant
            i <= objects.len(),
            sorted@ == sort_by_axis(objects@.subrange(0, i as int), axis),
        decreases objects.len() - i,
    {
        let object = objects[i].clone();
        let mut at: usize = sorted.len();
        while at > 0 && !box_before(&sorted[at - 1], &object, axis)
            invariant
                at <= sorted.len(),
                forall|k: int|
                    at <= k < sorted.len() ==> box_key(sorted@[k], axis) > box_key(object, axis),
            decreases at,
        {
            at -= 1;
        }
        proof {
            lemma_insert_position(sorted@, object, axis, at as int);
            let taken = objects@.subrange(0, i + 1);
            assert(taken.drop_last() =~= objects@.subrange(0, i as int));
            assert(taken.last() == object);
        }
        sorted.insert(at, object);
        i += 1;
    }
    proof {
        assert(objects@.subrange(0, i as int) =~= objects@);
    }
    sorted
}

/// The two halves of the objects as sorted along `axis`: the first half,
/// rounded down, and the rest.
pub fn split_by_axis<H: Hittable>(objects: &Vec<Rc<H>>, axis: usize) -> (halves: (
    Vec<Rc<H>>,
    Vec<Rc<H>>,
))
    ensures
        halves.0@ == sort_by_axis(objects@, axis).subrange(0, (objects@.len() / 2) as int),
        halves.1@ == sort_by_axis(objects@, axis).subrange(
            (objects@.len() / 2) as int,
            objects@.len() as int,
        ),
{
    let mut sorted = sorted_by_axis(objects, axis);
    proof {
        lemma_sort_by_axis(objects@, axis);
    }
    let mid = objects.len() / 2;
    let rest = sorted.split_off(mid);
    (sorted, rest)
}

impl<H: Hittable> Hittable for BVHNode<H> {
    open spec fn hit_spec(&self, r: Ray, ray_t: Interval) -> Option<HitRecord> {
        self.node_hit(r, ray_t)
    }

    open spec fn bounding_box_spec(&self) -> AABB {
        self.bbox
    }

    fn hit(&self, r: &Ray, ray_t: Interval) -> (res: Option<HitRecord>) {
        self.hit_node(r, ray_t)
    }

    fn bounding_box(&self) -> (bbox: AABB) {
        self.bbox
    }
}

/// A tree built with axes taken in turn is one of the trees that can be
/// built from the objects.
pub proof fn lemma_built_in_turn_is_built<H: Hittable>(
    node: BVHNode<H>,
    objects: Seq<Rc<H>>,
    axes: Seq<usize>,
    turn: int,
)
    requires
        node.built_in_turn(objects, axes, turn),
    ensures
        node.built_from(objects),
    decreases node,
{
    if objects.len() >= 3 {
        let axis = axis_in_turn(axes, turn);
        let sorted = sort_by_axis(objects, axis);
        let mid = objects.len() / 2;
        match (node.left, node.right) {
            (BVHChild::Node(l), BVHChild::Node(rn)) => {
                lemma_built_in_turn_is_built(*l, sorted.subrange(0, mid as int), axes, turn + 1);
                lemma_built_in_turn_is_built(
                    *rn,
                    sorted.subrange(mid as int, objects.len() as int),
                    axes,
                    turn + 1 + nodes_built(mid),
                );
                assert(node.halves_built(objects, axis));
            },
            _ => {},
        }
    }
}

/// The boxes of a tree built from objects enclose, node by node, the boxes
/// of the children.
pub proof fn lemma_built_is_wf<H: Hittable>(node: BVHNode<H>, objects: Seq<Rc<H>>)
    requires
        node.built_from(objects),
    ensures
        node.wf(),
    decreases node,
{
    if objects.len() >= 3 {
        let axis: usize = if node.halves_built(objects, 0) {
            0
        } else if node.halves_built(objects, 1) {
            1
        } else {
            2
        };
        let sorted = sort_by_axis(objects, axis);
        let mid = (objects.len() / 2) as int;
        match (node.left, node.right) {
            (BVHChild::Node(l), BVHChild::Node(rn)) => {
                lemma_built_is_wf(*l, sorted.subrange(0, mid));
                lemma_built_is_wf(*rn, sorted.subrange(mid, objects.len() as int));
            },
            _ => {},
        }
    }
}

/// The box of a node encloses the box of every object below it, where every
/// node has the box that encloses the boxes of its children.
pub proof fn lemma_node_box_encloses<H: Hittable>(node: BVHNode<H>, i: int)
    requires
        node.wf(),
        0 <= i < node.leaves().len(),
    ensures
        node.bbox.encloses(node.leaves()[i].bounding_box_spec()),
    decreases node,
{
    let ll = node.left.leaves();
    lemma_enclose_encloses(node.left.bounding_box_spec(), node.right.bounding_box_spec());
    let child = if i < ll.len() {
        node.left
    } else {
        node.right
    };
    let k = if i < ll.len() {
        i
    } else {
        i - ll.len()
    };
    assert(child.leaves()[k] == node.leaves()[i]);
    match child {
        BVHChild::Leaf(object) => {},
        BVHChild::Node(below) => {
            lemma_node_box_encloses(*below, k);
            lemma_encloses_transitive(
                node.bbox,
                below.bbox,
                node.leaves()[i].bounding_box_spec(),
            );
        },
    }
}

/// The leaves of a tree built from objects are those objects: every object
/// is a leaf and every leaf is one of the objects. (An object that a node
/// holds alone is both of its leaves.)
pub proof fn lemma_built_leaves<H: Hittable>(node: BVHNode<H>, objects: Seq<Rc<H>>)
    requires
        objects.len() > 0,
        node.built_from(objects),
    ensures
        forall|object: Rc<H>| node.leaves().contains(object) <==> objects.contains(object),
        objects.len() <= node.leaves().len() <= 2 * objects.len(),
    decreases node,
{
    broadcast use vstd::seq_lib::group_to_multiset_ensures;

    let leaves = node.leaves();
    if objects.len() == 1 {
        assert(leaves =~= seq![objects[0], objects[0]]);
        assert(leaves[0] == objects[0]);
        assert forall|object: Rc<H>| leaves.contains(object) <==> objects.contains(
            object,
        ) by {
            if objects.contains(object) {
                assert(leaves[0] == object);
            }
        }
    } else if objects.len() == 2 {
        assert(leaves =~= seq![objects[0], objects[1]]);
        assert(leaves[0] == objects[0]);
        assert(leaves[1] == objects[1]);
        assert forall|object: Rc<H>| leaves.contains(object) <==> objects.contains(
            object,
        ) by {
            if objects.contains(object) {
                assert(leaves[0] == object || leaves[1] == object);
            }
        }
    } else {
        let axis: usize = if node.halves_built(objects, 0) {
            0
        } else if node.halves_built(objects, 1) {
            1
        } else {
            2
        };
        let sorted = sort_by_axis(objects, axis);
        lemma_sort_by_axis(objects, axis);
        let n = objects.len() as int;
        let mid = n / 2;
        let first = sorted.subrange(0, mid);
        let second = sorted.subrange(mid, n);
        assert(sorted.len() == n);
        assert(first.len() == mid);
        assert(second.len() == n - mid);
        match (node.left, node.right) {
            (BVHChild::Node(l), BVHChild::Node(rn)) => {
                lemma_built_leaves(*l, first);
                lemma_built_leaves(*rn, second);
                let ll = l.leaves();
                let rl = rn.leaves();
                assert(leaves == ll + rl);
                assert forall|object: Rc<H>| leaves.contains(object) <==> objects.contains(
                    object,
                ) by {
                    if leaves.contains(object) {
                        let i = choose|i: int| 0 <= i < leaves.len() && leaves[i] == object;
                        if i < ll.len() {
                            assert(ll[i] == object);
                            assert(first.contains(object));
                            let k = choose|k: int| 0 <= k < first.len() && first[k] == object;
                            assert(sorted[k] == object);
                        } else {
                            assert(rl[i - ll.len()] == object);
                            assert(second.contains(object));
                            let k = choose|k: int| 0 <= k < second.len() && second[k] == object;
                            assert(sorted[mid + k] == object);
                        }
                        assert(sorted.contains(object));
                        assert(sorted.to_multiset().count(object) > 0);
                    }
                    if objects.contains(object) {
                        assert(objects.to_multiset().count(object) > 0);
                        assert(sorted.contains(object));
                        let k = choose|k: int| 0 <= k < sorted.len() && sorted[k] == object;
                        if k < mid {
                            assert(first[k] == object);
                            assert(first.contains(object));
                            assert(ll.contains(object));
                            let i = choose|i: int| 0 <= i < ll.len() && ll[i] == object;
                            assert(leaves[i] == object);
                        } else {
                            assert(second[k - mid] == object);
                            assert(second.contains(object));
                            assert(rl.contains(object));
                            let i = choose|i: int| 0 <= i < rl.len() && rl[i] == object;
                            assert(leaves[ll.len() + i] == object);
                        }
                    }
                }
            },
            _ => {},
        }
    }
}

/// Where a box that keeps the hits of the objects within a range turns the
/// ray away, a search through the objects in that range finds nothing.
proof fn lemma_search_of_missed_box<H: Hittable>(
    bbox: AABB,
    objects: Seq<Rc<H>>,
    r: Ray,
    ray_t: Interval,
    n: nat,
)
    requires
        n <= objects.len(),
        ray_t.has_ends(),
        forall|i: int| 0 <= i < objects.len() ==> bounds_hits(bbox, #[trigger] objects[i], r, ray_t),
        !bbox.hit_trace(r, ray_t).0,
    ensures
        closest_hit(objects, r, ray_t, n) is None,
    decreases n,
{
    if n > 0 {
        lemma_search_of_missed_box(bbox, objects, r, ray_t, (n - 1) as nat);
        let object = objects[n - 1];
        assert(bounds_hits(bbox, object, r, ray_t));
        assert(ray_t.within(ray_t));
        assert(object.hit_spec(r, ray_t) is None);
    }
}

/// A search is the same in the range `asked` and in its part `cut` that a
/// box leaves, where the box keeps the hits that the objects have within
/// `ray_t`: `boxed` is what
/// the slab test leaves of a range `ray_t` that `asked` lies within, and
/// `cut` holds what both `asked` and `boxed` surround.
proof fn lemma_search_in_box<H: Hittable>(
    bbox: AABB,
    objects: Seq<Rc<H>>,
    r: Ray,
    ray_t: Interval,
    asked: Interval,
    cut: Interval,
    n: nat,
)
    requires
        n <= objects.len(),
        forall|i: int| 0 <= i < objects.len() ==> hits_cohere(#[trigger] objects[i], r),
        forall|i: int| 0 <= i < objects.len() ==> bounds_hits(bbox, #[trigger] objects[i], r, ray_t),
        asked.within(ray_t),
        cut.within(asked),
        cut.min == bbox.hit_trace(r, ray_t).1.min,
        cut.max.le(bbox.hit_trace(r, ray_t).1.max),
        cut.max == asked.max || cut.max == bbox.hit_trace(r, ray_t).1.max,
    ensures
        closest_hit(objects, r, asked, n) == closest_hit(objects, r, cut, n),
        closest_hit(objects, r, cut, n) matches Some(rec) ==> cut.surrounds(rec.t),
    decreases n,
{
    if n > 0 {
        lemma_search_in_box(bbox, objects, r, ray_t, asked, cut, (n - 1) as nat);
        let before = closest_hit(objects, r, cut, (n - 1) as nat);
        let wide = remaining(asked, before);
        let narrow = remaining(cut, before);
        let boxed = bbox.hit_trace(r, ray_t).1;
        let object = objects[n - 1];
        assert(hits_cohere(object, r));
        assert(bounds_hits(bbox, object, r, ray_t));
        assert(narrow.within(wide));
        assert(wide.within(ray_t));
        assert(wide.within(wide));
        assert(narrow.within(narrow));
        match object.hit_spec(r, wide) {
            Some(rec) => {
                assert(wide.surrounds(rec.t));
                assert(boxed.surrounds(rec.t));
                assert(narrow.surrounds(rec.t));
                assert(object.hit_spec(r, narrow) == Some(rec));
            },
            None => {
                assert(object.hit_spec(r, narrow) is None);
            },
        }
        assert(object.hit_spec(r, narrow) matches Some(rec) ==> narrow.surrounds(rec.t));
    }
}

/// The hits of the leaves of a child fit together where those of the node
/// do, and are kept by the box of the node where those of the node's leaves
/// are.
proof fn lemma_leaves_of_children<H: Hittable>(node: BVHNode<H>, r: Ray, ray_t: Interval)
    requires
        forall|i: int|
            0 <= i < node.leaves().len() ==> hits_cohere(#[trigger] node.leaves()[i], r),
        forall|i: int|
            0 <= i < node.leaves().len() ==> bounds_hits(
                node.bbox,
                #[trigger] node.leaves()[i],
                r,
                ray_t,
            ),
    ensures
        forall|i: int|
            0 <= i < node.left.leaves().len() ==> hits_cohere(
                #[trigger] node.left.leaves()[i],
                r,
            ),
        forall|i: int|
            0 <= i < node.right.leaves().len() ==> hits_cohere(
                #[trigger] node.right.leaves()[i],
                r,
            ),
        forall|i: int|
            0 <= i < node.left.leaves().len() ==> bounds_hits(
                node.bbox,
                #[trigger] node.left.leaves()[i],
                r,
                ray_t,
            ),
        forall|i: int|
            0 <= i < node.right.leaves().len() ==> bounds_hits(
                node.bbox,
                #[trigger] node.right.leaves()[i],
                r,
                ray_t,
            ),
{
    let ll = node.left.leaves();
    let rl = node.right.leaves();
    let all = node.leaves();
    assert forall|i: int| 0 <= i < ll.len() implies hits_cohere(#[trigger] ll[i], r)
        && bounds_hits(node.bbox, ll[i], r, ray_t) by {
        assert(all[i] == ll[i]);
    }
    assert forall|i: int| 0 <= i < rl.len() implies hits_cohere(#[trigger] rl[i], r)
        && bounds_hits(node.bbox, rl[i], r, ray_t) by {
        assert(all[ll.len() + i] == rl[i]);
    }
}

/// The hit of a child is the hit that a search through its leaves ends
/// with, under the conditions of `lemma_bvh_hit_is_closest_hit`.
proof fn lemma_child_hit_is_closest_hit<H: Hittable>(child: BVHChild<H>, r: Ray, ray_t: Interval)
    requires
        ray_t.has_ends(),
        forall|i: int|
            0 <= i < child.leaves().len() ==> hits_cohere(#[trigger] child.leaves()[i], r),
        child.boxes_bound(r, ray_t),
        child.spec_left_first(r, ray_t),
    ensures
        child.hit_spec(r, ray_t) == closest_hit(child.leaves(), r, ray_t, child.leaves().len()),
    decreases child, 1nat,
{
    match child {
        BVHChild::Leaf(object) => {
            reveal_with_fuel(closest_hit, 2);
            assert(child.leaves()[0] == object);
        },
        BVHChild::Node(node) => {
            lemma_bvh_hit_is_closest_hit(*node, r, ray_t);
        },
    }
}

/// The hierarchy and the plain search agree. The hit that a node reports
/// for a ray is the hit that a search through its leaves, from left to
/// right, ends with, where
/// - the range asked for has numbers at both ends,
/// - the hits that every leaf reports fit together,
/// - every node that the ray gets to has a box that keeps the hits of the
///   leaves below it: whatever hit a leaf reports within the range that
///   reaches the node lies strictly inside what the box leaves of that
///   range, and
/// - no node that the ray gets to has a right child with a hit nearer than
///   its left child's: a node answers with its left child's hit where there
///   is one, also where the right child's is nearer.
pub proof fn lemma_bvh_hit_is_closest_hit<H: Hittable>(node: BVHNode<H>, r: Ray, ray_t: Interval)
    requires
        ray_t.has_ends(),
        forall|i: int|
            0 <= i < node.leaves().len() ==> hits_cohere(#[trigger] node.leaves()[i], r),
        node.boxes_bound(r, ray_t),
        node.spec_left_first(r, ray_t),
    ensures
        node.node_hit(r, ray_t) == closest_hit(node.leaves(), r, ray_t, node.leaves().len()),
    decreases node, 0nat,
{
    let ll = node.left.leaves();
    let rl = node.right.leaves();
    let boxed = node.bbox.hit_trace(r, ray_t);
    assert(ray_t.within(ray_t));
    lemma_leaves_of_children(node, r, ray_t);
    if !boxed.0 {
        lemma_search_of_missed_box(node.bbox, node.leaves(), r, ray_t, node.leaves().len());
    } else {
        lemma_hit_narrows(node.bbox, r, ray_t);
        let hit_left = node.left.hit_spec(r, boxed.1);
        let hit_right = node.right.hit_spec(r, remaining(boxed.1, hit_left));

        // the left child, and the search through its leaves in the range asked for
        lemma_child_hit_is_closest_hit(node.left, r, boxed.1);
        lemma_search_in_box(node.bbox, ll, r, ray_t, ray_t, boxed.1, ll.len());
        let found = closest_hit(ll, r, ray_t, ll.len());
        assert(found == hit_left);

        // the right child, and the search through its leaves below the left hit
        let below = remaining(ray_t, found);
        let below_boxed = remaining(boxed.1, hit_left);
        lemma_child_hit_is_closest_hit(node.right, r, below_boxed);
        lemma_search_in_box(node.bbox, rl, r, ray_t, below, below_boxed, rl.len());
        assert(closest_hit(rl, r, below, rl.len()) == hit_right);

        lemma_closest_hit_concat(ll, rl, r, ray_t, rl.len());
    }
}

} // verus!

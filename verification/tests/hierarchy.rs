use std::rc::Rc;

use raytracer::bvh::{box_before, sorted_by_axis, split_by_axis, BVHChild, BVHNode, BVHParameter};
use raytracer::hittable::Hittable;
use raytracer::hittable_list::HittableList;
use raytracer::interval::{Interval, IntervalParameter};
use raytracer::material::{Lambertian, MaterialKind};
use raytracer::ray::Ray;
use raytracer::scalar::Scalar;
use raytracer::sphere::{boxes_admit, leaves_admitted, search_is_matched, Sphere};
use raytracer::vec3::Vec3;

fn s(x: f64) -> Scalar {
    Scalar::from_bits(x.to_bits())
}

fn f(x: Scalar) -> f64 {
    f64::from_bits(x.to_bits())
}

fn v(x: f64, y: f64, z: f64) -> Vec3 {
    Vec3::new(s(x), s(y), s(z))
}

fn range(min: f64, max: f64) -> Interval {
    Interval::new(IntervalParameter::Range { min: s(min), max: s(max) })
}

fn ends(iv: Interval) -> (f64, f64) {
    (f(iv.min), f(iv.max))
}

fn forward() -> Interval {
    range(0.001, f64::INFINITY)
}

fn ball(x: f64, y: f64, z: f64, radius: f64) -> Rc<Sphere> {
    let grey = Rc::new(MaterialKind::Lambertian(Lambertian { albedo: v(0.5, 0.5, 0.5) }));
    Rc::new(Sphere::new(v(x, y, z), s(radius), grey))
}

fn centre_x(object: &Rc<Sphere>) -> f64 {
    let b = object.bounding_box();
    (f(b.x.min) + f(b.x.max)) / 2.0
}

fn leaves_of_child(child: &BVHChild<Sphere>, out: &mut Vec<Rc<Sphere>>) {
    match child {
        BVHChild::Leaf(object) => out.push(object.clone()),
        BVHChild::Node(node) => leaves_of(node, out),
    }
}

fn leaves_of(node: &BVHNode<Sphere>, out: &mut Vec<Rc<Sphere>>) {
    leaves_of_child(&node.left, out);
    leaves_of_child(&node.right, out);
}

fn boxes_enclose(node: &BVHNode<Sphere>) {
    let l = node.left.bounding_box();
    let r = node.right.bounding_box();
    assert_eq!(f(node.bbox.x.min), f(l.x.min).min(f(r.x.min)));
    assert_eq!(f(node.bbox.x.max), f(l.x.max).max(f(r.x.max)));
    assert_eq!(f(node.bbox.y.min), f(l.y.min).min(f(r.y.min)));
    assert_eq!(f(node.bbox.y.max), f(l.y.max).max(f(r.y.max)));
    assert_eq!(f(node.bbox.z.min), f(l.z.min).min(f(r.z.min)));
    assert_eq!(f(node.bbox.z.max), f(l.z.max).max(f(r.z.max)));
    for child in [&node.left, &node.right] {
        if let BVHChild::Node(below) = child {
            boxes_enclose(below);
        }
    }
}

#[test]
fn one_object_becomes_both_children() {
    let only = ball(0.0, 0.0, -2.0, 0.5);
    let node = BVHNode::new(BVHParameter::Objects { objects: vec![only.clone()] });
    match (&node.left, &node.right) {
        (BVHChild::Leaf(l), BVHChild::Leaf(r)) => {
            assert!(Rc::ptr_eq(l, &only));
            assert!(Rc::ptr_eq(r, &only));
        }
        _ => panic!("both children are the object"),
    }
    let b = node.bounding_box();
    assert_eq!((ends(b.x), ends(b.y), ends(b.z)), ((-0.5, 0.5), (-0.5, 0.5), (-2.5, -1.5)));
}

#[test]
fn two_objects_become_left_and_right_in_their_order() {
    let a = ball(4.0, 0.0, -2.0, 0.5);
    let b = ball(-4.0, 0.0, -2.0, 1.0);
    let node = BVHNode::new(BVHParameter::Objects { objects: vec![a.clone(), b.clone()] });
    match (&node.left, &node.right) {
        (BVHChild::Leaf(l), BVHChild::Leaf(r)) => {
            assert!(Rc::ptr_eq(l, &a));
            assert!(Rc::ptr_eq(r, &b));
        }
        _ => panic!("both children are objects"),
    }
    let bb = node.bounding_box();
    assert_eq!((ends(bb.x), ends(bb.y), ends(bb.z)), ((-5.0, 4.5), (-1.0, 1.0), (-3.0, -1.0)));
}

#[test]
fn a_hierarchy_from_a_list_takes_its_objects() {
    let mut list = HittableList::new(ball(0.0, 0.0, -2.0, 0.5));
    list.add(ball(3.0, 0.0, -2.0, 0.5));
    let node = BVHNode::new(BVHParameter::HittableList(list));
    let mut leaves = Vec::new();
    leaves_of(&node, &mut leaves);
    assert_eq!(leaves.len(), 2);
    assert_eq!(centre_x(&leaves[0]), 0.0);
    assert_eq!(centre_x(&leaves[1]), 3.0);
}

#[test]
fn sorting_orders_by_the_lower_end_of_the_box() {
    let objects = vec![
        ball(3.0, 9.0, 1.0, 0.5),
        ball(-2.0, 7.0, 2.0, 0.5),
        ball(5.0, 8.0, 3.0, 4.0),
        ball(0.0, 6.0, 0.0, 0.5),
    ];
    let by_x: Vec<f64> = sorted_by_axis(&objects, 0).iter().map(centre_x).collect();
    assert_eq!(by_x, vec![-2.0, 0.0, 5.0, 3.0]);
    let by_y: Vec<f64> = sorted_by_axis(&objects, 1).iter().map(centre_x).collect();
    assert_eq!(by_y, vec![5.0, 0.0, -2.0, 3.0]);
    let by_z: Vec<f64> = sorted_by_axis(&objects, 2).iter().map(centre_x).collect();
    assert_eq!(by_z, vec![5.0, 0.0, 3.0, -2.0]);
    assert!(sorted_by_axis(&Vec::<Rc<Sphere>>::new(), 0).is_empty());
}

#[test]
fn sorting_keeps_the_order_of_equal_keys() {
    let a = ball(1.0, 0.0, 0.0, 0.5);
    let b = ball(1.0, 5.0, 0.0, 0.5);
    let c = ball(0.0, 0.0, 0.0, 0.5);
    let d = ball(1.0, -5.0, 0.0, 0.5);
    let sorted = sorted_by_axis(&vec![a.clone(), b.clone(), c.clone(), d.clone()], 0);
    assert!(Rc::ptr_eq(&sorted[0], &c));
    assert!(Rc::ptr_eq(&sorted[1], &a));
    assert!(Rc::ptr_eq(&sorted[2], &b));
    assert!(Rc::ptr_eq(&sorted[3], &d));
}

#[test]
fn box_before_compares_lower_ends_in_the_total_order() {
    let a = ball(0.0, 0.0, 0.0, 1.0);
    let b = ball(0.5, -3.0, 0.0, 1.0);
    assert!(box_before(&a, &b, 0));
    assert!(!box_before(&b, &a, 0));
    assert!(box_before(&b, &a, 1));
    assert!(box_before(&a, &b, 2));
    assert!(box_before(&b, &a, 2));
    assert!(box_before(&a, &a, 0));
}

#[test]
fn splitting_halves_the_sorted_objects() {
    let objects: Vec<Rc<Sphere>> =
        [4.0, 1.0, 3.0, 0.0, 2.0].iter().map(|x| ball(*x, 0.0, 0.0, 0.25)).collect();
    let (left, right) = split_by_axis(&objects, 0);
    let left: Vec<f64> = left.iter().map(centre_x).collect();
    let right: Vec<f64> = right.iter().map(centre_x).collect();
    assert_eq!(left, vec![0.0, 1.0]);
    assert_eq!(right, vec![2.0, 3.0, 4.0]);
}

#[test]
fn a_built_tree_holds_every_object_and_encloses_them() {
    for n in 1..40usize {
        let objects: Vec<Rc<Sphere>> = (0..n)
            .map(|i| {
                let k = i as f64;
                ball((k * 7.0) % 11.0 - 5.0, (k * 3.0) % 7.0 - 3.0, -10.0 - (k * 5.0) % 13.0, 0.25 + (k % 3.0) * 0.1)
            })
            .collect();
        let node = BVHNode::new(BVHParameter::Objects { objects: objects.clone() });
        boxes_enclose(&node);
        let mut leaves = Vec::new();
        leaves_of(&node, &mut leaves);
        assert!(n <= leaves.len() && leaves.len() <= 2 * n);
        for object in &objects {
            assert!(leaves.iter().any(|leaf| Rc::ptr_eq(leaf, object)));
        }
        for leaf in &leaves {
            assert!(objects.iter().any(|object| Rc::ptr_eq(leaf, object)));
        }
        let list_box = {
            let mut list = HittableList::default();
            for object in &objects {
                list.add(object.clone());
            }
            list.bounding_box()
        };
        let b = node.bounding_box();
        assert_eq!((ends(b.x), ends(b.y), ends(b.z)), (ends(list_box.x), ends(list_box.y), ends(list_box.z)));
    }
}

#[test]
fn three_objects_are_split_one_and_two_along_some_axis() {
    let mut seen = [false; 3];
    for _ in 0..200 {
        let objects = vec![ball(2.0, 0.0, 1.0, 0.25), ball(0.0, 1.0, 2.0, 0.25), ball(1.0, 2.0, 0.0, 0.25)];
        let node = BVHNode::new(BVHParameter::Objects { objects });
        let (left, right) = match (&node.left, &node.right) {
            (BVHChild::Node(l), BVHChild::Node(r)) => (l, r),
            _ => panic!("three objects make two nodes"),
        };
        let mut l = Vec::new();
        leaves_of(left, &mut l);
        let mut r = Vec::new();
        leaves_of(right, &mut r);
        let l: Vec<f64> = l.iter().map(centre_x).collect();
        let r: Vec<f64> = r.iter().map(centre_x).collect();
        if l == vec![0.0, 0.0] {
            assert_eq!(r, vec![1.0, 2.0]);
            seen[0] = true;
        } else if l == vec![2.0, 2.0] {
            assert_eq!(r, vec![0.0, 1.0]);
            seen[1] = true;
        } else {
            assert_eq!(l, vec![1.0, 1.0]);
            assert_eq!(r, vec![2.0, 0.0]);
            seen[2] = true;
        }
    }
    assert_eq!(seen, [true, true, true]);
}

#[test]
fn the_hierarchy_agrees_with_the_list_where_one_object_is_in_the_way() {
    let mut objects = Vec::new();
    for i in 0..6 {
        for j in 0..5 {
            objects.push(ball(i as f64 * 3.0 - 7.5, j as f64 * 3.0 - 6.0, -20.0 - ((i * j) % 4) as f64, 0.9));
        }
    }
    let mut list = HittableList::default();
    for object in &objects {
        list.add(object.clone());
    }
    let node = BVHNode::new(BVHParameter::Objects { objects: objects.clone() });
    let mut hits = 0;
    let mut misses = 0;
    for a in -40..40 {
        for b in -35..35 {
            let ray = Ray::new(v(0.013, -0.007, 0.0), v(a as f64 * 0.0137, b as f64 * 0.0113, -1.0));
            let from_list = list.hit(&ray, forward());
            let from_tree = node.hit(&ray, forward());
            match (from_list, from_tree) {
                (Some(x), Some(y)) => {
                    hits += 1;
                    assert_eq!(f(x.t), f(y.t));
                    assert_eq!(x.front_face, y.front_face);
                    assert_eq!(f(x.p.x()), f(y.p.x()));
                    assert_eq!(f(x.normal.z()), f(y.normal.z()));
                }
                (None, None) => misses += 1,
                (x, y) => panic!("list {:?} tree {:?}", x.map(|r| f(r.t)), y.map(|r| f(r.t))),
            }
        }
    }
    assert!(hits > 300);
    assert!(misses > 300);
}

#[test]
fn on_random_scenes_the_hierarchy_finds_no_hit_that_the_list_does_not_beat() {
    let mut word: u64 = 0x6a09_e667_f3bc_c909;
    let mut next = move || {
        word ^= word << 13;
        word ^= word >> 7;
        word ^= word << 17;
        (word >> 11) as f64 / (1u64 << 53) as f64
    };
    let mut agreed = 0;
    let mut differed = 0;
    let mut missed = 0;
    for _ in 0..40 {
        let count = 1 + (next() * 12.0) as usize;
        let objects: Vec<Rc<Sphere>> = (0..count)
            .map(|_| {
                ball(next() * 20.0 - 10.0, next() * 20.0 - 10.0, next() * 20.0 - 10.0, 0.2 + next() * 2.0)
            })
            .collect();
        let mut list = HittableList::default();
        for object in &objects {
            list.add(object.clone());
        }
        let node = BVHNode::new(BVHParameter::Objects { objects });
        for _ in 0..400 {
            let origin = (next() * 60.0 - 30.0, next() * 60.0 - 30.0, next() * 60.0 - 30.0);
            let target = (next() * 20.0 - 10.0, next() * 20.0 - 10.0, next() * 20.0 - 10.0);
            let ray = Ray::new(
                v(origin.0, origin.1, origin.2),
                v(target.0 - origin.0, target.1 - origin.1, target.2 - origin.2),
            );
            match (list.hit(&ray, forward()), node.hit(&ray, forward())) {
                (None, None) => missed += 1,
                (None, Some(_)) => panic!("the hierarchy hit what the list missed"),
                (Some(_), None) => differed += 1,
                (Some(x), Some(y)) => {
                    assert!(f(x.t) <= f(y.t));
                    if f(x.t) == f(y.t) {
                        agreed += 1;
                    } else {
                        differed += 1;
                    }
                }
            }
        }
    }
    // most rays meet one sphere at most; of the others, some find a nearer
    // sphere on the right of a node that answers with its left
    assert!(agreed > 800, "{agreed} {differed} {missed}");
    assert!(missed > 800, "{agreed} {differed} {missed}");
    assert!(agreed > 10 * differed, "{agreed} {differed} {missed}");
}

#[test]
fn a_node_answers_with_its_left_child_even_where_the_right_is_nearer() {
    let far = ball(0.0, 0.0, -5.0, 1.0);
    let near = ball(0.0, 0.0, -2.0, 0.5);
    let ray = Ray::new(v(0.1, 0.1, 0.0), v(0.0, 0.0, -1.0));
    let t_far = 5.0 - (1.0f64 - 0.02).sqrt();
    let t_near = 2.0 - (0.25f64 - 0.02).sqrt();

    let far_first = BVHNode::new(BVHParameter::Objects { objects: vec![far.clone(), near.clone()] });
    assert!((f(far_first.hit(&ray, forward()).unwrap().t) - t_far).abs() < 1e-12);

    let near_first = BVHNode::new(BVHParameter::Objects { objects: vec![near.clone(), far.clone()] });
    assert!((f(near_first.hit(&ray, forward()).unwrap().t) - t_near).abs() < 1e-12);

    let mut list = HittableList::new(far);
    list.add(near);
    assert!((f(list.hit(&ray, forward()).unwrap().t) - t_near).abs() < 1e-12);
}

#[test]
fn a_hit_on_the_face_of_the_box_is_cut_off() {
    // The ray meets the sphere where the sphere touches its box: the box
    // leaves the range from 0.5 to 1.5, which does not surround 0.5.
    let only = ball(0.0, 0.0, -1.0, 0.5);
    let ray = Ray::new(v(0.0, 0.0, 0.0), v(0.0, 0.0, -1.0));
    assert_eq!(f(only.hit(&ray, forward()).unwrap().t), 0.5);
    let node = BVHNode::new(BVHParameter::Objects { objects: vec![only.clone()] });
    assert!(node.hit(&ray, forward()).is_none());
    let aside = Ray::new(v(0.1, 0.0, 0.0), v(0.0, 0.0, -1.0));
    let expected = f(only.hit(&aside, forward()).unwrap().t);
    assert_eq!(f(node.hit(&aside, forward()).unwrap().t), expected);
}

#[test]
fn a_node_over_one_object_reports_its_hit_once() {
    let only = ball(0.0, 0.0, -3.0, 1.0);
    let node = BVHNode::new(BVHParameter::Objects { objects: vec![only.clone()] });
    let ray = Ray::new(v(0.3, 0.2, 0.0), v(0.0, 0.0, -1.0));
    let expected = only.hit(&ray, forward()).unwrap();
    let got = node.hit(&ray, forward()).unwrap();
    assert_eq!(f(got.t), f(expected.t));
    assert!(got.front_face);
    assert!(node.hit(&Ray::new(v(5.0, 0.0, 0.0), v(0.0, 0.0, -1.0)), forward()).is_none());
}

#[test]
fn hierarchies_nest_in_lists() {
    let node = BVHNode::new(BVHParameter::Objects {
        objects: vec![ball(0.0, 0.0, -3.0, 1.0), ball(4.0, 0.0, -3.0, 1.0)],
    });
    let list = HittableList::new(Rc::new(node));
    let ray = Ray::new(v(0.3, 0.2, 0.0), v(0.0, 0.0, -1.0));
    assert!(list.hit(&ray, forward()).is_some());
    assert_eq!(ends(list.bounding_box().x), (-1.0, 5.0));
}

fn shape(node: &BVHNode<Sphere>) -> String {
    let side = |child: &BVHChild<Sphere>| match child {
        BVHChild::Leaf(object) => format!("{}", centre_x(object)),
        BVHChild::Node(below) => shape(below),
    };
    format!("({} {})", side(&node.left), side(&node.right))
}

fn five() -> Vec<Rc<Sphere>> {
    // x, y and z order the spheres in three different ways
    vec![
        ball(3.0, 10.0, 2.0, 0.25),
        ball(1.0, 30.0, 5.0, 0.25),
        ball(4.0, 20.0, 1.0, 0.25),
        ball(0.0, 50.0, 4.0, 0.25),
        ball(2.0, 40.0, 3.0, 0.25),
    ]
}

#[test]
fn given_axes_are_taken_in_turn_from_the_root_leftwards() {
    let build = |axes: Vec<usize>| shape(&BVHNode::new_with_axes(BVHParameter::Objects { objects: five() }, &axes));
    // root along x: [0 1 | 2 3 4]; the right node sorts its three again
    assert_eq!(build(vec![0]), "((0 1) ((2 2) (3 4)))");
    // root along y: [3 4 | 1 2 0], and the right node along y: [1 | 2 0]
    assert_eq!(build(vec![1]), "((3 4) ((1 1) (2 0)))");
    // root along z: [4 3 | 2 0 1], and the right node along z: [2 | 0 1]
    assert_eq!(build(vec![2]), "((4 3) ((2 2) (0 1)))");
    // the root takes the first axis, the left node the second, the right node the third
    // (along z the three on the right stand 4, 3, 2; along y they stand 3, 4, 2)
    assert_eq!(build(vec![0, 1, 2]), "((0 1) ((4 4) (3 2)))");
    assert_eq!(build(vec![0, 2, 1]), "((0 1) ((3 3) (4 2)))");
    assert_eq!(build(vec![2, 0, 0]), "((4 3) ((0 0) (1 2)))");
    // an entry above two stands for the third axis, and the list starts over
    assert_eq!(build(vec![7]), build(vec![2]));
    assert_eq!(build(vec![0, 1]), build(vec![0, 1, 0, 1, 0]));
    assert_eq!(build(vec![1, 2, 0, 1, 2, 0]), build(vec![1, 2, 0]));
}

#[test]
fn given_axes_build_the_same_tree_every_time() {
    let objects: Vec<Rc<Sphere>> = (0..23)
        .map(|i| {
            let k = i as f64;
            ball((k * 7.0) % 11.0, (k * 3.0) % 7.0, (k * 5.0) % 13.0, 0.25)
        })
        .collect();
    let axes = vec![2, 0, 1, 1, 0];
    let first = BVHNode::new_with_axes(BVHParameter::Objects { objects: objects.clone() }, &axes);
    let second = BVHNode::new_with_axes(BVHParameter::Objects { objects: objects.clone() }, &axes);
    assert_eq!(shape(&first), shape(&second));
    boxes_enclose(&first);
    let mut leaves = Vec::new();
    leaves_of(&first, &mut leaves);
    for object in &objects {
        assert!(leaves.iter().any(|leaf| Rc::ptr_eq(leaf, object)));
    }
    let mut list = HittableList::default();
    for object in &objects {
        list.add(object.clone());
    }
    let from_list = BVHNode::new_with_axes(BVHParameter::HittableList(list), &axes);
    assert_eq!(shape(&first), shape(&from_list));
}

#[test]
fn one_or_two_objects_take_a_turn_and_no_axis() {
    for axes in [vec![0], vec![1], vec![2, 1]] {
        let one = BVHNode::new_with_axes(BVHParameter::Objects { objects: vec![ball(4.0, 0.0, 0.0, 1.0)] }, &axes);
        assert_eq!(shape(&one), "(4 4)");
        let two = BVHNode::new_with_axes(
            BVHParameter::Objects { objects: vec![ball(4.0, 0.0, 0.0, 1.0), ball(-4.0, 0.0, 0.0, 1.0)] },
            &axes,
        );
        assert_eq!(shape(&two), "(4 -4)");
    }
}

#[test]
fn the_tests_of_the_conditions_tell_the_two_failures_apart() {
    // a hit on the face of the box: the box does not keep it
    let only = ball(0.0, 0.0, -1.0, 0.5);
    let node = BVHNode::new_with_axes(BVHParameter::Objects { objects: vec![only.clone()] }, &vec![0]);
    let head_on = Ray::new(v(0.0, 0.0, 0.0), v(0.0, 0.0, -1.0));
    assert!(!only.admitted_by(&node.bbox, &head_on, forward()));
    assert!(!leaves_admitted(&node.left, &node.bbox, &head_on, forward()));
    assert!(!boxes_admit(&node, &head_on, forward()));
    assert!(node.left_first(&head_on, forward()));
    assert!(!search_is_matched(&node, &head_on, forward()));
    let aside = Ray::new(v(0.1, 0.0, 0.0), v(0.0, 0.0, -1.0));
    assert!(only.admitted_by(&node.bbox, &aside, forward()));
    assert!(boxes_admit(&node, &aside, forward()));
    assert!(node.left_first(&aside, forward()));
    assert!(search_is_matched(&node, &aside, forward()));
    assert!(!search_is_matched(&node, &aside, range(f64::NAN, 9.0)));
    // a ray that misses the sphere has no hit for a box to keep
    let past = Ray::new(v(5.0, 0.0, 0.0), v(0.0, 0.0, -1.0));
    assert!(only.admitted_by(&node.bbox, &past, forward()));
    assert!(search_is_matched(&node, &past, forward()));

    // a nearer hit on the right: the boxes are fine, the order is not
    let far = ball(0.0, 0.0, -5.0, 1.0);
    let near = ball(0.0, 0.0, -2.0, 0.5);
    let ray = Ray::new(v(0.1, 0.1, 0.0), v(0.0, 0.0, -1.0));
    let far_first = BVHNode::new_with_axes(BVHParameter::Objects { objects: vec![far.clone(), near.clone()] }, &vec![0]);
    assert!(boxes_admit(&far_first, &ray, forward()));
    assert!(!far_first.left_first(&ray, forward()));
    assert!(!search_is_matched(&far_first, &ray, forward()));
    let near_first = BVHNode::new_with_axes(BVHParameter::Objects { objects: vec![near, far] }, &vec![0]);
    assert!(near_first.left_first(&ray, forward()));
    assert!(search_is_matched(&near_first, &ray, forward()));
}

#[test]
fn only_the_hits_within_the_range_asked_count() {
    // the ray meets the sphere on the faces of its box, at 0.5 and at 1.5
    let only = ball(0.0, 0.0, -1.0, 0.5);
    let node = BVHNode::new_with_axes(BVHParameter::Objects { objects: vec![only.clone()] }, &vec![0]);
    let list = HittableList::new(only.clone());
    let head_on = Ray::new(v(0.0, 0.0, 0.0), v(0.0, 0.0, -1.0));
    for (min, max, matched) in [
        (0.001, 0.4, true),
        (0.001, 0.5, true),
        (0.5, 1.5, true),
        (0.6, 1.4, true),
        (1.5, 9.0, true),
        (2.0, f64::INFINITY, true),
        (0.001, 0.6, false),
        (0.001, 2.0, false),
        (1.0, 2.0, false),
        (0.001, f64::INFINITY, false),
    ] {
        assert_eq!(only.admitted_by(&node.bbox, &head_on, range(min, max)), matched, "{min} {max}");
        assert_eq!(boxes_admit(&node, &head_on, range(min, max)), matched, "{min} {max}");
        assert_eq!(search_is_matched(&node, &head_on, range(min, max)), matched, "{min} {max}");
        if matched {
            let from_tree = node.hit(&head_on, range(min, max)).map(|rec| f(rec.t));
            let from_list = list.hit(&head_on, range(min, max)).map(|rec| f(rec.t));
            assert_eq!(from_tree, None);
            assert_eq!(from_list, None);
        }
    }
    // with the hit on the face in the range, the two differ
    assert_eq!(list.hit(&head_on, range(0.001, 0.6)).map(|rec| f(rec.t)), Some(0.5));
    assert!(node.hit(&head_on, range(0.001, 0.6)).is_none());
}

#[test]
fn where_the_conditions_hold_hierarchy_and_list_agree() {
    let mut word: u64 = 0xbb67_ae85_84ca_a73b;
    let mut next = move || {
        word ^= word << 13;
        word ^= word >> 7;
        word ^= word << 17;
        (word >> 11) as f64 / (1u64 << 53) as f64
    };
    let mut matched = 0;
    let mut matched_hits = 0;
    let mut unmatched = 0;
    for scene in 0..30 {
        let count = 1 + (next() * 12.0) as usize;
        let objects: Vec<Rc<Sphere>> = (0..count)
            .map(|_| ball(next() * 20.0 - 10.0, next() * 20.0 - 10.0, next() * 20.0 - 10.0, 0.2 + next() * 2.0))
            .collect();
        let mut leaves = Vec::new();
        let axes = vec![scene % 3, (scene / 3) % 3, 1];
        let node = BVHNode::new_with_axes(BVHParameter::Objects { objects }, &axes);
        leaves_of(&node, &mut leaves);
        let mut list = HittableList::default();
        for leaf in &leaves {
            list.add(leaf.clone());
        }
        for _ in 0..300 {
            let origin = (next() * 60.0 - 30.0, next() * 60.0 - 30.0, next() * 60.0 - 30.0);
            let target = (next() * 20.0 - 10.0, next() * 20.0 - 10.0, next() * 20.0 - 10.0);
            let ray = Ray::new(
                v(origin.0, origin.1, origin.2),
                v(target.0 - origin.0, target.1 - origin.1, target.2 - origin.2),
            );
            let from_tree = node.hit(&ray, forward());
            let from_list = list.hit(&ray, forward());
            if search_is_matched(&node, &ray, forward()) {
                matched += 1;
                match (from_tree, from_list) {
                    (None, None) => {}
                    (Some(x), Some(y)) => {
                        matched_hits += 1;
                        assert_eq!(f(x.t).to_bits(), f(y.t).to_bits());
                        assert_eq!(f(x.p.x()).to_bits(), f(y.p.x()).to_bits());
                        assert_eq!(f(x.normal.y()).to_bits(), f(y.normal.y()).to_bits());
                        assert_eq!(x.front_face, y.front_face);
                    }
                    _ => panic!("the hierarchy and the list differ where they are said to agree"),
                }
            } else {
                unmatched += 1;
            }
        }
    }
    assert!(matched > 8000, "{matched} {matched_hits} {unmatched}");
    assert!(matched_hits > 500, "{matched} {matched_hits} {unmatched}");
    assert!(unmatched < matched / 10, "{matched} {matched_hits} {unmatched}");
}

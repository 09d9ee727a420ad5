use std::rc::Rc;

use raytracer::hittable::{HitRecord, Hittable};
use raytracer::hittable_list::HittableList;
use raytracer::interval::{Interval, IntervalParameter};
use raytracer::material::{Lambertian, MaterialKind};
use raytracer::ray::Ray;
use raytracer::scalar::Scalar;
use raytracer::sphere::Sphere;
use raytracer::vec3::Vec3;

fn s(x: f64) -> Scalar {
    Scalar::from_bits(x.to_bits())
}

fn f(x: Scalar) -> f64 {
    f64::from_bits(x.to_bits())
}

fn v(x: f64, y: f64, z: f64) -> Vec3 {
    Vec3::new(s(x), s(y), s(z))
}

fn parts(c: Vec3) -> (f64, f64, f64) {
    (f(c.x()), f(c.y()), f(c.z()))
}

fn range(min: f64, max: f64) -> Interval {
    Interval::new(IntervalParameter::Range { min: s(min), max: s(max) })
}

fn ends(iv: Interval) -> (f64, f64) {
    (f(iv.min), f(iv.max))
}

fn grey() -> Rc<MaterialKind> {
    Rc::new(MaterialKind::Lambertian(Lambertian { albedo: v(0.5, 0.5, 0.5) }))
}

fn ball(x: f64, y: f64, z: f64, radius: f64) -> Sphere {
    Sphere::new(v(x, y, z), s(radius), grey())
}

fn forward() -> Interval {
    range(0.001, f64::INFINITY)
}

#[test]
fn a_ray_aimed_at_the_centre_hits_at_distance_less_radius() {
    let cases = [
        ((0.0, 0.0, -1.0), 0.5, (0.0, 0.0, 0.0)),
        ((3.0, 4.0, 0.0), 1.0, (0.0, 0.0, 0.0)),
        ((1.0, -2.0, 2.0), 0.25, (4.0, 2.0, -10.0)),
        ((-7.0, 0.5, 3.0), 2.0, (1.0, 1.0, 1.0)),
    ];
    for (c, radius, o) in cases {
        let sphere = ball(c.0, c.1, c.2, radius);
        let d = (c.0 - o.0, c.1 - o.1, c.2 - o.2);
        let distance = (d.0 * d.0 + d.1 * d.1 + d.2 * d.2 as f64).sqrt();
        let unit = (d.0 / distance, d.1 / distance, d.2 / distance);
        let ray = Ray::new(v(o.0, o.1, o.2), v(unit.0, unit.1, unit.2));
        let rec = sphere.hit(&ray, forward()).expect("aimed at the centre");
        assert!((f(rec.t) - (distance - radius)).abs() < 1e-12);
        assert!(rec.front_face);
        let p = parts(rec.p);
        let n = parts(rec.normal);
        let radial = (p.0 - c.0, p.1 - c.1, p.2 - c.2);
        let crossed = (
            n.1 * radial.2 - n.2 * radial.1,
            n.2 * radial.0 - n.0 * radial.2,
            n.0 * radial.1 - n.1 * radial.0,
        );
        assert!(crossed.0.abs() < 1e-12 && crossed.1.abs() < 1e-12 && crossed.2.abs() < 1e-12);
        assert!(n.0 * radial.0 + n.1 * radial.1 + n.2 * radial.2 > 0.0);
        assert!(((n.0 * n.0 + n.1 * n.1 + n.2 * n.2) - 1.0).abs() < 1e-12);
    }
}

#[test]
fn exact_hit_of_the_unit_direction() {
    let sphere = ball(0.0, 0.0, -1.0, 0.5);
    let ray = Ray::new(v(0.0, 0.0, 0.0), v(0.0, 0.0, -1.0));
    let rec = sphere.hit(&ray, forward()).unwrap();
    assert_eq!(f(rec.t), 0.5);
    assert_eq!(parts(rec.p), (0.0, 0.0, -0.5));
    assert_eq!(parts(rec.normal), (0.0, 0.0, 1.0));
    assert!(rec.front_face);
    assert!(rec.mat.is_some());
}

#[test]
fn a_longer_direction_shortens_the_parameter() {
    let sphere = ball(0.0, 0.0, -1.0, 0.5);
    let ray = Ray::new(v(0.0, 0.0, 0.0), v(0.0, 0.0, -2.0));
    let rec = sphere.hit(&ray, forward()).unwrap();
    assert_eq!(f(rec.t), 0.25);
    assert_eq!(parts(rec.p), (0.0, 0.0, -0.5));
}

#[test]
fn from_inside_the_far_root_is_taken_and_the_normal_turned_round() {
    let sphere = ball(0.0, 0.0, -1.0, 0.5);
    let ray = Ray::new(v(0.0, 0.0, -1.0), v(0.0, 0.0, -1.0));
    let rec = sphere.hit(&ray, forward()).unwrap();
    assert_eq!(f(rec.t), 0.5);
    assert_eq!(parts(rec.p), (0.0, 0.0, -1.5));
    assert!(!rec.front_face);
    // the outward normal at the point is (0, 0, -1); the record holds its negation
    assert_eq!(parts(rec.normal), (0.0, 0.0, 1.0));

    let up = Ray::new(v(0.0, 0.0, -1.0), v(0.0, 1.0, 0.0));
    let rec = sphere.hit(&up, forward()).unwrap();
    assert!(!rec.front_face);
    assert_eq!(parts(rec.p), (0.0, 0.5, -1.0));
    assert_eq!(parts(rec.normal), (0.0, -1.0, 0.0));
}

#[test]
fn the_range_decides_between_the_roots() {
    let sphere = ball(0.0, 0.0, -3.0, 1.0);
    let ray = Ray::new(v(0.0, 0.0, 0.0), v(0.0, 0.0, -1.0));
    assert_eq!(f(sphere.hit(&ray, forward()).unwrap().t), 2.0);
    assert_eq!(f(sphere.hit(&ray, range(1.0, 3.0)).unwrap().t), 2.0);
    // the near root on the edge of the range is not surrounded
    let far = sphere.hit(&ray, range(2.0, 5.0)).unwrap();
    assert_eq!(f(far.t), 4.0);
    assert!(!far.front_face);
    assert_eq!(parts(far.normal), (0.0, 0.0, 1.0));
    assert!(sphere.hit(&ray, range(2.0, 4.0)).is_none());
    assert!(sphere.hit(&ray, range(0.001, 2.0)).is_none());
    assert!(sphere.hit(&ray, range(4.0, f64::INFINITY)).is_none());
    assert_eq!(f(sphere.hit(&ray, range(3.0, 4.5)).unwrap().t), 4.0);
}

#[test]
fn misses() {
    let sphere = ball(0.0, 0.0, -3.0, 1.0);
    let beside = Ray::new(v(0.0, 2.0, 0.0), v(0.0, 0.0, -1.0));
    assert!(sphere.hit(&beside, forward()).is_none());
    let away = Ray::new(v(0.0, 0.0, 0.0), v(0.0, 0.0, 1.0));
    assert!(sphere.hit(&away, forward()).is_none());
    let still = Ray::new(v(0.0, 0.0, 0.0), v(0.0, 0.0, 0.0));
    assert!(sphere.hit(&still, forward()).is_none());
    assert!(sphere.hit(&Ray::new(v(0.0, 0.0, 0.0), v(0.0, 0.0, -1.0)), Interval::empty()).is_none());
}

#[test]
fn a_grazing_ray_touches_once() {
    let sphere = ball(0.0, 1.0, -3.0, 1.0);
    let ray = Ray::new(v(0.0, 0.0, 0.0), v(0.0, 0.0, -1.0));
    let rec = sphere.hit(&ray, forward()).unwrap();
    assert_eq!(f(rec.t), 3.0);
    assert_eq!(parts(rec.p), (0.0, 0.0, -3.0));
    // the ray runs along the surface: it does not run against the outward
    // normal (0, -1, 0), so the hit counts as one from inside
    assert!(!rec.front_face);
    assert_eq!(parts(rec.normal), (0.0, 1.0, 0.0));
}

#[test]
fn the_box_of_a_sphere_reaches_a_radius_each_way() {
    let b = ball(1.0, -2.0, 3.0, 0.5).bounding_box();
    assert_eq!(ends(b.x), (0.5, 1.5));
    assert_eq!(ends(b.y), (-2.5, -1.5));
    assert_eq!(ends(b.z), (2.5, 3.5));
}

#[test]
fn a_negative_or_missing_radius_counts_as_zero() {
    for radius in [-1.0, f64::NAN, -0.0, 0.0] {
        let b = ball(1.0, 2.0, 3.0, radius).bounding_box();
        assert_eq!(ends(b.x), (1.0, 1.0));
        assert_eq!(ends(b.y), (2.0, 2.0));
        assert_eq!(ends(b.z), (3.0, 3.0));
    }
}

#[test]
fn set_face_normal_keeps_the_rest_of_the_record() {
    let mut rec = HitRecord::default();
    assert_eq!(f(rec.t), 0.0);
    assert!(!rec.front_face);
    assert!(rec.mat.is_none());
    rec.p = v(1.0, 2.0, 3.0);
    rec.t = s(7.0);
    let ray = Ray::new(v(0.0, 0.0, 0.0), v(0.0, -1.0, 0.0));
    rec.set_face_normal(&ray, &v(0.0, 1.0, 0.0));
    assert!(rec.front_face);
    assert_eq!(parts(rec.normal), (0.0, 1.0, 0.0));
    rec.set_face_normal(&ray, &v(0.0, -1.0, 0.0));
    assert!(!rec.front_face);
    assert_eq!(parts(rec.normal), (0.0, 1.0, 0.0));
    rec.set_face_normal(&ray, &v(1.0, 0.0, 0.0));
    assert!(!rec.front_face);
    assert_eq!(parts(rec.normal), (-1.0, 0.0, 0.0));
    assert_eq!(parts(rec.p), (1.0, 2.0, 3.0));
    assert_eq!(f(rec.t), 7.0);
}

#[test]
fn an_empty_list_has_the_empty_box_and_no_hit() {
    let list: HittableList<Sphere> = HittableList::default();
    assert_eq!(list.objects.len(), 0);
    let b = list.bounding_box();
    assert_eq!(ends(b.x), (f64::INFINITY, f64::NEG_INFINITY));
    assert_eq!(ends(b.y), (f64::INFINITY, f64::NEG_INFINITY));
    assert_eq!(ends(b.z), (f64::INFINITY, f64::NEG_INFINITY));
    for d in [v(0.0, 0.0, -1.0), v(0.0, 1.0, 0.0), v(1.0, 1.0, 1.0)] {
        assert!(list.hit(&Ray::new(v(0.0, 0.0, 0.0), d), forward()).is_none());
    }
}

#[test]
fn a_list_grows_its_box_with_each_object() {
    let mut list = HittableList::new(Rc::new(ball(0.0, 0.0, -1.0, 0.5)));
    assert_eq!(list.objects.len(), 1);
    let b = list.bounding_box();
    assert_eq!((ends(b.x), ends(b.y), ends(b.z)), ((-0.5, 0.5), (-0.5, 0.5), (-1.5, -0.5)));
    list.add(Rc::new(ball(0.0, -100.5, -1.0, 100.0)));
    assert_eq!(list.objects.len(), 2);
    let b = list.bounding_box();
    assert_eq!((ends(b.x), ends(b.y), ends(b.z)), ((-100.0, 100.0), (-200.5, 0.5), (-101.0, 99.0)));
    list.clear();
    assert_eq!(list.objects.len(), 0);
    assert_eq!(ends(list.bounding_box().x), (f64::INFINITY, f64::NEG_INFINITY));
}

#[test]
fn a_list_reports_the_nearest_hit_in_any_order() {
    let near = Rc::new(ball(0.0, 0.0, -2.0, 0.5));
    let far = Rc::new(ball(0.0, 0.0, -5.0, 1.0));
    let ray = Ray::new(v(0.0, 0.0, 0.0), v(0.0, 0.0, -1.0));

    let mut first = HittableList::new(near.clone());
    first.add(far.clone());
    assert_eq!(f(first.hit(&ray, forward()).unwrap().t), 1.5);

    let mut second = HittableList::new(far.clone());
    second.add(near.clone());
    assert_eq!(f(second.hit(&ray, forward()).unwrap().t), 1.5);

    assert_eq!(f(second.hit(&ray, range(2.0, 10.0)).unwrap().t), 2.5);
    assert_eq!(f(second.hit(&ray, range(3.0, 10.0)).unwrap().t), 4.0);
    assert_eq!(f(second.hit(&ray, range(4.0, 10.0)).unwrap().t), 6.0);
    assert!(second.hit(&ray, range(6.0, 10.0)).is_none());
}

#[test]
fn of_two_hits_at_one_parameter_the_first_stays() {
    let a = Rc::new(Sphere::new(
        v(0.0, 0.0, -2.0),
        s(0.5),
        Rc::new(MaterialKind::Lambertian(Lambertian { albedo: v(1.0, 0.0, 0.0) })),
    ));
    let b = Rc::new(Sphere::new(
        v(0.0, 0.0, -2.0),
        s(0.5),
        Rc::new(MaterialKind::Lambertian(Lambertian { albedo: v(0.0, 1.0, 0.0) })),
    ));
    let mut list = HittableList::new(a);
    list.add(b);
    let ray = Ray::new(v(0.0, 0.0, 0.0), v(0.0, 0.0, -1.0));
    let rec = list.hit(&ray, forward()).unwrap();
    match &*rec.mat.unwrap() {
        MaterialKind::Lambertian(m) => assert_eq!(parts(m.albedo), (1.0, 0.0, 0.0)),
        _ => panic!("a matt surface was hit"),
    }
}

#[test]
fn lists_nest() {
    let inner = HittableList::new(Rc::new(ball(0.0, 0.0, -2.0, 0.5)));
    let mut outer = HittableList::new(Rc::new(inner));
    let mut second = HittableList::new(Rc::new(ball(0.0, 0.0, -5.0, 1.0)));
    second.add(Rc::new(ball(3.0, 0.0, -5.0, 1.0)));
    outer.add(Rc::new(second));
    let ray = Ray::new(v(0.0, 0.0, 0.0), v(0.0, 0.0, -1.0));
    assert_eq!(f(outer.hit(&ray, forward()).unwrap().t), 1.5);
    let b = outer.bounding_box();
    assert_eq!((ends(b.x), ends(b.y), ends(b.z)), ((-1.0, 4.0), (-1.0, 1.0), (-6.0, -1.5)));
}

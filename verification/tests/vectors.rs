use raytracer::scalar::Scalar;
use raytracer::vec3::{
    cross, dot, on_hemisphere, reflect, refract, unit_disk_candidate, unit_vector,
    unit_vector_candidate, Vec3,
};

fn s(x: f64) -> Scalar {
    Scalar::from_bits(x.to_bits())
}

fn f(x: Scalar) -> f64 {
    f64::from_bits(x.to_bits())
}

fn v(x: f64, y: f64, z: f64) -> Vec3 {
    Vec3::new(s(x), s(y), s(z))
}

fn parts(c: Vec3) -> (f64, f64, f64) {
    (f(c.x()), f(c.y()), f(c.z()))
}

#[test]
fn parts_are_read_back() {
    let a = v(1.0, -2.0, 3.5);
    assert_eq!(parts(a), (1.0, -2.0, 3.5));
    assert_eq!(f(a.index(0)), 1.0);
    assert_eq!(f(a.index(1)), -2.0);
    assert_eq!(f(a.index(2)), 3.5);
    assert_eq!(f(a.e[2]), 3.5);
    assert_eq!(parts(Vec3::default()), (0.0, 0.0, 0.0));
}

#[test]
fn a_part_is_changed_in_place() {
    let mut a = v(1.0, 2.0, 3.0);
    *a.index_mut(1) = s(9.0);
    assert_eq!(parts(a), (1.0, 9.0, 3.0));
    *a.index_mut(0) = s(-1.0);
    *a.index_mut(2) = s(0.5);
    assert_eq!(parts(a), (-1.0, 9.0, 0.5));
}

#[test]
fn sums_differences_and_products_go_part_by_part() {
    let a = v(1.0, -2.0, 3.5);
    let b = v(0.5, 4.0, -1.0);
    assert_eq!(parts(a.add(b)), (1.5, 2.0, 2.5));
    assert_eq!(parts(a.sub(b)), (0.5, -6.0, 4.5));
    assert_eq!(parts(a.mul(b)), (0.5, -8.0, -3.5));
    assert_eq!(parts(a.scale(s(2.0))), (2.0, -4.0, 7.0));
    assert_eq!(parts(a.neg()), (-1.0, 2.0, -3.5));
    assert_eq!(parts(a.div(s(2.0))), (0.5, -1.0, 1.75));
}

#[test]
fn division_multiplies_by_the_reciprocal() {
    let a = v(1.0, 2.0, 5.0);
    let third = 1.0 / 3.0;
    assert_eq!(parts(a.div(s(3.0))), (1.0 * third, 2.0 * third, 5.0 * third));
    assert_ne!(5.0 * third, 5.0 / 3.0);
}

#[test]
fn assignments_change_the_vector_in_place() {
    let mut a = v(1.0, -2.0, 3.5);
    a.add_assign(v(1.0, 1.0, 1.0));
    assert_eq!(parts(a), (2.0, -1.0, 4.5));
    a.mul_assign(s(2.0));
    assert_eq!(parts(a), (4.0, -2.0, 9.0));
    a.div_assign(s(4.0));
    assert_eq!(parts(a), (1.0, -0.5, 2.25));
}

#[test]
fn lengths() {
    assert_eq!(f(v(3.0, 4.0, 12.0).length_squared()), 169.0);
    assert_eq!(f(v(3.0, 4.0, 12.0).length()), 13.0);
    assert_eq!(f(v(0.0, 0.0, 0.0).length()), 0.0);
    let a = v(0.1, 0.2, 0.3);
    assert_eq!(f(a.length_squared()), 0.1 * 0.1 + 0.2 * 0.2 + 0.3 * 0.3);
    assert_eq!(f(a.length()), (0.1f64 * 0.1 + 0.2 * 0.2 + 0.3 * 0.3).sqrt());
}

#[test]
fn near_zero_looks_at_the_size_of_every_part() {
    assert!(v(0.0, 0.0, 0.0).near_zero());
    assert!(v(-0.0, -0.0, -0.0).near_zero());
    assert!(v(9e-9, 9e-9, 9e-9).near_zero());
    assert!(v(-9e-9, 9e-9, -9e-9).near_zero());
    assert!(v(1e-9, -1e-9, 0.0).near_zero());
    assert!(!v(1e-8, 0.0, 0.0).near_zero());
    assert!(!v(0.0, 1e-8, 0.0).near_zero());
    assert!(!v(0.0, 0.0, 1e-8).near_zero());
    assert!(!v(-1e-8, 0.0, 0.0).near_zero());
    assert!(!v(0.0, -1e-8, 0.0).near_zero());
    assert!(!v(0.0, 0.0, -1e-8).near_zero());
    assert!(!v(-1.0, 0.0, 0.0).near_zero());
    assert!(!v(0.0, -1.0, 0.0).near_zero());
    assert!(!v(0.0, 0.0, -1.0).near_zero());
    assert!(!v(0.0, -5.0, -5.0).near_zero());
    assert!(!v(f64::NAN, 0.0, 0.0).near_zero());
    assert!(!v(0.0, f64::NAN, 0.0).near_zero());
    assert!(!v(0.0, 0.0, f64::NAN).near_zero());
    assert!(!v(0.0, f64::NEG_INFINITY, 0.0).near_zero());
}

#[test]
fn dot_and_cross() {
    let a = v(1.0, 2.0, 3.0);
    let b = v(4.0, -5.0, 6.0);
    assert_eq!(f(dot(a, b)), 12.0);
    assert_eq!(parts(cross(a, b)), (27.0, 6.0, -13.0));
    assert_eq!(parts(cross(v(1.0, 0.0, 0.0), v(0.0, 1.0, 0.0))), (0.0, 0.0, 1.0));
    assert_eq!(parts(cross(v(0.0, 1.0, 0.0), v(1.0, 0.0, 0.0))), (0.0, 0.0, -1.0));
    assert_eq!(f(dot(v(0.1, 0.2, 0.3), v(0.4, 0.5, 0.6))), 0.1 * 0.4 + 0.2 * 0.5 + 0.3 * 0.6);
}

#[test]
fn unit_vectors() {
    assert_eq!(parts(unit_vector(v(0.0, 3.0, 0.0))), (0.0, 1.0, 0.0));
    assert_eq!(parts(unit_vector(v(3.0, 4.0, 0.0))), (3.0 * (1.0 / 5.0), 4.0 * (1.0 / 5.0), 0.0));
    let zero = parts(unit_vector(v(0.0, 0.0, 0.0)));
    assert!(zero.0.is_nan() && zero.1.is_nan() && zero.2.is_nan());
}

#[test]
fn reflection_turns_the_normal_part_round() {
    let n = v(0.0, 1.0, 0.0);
    assert_eq!(parts(reflect(&v(1.0, -1.0, 0.0), &n)), (1.0, 1.0, 0.0));
    assert_eq!(parts(reflect(&v(0.0, -2.0, 0.0), &n)), (0.0, 2.0, 0.0));
    assert_eq!(parts(reflect(&v(1.0, 0.0, 3.0), &n)), (1.0, 0.0, 3.0));
}

#[test]
fn refraction_of_a_ray_along_the_normal_goes_straight_on() {
    let n = v(0.0, 1.0, 0.0);
    let down = v(0.0, -1.0, 0.0);
    assert_eq!(parts(refract(down, n, s(1.0 / 1.5))), (0.0, -1.0, 0.0));
    assert_eq!(parts(refract(down, n, s(1.5))), (0.0, -1.0, 0.0));
}

#[test]
fn refraction_bends_towards_the_normal_in_a_denser_medium() {
    let n = v(0.0, 1.0, 0.0);
    let h = std::f64::consts::FRAC_1_SQRT_2;
    let incoming = v(h, -h, 0.0);
    let eta = 1.0 / 1.5;
    let cos_theta = ((-h) * 0.0 + h * 1.0 + (-0.0) * 0.0f64).min(1.0);
    let perp = ((h + 0.0 * cos_theta) * eta, (-h + 1.0 * cos_theta) * eta);
    let parallel = -((1.0 - (perp.0 * perp.0 + perp.1 * perp.1 + 0.0)) as f64).sqrt();
    let out = parts(refract(incoming, n, s(eta)));
    assert_eq!(out.0, perp.0 + 0.0 * parallel);
    assert_eq!(out.1, perp.1 + 1.0 * parallel);
    assert!(out.0 > 0.0 && out.0 < h);
    assert!(out.1 < -h);
}

#[test]
fn refraction_beyond_the_critical_angle_is_not_a_number() {
    let n = v(0.0, 1.0, 0.0);
    let grazing = v(0.99, -(1.0f64 - 0.99 * 0.99).sqrt(), 0.0);
    let out = parts(refract(grazing, n, s(1.5)));
    assert!(out.1.is_nan());
}

#[test]
fn unit_vector_candidates_inside_the_ball_are_normalised() {
    assert_eq!(parts(unit_vector_candidate(v(0.0, 0.5, 0.0)).unwrap()), (0.0, 1.0, 0.0));
    assert_eq!(parts(unit_vector_candidate(v(0.0, 0.0, -1.0)).unwrap()), (0.0, 0.0, -1.0));
    let p = unit_vector_candidate(v(0.3, 0.4, 0.0)).unwrap();
    let inv = 1.0 / (0.3f64 * 0.3 + 0.4 * 0.4 + 0.0).sqrt();
    assert_eq!(parts(p), (0.3 * inv, 0.4 * inv, 0.0 * inv));
}

#[test]
fn unit_vector_candidates_outside_the_ball_or_at_its_centre_are_thrown_away() {
    assert!(unit_vector_candidate(v(1.0, 1.0, 0.0)).is_none());
    assert!(unit_vector_candidate(v(0.9, 0.9, 0.9)).is_none());
    assert!(unit_vector_candidate(v(0.0, 0.0, 0.0)).is_none());
    assert!(unit_vector_candidate(v(1e-81, 0.0, 0.0)).is_none());
    assert!(unit_vector_candidate(v(1e-79, 0.0, 0.0)).is_some());
    assert!(unit_vector_candidate(v(f64::NAN, 0.0, 0.0)).is_none());
}

#[test]
fn disk_candidates() {
    assert_eq!(parts(unit_disk_candidate(s(0.5), s(-0.5)).unwrap()), (0.5, -0.5, 0.0));
    assert!(unit_disk_candidate(s(1.0), s(0.0)).is_none());
    assert!(unit_disk_candidate(s(0.8), s(0.8)).is_none());
    assert!(unit_disk_candidate(s(0.0), s(0.0)).is_some());
}

#[test]
fn hemisphere_keeps_or_turns_the_vector() {
    let n = v(0.0, 1.0, 0.0);
    assert_eq!(parts(on_hemisphere(&n, v(0.6, 0.8, 0.0))), (0.6, 0.8, 0.0));
    assert_eq!(parts(on_hemisphere(&n, v(0.6, -0.8, 0.0))), (-0.6, 0.8, 0.0));
    assert_eq!(parts(on_hemisphere(&n, v(1.0, 0.0, 0.0))), (-1.0, 0.0, 0.0));
}

#[test]
fn random_vectors_stay_in_their_cube() {
    for _ in 0..200 {
        let (x, y, z) = parts(Vec3::random());
        assert!(0.0 <= x && x < 1.0 && 0.0 <= y && y < 1.0 && 0.0 <= z && z < 1.0);
        let (x, y, z) = parts(Vec3::random_range(s(-1.0), s(1.0)));
        assert!(-1.0 <= x && x < 1.0 && -1.0 <= y && y < 1.0 && -1.0 <= z && z < 1.0);
    }
}

use ray_core::hit::Hittable;
use ray_core::hit::Material;
use ray_core::interval::Interval;
use ray_core::quad::Quad;
use ray_core::rat::Rat;
use ray_core::ray::Ray;
use ray_core::sphere::Sphere;
use ray_core::vec3::Vec3;

/// A minimal light-interaction policy for the tests; the core never looks
/// inside it.
struct Matte(u32);

impl Material for Matte {}

/// Checks that the exact scalar `x` equals `num/den`, given the square root
/// `s` of its radicand.
fn assert_quad_is_frac(x: &Quad, s: i128, num: i128, den: i128) {
    assert_eq!(x.rad, s * s, "radicand is not the expected square");
    assert!(x.den >= 1);
    assert_eq!((x.p + x.q * s) * den, num * x.den, "scalar differs from {num}/{den}");
}

fn wide_open() -> Interval {
    // (0, 1_000_000): the lower bound excludes self-intersection at t == 0
    Interval::new(Rat::new(0, 1), Rat::new(1_000_000, 1))
}

fn acne_guard() -> Interval {
    // (1/1000, 1_000_000)
    Interval::new(Rat::new(1, 1000), Rat::new(1_000_000, 1))
}

#[test]
fn vec3_arithmetic_is_exact() {
    let a = Vec3::new(1, -2, 3);
    let b = Vec3::new(4, 5, -6);
    assert_eq!(a.add(&b), Vec3::new(5, 3, -3));
    assert_eq!(a.sub(&b), Vec3::new(-3, -7, 9));
    assert_eq!(a.scale(-2), Vec3::new(-2, 4, -6));
    assert_eq!(a.dot(&b), 4 - 10 - 18);
    assert_eq!(b.len_squared(), 16 + 25 + 36);
}

#[test]
fn rat_order_is_exact_across_denominators() {
    let half = Rat::new(1, 2);
    let two_quarters = Rat::new(2, 4);
    let third = Rat::new(1, 3);
    assert!(third.lt(&half));
    assert!(!half.lt(&third));
    assert!(!half.lt(&two_quarters));
    assert!(!two_quarters.lt(&half));
    assert!(half.le(&two_quarters));
    assert!(two_quarters.le(&half));
}

#[test]
fn interval_contains_is_inclusive() {
    let iv = Interval::new(Rat::new(1, 2), Rat::new(3, 1));
    assert!(iv.contains(&Rat::new(1, 2)));
    assert!(iv.contains(&Rat::new(3, 1)));
    assert!(iv.contains(&Rat::new(2, 1)));
    assert!(!iv.contains(&Rat::new(49, 100)));
    assert!(!iv.contains(&Rat::new(301, 100)));
}

#[test]
fn interval_surrounds_is_strict() {
    let iv = Interval::new(Rat::new(1, 2), Rat::new(3, 1));
    assert!(!iv.surrounds(&Rat::new(1, 2)));
    assert!(!iv.surrounds(&Rat::new(3, 1)));
    assert!(iv.surrounds(&Rat::new(2, 1)));
    assert!(iv.surrounds(&Rat::new(51, 100)));
}

#[test]
fn ray_at_rational_parameter() {
    let ray = Ray::new(Vec3::new(1, 2, 3), Vec3::new(2, -4, 6));
    let t = Quad::from_rat(1, 2);
    let p = ray.at(&t);
    // origin + direction/2 == (2, 0, 6)
    assert_quad_is_frac(&p.x, 0, 2, 1);
    assert_quad_is_frac(&p.y, 0, 0, 1);
    assert_quad_is_frac(&p.z, 0, 6, 1);
}

#[test]
fn hit_record_new_keeps_fields() {
    let ray = Ray::new(Vec3::new(0, 0, 0), Vec3::new(0, 0, -1));
    let t = Quad::from_rat(1, 1);
    let point = ray.at(&t);
    let normal = ray.at(&t);
    let mat = Matte(9);
    let rec = ray_core::hit::HitRecord::new(point, t, normal, &mat);
    assert_eq!(rec.t, t);
    assert_eq!(rec.point, point);
    assert_eq!(rec.material.0, 9);
}

// Head-on hit, the first classic scene: unit-diameter sphere half a unit in
// front of the origin.  Lattice coordinates are the scene doubled, which
// leaves every parameter, point and normal unchanged up to that scale.
#[test]
fn head_on_hit_strikes_front() {
    let sphere = Sphere::new(Vec3::new(0, 0, -2), 1, Matte(1));
    let ray = Ray::new(Vec3::new(0, 0, 0), Vec3::new(0, 0, -2));
    let rec = sphere.hit(&ray, &wide_open()).expect("head-on ray must hit");
    // a == 4, h == 4, c == 3, disc == 4: t == (4 - 2)/4 == 1/2
    assert_eq!(rec.t.rad, 4);
    assert_eq!(rec.t.q, -1);
    assert_quad_is_frac(&rec.t, 2, 1, 2);
    // point (0, 0, -1); in unscaled units (0, 0, -1/2)
    assert_quad_is_frac(&rec.point.x, 2, 0, 1);
    assert_quad_is_frac(&rec.point.y, 2, 0, 1);
    assert_quad_is_frac(&rec.point.z, 2, -1, 1);
    // outward normal (0, 0, 1), exactly unit length
    assert_quad_is_frac(&rec.normal.x, 2, 0, 1);
    assert_quad_is_frac(&rec.normal.y, 2, 0, 1);
    assert_quad_is_frac(&rec.normal.z, 2, 1, 1);
}

// A ray passing two units beside a unit sphere: closest approach exceeds the
// radius, the discriminant is negative, no hit.
#[test]
fn ray_beside_sphere_misses() {
    let sphere = Sphere::new(Vec3::new(0, 0, -5), 1, Matte(2));
    let ray = Ray::new(Vec3::new(0, 2, 0), Vec3::new(0, 0, -1));
    assert!(sphere.hit(&ray, &wide_open()).is_none());
}

// Origin outside the unit sphere, looking at it: the near root (the entry
// point) is taken.
#[test]
fn outside_origin_takes_entry_root() {
    let sphere = Sphere::new(Vec3::new(0, 0, 0), 1, Matte(3));
    let ray = Ray::new(Vec3::new(0, 0, 2), Vec3::new(0, 0, -1));
    let rec = sphere.hit(&ray, &acne_guard()).expect("must hit the sphere");
    // a == 1, h == 2, c == 3, disc == 1: t == (2 - 1)/1 == 1
    assert_eq!(rec.t.q, -1);
    assert_quad_is_frac(&rec.t, 1, 1, 1);
    assert_eq!(rec.point, ray.at(&rec.t));
    assert_quad_is_frac(&rec.point.z, 1, 1, 1);
    assert_quad_is_frac(&rec.normal.z, 1, 1, 1);
    assert_quad_is_frac(&rec.normal.x, 1, 0, 1);
    assert_quad_is_frac(&rec.normal.y, 1, 0, 1);
}

// Origin inside the unit sphere: the near root is negative and rejected, the
// far root is taken, and the normal still points outward, against the ray.
#[test]
fn inside_origin_falls_back_to_far_root() {
    let sphere = Sphere::new(Vec3::new(0, 0, 0), 1, Matte(4));
    let ray = Ray::new(Vec3::new(0, 0, 0), Vec3::new(0, 0, -1));
    let rec = sphere.hit(&ray, &acne_guard()).expect("inside ray must exit");
    // a == 1, h == 0, c == -1, disc == 1: near root -1 rejected, far root 1
    assert_eq!(rec.t.q, 1);
    assert_quad_is_frac(&rec.t, 1, 1, 1);
    assert_quad_is_frac(&rec.point.z, 1, -1, 1);
    assert_quad_is_frac(&rec.normal.z, 1, -1, 1);
}

// Both roots inside the interval: the returned hit uses the smaller one.
#[test]
fn nearest_root_wins_when_both_valid() {
    let sphere = Sphere::new(Vec3::new(0, 0, 0), 1, Matte(5));
    let ray = Ray::new(Vec3::new(0, 0, 2), Vec3::new(0, 0, -1));
    let iv = Interval::new(Rat::new(1, 1000), Rat::new(10, 1));
    // roots 1 and 3 both lie in (1/1000, 10)
    let rec = sphere.hit(&ray, &iv).expect("must hit");
    assert_eq!(rec.t.q, -1);
    assert_quad_is_frac(&rec.t, 1, 1, 1);
}

// A root exactly on the lower bound is excluded by the strict test; the far
// root is then the hit.
#[test]
fn boundary_root_excluded_far_root_taken() {
    let sphere = Sphere::new(Vec3::new(0, 0, 0), 1, Matte(6));
    let ray = Ray::new(Vec3::new(0, 0, 2), Vec3::new(0, 0, -1));
    let iv = Interval::new(Rat::new(1, 1), Rat::new(1_000_000, 1));
    // near root is exactly 1 == low: rejected; far root 3 accepted
    let rec = sphere.hit(&ray, &iv).expect("far root lies inside");
    assert_eq!(rec.t.q, 1);
    assert_quad_is_frac(&rec.t, 1, 3, 1);
}

// Both intersections lie behind the origin: everything is rejected.
#[test]
fn hits_behind_origin_are_rejected() {
    let sphere = Sphere::new(Vec3::new(0, 0, 0), 1, Matte(7));
    let ray = Ray::new(Vec3::new(0, 0, 2), Vec3::new(0, 0, 1));
    assert!(sphere.hit(&ray, &acne_guard()).is_none());
}

// A grazing ray: the discriminant is exactly zero and the single root is a
// plain rational.
#[test]
fn tangent_ray_yields_single_root() {
    let sphere = Sphere::new(Vec3::new(0, 1, -3), 1, Matte(8));
    let ray = Ray::new(Vec3::new(0, 0, 0), Vec3::new(0, 0, -1));
    let rec = sphere.hit(&ray, &acne_guard()).expect("tangent point is valid");
    // a == 1, h == 3, c == 9, disc == 0: the one root is 3
    assert_eq!(rec.t.rad, 0);
    assert_quad_is_frac(&rec.t, 0, 3, 1);
    assert_quad_is_frac(&rec.point.z, 0, -3, 1);
    // normal (0, -1, 0): tangency from the side
    assert_quad_is_frac(&rec.normal.x, 0, 0, 1);
    assert_quad_is_frac(&rec.normal.y, 0, -1, 1);
    assert_quad_is_frac(&rec.normal.z, 0, 0, 1);
}

// The same grazing ray with the far bound short of the tangent point: no hit.
#[test]
fn tangent_outside_interval_misses() {
    let sphere = Sphere::new(Vec3::new(0, 1, -3), 1, Matte(9));
    let ray = Ray::new(Vec3::new(0, 0, 0), Vec3::new(0, 0, -1));
    let iv = Interval::new(Rat::new(1, 1000), Rat::new(2, 1));
    assert!(sphere.hit(&ray, &iv).is_none());
}

// The record hands back a handle to the sphere's own material.
#[test]
fn material_handle_is_forwarded() {
    let sphere = Sphere::new(Vec3::new(0, 0, -2), 1, Matte(42));
    let ray = Ray::new(Vec3::new(0, 0, 0), Vec3::new(0, 0, -2));
    let rec = sphere.hit(&ray, &wide_open()).expect("must hit");
    assert_eq!(rec.material.0, 42);
}

// Unit-normal and surface-membership checks on a slanted hit whose
// discriminant is a perfect square, so the exact values can be evaluated:
// sphere center (3, 4, 0), radius 5, ray from the origin along (1, 0, 0).
// a == 1, h == 3, c == 0, disc == 9: roots 0 and 6; with low bound 1/1000 the
// hit is at t == 6, point (6, 0, 0), normal (3/5, -4/5, 0).
#[test]
fn slanted_hit_normal_is_unit_and_point_on_sphere() {
    let sphere = Sphere::new(Vec3::new(3, 4, 0), 5, Matte(10));
    let ray = Ray::new(Vec3::new(0, 0, 0), Vec3::new(1, 0, 0));
    let rec = sphere.hit(&ray, &acne_guard()).expect("must hit");
    assert_quad_is_frac(&rec.t, 3, 6, 1);
    assert_quad_is_frac(&rec.point.x, 3, 6, 1);
    assert_quad_is_frac(&rec.point.y, 3, 0, 1);
    assert_quad_is_frac(&rec.point.z, 3, 0, 1);
    assert_quad_is_frac(&rec.normal.x, 3, 3, 5);
    assert_quad_is_frac(&rec.normal.y, 3, -4, 5);
    assert_quad_is_frac(&rec.normal.z, 3, 0, 1);
    // |normal|^2 == (3/5)^2 + (-4/5)^2 == 1 and |point - center|^2 == 25
    assert_eq!(3 * 3 + (-4) * (-4), 5 * 5);
    assert_eq!((6 - 3) * (6 - 3) + 4 * 4, 5 * 5);
}

#[test]
fn vec3_length_is_exact_root() {
    let v = Vec3::new(3, 4, 0);
    let len = v.length();
    // |v| == sqrt(25) == 5
    assert_quad_is_frac(&len, 5, 5, 1);
    let w = Vec3::new(1, 1, 1);
    // |w| == sqrt(3), irrational: held exactly as (0 + 1*sqrt(3))/1
    let lw = w.length();
    assert_eq!((lw.p, lw.q, lw.den, lw.rad), (0, 1, 1, 3));
}

#[test]
fn vec3_scalar_division_is_exact() {
    let v = Vec3::new(3, -4, 5);
    let r = v.div(2);
    assert_quad_is_frac(&r.x, 0, 3, 2);
    assert_quad_is_frac(&r.y, 0, -2, 1);
    assert_quad_is_frac(&r.z, 0, 5, 2);
}

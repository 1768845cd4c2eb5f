//! Spheres and the closed-form quadratic intersection algorithm.
//!
//! A ray `O + D*t` meets the sphere `(C, r)` where `|O + D*t - C|^2 == r^2`.
//! With `oc = C - O`, `a = |D|^2`, `h = D . oc` (the half-b simplification,
//! which avoids the subtraction-heavy full quadratic formula) and
//! `c = |oc|^2 - r^2`, the candidate parameters are
//! `t = (h -/+ sqrt(h^2 - a*c)) / a` -- here held exactly as
//! quadratic-extension scalars, so the roots, the hit point and the normal
//! carry no rounding at all.

use vstd::prelude::*;

use crate::arith::lemma_mul_bounds;
use crate::arith::lemma_mul_pos;
use crate::arith::lemma_mul_regroup;
use crate::arith::lemma_sq_diff;
use crate::hit::HitRecord;
use crate::hit::HitV;
use crate::hit::Hittable;
use crate::hit::Material;
use crate::interval::Interval;
use crate::interval::IntervalV;
use crate::interval::lemma_surrounds_quad_rational;
use crate::quad::QVec3;
use crate::quad::QVec3V;
use crate::quad::Quad;
use crate::quad::QuadV;
use crate::quad::qvec_sq_is;
use crate::quad::qvec_sub_vec;
use crate::quad::lemma_sqrt_eq_exact;
use crate::rat::RatV;
use crate::ray::Ray;
use crate::ray::RayV;
use crate::ray::ray_at;
use crate::vec3::COORD_BOUND;
use crate::vec3::Vec3;
use crate::vec3::Vec3V;
use crate::vec3::lemma_len_squared_pos;

verus! {

/// `oc = C - O`: the vector from the ray origin to the sphere center.
pub open spec fn sphere_oc(center: Vec3V, ray: RayV) -> Vec3V {
    center.sub(ray.origin)
}

/// `a = |D|^2`: the quadratic's leading coefficient, positive for a
/// non-degenerate direction.
pub open spec fn sphere_a(ray: RayV) -> int {
    ray.direction.len_squared()
}

/// `h = D . oc`: minus half the quadratic's linear coefficient.
pub open spec fn sphere_h(center: Vec3V, ray: RayV) -> int {
    ray.direction.dot(sphere_oc(center, ray))
}

/// `c = |oc|^2 - r^2`: the quadratic's constant coefficient.
pub open spec fn sphere_c(center: Vec3V, radius: int, ray: RayV) -> int {
    sphere_oc(center, ray).len_squared() - radius * radius
}

/// The discriminant `h^2 - a*c`; its sign decides whether the ray's line
/// meets the sphere at all.
pub open spec fn sphere_disc(center: Vec3V, radius: int, ray: RayV) -> int {
    sphere_h(center, ray) * sphere_h(center, ray) - sphere_a(ray) * sphere_c(
        center,
        radius,
        ray,
    )
}

/// The candidate root `(h + sgn*sqrt(disc)) / a`, exactly: `sgn == -1` gives
/// the near root, `sgn == 1` the far one.
pub open spec fn sphere_root(center: Vec3V, radius: int, ray: RayV, sgn: int) -> QuadV {
    QuadV {
        p: sphere_h(center, ray),
        q: sgn,
        den: sphere_a(ray),
        rad: sphere_disc(center, radius, ray),
    }
}

/// The outward normal `(point - center) / radius`, componentwise on the
/// representation.
pub open spec fn sphere_normal(center: Vec3V, radius: int, point: QVec3V) -> QVec3V {
    QVec3V {
        x: QuadV {
            p: point.x.p - center.x * point.x.den,
            q: point.x.q,
            den: point.x.den * radius,
            rad: point.x.rad,
        },
        y: QuadV {
            p: point.y.p - center.y * point.y.den,
            q: point.y.q,
            den: point.y.den * radius,
            rad: point.y.rad,
        },
        z: QuadV {
            p: point.z.p - center.z * point.z.den,
            q: point.z.q,
            den: point.z.den * radius,
            rad: point.z.rad,
        },
    }
}

/// The record an accepted root yields: point, parameter and outward normal.
pub open spec fn sphere_record(center: Vec3V, radius: int, ray: RayV, root: QuadV) -> HitV {
    HitV {
        point: ray_at(ray, root),
        t: root,
        normal: sphere_normal(center, radius, ray_at(ray, root)),
    }
}

/// The whole intersection: no hit on a negative discriminant; otherwise the
/// near root is tried first and the far root only if the near one falls
/// outside the interval, which yields the nearest valid hit.
pub open spec fn sphere_hit(center: Vec3V, radius: int, ray: RayV, iv: IntervalV) -> Option<
    HitV,
> {
    if sphere_disc(center, radius, ray) < 0 {
        None
    } else if iv.surrounds_quad(sphere_root(center, radius, ray, -1)) {
        Some(sphere_record(center, radius, ray, sphere_root(center, radius, ray, -1)))
    } else if iv.surrounds_quad(sphere_root(center, radius, ray, 1)) {
        Some(sphere_record(center, radius, ray, sphere_root(center, radius, ray, 1)))
    } else {
        None
    }
}

/// Bounds on the quadratic's coefficients for lattice inputs; they keep the
/// executable intersection inside `i128`.
proof fn lemma_query_bounds(center: Vec3V, radius: int, ray: RayV)
    requires
        center.bounded(),
        ray.origin.bounded(),
        ray.direction.bounded(),
        1 <= radius <= COORD_BOUND as int,
    ensures
        0 <= sphere_a(ray) <= 3_000_000_000_000,
        -6_000_000_000_000 <= sphere_h(center, ray) <= 6_000_000_000_000,
        -12_000_000_000_000 <= sphere_c(center, radius, ray) <= 12_000_000_000_000,
        -72_000_000_000_000_000_000_000_000 <= sphere_disc(center, radius, ray)
            <= 72_000_000_000_000_000_000_000_000,
{
    let d = ray.direction;
    let oc = sphere_oc(center, ray);
    lemma_len_squared_pos(d);
    lemma_len_squared_pos(oc);
    lemma_mul_pos(radius, radius);
    lemma_mul_bounds(d.x, 1_000_000, d.x, 1_000_000);
    lemma_mul_bounds(d.y, 1_000_000, d.y, 1_000_000);
    lemma_mul_bounds(d.z, 1_000_000, d.z, 1_000_000);
    lemma_mul_bounds(d.x, 1_000_000, oc.x, 2_000_000);
    lemma_mul_bounds(d.y, 1_000_000, oc.y, 2_000_000);
    lemma_mul_bounds(d.z, 1_000_000, oc.z, 2_000_000);
    lemma_mul_bounds(oc.x, 2_000_000, oc.x, 2_000_000);
    lemma_mul_bounds(oc.y, 2_000_000, oc.y, 2_000_000);
    lemma_mul_bounds(oc.z, 2_000_000, oc.z, 2_000_000);
    lemma_mul_bounds(radius, 1_000_000, radius, 1_000_000);
    lemma_mul_bounds(
        sphere_h(center, ray),
        6_000_000_000_000,
        sphere_h(center, ray),
        6_000_000_000_000,
    );
    lemma_mul_bounds(
        sphere_a(ray),
        3_000_000_000_000,
        sphere_c(center, radius, ray),
        12_000_000_000_000,
    );
}

/// The one concrete surface variant in scope: center, radius and the material
/// the sphere owns.  Immutable after construction.
pub struct Sphere<M> {
    pub center: Vec3,
    pub radius: i128,
    pub material: M,
}

impl<M> Sphere<M> {
    /// A valid sphere: lattice center and a positive, lattice-bounded radius.
    pub open spec fn wf(self) -> bool {
        self.center.wf() && 1 <= self.radius <= COORD_BOUND
    }
}

impl<M: Material> Sphere<M> {
    /// Degenerate radii are rejected here, at construction time, so the
    /// intersection path stays branch-free.
    pub fn new(center: Vec3, radius: i128, material: M) -> (s: Sphere<M>)
        requires
            center.wf(),
            1 <= radius <= COORD_BOUND,
        ensures
            s.center == center,
            s.radius == radius,
            s.material == material,
            s.wf(),
    {
        Sphere { center, radius, material }
    }

    /// Builds the hit record for an accepted root.
    fn record_at<'a>(&'a self, ray: &Ray, root: Quad) -> (rec: HitRecord<'a, M>)
        requires
            self.wf(),
            ray.wf(),
            root@.root_shaped(),
        ensures
            rec@ == sphere_record(self.center@, self.radius as int, ray@, root@),
            rec.material == &self.material,
    {
        let point = ray.at(&root);
        proof {
            lemma_mul_bounds(ray.origin.x as int, 1_000_000, root.den as int, 3_000_000_000_000);
            lemma_mul_bounds(ray.origin.y as int, 1_000_000, root.den as int, 3_000_000_000_000);
            lemma_mul_bounds(ray.origin.z as int, 1_000_000, root.den as int, 3_000_000_000_000);
            lemma_mul_bounds(ray.direction.x as int, 1_000_000, root.p as int, 6_000_000_000_000);
            lemma_mul_bounds(ray.direction.y as int, 1_000_000, root.p as int, 6_000_000_000_000);
            lemma_mul_bounds(ray.direction.z as int, 1_000_000, root.p as int, 6_000_000_000_000);
            lemma_mul_bounds(self.center.x as int, 1_000_000, root.den as int, 3_000_000_000_000);
            lemma_mul_bounds(self.center.y as int, 1_000_000, root.den as int, 3_000_000_000_000);
            lemma_mul_bounds(self.center.z as int, 1_000_000, root.den as int, 3_000_000_000_000);
            lemma_mul_bounds(root.den as int, 3_000_000_000_000, self.radius as int, 1_000_000);
        }
        let normal = QVec3 {
            x: Quad {
                p: point.x.p - self.center.x * point.x.den,
                q: point.x.q,
                den: point.x.den * self.radius,
                rad: point.x.rad,
            },
            y: Quad {
                p: point.y.p - self.center.y * point.y.den,
                q: point.y.q,
                den: point.y.den * self.radius,
                rad: point.y.rad,
            },
            z: Quad {
                p: point.z.p - self.center.z * point.z.den,
                q: point.z.q,
                den: point.z.den * self.radius,
                rad: point.z.rad,
            },
        };
        HitRecord { point, t: root, normal, material: &self.material }
    }
}

impl<M: Material> Hittable<M> for Sphere<M> {
    open spec fn hit_ok(&self, ray: Ray, interval: Interval) -> bool {
        self.wf() && ray.wf() && interval.wf() && !ray@.direction.is_zero()
    }

    open spec fn hit_spec(&self, ray: Ray, interval: Interval) -> Option<HitV> {
        sphere_hit(self.center@, self.radius as int, ray@, interval@)
    }

    open spec fn hit_material(&self) -> M {
        self.material
    }

    fn hit<'a>(&'a self, ray: &Ray, interval: &Interval) -> (r: Option<HitRecord<'a, M>>) {
        proof {
            lemma_query_bounds(self.center@, self.radius as int, ray@);
            lemma_len_squared_pos(ray@.direction);
            lemma_mul_bounds(self.radius as int, 1_000_000, self.radius as int, 1_000_000);
        }
        let oc = self.center.sub(&ray.origin);
        let a = ray.direction.len_squared();
        let h = ray.direction.dot(&oc);
        let c = oc.len_squared() - self.radius * self.radius;
        proof {
            lemma_mul_bounds(h as int, 6_000_000_000_000, h as int, 6_000_000_000_000);
            lemma_mul_bounds(a as int, 3_000_000_000_000, c as int, 12_000_000_000_000);
        }
        let disc = h * h - a * c;
        if disc < 0 {
            return None;
        }
        let root1 = Quad { p: h, q: -1, den: a, rad: disc };
        if interval.surrounds_root(&root1) {
            return Some(self.record_at(ray, root1));
        }
        let root2 = Quad { p: h, q: 1, den: a, rad: disc };
        if interval.surrounds_root(&root2) {
            return Some(self.record_at(ray, root2));
        }
        None
    }

    proof fn hit_spec_in_interval(&self, ray: Ray, interval: Interval) {
    }
}

/// Ring identity behind the normal's direction: with `a == |d|^2` and
/// `h == d . o`, the vector with components `d_i*h - a*o_i` is orthogonal
/// to `d`.
proof fn lemma_cross_zero(d1: int, d2: int, d3: int, o1: int, o2: int, o3: int, a: int, hh: int)
    requires
        a == d1 * d1 + d2 * d2 + d3 * d3,
        hh == d1 * o1 + d2 * o2 + d3 * o3,
    ensures
        (d1 * hh - a * o1) * d1 + (d2 * hh - a * o2) * d2 + (d3 * hh - a * o3) * d3 == 0,
{
    assert((d1 * hh - a * o1) * d1 == (d1 * d1) * hh - a * (d1 * o1)) by (nonlinear_arith);
    assert((d2 * hh - a * o2) * d2 == (d2 * d2) * hh - a * (d2 * o2)) by (nonlinear_arith);
    assert((d3 * hh - a * o3) * d3 == (d3 * d3) * hh - a * (d3 * o3)) by (nonlinear_arith);
    assert((d1 * d1) * hh + (d2 * d2) * hh + (d3 * d3) * hh == (d1 * d1 + d2 * d2 + d3 * d3)
        * hh) by (nonlinear_arith);
    assert(a * (d1 * o1) + a * (d2 * o2) + a * (d3 * o3) == a * (d1 * o1 + d2 * o2 + d3 * o3))
        by (nonlinear_arith);
}

/// Ring identity behind unit normals and surface membership: the squared
/// length of the vector with components `d_i*h - a*o_i`, plus `disc*a`,
/// is exactly `a^2*r^2`.
proof fn lemma_norm_value(
    d1: int,
    d2: int,
    d3: int,
    o1: int,
    o2: int,
    o3: int,
    a: int,
    hh: int,
    cc: int,
    disc: int,
    r: int,
)
    requires
        a == d1 * d1 + d2 * d2 + d3 * d3,
        hh == d1 * o1 + d2 * o2 + d3 * o3,
        cc == o1 * o1 + o2 * o2 + o3 * o3 - r * r,
        disc == hh * hh - a * cc,
    ensures
        (d1 * hh - a * o1) * (d1 * hh - a * o1) + (d2 * hh - a * o2) * (d2 * hh - a * o2) + (d3
            * hh - a * o3) * (d3 * hh - a * o3) + disc * a == a * a * (r * r),
{
    let s2 = o1 * o1 + o2 * o2 + o3 * o3;
    // expand each square
    lemma_sq_diff(d1 * hh, a * o1);
    lemma_sq_diff(d2 * hh, a * o2);
    lemma_sq_diff(d3 * hh, a * o3);
    lemma_mul_regroup(d1, hh, d1, hh);
    lemma_mul_regroup(d2, hh, d2, hh);
    lemma_mul_regroup(d3, hh, d3, hh);
    lemma_mul_regroup(d1, hh, a, o1);
    lemma_mul_regroup(d2, hh, a, o2);
    lemma_mul_regroup(d3, hh, a, o3);
    lemma_mul_regroup(a, o1, a, o1);
    lemma_mul_regroup(a, o2, a, o2);
    lemma_mul_regroup(a, o3, a, o3);
    // regroup each of the three sums
    assert((d1 * d1) * (hh * hh) + (d2 * d2) * (hh * hh) + (d3 * d3) * (hh * hh) == (d1 * d1 + d2
        * d2 + d3 * d3) * (hh * hh)) by (nonlinear_arith);
    assert((a * hh) * (d1 * o1) + (a * hh) * (d2 * o2) + (a * hh) * (d3 * o3) == (a * hh) * (d1
        * o1 + d2 * o2 + d3 * o3)) by (nonlinear_arith);
    assert((a * a) * (o1 * o1) + (a * a) * (o2 * o2) + (a * a) * (o3 * o3) == (a * a) * (o1 * o1
        + o2 * o2 + o3 * o3)) by (nonlinear_arith);
    // so the squared length is a*(hh*hh) - 2*(a*hh)*hh + (a*a)*s2
    assert((a * hh) * hh == a * (hh * hh)) by (nonlinear_arith);
    // and the discriminant contributes the rest
    assert(disc * a == (hh * hh) * a - (a * cc) * a) by (nonlinear_arith)
        requires
            disc == hh * hh - a * cc,
    ;
    assert((a * cc) * a == (a * a) * cc) by (nonlinear_arith);
    assert((a * a) * cc == (a * a) * (o1 * o1 + o2 * o2 + o3 * o3) - (a * a) * (r * r))
        by (nonlinear_arith)
        requires
            cc == o1 * o1 + o2 * o2 + o3 * o3 - r * r,
    ;
    assert((hh * hh) * a == a * (hh * hh)) by (nonlinear_arith);
    assert((a * a) * (r * r) == a * a * (r * r)) by (nonlinear_arith);
}

/// The exact geometry of the record built for either candidate root: its
/// normal has squared length one, and its point lies on the sphere.
proof fn lemma_record_props(center: Vec3V, radius: int, ray: RayV, sgn: int)
    requires
        radius >= 1,
        !ray.direction.is_zero(),
        sgn == 1 || sgn == -1,
        sphere_disc(center, radius, ray) >= 0,
    ensures
        qvec_sq_is(sphere_record(center, radius, ray, sphere_root(center, radius, ray, sgn)).normal, 1),
        qvec_sq_is(
            qvec_sub_vec(
                sphere_record(center, radius, ray, sphere_root(center, radius, ray, sgn)).point,
                center,
            ),
            radius * radius,
        ),
{
    let d = ray.direction;
    let o = ray.origin;
    let oc = sphere_oc(center, ray);
    let a = sphere_a(ray);
    let hh = sphere_h(center, ray);
    let cc = sphere_c(center, radius, ray);
    let disc = sphere_disc(center, radius, ray);
    lemma_len_squared_pos(d);
    lemma_mul_pos(a, radius);
    lemma_cross_zero(d.x, d.y, d.z, oc.x, oc.y, oc.z, a, hh);
    lemma_norm_value(d.x, d.y, d.z, oc.x, oc.y, oc.z, a, hh, cc, disc, radius);
    let root = sphere_root(center, radius, ray, sgn);
    let point = ray_at(ray, root);
    // each p field of point - center, and of the normal, is `d_i*h - a*oc_i`
    assert(o.x * a + d.x * hh - center.x * a == d.x * hh - a * (center.x - o.x))
        by (nonlinear_arith);
    assert(o.y * a + d.y * hh - center.y * a == d.y * hh - a * (center.y - o.y))
        by (nonlinear_arith);
    assert(o.z * a + d.z * hh - center.z * a == d.z * hh - a * (center.z - o.z))
        by (nonlinear_arith);
    // the q fields square and cross back to `d_i` terms, for either sign
    assert((d.x * sgn) * (d.x * sgn) == d.x * d.x) by (nonlinear_arith)
        requires sgn == 1 || sgn == -1;
    assert((d.y * sgn) * (d.y * sgn) == d.y * d.y) by (nonlinear_arith)
        requires sgn == 1 || sgn == -1;
    assert((d.z * sgn) * (d.z * sgn) == d.z * d.z) by (nonlinear_arith)
        requires sgn == 1 || sgn == -1;
    assert((d.x * hh - a * oc.x) * (d.x * sgn) == ((d.x * hh - a * oc.x) * d.x) * sgn)
        by (nonlinear_arith);
    assert((d.y * hh - a * oc.y) * (d.y * sgn) == ((d.y * hh - a * oc.y) * d.y) * sgn)
        by (nonlinear_arith);
    assert((d.z * hh - a * oc.z) * (d.z * sgn) == ((d.z * hh - a * oc.z) * d.z) * sgn)
        by (nonlinear_arith);
    assert(((d.x * hh - a * oc.x) * d.x + (d.y * hh - a * oc.y) * d.y + (d.z * hh - a * oc.z)
        * d.z) * sgn == 0) by (nonlinear_arith)
        requires (d.x * hh - a * oc.x) * d.x + (d.y * hh - a * oc.y) * d.y + (d.z * hh - a
            * oc.z) * d.z == 0;
    assert(((d.x * hh - a * oc.x) * d.x) * sgn + ((d.y * hh - a * oc.y) * d.y) * sgn + ((d.z * hh
        - a * oc.z) * d.z) * sgn == ((d.x * hh - a * oc.x) * d.x + (d.y * hh - a * oc.y) * d.y + (
    d.z * hh - a * oc.z) * d.z) * sgn) by (nonlinear_arith);
    // regroup the target denominators
    assert((a * radius) * (a * radius) == a * a * (radius * radius)) by (nonlinear_arith);
    assert(1 * ((a * radius) * (a * radius)) == a * a * (radius * radius)) by (nonlinear_arith);
    assert((radius * radius) * a * a == a * a * (radius * radius)) by (nonlinear_arith);
}

/// Law (unit normal): every hit the model accepts carries an exactly
/// unit-length outward normal, `|normal|^2 == 1`.
pub proof fn lemma_unit_normal(center: Vec3V, radius: int, ray: RayV, iv: IntervalV, rec: HitV)
    requires
        radius >= 1,
        !ray.direction.is_zero(),
        sphere_hit(center, radius, ray, iv) == Some(rec),
    ensures
        qvec_sq_is(rec.normal, 1),
{
    if iv.surrounds_quad(sphere_root(center, radius, ray, -1)) {
        lemma_record_props(center, radius, ray, -1);
    } else {
        lemma_record_props(center, radius, ray, 1);
    }
}

/// Law (surface membership): the point of every hit the model accepts lies
/// exactly on the sphere, `|point - center|^2 == radius^2`.
pub proof fn lemma_surface_membership(
    center: Vec3V,
    radius: int,
    ray: RayV,
    iv: IntervalV,
    rec: HitV,
)
    requires
        radius >= 1,
        !ray.direction.is_zero(),
        sphere_hit(center, radius, ray, iv) == Some(rec),
    ensures
        qvec_sq_is(qvec_sub_vec(rec.point, center), radius * radius),
{
    if iv.surrounds_quad(sphere_root(center, radius, ray, -1)) {
        lemma_record_props(center, radius, ray, -1);
    } else {
        lemma_record_props(center, radius, ray, 1);
    }
}

/// Law (interval compliance): every hit the model accepts has its parameter
/// strictly inside the interval; none is ever returned outside it.
pub proof fn lemma_interval_compliance(
    center: Vec3V,
    radius: int,
    ray: RayV,
    iv: IntervalV,
    rec: HitV,
)
    requires
        sphere_hit(center, radius, ray, iv) == Some(rec),
    ensures
        iv.surrounds_quad(rec.t),
{
}

/// Law (miss correctness): a negative discriminant yields no hit, for every
/// ray, sphere and interval.
pub proof fn lemma_miss(center: Vec3V, radius: int, ray: RayV, iv: IntervalV)
    requires
        sphere_disc(center, radius, ray) < 0,
    ensures
        sphere_hit(center, radius, ray, iv) is None,
{
}

/// Law (nearest hit): when both candidate roots lie strictly inside the
/// interval, the model keeps the near root, which is at most the far one.
pub proof fn lemma_nearest_root(center: Vec3V, radius: int, ray: RayV, iv: IntervalV)
    requires
        !ray.direction.is_zero(),
        sphere_disc(center, radius, ray) >= 0,
        iv.surrounds_quad(sphere_root(center, radius, ray, -1)),
        iv.surrounds_quad(sphere_root(center, radius, ray, 1)),
    ensures
        sphere_hit(center, radius, ray, iv) == Some(
            sphere_record(center, radius, ray, sphere_root(center, radius, ray, -1)),
        ),
        sphere_root(center, radius, ray, -1).le(sphere_root(center, radius, ray, 1)),
{
    lemma_len_squared_pos(ray.direction);
    let a = sphere_a(ray);
    let disc = sphere_disc(center, radius, ray);
    if disc >= 1 {
        assert((2 * a) * (2 * a) * disc >= 1) by (nonlinear_arith)
            requires
                a >= 1,
                disc >= 1,
        ;
        assert(sphere_root(center, radius, ray, -1).lt(sphere_root(center, radius, ray, 1)));
    } else {
        assert(sphere_root(center, radius, ray, -1).eq_val(sphere_root(center, radius, ray, 1)));
    }
}

/// Law (tangency): a zero discriminant yields exactly one distinguishable
/// root value, the rational `h / a`; the model accepts a hit exactly when
/// the interval strictly surrounds that single root.
pub proof fn lemma_tangency(center: Vec3V, radius: int, ray: RayV, iv: IntervalV)
    requires
        !ray.direction.is_zero(),
        sphere_disc(center, radius, ray) == 0,
        iv.low.den >= 1,
        iv.high.den >= 1,
    ensures
        sphere_root(center, radius, ray, -1).eq_val(sphere_root(center, radius, ray, 1)),
        sphere_root(center, radius, ray, -1).eq_rat(
            RatV { num: sphere_h(center, ray), den: sphere_a(ray) },
        ),
        sphere_hit(center, radius, ray, iv) is Some <==> iv.surrounds(
            RatV { num: sphere_h(center, ray), den: sphere_a(ray) },
        ),
{
    lemma_len_squared_pos(ray.direction);
    let a = sphere_a(ray);
    let hh = sphere_h(center, ray);
    assert(hh * a == a * hh) by (nonlinear_arith);
    lemma_sqrt_eq_exact(a * -1, 0, hh * a - a * hh);
    // with a zero radicand both root tests reduce to the rational test on h/a
    lemma_surrounds_quad_rational(iv, sphere_root(center, radius, ray, -1), 0);
    lemma_surrounds_quad_rational(iv, sphere_root(center, radius, ray, 1), 0);
}

} // verus!


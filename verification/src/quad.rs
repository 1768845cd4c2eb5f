//! Quadratic-extension scalars: exact values of the form `(p + q*sqrt(rad))/den`.
//!
//! The roots of the sphere quadratic, and the points and normals derived from
//! them, are generally irrational.  They are nevertheless exact values of the
//! field extension `Q(sqrt(rad))`, so this module represents a scalar by four
//! integers and decides its order against rationals by sign analysis and
//! squaring, with no approximation anywhere.

use vstd::prelude::*;

use crate::arith::lemma_mul_bounds;
use crate::rat::RatV;
use crate::vec3::Vec3V;

verus! {

/// Bound on the `p` field of a root produced by the intersection: `6 * COORD_BOUND^2`.
pub const ROOT_P_BOUND: i128 = 6_000_000_000_000;

/// Bound on the denominator of a root: `3 * COORD_BOUND^2`.
pub const ROOT_DEN_BOUND: i128 = 3_000_000_000_000;

/// Bound on the radicand of a root: `72 * COORD_BOUND^4`.
pub const ROOT_RAD_BOUND: i128 = 72_000_000_000_000_000_000_000_000;

/// Bound on the cross-multiplied terms compared inside an interval test:
/// `COORD_BOUND * (ROOT_DEN_BOUND + ROOT_P_BOUND)`.
pub const CROSS_BOUND: i128 = 9_000_000_000_000_000_000;

/// Does `a * sqrt(d) > b` hold over the reals, for `d >= 0`?
///
/// Decided without taking the square root: when `b` is negative the left side
/// wins exactly when it is nonnegative or closer to zero in square; when `b`
/// is nonnegative the left side must be positive and larger in square.
/// `lemma_sqrt_gt_exact` grounds this definition in plain integer order
/// whenever the radicand is a perfect square.
pub open spec fn sqrt_gt(a: int, d: int, b: int) -> bool {
    if b < 0 {
        a >= 0 || a * a * d < b * b
    } else {
        a > 0 && a * a * d > b * b
    }
}

/// Does `a * sqrt(d) == b` hold over the reals, for `d >= 0`?
pub open spec fn sqrt_eq(a: int, d: int, b: int) -> bool {
    a * b >= 0 && a * a * d == b * b
}

/// When the radicand is the perfect square `s * s`, the symbolic test agrees
/// with plain integer order.
pub proof fn lemma_sqrt_gt_exact(a: int, s: int, b: int)
    by (nonlinear_arith)
    requires
        s >= 0,
    ensures
        sqrt_gt(a, s * s, b) == (a * s > b),
{
}

/// When the radicand is the perfect square `s * s`, symbolic equality agrees
/// with plain integer equality.
pub proof fn lemma_sqrt_eq_exact(a: int, s: int, b: int)
    by (nonlinear_arith)
    requires
        s >= 0,
    ensures
        sqrt_eq(a, s * s, b) == (a * s == b),
{
}

/// Mathematical model of a quadratic-extension scalar `(p + q*sqrt(rad))/den`.
pub struct QuadV {
    pub p: int,
    pub q: int,
    pub den: int,
    pub rad: int,
}

impl QuadV {
    /// A meaningful scalar: positive denominator, nonnegative radicand.
    pub open spec fn wf(self) -> bool {
        self.den >= 1 && self.rad >= 0
    }

    /// The shape of a root of the sphere quadratic, with the field bounds
    /// that keep the interval comparisons inside `i128`.
    pub open spec fn root_shaped(self) -> bool {
        &&& 1 <= self.den <= ROOT_DEN_BOUND as int
        &&& -(ROOT_P_BOUND as int) <= self.p <= ROOT_P_BOUND as int
        &&& (self.q == 1 || self.q == -1)
        &&& 0 <= self.rad <= ROOT_RAD_BOUND as int
    }

    /// Is this scalar strictly below the scalar `o` over the same radicand?
    pub open spec fn lt(self, o: QuadV) -> bool {
        sqrt_gt(o.q * self.den - self.q * o.den, self.rad, self.p * o.den - o.p * self.den)
    }

    /// Do this scalar and `o` denote the same real number (same radicand)?
    pub open spec fn eq_val(self, o: QuadV) -> bool {
        sqrt_eq(o.q * self.den - self.q * o.den, self.rad, self.p * o.den - o.p * self.den)
    }

    pub open spec fn le(self, o: QuadV) -> bool {
        self.lt(o) || self.eq_val(o)
    }

    /// Is this scalar strictly above the rational `r`?
    pub open spec fn gt_rat(self, r: RatV) -> bool {
        sqrt_gt(r.den * self.q, self.rad, r.num * self.den - r.den * self.p)
    }

    /// Is this scalar strictly below the rational `r`?
    pub open spec fn lt_rat(self, r: RatV) -> bool {
        sqrt_gt(-(r.den * self.q), self.rad, r.den * self.p - r.num * self.den)
    }

    /// Does this scalar denote exactly the rational `r`?
    pub open spec fn eq_rat(self, r: RatV) -> bool {
        sqrt_eq(r.den * self.q, self.rad, r.num * self.den - r.den * self.p)
    }
}

/// An exact quadratic-extension scalar `(p + q*sqrt(rad))/den`.
#[derive(Clone, Copy, Debug, PartialEq, Eq, Structural)]
pub struct Quad {
    pub p: i128,
    pub q: i128,
    pub den: i128,
    pub rad: i128,
}

impl View for Quad {
    type V = QuadV;

    open spec fn view(&self) -> QuadV {
        QuadV { p: self.p as int, q: self.q as int, den: self.den as int, rad: self.rad as int }
    }
}

impl Quad {
    /// A scalar that denotes the rational `num / den`.
    pub fn from_rat(num: i128, den: i128) -> (r: Quad)
        requires
            den >= 1,
        ensures
            r@ == (QuadV { p: num as int, q: 0, den: den as int, rad: 0 }),
    {
        Quad { p: num, q: 0, den, rad: 0 }
    }
}

/// Decides `a * sqrt(d) > b` exactly, matching [`sqrt_gt`].
pub fn sqrt_gt_exec(a: i128, d: i128, b: i128) -> (r: bool)
    requires
        -1_000_000 <= a <= 1_000_000,
        0 <= d <= ROOT_RAD_BOUND,
        -CROSS_BOUND <= b <= CROSS_BOUND,
    ensures
        r == sqrt_gt(a as int, d as int, b as int),
{
    proof {
        lemma_mul_bounds(a as int, 1_000_000, a as int, 1_000_000);
        lemma_mul_bounds(
            a as int * a as int,
            1_000_000_000_000,
            d as int,
            ROOT_RAD_BOUND as int,
        );
        lemma_mul_bounds(b as int, CROSS_BOUND as int, b as int, CROSS_BOUND as int);
    }
    if b < 0 {
        a >= 0 || a * a * d < b * b
    } else {
        a > 0 && a * a * d > b * b
    }
}

/// A vector whose components are quadratic-extension scalars; the form taken
/// by intersection points and normals.
#[derive(Clone, Copy, Debug, PartialEq, Eq, Structural)]
pub struct QVec3 {
    pub x: Quad,
    pub y: Quad,
    pub z: Quad,
}

/// Mathematical model of a [`QVec3`].
pub struct QVec3V {
    pub x: QuadV,
    pub y: QuadV,
    pub z: QuadV,
}

impl View for QVec3 {
    type V = QVec3V;

    open spec fn view(&self) -> QVec3V {
        QVec3V { x: self.x@, y: self.y@, z: self.z@ }
    }
}

/// The vector `v - w`: a lattice vector subtracted componentwise from a
/// quadratic-extension vector.
pub open spec fn qvec_sub_vec(v: QVec3V, w: Vec3V) -> QVec3V {
    QVec3V {
        x: QuadV { p: v.x.p - w.x * v.x.den, q: v.x.q, den: v.x.den, rad: v.x.rad },
        y: QuadV { p: v.y.p - w.y * v.y.den, q: v.y.q, den: v.y.den, rad: v.y.rad },
        z: QuadV { p: v.z.p - w.z * v.z.den, q: v.z.q, den: v.z.den, rad: v.z.rad },
    }
}

/// States that `|v|^2 == c` as real numbers, for a vector whose components
/// share one denominator and one radicand.
///
/// Writing `d` for the radicand and `e` for the denominator,
/// `|v|^2 == ((p_x^2 + p_y^2 + p_z^2) + d*(q_x^2 + q_y^2 + q_z^2)
///            + 2*sqrt(d)*(p_x*q_x + p_y*q_y + p_z*q_z)) / e^2`,
/// so the two polynomial equations below state the property exactly.
pub open spec fn qvec_sq_is(v: QVec3V, c: int) -> bool {
    &&& v.x.den == v.y.den && v.y.den == v.z.den
    &&& v.x.rad == v.y.rad && v.y.rad == v.z.rad
    &&& v.x.den >= 1
    &&& v.x.rad >= 0
    &&& v.x.p * v.x.p + v.y.p * v.y.p + v.z.p * v.z.p + v.x.rad * (v.x.q * v.x.q + v.y.q
        * v.y.q + v.z.q * v.z.q) == c * v.x.den * v.x.den
    &&& v.x.p * v.x.q + v.y.p * v.y.q + v.z.p * v.z.q == 0
}

} // verus!

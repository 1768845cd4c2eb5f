//! Validity intervals for ray parameters.
//!
//! Intersection testing uses the strict `surrounds` test, never the inclusive
//! `contains` test: excluding the lower boundary keeps a ray from re-hitting
//! the surface it just left, and excluding the upper boundary respects a
//! nearest-hit-so-far or far-clip cutoff.

use vstd::prelude::*;

use crate::arith::lemma_mul_bounds;
use crate::quad::Quad;
use crate::quad::QuadV;
use crate::quad::ROOT_DEN_BOUND;
use crate::quad::ROOT_P_BOUND;
use crate::quad::lemma_sqrt_gt_exact;
use crate::quad::sqrt_gt_exec;
use crate::rat::Rat;
use crate::rat::RatV;
use crate::vec3::COORD_BOUND;

verus! {

/// Mathematical model of an interval: two rational bounds.
pub struct IntervalV {
    pub low: RatV,
    pub high: RatV,
}

impl IntervalV {
    pub open spec fn wf(self) -> bool {
        self.low.wf() && self.high.wf()
    }

    /// Inclusive containment of a rational: `low <= x <= high`.
    pub open spec fn contains(self, x: RatV) -> bool {
        self.low.le(x) && x.le(self.high)
    }

    /// Strict containment of a rational: `low < x < high`.
    pub open spec fn surrounds(self, x: RatV) -> bool {
        self.low.lt(x) && x.lt(self.high)
    }

    /// Strict containment of a quadratic-extension scalar: `low < x < high`.
    pub open spec fn surrounds_quad(self, x: QuadV) -> bool {
        x.gt_rat(self.low) && x.lt_rat(self.high)
    }
}

/// When a scalar's radicand is the perfect square `s * s`, the exact
/// `surrounds` test on it agrees with the plain rational test on its value
/// `(p + q*s) / den`: the symbolic order says nothing new where both apply.
pub proof fn lemma_surrounds_quad_rational(iv: IntervalV, x: QuadV, s: int)
    requires
        x.rad == s * s,
        s >= 0,
        x.den >= 1,
        iv.low.den >= 1,
        iv.high.den >= 1,
    ensures
        iv.surrounds_quad(x) == iv.surrounds(RatV { num: x.p + x.q * s, den: x.den }),
{
    lemma_sqrt_gt_exact(iv.low.den * x.q, s, iv.low.num * x.den - iv.low.den * x.p);
    lemma_sqrt_gt_exact(-(iv.high.den * x.q), s, iv.high.den * x.p - iv.high.num * x.den);
    assert((iv.low.den * x.q) * s == iv.low.den * (x.q * s)) by (nonlinear_arith);
    assert((x.p + x.q * s) * iv.low.den == iv.low.den * x.p + iv.low.den * (x.q * s))
        by (nonlinear_arith);
    assert((-(iv.high.den * x.q)) * s == -(iv.high.den * (x.q * s))) by (nonlinear_arith);
    assert((x.p + x.q * s) * iv.high.den == iv.high.den * x.p + iv.high.den * (x.q * s))
        by (nonlinear_arith);
}

/// A range of valid ray parameters, `low <= high` by convention
/// (not enforced at construction).
#[derive(Clone, Copy, Debug, PartialEq, Eq, Structural)]
pub struct Interval {
    pub low: Rat,
    pub high: Rat,
}

impl View for Interval {
    type V = IntervalV;

    open spec fn view(&self) -> IntervalV {
        IntervalV { low: self.low@, high: self.high@ }
    }
}

impl Interval {
    pub open spec fn wf(self) -> bool {
        self@.wf()
    }

    pub fn new(low: Rat, high: Rat) -> (iv: Interval)
        ensures
            iv@ == (IntervalV { low: low@, high: high@ }),
    {
        Interval { low, high }
    }

    /// Inclusive range test: `low <= x <= high`.
    pub fn contains(&self, x: &Rat) -> (r: bool)
        requires
            self.wf(),
            x.wf(),
        ensures
            r == self@.contains(x@),
    {
        self.low.le(x) && x.le(&self.high)
    }

    /// Strict range test: `low < x < high`, excluding both boundaries.
    pub fn surrounds(&self, x: &Rat) -> (r: bool)
        requires
            self.wf(),
            x.wf(),
        ensures
            r == self@.surrounds(x@),
    {
        self.low.lt(x) && x.lt(&self.high)
    }

    /// Strict range test for a root of the sphere quadratic, decided exactly.
    pub fn surrounds_root(&self, x: &Quad) -> (r: bool)
        requires
            self.wf(),
            x@.root_shaped(),
        ensures
            r == self@.surrounds_quad(x@),
    {
        proof {
            lemma_mul_bounds(self.low.den as int, COORD_BOUND as int, x.q as int, 1);
            lemma_mul_bounds(self.low.num as int, COORD_BOUND as int, x.den as int, ROOT_DEN_BOUND as int);
            lemma_mul_bounds(self.low.den as int, COORD_BOUND as int, x.p as int, ROOT_P_BOUND as int);
            lemma_mul_bounds(self.high.den as int, COORD_BOUND as int, x.q as int, 1);
            lemma_mul_bounds(self.high.num as int, COORD_BOUND as int, x.den as int, ROOT_DEN_BOUND as int);
            lemma_mul_bounds(self.high.den as int, COORD_BOUND as int, x.p as int, ROOT_P_BOUND as int);
        }
        let a_low: i128 = self.low.den * x.q;
        let b_low: i128 = self.low.num * x.den - self.low.den * x.p;
        let above_low = sqrt_gt_exec(a_low, x.rad, b_low);
        let a_high: i128 = -(self.high.den * x.q);
        let b_high: i128 = self.high.den * x.p - self.high.num * x.den;
        let below_high = sqrt_gt_exec(a_high, x.rad, b_high);
        above_low && below_high
    }
}

} // verus!

//! Exact rational scalars, used for the bounds of a validity interval.

use vstd::prelude::*;

use crate::arith::lemma_mul_bounds;
use crate::vec3::COORD_BOUND;

verus! {

/// Mathematical model of a rational: numerator over positive denominator.
pub struct RatV {
    pub num: int,
    pub den: int,
}

impl RatV {
    /// The order on rationals with positive denominators, by cross multiplication.
    pub open spec fn lt(self, o: RatV) -> bool {
        self.num * o.den < o.num * self.den
    }

    pub open spec fn le(self, o: RatV) -> bool {
        self.num * o.den <= o.num * self.den
    }

    pub open spec fn wf(self) -> bool {
        &&& 1 <= self.den <= COORD_BOUND as int
        &&& -(COORD_BOUND as int) <= self.num <= COORD_BOUND as int
    }
}

/// An exact rational number with positive denominator.
#[derive(Clone, Copy, Debug, PartialEq, Eq, Structural)]
pub struct Rat {
    pub num: i128,
    pub den: i128,
}

impl View for Rat {
    type V = RatV;

    open spec fn view(&self) -> RatV {
        RatV { num: self.num as int, den: self.den as int }
    }
}

impl Rat {
    pub open spec fn wf(self) -> bool {
        self@.wf()
    }

    pub fn new(num: i128, den: i128) -> (r: Rat)
        requires
            1 <= den <= COORD_BOUND,
            -COORD_BOUND <= num <= COORD_BOUND,
        ensures
            r@ == (RatV { num: num as int, den: den as int }),
            r.wf(),
    {
        Rat { num, den }
    }

    pub fn lt(&self, o: &Rat) -> (r: bool)
        requires
            self.wf(),
            o.wf(),
        ensures
            r == self@.lt(o@),
    {
        proof {
            lemma_mul_bounds(self.num as int, COORD_BOUND as int, o.den as int, COORD_BOUND as int);
            lemma_mul_bounds(o.num as int, COORD_BOUND as int, self.den as int, COORD_BOUND as int);
        }
        self.num * o.den < o.num * self.den
    }

    pub fn le(&self, o: &Rat) -> (r: bool)
        requires
            self.wf(),
            o.wf(),
        ensures
            r == self@.le(o@),
    {
        proof {
            lemma_mul_bounds(self.num as int, COORD_BOUND as int, o.den as int, COORD_BOUND as int);
            lemma_mul_bounds(o.num as int, COORD_BOUND as int, self.den as int, COORD_BOUND as int);
        }
        self.num * o.den <= o.num * self.den
    }
}

} // verus!

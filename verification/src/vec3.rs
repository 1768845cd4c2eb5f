//! Immutable 3D vectors on a bounded integer lattice.
//!
//! Coordinates are kept within [`COORD_BOUND`] so that every intermediate
//! product of the sphere intersection arithmetic provably fits in `i128`.

use vstd::prelude::*;

use crate::arith::lemma_mul_bounds;
use crate::arith::lemma_square_nonneg;
use crate::quad::QVec3;
use crate::quad::QVec3V;
use crate::quad::Quad;
use crate::quad::QuadV;

verus! {

/// Largest coordinate magnitude the geometry accepts.  The bound keeps every
/// intermediate product of the intersection arithmetic inside `i128`.
pub const COORD_BOUND: i128 = 1_000_000;

/// Mathematical model of a vector: three unbounded integers.
pub struct Vec3V {
    pub x: int,
    pub y: int,
    pub z: int,
}

impl Vec3V {
    pub open spec fn add(self, o: Vec3V) -> Vec3V {
        Vec3V { x: self.x + o.x, y: self.y + o.y, z: self.z + o.z }
    }

    pub open spec fn sub(self, o: Vec3V) -> Vec3V {
        Vec3V { x: self.x - o.x, y: self.y - o.y, z: self.z - o.z }
    }

    pub open spec fn scale(self, k: int) -> Vec3V {
        Vec3V { x: self.x * k, y: self.y * k, z: self.z * k }
    }

    pub open spec fn dot(self, o: Vec3V) -> int {
        self.x * o.x + self.y * o.y + self.z * o.z
    }

    pub open spec fn len_squared(self) -> int {
        self.dot(self)
    }

    pub open spec fn is_zero(self) -> bool {
        self.x == 0 && self.y == 0 && self.z == 0
    }

    pub open spec fn bounded(self) -> bool {
        &&& -(COORD_BOUND as int) <= self.x <= COORD_BOUND as int
        &&& -(COORD_BOUND as int) <= self.y <= COORD_BOUND as int
        &&& -(COORD_BOUND as int) <= self.z <= COORD_BOUND as int
    }

    /// Within twice the lattice bound: the room a difference of two bounded
    /// vectors needs, still small enough for exact products in `i128`.
    pub open spec fn bounded2(self) -> bool {
        &&& -2 * (COORD_BOUND as int) <= self.x <= 2 * (COORD_BOUND as int)
        &&& -2 * (COORD_BOUND as int) <= self.y <= 2 * (COORD_BOUND as int)
        &&& -2 * (COORD_BOUND as int) <= self.z <= 2 * (COORD_BOUND as int)
    }
}

/// A nonzero vector has a positive squared length.
pub proof fn lemma_len_squared_pos(v: Vec3V)
    ensures
        v.len_squared() >= 0,
        !v.is_zero() ==> v.len_squared() >= 1,
{
    lemma_square_nonneg(v.x);
    lemma_square_nonneg(v.y);
    lemma_square_nonneg(v.z);
}

/// Immutable 3D value type; every operation returns a new value.
#[derive(Clone, Copy, Debug, PartialEq, Eq, Structural)]
pub struct Vec3 {
    pub x: i128,
    pub y: i128,
    pub z: i128,
}

impl View for Vec3 {
    type V = Vec3V;

    open spec fn view(&self) -> Vec3V {
        Vec3V { x: self.x as int, y: self.y as int, z: self.z as int }
    }
}

impl Vec3 {
    /// The vector lies on the accepted lattice.
    pub open spec fn wf(self) -> bool {
        self@.bounded()
    }

    pub fn new(x: i128, y: i128, z: i128) -> (v: Vec3)
        ensures
            v@ == (Vec3V { x: x as int, y: y as int, z: z as int }),
    {
        Vec3 { x, y, z }
    }

    pub fn add(&self, o: &Vec3) -> (r: Vec3)
        requires
            self.wf(),
            o.wf(),
        ensures
            r@ == self@.add(o@),
    {
        Vec3 { x: self.x + o.x, y: self.y + o.y, z: self.z + o.z }
    }

    pub fn sub(&self, o: &Vec3) -> (r: Vec3)
        requires
            self.wf(),
            o.wf(),
        ensures
            r@ == self@.sub(o@),
    {
        Vec3 { x: self.x - o.x, y: self.y - o.y, z: self.z - o.z }
    }

    /// Scalar multiplication by a lattice-bounded factor.
    pub fn scale(&self, k: i128) -> (r: Vec3)
        requires
            self.wf(),
            -COORD_BOUND <= k <= COORD_BOUND,
        ensures
            r@ == self@.scale(k as int),
    {
        proof {
            lemma_mul_bounds(self.x as int, COORD_BOUND as int, k as int, COORD_BOUND as int);
            lemma_mul_bounds(self.y as int, COORD_BOUND as int, k as int, COORD_BOUND as int);
            lemma_mul_bounds(self.z as int, COORD_BOUND as int, k as int, COORD_BOUND as int);
        }
        Vec3 { x: self.x * k, y: self.y * k, z: self.z * k }
    }

    pub fn dot(&self, o: &Vec3) -> (r: i128)
        requires
            self@.bounded2(),
            o@.bounded2(),
        ensures
            r as int == self@.dot(o@),
    {
        proof {
            lemma_mul_bounds(self.x as int, 2_000_000, o.x as int, 2_000_000);
            lemma_mul_bounds(self.y as int, 2_000_000, o.y as int, 2_000_000);
            lemma_mul_bounds(self.z as int, 2_000_000, o.z as int, 2_000_000);
        }
        self.x * o.x + self.y * o.y + self.z * o.z
    }

    pub fn len_squared(&self) -> (r: i128)
        requires
            self@.bounded2(),
        ensures
            r as int == self@.len_squared(),
    {
        self.dot(self)
    }

    /// The Euclidean length, exactly: `sqrt(|v|^2)` as a quadratic-extension
    /// scalar.
    pub fn length(&self) -> (r: Quad)
        requires
            self@.bounded2(),
        ensures
            r@ == (QuadV { p: 0, q: 1, den: 1, rad: self@.len_squared() }),
    {
        proof {
            lemma_len_squared_pos(self@);
        }
        Quad { p: 0, q: 1, den: 1, rad: self.len_squared() }
    }

    /// Scalar division by a positive factor, exactly: each component becomes
    /// the rational `v_i / k`.
    pub fn div(&self, k: i128) -> (r: QVec3)
        requires
            k >= 1,
        ensures
            r@ == (QVec3V {
                x: QuadV { p: self.x as int, q: 0, den: k as int, rad: 0 },
                y: QuadV { p: self.y as int, q: 0, den: k as int, rad: 0 },
                z: QuadV { p: self.z as int, q: 0, den: k as int, rad: 0 },
            }),
    {
        QVec3 {
            x: Quad { p: self.x, q: 0, den: k, rad: 0 },
            y: Quad { p: self.y, q: 0, den: k, rad: 0 },
            z: Quad { p: self.z, q: 0, den: k, rad: 0 },
        }
    }
}

} // verus!

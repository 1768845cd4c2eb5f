//! Rays: an origin and a direction, traced for increasing parameter values.

use vstd::prelude::*;

use crate::arith::lemma_mul_bounds;
use crate::quad::QVec3;
use crate::quad::QVec3V;
use crate::quad::Quad;
use crate::quad::QuadV;
use crate::vec3::COORD_BOUND;
use crate::vec3::Vec3;
use crate::vec3::Vec3V;

verus! {

/// Bound on the fields of a parameter passed to [`Ray::at`], far above any
/// root the intersection produces; it keeps the arithmetic inside `i128`.
pub const PARAM_BOUND: i128 = 1_000_000_000_000_000_000_000_000_000_000;

/// Mathematical model of a ray.
pub struct RayV {
    pub origin: Vec3V,
    pub direction: Vec3V,
}

/// The point `origin + direction * t` for the scalar `t == (p + q*sqrt(rad))/den`:
/// each component is again a quadratic-extension scalar over the same
/// denominator and radicand.
pub open spec fn ray_at(ray: RayV, t: QuadV) -> QVec3V {
    QVec3V {
        x: QuadV {
            p: ray.origin.x * t.den + ray.direction.x * t.p,
            q: ray.direction.x * t.q,
            den: t.den,
            rad: t.rad,
        },
        y: QuadV {
            p: ray.origin.y * t.den + ray.direction.y * t.p,
            q: ray.direction.y * t.q,
            den: t.den,
            rad: t.rad,
        },
        z: QuadV {
            p: ray.origin.z * t.den + ray.direction.z * t.p,
            q: ray.direction.z * t.q,
            den: t.den,
            rad: t.rad,
        },
    }
}

/// A parametric line: origin plus direction, the direction not required to be
/// of unit length.  A zero direction is excluded by the intersection
/// algorithm's precondition.
#[derive(Clone, Copy, Debug, PartialEq, Eq, Structural)]
pub struct Ray {
    pub origin: Vec3,
    pub direction: Vec3,
}

impl View for Ray {
    type V = RayV;

    open spec fn view(&self) -> RayV {
        RayV { origin: self.origin@, direction: self.direction@ }
    }
}

impl Ray {
    pub open spec fn wf(self) -> bool {
        self.origin.wf() && self.direction.wf()
    }

    pub fn new(origin: Vec3, direction: Vec3) -> (r: Ray)
        ensures
            r@ == (RayV { origin: origin@, direction: direction@ }),
    {
        Ray { origin, direction }
    }

    /// The point the ray reaches at parameter `t`: `origin + direction * t`,
    /// a pure function with no failure mode.
    pub fn at(&self, t: &Quad) -> (r: QVec3)
        requires
            self.wf(),
            t@.wf(),
            -PARAM_BOUND <= t.p <= PARAM_BOUND,
            -PARAM_BOUND <= t.q <= PARAM_BOUND,
            t.den <= PARAM_BOUND,
        ensures
            r@ == ray_at(self@, t@),
    {
        proof {
            lemma_mul_bounds(self.origin.x as int, COORD_BOUND as int, t.den as int, PARAM_BOUND as int);
            lemma_mul_bounds(self.origin.y as int, COORD_BOUND as int, t.den as int, PARAM_BOUND as int);
            lemma_mul_bounds(self.origin.z as int, COORD_BOUND as int, t.den as int, PARAM_BOUND as int);
            lemma_mul_bounds(self.direction.x as int, COORD_BOUND as int, t.p as int, PARAM_BOUND as int);
            lemma_mul_bounds(self.direction.y as int, COORD_BOUND as int, t.p as int, PARAM_BOUND as int);
            lemma_mul_bounds(self.direction.z as int, COORD_BOUND as int, t.p as int, PARAM_BOUND as int);
            lemma_mul_bounds(self.direction.x as int, COORD_BOUND as int, t.q as int, PARAM_BOUND as int);
            lemma_mul_bounds(self.direction.y as int, COORD_BOUND as int, t.q as int, PARAM_BOUND as int);
            lemma_mul_bounds(self.direction.z as int, COORD_BOUND as int, t.q as int, PARAM_BOUND as int);
        }
        QVec3 {
            x: Quad {
                p: self.origin.x * t.den + self.direction.x * t.p,
                q: self.direction.x * t.q,
                den: t.den,
                rad: t.rad,
            },
            y: Quad {
                p: self.origin.y * t.den + self.direction.y * t.p,
                q: self.direction.y * t.q,
                den: t.den,
                rad: t.rad,
            },
            z: Quad {
                p: self.origin.z * t.den + self.direction.z * t.p,
                q: self.direction.z * t.q,
                den: t.den,
                rad: t.rad,
            },
        }
    }
}

} // verus!

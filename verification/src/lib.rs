//! Exact geometric core of a minimal ray tracer.
//!
//! Given a ray and a validity interval, decide whether the ray strikes a
//! sphere and, if so, produce the intersection point, the outward unit
//! normal and a handle to the surface's material.  All geometry is done in
//! exact arithmetic: coordinates live on a bounded integer lattice,
//! interval bounds are rationals, and the results of the quadratic root
//! solving are quadratic-extension scalars of the form `(p + q*sqrt(rad))/den`,
//! so every contract below is exact rather than "within floating tolerance".

pub mod arith;
pub mod hit;
pub mod interval;
pub mod quad;
pub mod rat;
pub mod ray;
pub mod sphere;
pub mod vec3;

//! The intersection capability: hit records and the `Hittable` trait.

use vstd::prelude::*;

use crate::interval::Interval;
use crate::quad::QVec3;
use crate::quad::QVec3V;
use crate::quad::Quad;
use crate::quad::QuadV;
use crate::ray::Ray;

verus! {

/// Capability marker for a surface's light-interaction policy.  The geometric
/// core stores and forwards a handle to it and never inspects it; concrete
/// behaviours live outside this core.
pub trait Material {
}

/// Mathematical model of a hit record: the numeric parts of a successful
/// intersection, all exact quadratic-extension values.
pub struct HitV {
    pub point: QVec3V,
    pub t: QuadV,
    pub normal: QVec3V,
}

/// The result bundle of a successful intersection: the point on the surface,
/// the ray parameter at which it was struck, the outward unit normal there,
/// and a handle to the struck surface's material.  Built once per successful
/// query and never mutated.
pub struct HitRecord<'a, M> {
    pub point: QVec3,
    pub t: Quad,
    pub normal: QVec3,
    pub material: &'a M,
}

impl<'a, M> View for HitRecord<'a, M> {
    type V = HitV;

    open spec fn view(&self) -> HitV {
        HitV { point: self.point@, t: self.t@, normal: self.normal@ }
    }
}

impl<'a, M> HitRecord<'a, M> {
    pub fn new(point: QVec3, t: Quad, normal: QVec3, material: &'a M) -> (r: Self)
        ensures
            r@ == (HitV { point: point@, t: t@, normal: normal@ }),
            r.material == material,
    {
        HitRecord { point, t, normal, material }
    }
}

/// The capability implemented by every surface variant: given a ray and a
/// validity interval, return the nearest valid hit or none.
///
/// Each variant supplies its own mathematical model `hit_spec`; the
/// executable `hit` must return exactly the modelled result, and the proof
/// obligation `hit_spec_in_interval` holds every variant to interval
/// compliance, so that composite scenes can take a global minimum over
/// variants without further bookkeeping.
pub trait Hittable<M>: Sized {
    /// The inputs on which this variant's intersection test is defined.
    spec fn hit_ok(&self, ray: Ray, interval: Interval) -> bool;

    /// The variant's mathematical model of the nearest valid hit.
    spec fn hit_spec(&self, ray: Ray, interval: Interval) -> Option<HitV>;

    /// The material handle a hit on this variant carries.
    spec fn hit_material(&self) -> M;

    /// Return the nearest valid hit within the interval, or none.
    fn hit<'a>(&'a self, ray: &Ray, interval: &Interval) -> (r: Option<HitRecord<'a, M>>)
        requires
            self.hit_ok(*ray, *interval),
        ensures
            match r {
                Some(rec) => self.hit_spec(*ray, *interval) == Some(rec@) && *rec.material
                    == self.hit_material(),
                None => self.hit_spec(*ray, *interval) is None,
            },
    ;

    /// No variant may model a hit whose parameter lies outside the open interval.
    proof fn hit_spec_in_interval(&self, ray: Ray, interval: Interval)
        requires
            self.hit_ok(ray, interval),
        ensures
            match self.hit_spec(ray, interval) {
                Some(h) => interval@.surrounds_quad(h.t),
                None => true,
            },
    ;
}

} // verus!

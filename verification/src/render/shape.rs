use crate::number::GenFloat;
use crate::render::ray::Ray;
use crate::render::vector::{Point3, Vector3};
use vstd::prelude::*;

verus! {

/// A surface that a ray can meet.
///
/// For a scalar that obeys its `*_spec` functions, the two `*_spec`
/// functions here name what the methods return.
pub trait Shape {
    type NumTy: GenFloat;

    /// The time at which `ray` first meets the shape, if it does.
    open spec fn intersection_spec(&self, ray: &Ray<Self::NumTy>) -> Option<Self::NumTy> {
        arbitrary()
    }

    /// The normal of the surface at `point`.
    open spec fn normal_spec(&self, point: &Point3<Self::NumTy>) -> Vector3<Self::NumTy> {
        arbitrary()
    }

    /// Where the ray meets the shape: the time `t` such that
    /// `ray.at_time(t)` is the nearest meeting point in front of the
    /// origin, or `None` where there is none.
    fn intersection(&self, ray: &Ray<Self::NumTy>) -> (r: Option<Self::NumTy>)
        ensures
            Self::NumTy::obeys() ==> r == self.intersection_spec(ray),
    ;

    /// A normal of the surface at `point`, of any length. For a point off
    /// the surface it need not mean anything.
    fn normal(&self, point: &Point3<Self::NumTy>) -> (r: Vector3<Self::NumTy>)
        ensures
            Self::NumTy::obeys() ==> r == self.normal_spec(point),
    ;
}

/// The surface at a hit: where it is and which way it faces. The normal
/// has any length.
#[derive(Clone, Copy, Debug)]
pub struct DiffGeom<T> {
    pub position: Point3<T>,
    pub normal: Vector3<T>,
}

impl<T: GenFloat> DiffGeom<T> {
    pub fn new(position: Point3<T>, normal: Vector3<T>) -> (r: Self)
        ensures
            r == (DiffGeom { position, normal }),
    {
        DiffGeom { position, normal }
    }
}

} // verus!

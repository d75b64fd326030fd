use crate::render::material::Material;
use crate::render::ray::Ray;
use crate::render::shape::{DiffGeom, Shape};
use crate::render::vector::{Point3, Vector3};
use vstd::prelude::*;

verus! {

/// What can be drawn: a shape with a material, over one scalar.
pub trait Renderable: Shape + Material<NumTy = <Self as Shape>::NumTy> {

}

/// A shape together with the material it is made of.
#[derive(Clone, Copy, Debug)]
pub struct ShapeMat<S, M> {
    pub shape: S,
    pub material: M,
}

impl<S, M> ShapeMat<S, M> {
    pub fn new(shape: S, material: M) -> (r: ShapeMat<S, M>)
        ensures
            r == (ShapeMat { shape, material }),
    {
        ShapeMat { shape, material }
    }
}

/// The shape answers for the geometry.
impl<S: Shape, M> Shape for ShapeMat<S, M> {
    type NumTy = S::NumTy;

    open spec fn intersection_spec(&self, ray: &Ray<S::NumTy>) -> Option<S::NumTy> {
        self.shape.intersection_spec(ray)
    }

    open spec fn normal_spec(&self, point: &Point3<S::NumTy>) -> Vector3<S::NumTy> {
        self.shape.normal_spec(point)
    }

    fn intersection(&self, ray: &Ray<S::NumTy>) -> (r: Option<S::NumTy>) {
        self.shape.intersection(ray)
    }

    fn normal(&self, point: &Point3<S::NumTy>) -> (r: Vector3<S::NumTy>) {
        self.shape.normal(point)
    }
}

/// The material answers for the scattering.
impl<S: Shape, M: Material<NumTy = S::NumTy>> Material for ShapeMat<S, M> {
    type NumTy = S::NumTy;

    type BSDF_fn = M::BSDF_fn;

    open spec fn get_bsdf_spec(&self, g: &DiffGeom<S::NumTy>) -> M::BSDF_fn {
        self.material.get_bsdf_spec(g)
    }

    fn get_bsdf(&self, g: &DiffGeom<S::NumTy>) -> (r: M::BSDF_fn) {
        self.material.get_bsdf(g)
    }
}

impl<S: Shape, M: Material<NumTy = S::NumTy>> Renderable for ShapeMat<S, M> {

}

} // verus!

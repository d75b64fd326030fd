use crate::number::{exact_arithmetic, GenFloat};
use crate::render::algebra::{lemma_div_mul, lemma_mul_one, lemma_mul_zero, lemma_square_order};
use crate::render::color::Rgb;
use crate::render::shape::DiffGeom;
use crate::render::vector::{lemma_normalize_exact, lemma_vector_ops_exact, Vector3};
use vstd::prelude::*;

verus! {

/// How a surface scatters light: for a direction of view and a direction
/// of incoming light, the share of the light that leaves toward the
/// viewer.
pub trait BSDF {
    type NumTy: GenFloat;

    open spec fn bsdf_spec(
        &self,
        view: &Vector3<Self::NumTy>,
        light: &Vector3<Self::NumTy>,
    ) -> Rgb<Self::NumTy> {
        arbitrary()
    }

    /// The share of the light from `light` that is sent toward `view`.
    /// Both vectors are taken in the space of the surface, in which the
    /// normal is the third axis.
    fn bsdf(&self, view: &Vector3<Self::NumTy>, light: &Vector3<Self::NumTy>) -> (r: Rgb<
        Self::NumTy,
    >)
        ensures
            Self::NumTy::obeys() ==> r == self.bsdf_spec(view, light),
    ;
}

/// What a surface is made of: for each place on it, how it scatters light.
#[allow(non_camel_case_types)]
pub trait Material {
    type NumTy: GenFloat;

    type BSDF_fn;

    open spec fn get_bsdf_spec(&self, g: &DiffGeom<Self::NumTy>) -> Self::BSDF_fn {
        arbitrary()
    }

    /// The scattering at the place `g`.
    fn get_bsdf(&self, g: &DiffGeom<Self::NumTy>) -> (r: Self::BSDF_fn)
        ensures
            Self::NumTy::obeys() ==> r == self.get_bsdf_spec(g),
    ;
}

/// A matte surface: it scatters light evenly, by the cosine of the angle
/// at which the light arrives.
#[derive(Clone, Copy, Debug)]
pub struct Lambert<T> {
    pub color: Rgb<T>,
}

impl<T> Lambert<T> {
    pub fn new(red: T, green: T, blue: T) -> (r: Lambert<T>)
        ensures
            r == (Lambert { color: Rgb { red, green, blue } }),
    {
        Lambert { color: Rgb::new(red, green, blue) }
    }
}

/// The cosine of the angle between the third axis and `light`: their dot
/// product over the product of their lengths.
pub open spec fn cosine_to_normal<T: GenFloat>(light: Vector3<T>) -> T {
    let normal = Vector3::<T>::z_axis_spec();
    normal.dot_spec(light).div_spec(normal.magnitude_spec().mul_spec(light.magnitude_spec()))
}

impl<T: GenFloat> BSDF for Lambert<T> {
    type NumTy = T;

    open spec fn bsdf_spec(&self, view: &Vector3<T>, light: &Vector3<T>) -> Rgb<T> {
        self.color.scale_spec(cosine_to_normal(*light))
    }

    /// The color of the surface times the cosine of the angle between
    /// the normal and `light`. The direction of view does not matter.
    fn bsdf(&self, view: &Vector3<T>, light: &Vector3<T>) -> (r: Rgb<T>) {
        let normal = Vector3::<T>::z_axis();
        let cos = normal.dot(light).div(normal.magnitude().mul(light.magnitude()));
        self.color * cos
    }
}

/// A material that scatters light the same way at every place.
#[derive(Clone, Copy, Debug)]
pub struct UniformMaterial<T> {
    pub bsdf: T,
}

impl<T> UniformMaterial<T> {
    pub fn new(bsdf: T) -> (r: UniformMaterial<T>)
        ensures
            r == (UniformMaterial { bsdf }),
    {
        UniformMaterial { bsdf }
    }
}

impl<B: BSDF + Copy> Material for UniformMaterial<B> {
    type NumTy = B::NumTy;

    type BSDF_fn = B;

    open spec fn get_bsdf_spec(&self, g: &DiffGeom<B::NumTy>) -> B {
        self.bsdf
    }

    fn get_bsdf(&self, g: &DiffGeom<B::NumTy>) -> (r: B) {
        self.bsdf
    }
}

/// The cosine that a matte surface scales its color by is the part of
/// the direction of the light along the normal, over the length of that
/// direction. This holds with exact arithmetic, for a direction that is
/// not zero.
pub proof fn law_lambert_cosine<T: GenFloat>(light: Vector3<T>)
    requires
        exact_arithmetic::<T>(),
        light@.norm_squared() != 0real,
    ensures
        light.magnitude_spec().val() > 0real,
        cosine_to_normal(light).val() * light.magnitude_spec().val() == light.z.val(),
{
    let normal = Vector3::<T>::z_axis_spec();
    lemma_vector_ops_exact(normal, light, T::zero_spec());
    lemma_vector_ops_exact(normal, normal, T::zero_spec());
    lemma_normalize_exact(light);
    lemma_mul_zero(light.x.val());
    lemma_mul_zero(light.y.val());
    lemma_mul_zero(0real);
    lemma_mul_one(light.z.val());
    lemma_mul_one(1real);
    assert(normal.dot_spec(light).val() == light.z.val());
    // The normal has length one.
    assert(normal.norm_squared_spec().val() == 1real);
    let unit = normal.magnitude_spec().val();
    assert(unit >= 0real && unit * unit == 1real);
    lemma_square_order(unit, 1real);
    lemma_square_order(1real, unit);
    assert(unit == 1real);
    let length = light.magnitude_spec().val();
    lemma_mul_one(length);
    lemma_div_mul(light.z.val(), length);
}

} // verus!

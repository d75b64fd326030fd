use crate::number::{exact_arithmetic, GenFloat};
use crate::render::algebra::{lemma_norm_squared_nonnegative, lemma_normalized, Triple};
use vstd::prelude::*;

verus! {

/// A displacement or direction in space.
#[derive(Clone, Copy, Debug, PartialEq)]
pub struct Vector3<T> {
    pub x: T,
    pub y: T,
    pub z: T,
}

/// A position in space.
#[derive(Clone, Copy, Debug, PartialEq)]
pub struct Point3<T> {
    pub x: T,
    pub y: T,
    pub z: T,
}

impl<T: GenFloat> View for Vector3<T> {
    type V = Triple;

    open spec fn view(&self) -> Triple {
        Triple { x: self.x.val(), y: self.y.val(), z: self.z.val() }
    }
}

impl<T: GenFloat> View for Point3<T> {
    type V = Triple;

    open spec fn view(&self) -> Triple {
        Triple { x: self.x.val(), y: self.y.val(), z: self.z.val() }
    }
}

impl<T: GenFloat> Vector3<T> {
    pub fn new(x: T, y: T, z: T) -> (r: Self)
        ensures
            r == (Vector3 { x, y, z }),
    {
        Vector3 { x, y, z }
    }

    /// The unit vector along the third axis.
    pub open spec fn z_axis_spec() -> Self {
        Vector3 { x: T::zero_spec(), y: T::zero_spec(), z: T::one_spec() }
    }

    pub fn z_axis() -> (r: Self)
        ensures
            T::obeys() ==> r == Self::z_axis_spec(),
    {
        Vector3 { x: T::zero(), y: T::zero(), z: T::one() }
    }

    pub open spec fn add_spec(self, rhs: Self) -> Self {
        Vector3 {
            x: self.x.add_spec(rhs.x),
            y: self.y.add_spec(rhs.y),
            z: self.z.add_spec(rhs.z),
        }
    }

    /// Componentwise sum.
    pub fn add(&self, rhs: &Self) -> (r: Self)
        ensures
            T::obeys() ==> r == self.add_spec(*rhs),
    {
        Vector3 { x: self.x.add(rhs.x), y: self.y.add(rhs.y), z: self.z.add(rhs.z) }
    }

    pub open spec fn sub_spec(self, rhs: Self) -> Self {
        Vector3 {
            x: self.x.sub_spec(rhs.x),
            y: self.y.sub_spec(rhs.y),
            z: self.z.sub_spec(rhs.z),
        }
    }

    /// Componentwise difference.
    pub fn sub(&self, rhs: &Self) -> (r: Self)
        ensures
            T::obeys() ==> r == self.sub_spec(*rhs),
    {
        Vector3 { x: self.x.sub(rhs.x), y: self.y.sub(rhs.y), z: self.z.sub(rhs.z) }
    }

    pub open spec fn scale_spec(self, s: T) -> Self {
        Vector3 { x: self.x.mul_spec(s), y: self.y.mul_spec(s), z: self.z.mul_spec(s) }
    }

    /// Each component times `s`.
    pub fn scale(&self, s: T) -> (r: Self)
        ensures
            T::obeys() ==> r == self.scale_spec(s),
    {
        Vector3 { x: self.x.mul(s), y: self.y.mul(s), z: self.z.mul(s) }
    }

    pub open spec fn unscale_spec(self, s: T) -> Self {
        Vector3 { x: self.x.div_spec(s), y: self.y.div_spec(s), z: self.z.div_spec(s) }
    }

    /// Each component divided by `s`.
    pub fn unscale(&self, s: T) -> (r: Self)
        ensures
            T::obeys() ==> r == self.unscale_spec(s),
    {
        Vector3 { x: self.x.div(s), y: self.y.div(s), z: self.z.div(s) }
    }

    pub open spec fn dot_spec(self, rhs: Self) -> T {
        self.x.mul_spec(rhs.x).add_spec(self.y.mul_spec(rhs.y)).add_spec(self.z.mul_spec(rhs.z))
    }

    /// The dot product, summed from the first component on.
    pub fn dot(&self, rhs: &Self) -> (r: T)
        ensures
            T::obeys() ==> r == self.dot_spec(*rhs),
    {
        let a = self.x.mul(rhs.x);
        let b = self.y.mul(rhs.y);
        let c = self.z.mul(rhs.z);
        a.add(b).add(c)
    }

    pub open spec fn cross_spec(self, rhs: Self) -> Self {
        Vector3 {
            x: self.y.mul_spec(rhs.z).sub_spec(self.z.mul_spec(rhs.y)),
            y: self.z.mul_spec(rhs.x).sub_spec(self.x.mul_spec(rhs.z)),
            z: self.x.mul_spec(rhs.y).sub_spec(self.y.mul_spec(rhs.x)),
        }
    }

    /// The cross product.
    pub fn cross(&self, rhs: &Self) -> (r: Self)
        ensures
            T::obeys() ==> r == self.cross_spec(*rhs),
    {
        Vector3 {
            x: self.y.mul(rhs.z).sub(self.z.mul(rhs.y)),
            y: self.z.mul(rhs.x).sub(self.x.mul(rhs.z)),
            z: self.x.mul(rhs.y).sub(self.y.mul(rhs.x)),
        }
    }

    pub open spec fn norm_squared_spec(self) -> T {
        T::zero_spec().add_spec(self.dot_spec(self))
    }

    /// The squared length, accumulated from zero.
    pub fn norm_squared(&self) -> (r: T)
        ensures
            T::obeys() ==> r == self.norm_squared_spec(),
    {
        T::zero().add(self.dot(self))
    }

    pub open spec fn magnitude_spec(self) -> T {
        self.norm_squared_spec().sqrt_spec()
    }

    /// The length.
    pub fn magnitude(&self) -> (r: T)
        ensures
            T::obeys() ==> r == self.magnitude_spec(),
    {
        self.norm_squared().sqrt()
    }

    pub open spec fn normalize_spec(self) -> Self {
        self.unscale_spec(self.magnitude_spec())
    }

    /// The vector divided by its length. A vector of length zero has no
    /// direction, and what comes back is whatever dividing by zero gives.
    pub fn normalize(&self) -> (r: Self)
        ensures
            T::obeys() ==> r == self.normalize_spec(),
    {
        self.unscale(self.magnitude())
    }
}

impl<T: GenFloat> Point3<T> {
    pub fn new(x: T, y: T, z: T) -> (r: Self)
        ensures
            r == (Point3 { x, y, z }),
    {
        Point3 { x, y, z }
    }

    pub open spec fn origin_spec() -> Self {
        Point3 { x: T::zero_spec(), y: T::zero_spec(), z: T::zero_spec() }
    }

    pub fn origin() -> (r: Self)
        ensures
            T::obeys() ==> r == Self::origin_spec(),
    {
        Point3 { x: T::zero(), y: T::zero(), z: T::zero() }
    }

    pub open spec fn from_vector_spec(v: Vector3<T>) -> Self {
        Point3 { x: v.x, y: v.y, z: v.z }
    }

    /// The point that a vector from the origin leads to.
    pub fn from_vector(v: Vector3<T>) -> (r: Self)
        ensures
            r == Self::from_vector_spec(v),
    {
        Point3 { x: v.x, y: v.y, z: v.z }
    }

    pub open spec fn sub_spec(self, rhs: Self) -> Vector3<T> {
        Vector3 {
            x: self.x.sub_spec(rhs.x),
            y: self.y.sub_spec(rhs.y),
            z: self.z.sub_spec(rhs.z),
        }
    }

    /// The vector that leads from `rhs` to this point.
    pub fn sub(&self, rhs: &Self) -> (r: Vector3<T>)
        ensures
            T::obeys() ==> r == self.sub_spec(*rhs),
    {
        Vector3 { x: self.x.sub(rhs.x), y: self.y.sub(rhs.y), z: self.z.sub(rhs.z) }
    }

    pub open spec fn add_spec(self, v: Vector3<T>) -> Self {
        Point3 { x: self.x.add_spec(v.x), y: self.y.add_spec(v.y), z: self.z.add_spec(v.z) }
    }

    /// The point moved by `v`.
    pub fn add(&self, v: &Vector3<T>) -> (r: Self)
        ensures
            T::obeys() ==> r == self.add_spec(*v),
    {
        Point3 { x: self.x.add(v.x), y: self.y.add(v.y), z: self.z.add(v.z) }
    }
}

/// A direction: a vector that is meant to have length one.
///
/// [`UnitVec3::new_normalize`] makes one from any vector that is not zero.
/// [`UnitVec3::new_unchecked`] wraps a vector as it is, and the caller
/// answers for its length.
#[derive(Clone, Copy, Debug, PartialEq)]
pub struct UnitVec3<T> {
    pub value: Vector3<T>,
}

impl<T: GenFloat> UnitVec3<T> {
    /// The wrapped vector.
    pub open spec fn inner(self) -> Vector3<T> {
        self.value
    }

    pub open spec fn new_normalize_spec(value: Vector3<T>) -> Self {
        UnitVec3 { value: value.normalize_spec() }
    }

    /// The direction of `value`: `value` divided by its length.
    pub fn new_normalize(value: Vector3<T>) -> (r: Self)
        ensures
            T::obeys() ==> r == Self::new_normalize_spec(value),
    {
        UnitVec3 { value: value.normalize() }
    }

    /// Wraps `value` without looking at its length.
    pub fn new_unchecked(value: Vector3<T>) -> (r: Self)
        ensures
            r == (UnitVec3 { value }),
    {
        UnitVec3 { value }
    }

    pub fn into_inner(&self) -> (r: Vector3<T>)
        ensures
            r == self.inner(),
    {
        self.value
    }

    /// The wrapped vector has length one.
    pub open spec fn is_unit(self) -> bool {
        self.value@.norm_squared() == 1real
    }
}

/// With exact arithmetic the vector operations are those of real triples.
pub proof fn lemma_vector_ops_exact<T: GenFloat>(a: Vector3<T>, b: Vector3<T>, s: T)
    requires
        exact_arithmetic::<T>(),
    ensures
        a.add_spec(b)@ == a@.plus(b@),
        a.sub_spec(b)@ == a@.minus(b@),
        a.scale_spec(s)@ == a@.times(s.val()),
        s.val() != 0real ==> a.unscale_spec(s)@ == a@.over(s.val()),
        a.dot_spec(b).val() == a@.dot(b@),
        a.cross_spec(b)@ == a@.cross(b@),
        a.norm_squared_spec().val() == a@.norm_squared(),
{
}

/// With exact arithmetic, moving points and taking their differences are
/// the operations of real triples.
pub proof fn lemma_point_ops_exact<T: GenFloat>(p: Point3<T>, q: Point3<T>, v: Vector3<T>)
    requires
        exact_arithmetic::<T>(),
    ensures
        p.sub_spec(q)@ == p@.minus(q@),
        p.add_spec(v)@ == p@.plus(v@),
{
}

/// With exact arithmetic a vector that is not zero normalizes to one of
/// length one: the vector divided by its length, which is positive.
pub proof fn lemma_normalize_exact<T: GenFloat>(v: Vector3<T>)
    requires
        exact_arithmetic::<T>(),
        v@.norm_squared() != 0real,
    ensures
        v.magnitude_spec().val() > 0real,
        v.magnitude_spec().val() * v.magnitude_spec().val() == v@.norm_squared(),
        v.normalize_spec()@ == v@.over(v.magnitude_spec().val()),
        v.normalize_spec()@.norm_squared() == 1real,
{
    let m = v.magnitude_spec();
    lemma_vector_ops_exact(v, v, m);
    lemma_norm_squared_nonnegative(v@);
    assert(v.norm_squared_spec().val() >= 0real);
    lemma_normalized(v@, m.val(), v@);
}

/// Normalizing gives a direction of length one. This holds with exact
/// arithmetic, for a vector that is not zero.
pub proof fn law_normalized_is_unit<T: GenFloat>(v: Vector3<T>)
    requires
        exact_arithmetic::<T>(),
        v@.norm_squared() != 0real,
    ensures
        UnitVec3::new_normalize_spec(v).is_unit(),
{
    lemma_normalize_exact(v);
}

} // verus!

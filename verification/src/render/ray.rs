use crate::number::{exact_arithmetic, GenFloat};
use crate::render::algebra::{
    lemma_div_mul, lemma_dot_times, lemma_mul_comm, lemma_mul_sign, lemma_mul_zero,
    lemma_norm_squared_nonnegative,
};
use crate::render::vector::{
    lemma_point_ops_exact, lemma_vector_ops_exact, Point3, UnitVec3, Vector3,
};
use vstd::prelude::*;

verus! {

/// A half-line: the points `origin + direction * t` for `t >= 0`.
#[derive(Clone, Copy, Debug)]
pub struct Ray<T> {
    pub origin: Point3<T>,
    pub direction: UnitVec3<T>,
}

impl<T: GenFloat> Ray<T> {
    pub fn new(origin: Point3<T>, direction: UnitVec3<T>) -> (r: Self)
        ensures
            r == (Ray { origin, direction }),
    {
        Ray { origin, direction }
    }

    pub open spec fn new_normalize_spec(origin: Point3<T>, direction: Vector3<T>) -> Self {
        Ray { origin, direction: UnitVec3::new_normalize_spec(direction) }
    }

    /// The ray from `origin` along `direction`, which is normalized first.
    pub fn new_normalize(origin: Point3<T>, direction: Vector3<T>) -> (r: Self)
        ensures
            r.origin == origin,
            T::obeys() ==> r == Self::new_normalize_spec(origin, direction),
    {
        Ray { origin, direction: UnitVec3::new_normalize(direction) }
    }

    pub open spec fn at_time_spec(self, time: T) -> Point3<T> {
        self.origin.add_spec(self.direction.inner().scale_spec(time))
    }

    /// The point reached after `time` along the direction. A negative
    /// `time` gives a point behind the origin.
    pub fn at_time(&self, time: T) -> (r: Point3<T>)
        ensures
            T::obeys() ==> r == self.at_time_spec(time),
    {
        self.origin.add(&self.direction.into_inner().scale(time))
    }

    /// The parameter of the point of the ray nearest to `p`: that of the
    /// foot of the perpendicular from `p`, or zero where the foot lies
    /// behind the origin.
    pub open spec fn closest_time_spec(self, p: Point3<T>) -> T {
        let d = self.direction.inner();
        d.dot_spec(p.sub_spec(self.origin)).div_spec(d.norm_squared_spec()).max_spec(
            T::zero_spec(),
        )
    }

    pub open spec fn closest_point_spec(self, p: Point3<T>) -> Point3<T> {
        self.at_time_spec(self.closest_time_spec(p))
    }

    /// The point of the ray nearest to `p`.
    pub fn closest_point(&self, p: Point3<T>) -> (r: Point3<T>)
        ensures
            T::obeys() ==> r == self.closest_point_spec(p),
    {
        let d = self.direction.into_inner();
        let p_trans = p.sub(&self.origin);
        let mag = d.dot(&p_trans).div(d.norm_squared());
        let mag = mag.max(T::zero());
        self.origin.add(&d.scale(mag))
    }
}

/// With exact arithmetic, the point of a ray at a time is the origin moved
/// by that multiple of the direction.
pub proof fn lemma_at_time_exact<T: GenFloat>(ray: Ray<T>, time: T)
    requires
        exact_arithmetic::<T>(),
    ensures
        ray.at_time_spec(time)@ == ray.origin@.plus(ray.direction.inner()@.times(time.val())),
{
    let d = ray.direction.inner();
    lemma_vector_ops_exact(d, d, time);
    lemma_point_ops_exact(ray.origin, ray.origin, d.scale_spec(time));
}

/// With exact arithmetic and a direction that is not zero, the time of
/// the nearest point to `origin + direction s` is `s` where `s` is
/// positive, and zero where it is not.
pub proof fn lemma_closest_time_exact<T: GenFloat>(ray: Ray<T>, p: Point3<T>, s: real)
    requires
        exact_arithmetic::<T>(),
        ray.direction.inner()@.norm_squared() != 0real,
        p@ == ray.origin@.plus(ray.direction.inner()@.times(s)),
    ensures
        ray.closest_time_spec(p).val() == if s < 0real {
            0real
        } else {
            s
        },
{
    let d = ray.direction.inner();
    let to_p = p.sub_spec(ray.origin);
    lemma_point_ops_exact(p, ray.origin, d);
    lemma_vector_ops_exact(d, to_p, T::zero_spec());
    lemma_vector_ops_exact(d, d, T::zero_spec());
    assert(to_p@ == d@.times(s));
    lemma_dot_times(d@, s, d@);
    let n = d@.norm_squared();
    assert(d.dot_spec(to_p).val() == s * n);
    lemma_div_mul(s, n);
    assert(d.dot_spec(to_p).div_spec(d.norm_squared_spec()).val() == s);
}

/// A point on the ray is its own nearest point: for `s >= 0`, the point
/// of the ray nearest to `origin + direction s` is that point. This
/// holds with exact arithmetic, for a direction that is not zero.
pub proof fn law_closest_point_on_ray<T: GenFloat>(ray: Ray<T>, p: Point3<T>, s: real)
    requires
        exact_arithmetic::<T>(),
        ray.direction.inner()@.norm_squared() != 0real,
        s >= 0real,
        p@ == ray.origin@.plus(ray.direction.inner()@.times(s)),
    ensures
        ray.closest_point_spec(p)@ == p@,
{
    lemma_closest_time_exact(ray, p, s);
    lemma_at_time_exact(ray, ray.closest_time_spec(p));
}

/// Behind the origin the nearest point is the origin: for a point `p`
/// with `direction . (p - origin) <= 0`, the point of the ray nearest to
/// `p` is the origin. This holds with exact arithmetic, for a direction
/// that is not zero.
pub proof fn law_closest_point_behind_ray<T: GenFloat>(ray: Ray<T>, p: Point3<T>)
    requires
        exact_arithmetic::<T>(),
        ray.direction.inner()@.norm_squared() != 0real,
        ray.direction.inner()@.dot(p@.minus(ray.origin@)) <= 0real,
    ensures
        ray.closest_point_spec(p)@ == ray.origin@,
{
    let d = ray.direction.inner();
    let to_p = p.sub_spec(ray.origin);
    lemma_point_ops_exact(p, ray.origin, d);
    lemma_vector_ops_exact(d, to_p, T::zero_spec());
    lemma_vector_ops_exact(d, d, T::zero_spec());
    let n = d@.norm_squared();
    let x = d@.dot(to_p@);
    lemma_norm_squared_nonnegative(d@);
    lemma_div_mul(x, n);
    lemma_mul_sign(n, x / n);
    lemma_mul_comm(n, x / n);
    assert(x / n <= 0real);
    assert(ray.closest_time_spec(p).val() == 0real);
    lemma_at_time_exact(ray, ray.closest_time_spec(p));
    lemma_mul_zero(d@.x);
    lemma_mul_zero(d@.y);
    lemma_mul_zero(d@.z);
}

} // verus!

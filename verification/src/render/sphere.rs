use crate::number::{double, double_spec, exact_arithmetic, GenFloat};
use crate::render::algebra::{
    lemma_div_mul, lemma_dot_comm, lemma_dot_times, lemma_mul_comm, lemma_mul_neg, lemma_mul_one,
    lemma_mul_sign, lemma_nearest_against_roots, lemma_norm_squared_along,
    lemma_norm_squared_nonnegative, lemma_quadratic_root,
};
use crate::render::ray::{lemma_at_time_exact, Ray};
use crate::render::shape::Shape;
use crate::render::vector::{lemma_point_ops_exact, lemma_vector_ops_exact, Point3, Vector3};
use vstd::prelude::*;

verus! {

/// A sphere. The radius is never negative: [`Sphere::new`] takes a negative
/// radius for zero.
#[derive(Clone, Copy, Debug)]
pub struct Sphere<T> {
    pub center: Point3<T>,
    pub radius: T,
}

/// The quadratic `a t^2 + b t + c = 0` whose roots are the times at which
/// a ray is on a sphere.
pub struct Quadratic<T> {
    pub a: T,
    pub b: T,
    pub c: T,
}

impl<T: GenFloat> Quadratic<T> {
    /// `b^2 - 4ac`.
    pub open spec fn discriminant(self) -> T {
        self.b.mul_spec(self.b).sub_spec(
            double_spec(double_spec(self.a.mul_spec(self.c))),
        )
    }

    /// The root with the square root of the discriminant subtracted:
    /// its numerator.
    pub open spec fn near_numerator(self) -> T {
        self.b.neg_spec().sub_spec(self.discriminant().sqrt_spec())
    }

    /// The root with the square root of the discriminant added: its
    /// numerator.
    pub open spec fn far_numerator(self) -> T {
        self.b.neg_spec().add_spec(self.discriminant().sqrt_spec())
    }

    /// The smaller root where it is positive, else the larger root where
    /// that is positive.
    pub open spec fn first_positive_root(self) -> Option<T> {
        let zero = T::zero_spec();
        if self.discriminant().lt_spec(zero) {
            None
        } else if zero.lt_spec(self.near_numerator()) {
            Some(self.near_numerator().div_spec(double_spec(self.a)))
        } else if zero.lt_spec(self.far_numerator()) {
            Some(self.far_numerator().div_spec(double_spec(self.a)))
        } else {
            None
        }
    }
}

impl<T: GenFloat> Sphere<T> {
    /// The radius is zero or more.
    pub open spec fn wf(self) -> bool {
        self.radius == T::zero_spec() || T::zero_spec().lt_spec(self.radius)
    }

    /// The sphere around `center`. A `radius` that is not above zero makes
    /// a sphere of radius zero.
    pub fn new(center: Point3<T>, radius: T) -> (r: Self)
        ensures
            r.center == center,
            T::obeys() ==> r.radius == if T::zero_spec().lt_spec(radius) {
                radius
            } else {
                T::zero_spec()
            },
            T::obeys() ==> r.wf(),
    {
        let r: T;
        if T::zero().lt(radius) {
            r = radius;
        } else {
            r = T::zero();
        }
        Sphere { center, radius: r }
    }

    /// The quadratic for `ray`: with `o` from the center to the origin of
    /// the ray and `d` its direction, `a = |d|^2`, `b = 2 (o . d)` and
    /// `c = |o|^2 - radius^2`.
    pub open spec fn quadratic(self, ray: Ray<T>) -> Quadratic<T> {
        let offset = ray.origin.sub_spec(self.center);
        let d = ray.direction.inner();
        Quadratic {
            a: d.norm_squared_spec(),
            b: double_spec(offset.dot_spec(d)),
            c: offset.dot_spec(offset).sub_spec(self.radius.mul_spec(self.radius)),
        }
    }

    /// The square of the distance from the center to `p`.
    pub open spec fn distance_squared(self, p: Point3<T>) -> real {
        p@.minus(self.center@).norm_squared()
    }
}

impl<T: GenFloat> Shape for Sphere<T> {
    type NumTy = T;

    open spec fn intersection_spec(&self, ray: &Ray<T>) -> Option<T> {
        self.quadratic(*ray).first_positive_root()
    }

    open spec fn normal_spec(&self, point: &Point3<T>) -> Vector3<T> {
        point.sub_spec(self.center)
    }

    fn intersection(&self, ray: &Ray<T>) -> (r: Option<T>) {
        let d = ray.direction.into_inner();
        let ray_offset = ray.origin.sub(&self.center);
        let a = d.norm_squared();
        let b = double(ray_offset.dot(&d));
        let c = ray_offset.dot(&ray_offset).sub(self.radius.mul(self.radius));
        let discriminant = b.mul(b).sub(double(double(a.mul(c))));
        if discriminant.lt(T::zero()) {
            return None;
        }
        let disc_sq = discriminant.sqrt();
        let numerator = b.neg().sub(disc_sq);
        if T::zero().lt(numerator) {
            return Some(numerator.div(double(a)));
        }
        let numerator = b.neg().add(disc_sq);
        if T::zero().lt(numerator) {
            Some(numerator.div(double(a)))
        } else {
            None
        }
    }

    /// From the center to `point`: as long as the radius for a point of
    /// the surface.
    fn normal(&self, point: &Point3<T>) -> (r: Vector3<T>) {
        point.sub(&self.center)
    }
}

/// The radius of a well-formed sphere is not negative. This holds with
/// exact arithmetic.
pub proof fn law_radius_is_nonnegative<T: GenFloat>(sphere: Sphere<T>)
    requires
        exact_arithmetic::<T>(),
        sphere.wf(),
    ensures
        sphere.radius.val() >= 0real,
{
}

/// With exact arithmetic the coefficients are `|d|^2`, `2 (o . d)` and
/// `|o|^2 - r^2`, and the discriminant is `b^2 - 4ac`.
pub proof fn lemma_quadratic_exact<T: GenFloat>(sphere: Sphere<T>, ray: Ray<T>)
    requires
        exact_arithmetic::<T>(),
    ensures
        ({
            let q = sphere.quadratic(ray);
            let o = ray.origin@.minus(sphere.center@);
            let d = ray.direction.inner()@;
            let r = sphere.radius.val();
            &&& q.a.val() == d.norm_squared()
            &&& q.b.val() == 2real * o.dot(d)
            &&& q.c.val() == o.norm_squared() - r * r
            &&& q.discriminant().val() == q.b.val() * q.b.val() - 4real * (q.a.val() * q.c.val())
        }),
{
    let offset = ray.origin.sub_spec(sphere.center);
    let d = ray.direction.inner();
    lemma_point_ops_exact(ray.origin, sphere.center, d);
    lemma_vector_ops_exact(offset, d, T::zero_spec());
    lemma_vector_ops_exact(offset, offset, T::zero_spec());
    lemma_vector_ops_exact(d, d, T::zero_spec());
}

/// With exact arithmetic, the square of the distance from the center to
/// the point of the ray at `t` is `a t^2 + b t + c + r^2`.
pub proof fn lemma_distance_along_ray<T: GenFloat>(sphere: Sphere<T>, ray: Ray<T>, t: T)
    requires
        exact_arithmetic::<T>(),
    ensures
        ({
            let q = sphere.quadratic(ray);
            let r = sphere.radius.val();
            sphere.distance_squared(ray.at_time_spec(t)) == q.a.val() * (t.val() * t.val())
                + q.b.val() * t.val() + q.c.val() + r * r
        }),
{
    lemma_quadratic_exact(sphere, ray);
    lemma_at_time_exact(ray, t);
    let q = sphere.quadratic(ray);
    let o = ray.origin@.minus(sphere.center@);
    let d = ray.direction.inner()@;
    let at = ray.at_time_spec(t)@.minus(sphere.center@);
    assert(at == o.plus(d.times(t.val())));
    lemma_norm_squared_along(o, d, t.val());
    lemma_mul_comm(t.val(), 2real * o.dot(d));
    lemma_mul_comm(t.val() * t.val(), d.norm_squared());
}

/// Whenever a ray meets a sphere, the point of the hit lies on the
/// sphere: its distance from the center is the radius, and the time of
/// the hit is positive. This holds with exact arithmetic, for a
/// direction that is not zero.
pub proof fn law_hit_lies_on_sphere<T: GenFloat>(sphere: Sphere<T>, ray: Ray<T>, t: T)
    requires
        exact_arithmetic::<T>(),
        ray.direction.inner()@.norm_squared() != 0real,
        sphere.intersection_spec(&ray) == Some(t),
    ensures
        sphere.distance_squared(ray.at_time_spec(t)) == sphere.radius.val() * sphere.radius.val(),
        t.val() > 0real,
{
    lemma_quadratic_exact(sphere, ray);
    lemma_distance_along_ray(sphere, ray, t);
    lemma_norm_squared_nonnegative(ray.direction.inner()@);
    let q = sphere.quadratic(ray);
    let (a, b, c) = (q.a.val(), q.b.val(), q.c.val());
    let s = q.discriminant().sqrt_spec().val();
    assert(q.discriminant().val() >= 0real);
    assert(s * s == b * b - 4real * (a * c));
    let u = if T::zero_spec().lt_spec(q.near_numerator()) {
        q.near_numerator().val()
    } else {
        q.far_numerator().val()
    };
    assert(u > 0real);
    assert(u == -b - s || u == -b + s);
    let two_a = double_spec(q.a).val();
    assert(two_a == 2real * a);
    assert(t.val() == u / two_a);
    lemma_div_mul(u, two_a);
    lemma_quadratic_root(a, b, c, s, u, t.val());
    // The time has the sign of the numerator.
    if t.val() <= 0real {
        lemma_mul_sign(two_a, t.val());
        lemma_mul_comm(two_a, t.val());
    }
}

/// A ray meets a sphere where it comes nearer to the center than the
/// radius, and only where it comes at least as near: with the point of
/// the ray nearest to the center at the distance `n`, `n < radius` gives
/// a hit, and a hit gives `n <= radius`. The distances are compared by
/// their squares. A ray that only touches the sphere, `n = radius`, may
/// hit or miss. This holds with exact arithmetic, for a direction that is
/// not zero.
pub proof fn law_hit_iff_near<T: GenFloat>(sphere: Sphere<T>, ray: Ray<T>)
    requires
        exact_arithmetic::<T>(),
        ray.direction.inner()@.norm_squared() != 0real,
    ensures
        sphere.distance_squared(ray.closest_point_spec(sphere.center)) < sphere.radius.val()
            * sphere.radius.val() ==> sphere.intersection_spec(&ray) is Some,
        sphere.intersection_spec(&ray) is Some ==> sphere.distance_squared(
            ray.closest_point_spec(sphere.center),
        ) <= sphere.radius.val() * sphere.radius.val(),
{
    lemma_quadratic_exact(sphere, ray);
    let t = ray.closest_time_spec(sphere.center);
    lemma_distance_along_ray(sphere, ray, t);
    let d = ray.direction.inner();
    lemma_norm_squared_nonnegative(d@);
    let q = sphere.quadratic(ray);
    let (a, b, c) = (q.a.val(), q.b.val(), q.c.val());
    let s = q.discriminant().sqrt_spec().val();
    // The nearest time is `max(m / a, 0)` with `m = d . (center - origin)`.
    let to_center = sphere.center.sub_spec(ray.origin);
    lemma_point_ops_exact(sphere.center, ray.origin, d);
    lemma_vector_ops_exact(d, to_center, T::zero_spec());
    let m = d@.dot(to_center@);
    let o = ray.origin@.minus(sphere.center@);
    assert(to_center@ == o.times(-1real)) by {
        lemma_mul_neg(o.x, 1real);
        lemma_mul_neg(o.y, 1real);
        lemma_mul_neg(o.z, 1real);
        lemma_mul_one(o.x);
        lemma_mul_one(o.y);
        lemma_mul_one(o.z);
    }
    lemma_dot_times(o, -1real, d@);
    lemma_dot_comm(o, d@);
    assert(m == -1real * o.dot(d@));
    assert(b == -2real * m);
    assert(t.val() == if m / a < 0real {
        0real
    } else {
        m / a
    });
    assert(b * b == 4real * (m * m)) by (nonlinear_arith)
        requires
            b == -2real * m,
    ;
    lemma_nearest_against_roots(a, m, c, s, t.val());
}

} // verus!

use crate::number::{epsilon, epsilon_spec, exact_arithmetic, GenFloat};
use crate::render::algebra::{
    lemma_cross_swaps, lemma_div_mul, lemma_dot_comm, lemma_dot_plus, lemma_dot_times,
    lemma_mul_assoc, lemma_mul_neg, lemma_mul_one, lemma_triple_product_rotates,
};
use crate::render::ray::Ray;
use crate::render::shape::Shape;
use crate::render::vector::{lemma_point_ops_exact, lemma_vector_ops_exact, Point3, Vector3};
use vstd::prelude::*;

verus! {

/// A triangle given by its corners. Corners on one line are allowed: no
/// ray meets such a triangle.
#[derive(Clone, Copy, Debug)]
pub struct Triangle<T> {
    pub v1: Point3<T>,
    pub v2: Point3<T>,
    pub v3: Point3<T>,
}

/// The numbers that deciding a hit goes through, each a function of the
/// triangle and the ray.
pub struct Barycentric<T> {
    /// How far the ray is from lying in the triangle's plane.
    pub divisor: T,
    /// The weight of the second corner at the hit.
    pub b1: T,
    /// The weight of the third corner at the hit.
    pub b2: T,
    /// The time of the hit along the ray.
    pub time: T,
}

impl<T: GenFloat> Triangle<T> {
    pub fn new(vertex1: Vector3<T>, vertex2: Vector3<T>, vertex3: Vector3<T>) -> (r: Self)
        ensures
            r.v1 == Point3::from_vector_spec(vertex1),
            r.v2 == Point3::from_vector_spec(vertex2),
            r.v3 == Point3::from_vector_spec(vertex3),
    {
        Triangle {
            v1: Point3::from_vector(vertex1),
            v2: Point3::from_vector(vertex2),
            v3: Point3::from_vector(vertex3),
        }
    }

    /// The edge from the first corner to the second.
    pub open spec fn edge1(self) -> Vector3<T> {
        self.v2.sub_spec(self.v1)
    }

    /// The edge from the first corner to the third.
    pub open spec fn edge2(self) -> Vector3<T> {
        self.v3.sub_spec(self.v1)
    }

    pub open spec fn true_normal_spec(self) -> Vector3<T> {
        self.edge1().cross_spec(self.edge2())
    }

    /// The normal of the triangle's plane: the cross product of the two
    /// edges at the first corner, not normalized.
    pub fn true_normal(&self) -> (r: Vector3<T>)
        ensures
            T::obeys() ==> r == self.true_normal_spec(),
    {
        let e1 = self.v2.sub(&self.v1);
        let e2 = self.v3.sub(&self.v1);
        e1.cross(&e2)
    }

    /// The divisor, the two weights and the time for `ray`.
    pub open spec fn barycentric(self, ray: Ray<T>) -> Barycentric<T> {
        let d = ray.direction.inner();
        let s1 = d.cross_spec(self.edge2());
        let divisor = s1.dot_spec(self.edge1());
        let inv = T::one_spec().div_spec(divisor);
        let s = ray.origin.sub_spec(self.v1);
        let s2 = s.cross_spec(self.edge1());
        Barycentric {
            divisor,
            b1: s1.dot_spec(s).mul_spec(inv),
            b2: d.dot_spec(s2).mul_spec(inv),
            time: self.edge2().dot_spec(s2).mul_spec(inv),
        }
    }

    /// The ray meets the triangle: it is not parallel to the plane, the
    /// weights of the hit lie in the triangle, and the hit is not behind
    /// the origin.
    pub open spec fn hits(self, ray: Ray<T>) -> bool {
        let b = self.barycentric(ray);
        let zero = T::zero_spec();
        let one = T::one_spec();
        &&& !b.divisor.abs_spec().lt_spec(epsilon_spec::<T>())
        &&& !b.b1.lt_spec(zero)
        &&& !one.lt_spec(b.b1)
        &&& !b.b2.lt_spec(zero)
        &&& !one.lt_spec(b.b1.add_spec(b.b2))
        &&& !b.time.lt_spec(zero)
    }
}

impl<T: GenFloat> Shape for Triangle<T> {
    type NumTy = T;

    open spec fn intersection_spec(&self, ray: &Ray<T>) -> Option<T> {
        if self.hits(*ray) {
            Some(self.barycentric(*ray).time)
        } else {
            None
        }
    }

    open spec fn normal_spec(&self, point: &Point3<T>) -> Vector3<T> {
        self.true_normal_spec()
    }

    fn intersection(&self, ray: &Ray<T>) -> (r: Option<T>) {
        let d = ray.direction.into_inner();
        let e1 = self.v2.sub(&self.v1);
        let e2 = self.v3.sub(&self.v1);
        let s1 = d.cross(&e2);
        let divisor = s1.dot(&e1);
        if divisor.abs().lt(epsilon()) {
            return None;
        }
        let inv_div = T::one().div(divisor);
        let s = ray.origin.sub(&self.v1);
        let b1 = s1.dot(&s).mul(inv_div);
        if b1.lt(T::zero()) || T::one().lt(b1) {
            return None;
        }
        let s2 = s.cross(&e1);
        let b2 = d.dot(&s2).mul(inv_div);
        if b2.lt(T::zero()) || T::one().lt(b1.add(b2)) {
            return None;
        }
        let t = e2.dot(&s2).mul(inv_div);
        if t.lt(T::zero()) {
            None
        } else {
            Some(t)
        }
    }

    fn normal(&self, point: &Point3<T>) -> (r: Vector3<T>) {
        self.true_normal()
    }
}

/// With exact arithmetic, a ray that meets the triangle is not parallel
/// to its plane: the divisor is not zero.
pub proof fn lemma_hit_has_divisor<T: GenFloat>(tri: Triangle<T>, ray: Ray<T>)
    requires
        exact_arithmetic::<T>(),
        tri.hits(ray),
    ensures
        tri.barycentric(ray).divisor.val() != 0real,
{
    let divisor = tri.barycentric(ray).divisor;
    assert(T::from_u32_spec(1_000_000).val() == 1_000_000real);
    assert(epsilon_spec::<T>().val() == 1real / 1_000_000real);
    assert(epsilon_spec::<T>().val() > 0real);
    assert(!(divisor.abs_spec().val() < epsilon_spec::<T>().val()));
}

/// Whenever a ray meets a triangle, the point of the hit lies in the
/// plane of the triangle: the vector to it from the first corner is at a
/// right angle to the normal. This holds with exact arithmetic.
pub proof fn law_hit_lies_in_plane<T: GenFloat>(tri: Triangle<T>, ray: Ray<T>, t: T)
    requires
        exact_arithmetic::<T>(),
        tri.intersection_spec(&ray) == Some(t),
    ensures
        tri.true_normal_spec()@.dot(ray.at_time_spec(t)@.minus(tri.v1@)) == 0real,
{
    lemma_hit_has_divisor(tri, ray);
    let d = ray.direction.inner();
    let e1 = tri.edge1();
    let e2 = tri.edge2();
    let s1 = d.cross_spec(e2);
    let divisor = s1.dot_spec(e1);
    let inv = T::one_spec().div_spec(divisor);
    let s = ray.origin.sub_spec(tri.v1);
    let s2 = s.cross_spec(e1);
    let n = tri.true_normal_spec();
    let zero = T::zero_spec();
    lemma_point_ops_exact(ray.origin, tri.v1, d.scale_spec(t));
    lemma_vector_ops_exact(d, e2, t);
    lemma_vector_ops_exact(s1, e1, t);
    lemma_vector_ops_exact(s, e1, t);
    lemma_vector_ops_exact(e2, s2, t);
    lemma_vector_ops_exact(e1, e2, t);
    // The numbers involved, as reals.
    let big_d = divisor.val();
    let big_e = e2@.dot(s2@);
    assert(big_d == d@.cross(e2@).dot(e1@));
    assert(s2@ == s@.cross(e1@));
    assert(n@ == e1@.cross(e2@));
    assert(inv.val() == 1real / big_d);
    assert(t.val() == big_e * inv.val());
    lemma_div_mul(1real, big_d);
    assert(inv.val() * big_d == 1real);
    // The hit, seen from the first corner, is `s + d t`.
    let hit = ray.at_time_spec(t)@.minus(tri.v1@);
    assert(hit == s@.plus(d@.times(t.val())));
    lemma_dot_plus(s@, d@.times(t.val()), n@);
    lemma_dot_times(d@, t.val(), n@);
    assert(n@.dot(hit) == n@.dot(s@) + t.val() * d@.dot(n@));
    // The time's numerator is `n . s`.
    lemma_triple_product_rotates(e2@, s@, e1@);
    lemma_dot_comm(s@, n@);
    assert(big_e == n@.dot(s@));
    // The divisor is `-(d . n)`.
    lemma_dot_comm(d@.cross(e2@), e1@);
    lemma_triple_product_rotates(e1@, d@, e2@);
    lemma_cross_swaps(e2@, e1@, d@);
    assert(big_d == -d@.dot(n@));
    lemma_mul_neg(big_e * inv.val(), big_d);
    lemma_mul_assoc(big_e, inv.val(), big_d);
    lemma_mul_one(big_e);
}

} // verus!

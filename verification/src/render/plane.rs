use crate::number::{exact_arithmetic, GenFloat};
use crate::render::algebra::{
    lemma_div_mul, lemma_mul_comm, lemma_norm_squared_nonnegative, lemma_norm_squared_times,
    lemma_square_of_negation,
};
use crate::render::vector::{lemma_point_ops_exact, lemma_vector_ops_exact, Point3, Vector3};
use vstd::prelude::*;

verus! {

/// The plane of the points `p` with `normal . p + dist = 0`.
#[derive(Clone, Copy, Debug)]
pub struct Plane<T> {
    pub normal: Vector3<T>,
    pub dist: T,
}

impl<T: GenFloat> Plane<T> {
    pub fn new(normal: Vector3<T>, dist: T) -> (r: Plane<T>)
        ensures
            r == (Plane { normal, dist }),
    {
        Plane { normal, dist }
    }

    pub open spec fn new_at_point_spec(position: Point3<T>, normal: Vector3<T>) -> Plane<T> {
        Plane {
            normal,
            dist: normal.dot_spec(position.sub_spec(Point3::origin_spec())).neg_spec(),
        }
    }

    /// The plane through `position` with the given normal.
    pub fn new_at_point(position: Point3<T>, normal: Vector3<T>) -> (r: Plane<T>)
        ensures
            T::obeys() ==> r == Self::new_at_point_spec(position, normal),
    {
        Plane::new(normal, normal.dot(&position.sub(&Point3::origin())).neg())
    }

    /// The multiple of the normal that leads from `point` to the plane.
    pub open spec fn offset_spec(self, point: Point3<T>) -> T {
        self.dist.neg_spec().add_spec(
            self.normal.dot_spec(point.sub_spec(Point3::origin_spec())).neg_spec(),
        ).div_spec(self.normal.norm_squared_spec())
    }

    pub open spec fn distance_to_spec(self, point: Point3<T>) -> T {
        self.normal.scale_spec(self.offset_spec(point)).magnitude_spec()
    }

    /// How far `point` is from the plane: the length of the multiple of
    /// the normal that leads from the point to the plane.
    pub fn distance_to(&self, point: Point3<T>) -> (r: T)
        ensures
            T::obeys() ==> r == self.distance_to_spec(point),
    {
        let t = self.dist.neg().add(self.normal.dot(&point.sub(&Point3::origin())).neg()).div(
            self.normal.norm_squared(),
        );
        self.normal.scale(t).magnitude()
    }
}

/// The distance to a plane is never negative, and its square times the
/// squared length of the normal is the square of `normal . p + dist`. So
/// a point of the plane has the distance zero. This holds with exact
/// arithmetic, for a normal that is not zero.
pub proof fn law_distance_to_plane<T: GenFloat>(plane: Plane<T>, p: Point3<T>)
    requires
        exact_arithmetic::<T>(),
        plane.normal@.norm_squared() != 0real,
    ensures
        ({
            let distance = plane.distance_to_spec(p).val();
            let height = plane.normal@.dot(p@) + plane.dist.val();
            &&& distance >= 0real
            &&& (distance * distance) * plane.normal@.norm_squared() == height * height
            &&& height == 0real ==> distance == 0real
        }),
{
    let n = plane.normal;
    let origin = Point3::<T>::origin_spec();
    let to_p = p.sub_spec(origin);
    lemma_point_ops_exact(p, origin, n);
    assert(to_p@ == p@);
    let t = plane.offset_spec(p);
    lemma_vector_ops_exact(n, to_p, t);
    lemma_vector_ops_exact(n.scale_spec(t), n, t);
    let nn = n@.norm_squared();
    let height = n@.dot(p@) + plane.dist.val();
    lemma_norm_squared_nonnegative(n@);
    assert(t.val() == (-height) / nn);
    lemma_div_mul(-height, nn);
    // The distance is the square root of `t^2 |n|^2`.
    lemma_norm_squared_times(n@, t.val());
    let squared = (t.val() * t.val()) * nn;
    lemma_norm_squared_nonnegative(n@.times(t.val()));
    let distance = plane.distance_to_spec(p).val();
    assert(distance >= 0real && distance * distance == squared);
    // And `t^2 |n|^2 |n|^2 = (t |n|^2)^2 = height^2`.
    let tn = t.val() * nn;
    assert(squared * nn == tn * tn) by (nonlinear_arith)
        requires
            squared == (t.val() * t.val()) * nn,
            tn == t.val() * nn,
    ;
    lemma_square_of_negation(height);
    if height == 0real {
        lemma_mul_comm(t.val(), nn);
        assert(tn == 0real);
        assert(t.val() == 0real) by (nonlinear_arith)
            requires
                t.val() * nn == 0real,
                nn != 0real,
        ;
        assert(squared == 0real) by (nonlinear_arith)
            requires
                squared == (t.val() * t.val()) * nn,
                t.val() == 0real,
        ;
        assert(distance == 0real) by (nonlinear_arith)
            requires
                distance * distance == 0real,
        ;
    }
}

/// The plane made through a point holds that point: its distance from
/// the plane is zero. This holds with exact arithmetic, for a normal that
/// is not zero.
pub proof fn law_plane_holds_its_point<T: GenFloat>(position: Point3<T>, normal: Vector3<T>)
    requires
        exact_arithmetic::<T>(),
        normal@.norm_squared() != 0real,
    ensures
        Plane::new_at_point_spec(position, normal).distance_to_spec(position).val() == 0real,
{
    let plane = Plane::new_at_point_spec(position, normal);
    let origin = Point3::<T>::origin_spec();
    lemma_point_ops_exact(position, origin, normal);
    lemma_vector_ops_exact(normal, position.sub_spec(origin), T::zero_spec());
    law_distance_to_plane(plane, position);
}

} // verus!

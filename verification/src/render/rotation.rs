use crate::number::{exact_arithmetic, GenFloat};
use crate::render::algebra::{
    in_frame, lemma_cross_completes_frame, lemma_cross_is_orthogonal, lemma_cross_times,
    lemma_mul_zero, lemma_norm_squared_times, lemma_normalized, orthonormal,
};
use crate::render::vector::{lemma_normalize_exact, lemma_vector_ops_exact, Vector3};
use vstd::prelude::*;

verus! {

/// A linear map of space given by the images of the three axes. It is
/// meant to be a rotation: the three images have length one and are at
/// right angles to each other.
#[derive(Clone, Copy, Debug, PartialEq)]
pub struct Rotation3<T> {
    pub x_axis: Vector3<T>,
    pub y_axis: Vector3<T>,
    pub z_axis: Vector3<T>,
}

impl<T: GenFloat> Rotation3<T> {
    /// The images of the three axes have length one and are at right
    /// angles to each other.
    pub open spec fn is_orthonormal(self) -> bool {
        orthonormal(self.x_axis@, self.y_axis@, self.z_axis@)
    }

    /// The frame of an observer who looks along `dir` with `up` above: the
    /// third axis goes to the direction of `dir`, the first to the
    /// direction of `up x dir`, and the second to their cross product.
    pub open spec fn face_towards_spec(dir: Vector3<T>, up: Vector3<T>) -> Self {
        let z_axis = dir.normalize_spec();
        let x_axis = up.cross_spec(z_axis).normalize_spec();
        let y_axis = z_axis.cross_spec(x_axis);
        Rotation3 { x_axis, y_axis, z_axis }
    }

    /// The rotation that takes the third axis to the direction of `dir`
    /// and keeps `up` in the half-plane above it. `up` must not lie along
    /// `dir`.
    pub fn face_towards(dir: &Vector3<T>, up: &Vector3<T>) -> (r: Self)
        ensures
            T::obeys() ==> r == Self::face_towards_spec(*dir, *up),
    {
        let z_axis = dir.normalize();
        let x_axis = up.cross(&z_axis).normalize();
        let y_axis = z_axis.cross(&x_axis);
        Rotation3 { x_axis, y_axis, z_axis }
    }

    /// The transposed map, which for a rotation is its inverse.
    pub open spec fn inverse_spec(self) -> Self {
        Rotation3 {
            x_axis: Vector3 { x: self.x_axis.x, y: self.y_axis.x, z: self.z_axis.x },
            y_axis: Vector3 { x: self.x_axis.y, y: self.y_axis.y, z: self.z_axis.y },
            z_axis: Vector3 { x: self.x_axis.z, y: self.y_axis.z, z: self.z_axis.z },
        }
    }

    pub fn inverse(&self) -> (r: Self)
        ensures
            r == self.inverse_spec(),
            r.inverse_spec() == *self,
    {
        Rotation3 {
            x_axis: Vector3 { x: self.x_axis.x, y: self.y_axis.x, z: self.z_axis.x },
            y_axis: Vector3 { x: self.x_axis.y, y: self.y_axis.y, z: self.z_axis.y },
            z_axis: Vector3 { x: self.x_axis.z, y: self.y_axis.z, z: self.z_axis.z },
        }
    }

    pub open spec fn look_at_lh_spec(dir: Vector3<T>, up: Vector3<T>) -> Self {
        Self::face_towards_spec(dir, up).inverse_spec()
    }

    /// The view rotation of an observer who looks along `dir`: it takes
    /// the direction of `dir` to the third axis.
    pub fn look_at_lh(dir: &Vector3<T>, up: &Vector3<T>) -> (r: Self)
        ensures
            T::obeys() ==> r == Self::look_at_lh_spec(*dir, *up),
    {
        Self::face_towards(dir, up).inverse()
    }

    /// The image of `v`: the images of the axes weighted by the parts of
    /// `v`, summed from the first on.
    pub open spec fn transform_vector_spec(self, v: Vector3<T>) -> Vector3<T> {
        self.x_axis.scale_spec(v.x).add_spec(self.y_axis.scale_spec(v.y)).add_spec(
            self.z_axis.scale_spec(v.z),
        )
    }

    pub fn transform_vector(&self, v: &Vector3<T>) -> (r: Vector3<T>)
        ensures
            T::obeys() ==> r == self.transform_vector_spec(*v),
    {
        self.x_axis.scale(v.x).add(&self.y_axis.scale(v.y)).add(&self.z_axis.scale(v.z))
    }
}

/// With exact arithmetic the image of `v` has the parts of `v` as its
/// coordinates in the frame of the three axes.
pub proof fn lemma_transform_exact<T: GenFloat>(rot: Rotation3<T>, v: Vector3<T>)
    requires
        exact_arithmetic::<T>(),
    ensures
        rot.transform_vector_spec(v)@ == in_frame(
            rot.x_axis@,
            rot.y_axis@,
            rot.z_axis@,
            v.x.val(),
            v.y.val(),
            v.z.val(),
        ),
{
    let x = rot.x_axis.scale_spec(v.x);
    let y = rot.y_axis.scale_spec(v.y);
    let z = rot.z_axis.scale_spec(v.z);
    lemma_vector_ops_exact(rot.x_axis, rot.x_axis, v.x);
    lemma_vector_ops_exact(rot.y_axis, rot.y_axis, v.y);
    lemma_vector_ops_exact(rot.z_axis, rot.z_axis, v.z);
    lemma_vector_ops_exact(x, y, v.x);
    lemma_vector_ops_exact(x.add_spec(y), z, v.x);
}

/// The frame of an observer is orthonormal, and its third axis is the
/// direction looked along: `face_towards` gives an orthonormal rotation
/// whose third axis is `dir` divided by its length. This holds with exact
/// arithmetic, for a `dir` that is not zero and an `up` that does not lie
/// along it.
pub proof fn law_face_towards_is_orthonormal<T: GenFloat>(dir: Vector3<T>, up: Vector3<T>)
    requires
        exact_arithmetic::<T>(),
        dir@.norm_squared() != 0real,
        up@.cross(dir@).norm_squared() != 0real,
    ensures
        Rotation3::face_towards_spec(dir, up).is_orthonormal(),
        Rotation3::face_towards_spec(dir, up).z_axis@.times(dir.magnitude_spec().val()) == dir@,
        dir.magnitude_spec().val() > 0real,
{
    let z_axis = dir.normalize_spec();
    let side = up.cross_spec(z_axis);
    let x_axis = side.normalize_spec();
    let y_axis = z_axis.cross_spec(x_axis);
    let m = dir.magnitude_spec().val();
    lemma_normalize_exact(dir);
    lemma_normalized(dir@, m, dir@);
    lemma_vector_ops_exact(up, z_axis, T::zero_spec());
    lemma_vector_ops_exact(z_axis, x_axis, T::zero_spec());
    // `up x z` is `up x dir` divided by the length of `dir`, so not zero.
    lemma_cross_times(up@, z_axis@, m);
    lemma_norm_squared_times(up@.cross(z_axis@), m);
    assert(side@.norm_squared() != 0real) by {
        if side@.norm_squared() == 0real {
            lemma_mul_zero(m * m);
        }
    }
    lemma_normalize_exact(side);
    lemma_cross_is_orthogonal(up@, z_axis@);
    lemma_normalized(side@, side.magnitude_spec().val(), z_axis@);
    lemma_cross_completes_frame(z_axis@, x_axis@);
}

} // verus!

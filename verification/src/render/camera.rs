use crate::number::{double, double_spec, exact_arithmetic, GenFloat};
use crate::render::algebra::{
    in_frame, lemma_div_mul, lemma_dot_of_quotients, lemma_frame_coordinates, lemma_frame_dot,
    lemma_frame_is_linear, lemma_frame_norm, lemma_frame_origin, lemma_mul_assoc,
    lemma_mul_distributes, lemma_mul_neg, lemma_mul_one, lemma_mul_zero,
    lemma_square_nonnegative, lemma_square_of_negation, lemma_square_order, lemma_zero_product,
};
use crate::render::ray::Ray;
use crate::render::rotation::{law_face_towards_is_orthonormal, lemma_transform_exact, Rotation3};
use crate::render::vector::{
    lemma_normalize_exact, lemma_point_ops_exact, lemma_vector_ops_exact, Point3, Vector3,
};
use vstd::prelude::*;

verus! {

/// A pinhole camera: a view rectangle of `width` by `height` around
/// `position`, turned by `orientation`, seen from a focal point behind it
/// such that the rectangle spans the angle `fov` from left to right.
#[derive(Clone, Copy, Debug)]
pub struct Camera<T> {
    /// The middle of the view rectangle.
    pub position: Point3<T>,
    /// Takes the camera's own axes to those of the world. The third axis
    /// is the direction of view.
    pub orientation: Rotation3<T>,
    pub width: T,
    pub height: T,
    /// The horizontal field of view, in radians.
    pub fov: T,
}

/// One half: one over two.
pub open spec fn half_spec<T: GenFloat>() -> T {
    T::one_spec().div_spec(double_spec(T::one_spec()))
}

impl<T: GenFloat> Camera<T> {
    /// The orientation is orthonormal.
    pub open spec fn wf(self) -> bool {
        self.orientation.is_orthonormal()
    }

    /// Where the point at the fractions `x` and `y` lies on the view
    /// rectangle, across and up from its middle.
    pub open spec fn screen_offset(self, x: T, y: T) -> (real, real) {
        ((x.val() - 1real / 2real) * self.width.val(), (y.val() - 1real / 2real) * self.height.val())
    }

    /// The vector from the focal point to the point of the view rectangle
    /// at the fractions `x` and `y`: what the ray there is directed along.
    pub open spec fn sight_spec(self, x: T, y: T) -> Vector3<T> {
        self.screen_point_spec(x, y).sub_spec(self.focal_point_spec())
    }

    pub fn new(
        position: Point3<T>,
        orientation: Rotation3<T>,
        width: T,
        height: T,
        fov: T,
    ) -> (r: Camera<T>)
        ensures
            r == (Camera { position, orientation, width, height, fov }),
    {
        Camera { position, orientation, width, height, fov }
    }

    /// The camera whose axis of view leads from `position` toward
    /// `at_point`.
    pub open spec fn look_at_spec(
        position: Point3<T>,
        at_point: Point3<T>,
        up: Vector3<T>,
        width: T,
        height: T,
        fov: T,
    ) -> Camera<T> {
        Camera {
            position,
            orientation: Rotation3::face_towards_spec(at_point.sub_spec(position), up),
            width,
            height,
            fov,
        }
    }

    /// The camera at `position` that looks toward `at_point`, with `up`
    /// telling which way is up. `at_point` must differ from `position`,
    /// and `up` must not lie along the line between them.
    pub fn look_at(
        position: Point3<T>,
        at_point: Point3<T>,
        up: Vector3<T>,
        width: T,
        height: T,
        fov: T,
    ) -> (r: Camera<T>)
        ensures
            r.position == position,
            r.width == width,
            r.height == height,
            r.fov == fov,
            T::obeys() ==> r == Self::look_at_spec(position, at_point, up, width, height, fov),
    {
        let view_direction = at_point.sub(&position);
        let orientation = Rotation3::look_at_lh(&view_direction, &up).inverse();
        Camera::new(position, orientation, width, height, fov)
    }

    /// The point of the view rectangle at the fractions `x` and `y` of its
    /// width and height, counted from one corner.
    pub open spec fn screen_point_spec(self, x: T, y: T) -> Point3<T> {
        let half = half_spec::<T>();
        self.position.add_spec(
            self.orientation.transform_vector_spec(
                Vector3 {
                    x: x.sub_spec(half).mul_spec(self.width),
                    y: y.sub_spec(half).mul_spec(self.height),
                    z: T::zero_spec(),
                },
            ),
        )
    }

    /// How far the focal point lies behind the view rectangle:
    /// `width / (2 tan(fov / 2))`.
    pub open spec fn focal_distance_spec(self) -> T {
        let two = double_spec(T::one_spec());
        self.width.div_spec(two.mul_spec(self.fov.div_spec(two).tan_spec()))
    }

    /// The point that all rays of the camera come from.
    pub open spec fn focal_point_spec(self) -> Point3<T> {
        let backward = Vector3 { x: T::zero_spec(), y: T::zero_spec(), z: T::one_spec().neg_spec() };
        self.position.add_spec(
            self.orientation.transform_vector_spec(backward).scale_spec(
                self.focal_distance_spec(),
            ),
        )
    }

    pub open spec fn ray_at_spec(self, x: T, y: T) -> Ray<T> {
        let point = self.screen_point_spec(x, y);
        Ray::new_normalize_spec(point, point.sub_spec(self.focal_point_spec()))
    }

    /// The ray through the view rectangle at the fractions `x` and `y`,
    /// both from zero to one, of its width and height: (0, 0) is one
    /// corner, (1, 1) the opposite one. The ray starts on the rectangle
    /// and points away from the focal point.
    pub fn ray_at(&self, x: T, y: T) -> (r: Ray<T>)
        ensures
            T::obeys() ==> r == self.ray_at_spec(x, y),
    {
        let two = double(T::one());
        let half = T::one().div(two);
        let off_set = self.orientation.transform_vector(
            &Vector3::new(x.sub(half).mul(self.width), y.sub(half).mul(self.height), T::zero()),
        );
        let point = self.position.add(&off_set);
        let half_fov = self.fov.div(two);
        let focal_distance = self.width.div(two.mul(half_fov.tan()));
        let backward = Vector3::new(T::zero(), T::zero(), T::one().neg());
        let focal_point = self.position.add(
            &self.orientation.transform_vector(&backward).scale(focal_distance),
        );
        Ray::new_normalize(point, point.sub(&focal_point))
    }
}

/// With exact arithmetic the screen point lies at its offsets from the
/// position, in the frame of the camera, and the focal point lies behind
/// the position by the focal distance.
pub proof fn lemma_camera_points_exact<T: GenFloat>(cam: Camera<T>, x: T, y: T)
    requires
        exact_arithmetic::<T>(),
    ensures
        ({
            let rot = cam.orientation;
            let (across, up) = cam.screen_offset(x, y);
            let f = cam.focal_distance_spec().val();
            &&& cam.screen_point_spec(x, y)@.minus(cam.position@) == in_frame(
                rot.x_axis@,
                rot.y_axis@,
                rot.z_axis@,
                across,
                up,
                0real,
            )
            &&& cam.focal_point_spec()@.minus(cam.position@) == in_frame(
                rot.x_axis@,
                rot.y_axis@,
                rot.z_axis@,
                0real,
                0real,
                -f,
            )
            &&& cam.sight_spec(x, y)@ == in_frame(
                rot.x_axis@,
                rot.y_axis@,
                rot.z_axis@,
                across,
                up,
                f,
            )
        }),
{
    let rot = cam.orientation;
    let (xa, ya, za) = (rot.x_axis@, rot.y_axis@, rot.z_axis@);
    let two = double_spec(T::one_spec());
    let half = half_spec::<T>();
    assert(two.val() == 2real);
    assert(half.val() == 1real / 2real);
    let on_screen = Vector3 {
        x: x.sub_spec(half).mul_spec(cam.width),
        y: y.sub_spec(half).mul_spec(cam.height),
        z: T::zero_spec(),
    };
    let (across, up) = cam.screen_offset(x, y);
    let offset = rot.transform_vector_spec(on_screen);
    lemma_transform_exact(rot, on_screen);
    lemma_point_ops_exact(cam.position, cam.position, offset);
    let screen = in_frame(xa, ya, za, across, up, 0real);
    assert(cam.screen_point_spec(x, y)@ == cam.position@.plus(screen));
    let backward = Vector3 { x: T::zero_spec(), y: T::zero_spec(), z: T::one_spec().neg_spec() };
    let back = rot.transform_vector_spec(backward);
    let f = cam.focal_distance_spec();
    lemma_transform_exact(rot, backward);
    lemma_vector_ops_exact(back, back, f);
    lemma_point_ops_exact(cam.position, cam.position, back.scale_spec(f));
    lemma_frame_is_linear(xa, ya, za, 0real, 0real, -1real, 0real, 0real, 0real, f.val());
    lemma_mul_zero(f.val());
    lemma_mul_neg(1real, f.val());
    lemma_mul_one(f.val());
    let behind = in_frame(xa, ya, za, 0real, 0real, -f.val());
    assert(cam.focal_point_spec()@ == cam.position@.plus(behind));
    lemma_point_ops_exact(cam.screen_point_spec(x, y), cam.focal_point_spec(), offset);
    lemma_frame_is_linear(xa, ya, za, across, up, 0real, 0real, 0real, -f.val(), 1real);
    assert(cam.sight_spec(x, y)@ == screen.minus(behind));
}

/// A camera made by looking at a point is well formed, and its axis of
/// view leads from its position toward that point: the vector to the
/// point is a positive multiple of the axis. This holds with exact
/// arithmetic, for a point that differs from the position and an `up`
/// that does not lie along the line between them.
pub proof fn law_look_at_faces_target<T: GenFloat>(
    position: Point3<T>,
    at_point: Point3<T>,
    up: Vector3<T>,
    width: T,
    height: T,
    fov: T,
)
    requires
        exact_arithmetic::<T>(),
        at_point@.minus(position@).norm_squared() != 0real,
        up@.cross(at_point@.minus(position@)).norm_squared() != 0real,
    ensures
        ({
            let cam = Camera::look_at_spec(position, at_point, up, width, height, fov);
            let distance = at_point.sub_spec(position).magnitude_spec().val();
            &&& cam.wf()
            &&& distance > 0real
            &&& cam.orientation.z_axis@.times(distance) == at_point@.minus(position@)
        }),
{
    lemma_point_ops_exact(at_point, position, up);
    law_face_towards_is_orthonormal(at_point.sub_spec(position), up);
}

/// The ray through the middle of the view rectangle starts at the
/// position of the camera. This holds with exact arithmetic.
pub proof fn law_center_ray_starts_at_position<T: GenFloat>(cam: Camera<T>, x: T, y: T)
    requires
        exact_arithmetic::<T>(),
        x.val() == 1real / 2real,
        y.val() == 1real / 2real,
    ensures
        cam.ray_at_spec(x, y).origin@ == cam.position@,
{
    lemma_camera_points_exact(cam, x, y);
    let rot = cam.orientation;
    lemma_mul_zero(cam.width.val());
    lemma_mul_zero(cam.height.val());
    lemma_frame_origin(rot.x_axis@, rot.y_axis@, rot.z_axis@);
}

/// The ray through the middle of the view rectangle looks along the axis
/// of view: its direction is the third axis of the orientation. This
/// holds with exact arithmetic, for an orthonormal orientation and a
/// focal point that lies behind the view rectangle.
pub proof fn law_center_ray_looks_along_axis<T: GenFloat>(cam: Camera<T>, x: T, y: T)
    requires
        exact_arithmetic::<T>(),
        cam.wf(),
        cam.focal_distance_spec().val() > 0real,
        x.val() == 1real / 2real,
        y.val() == 1real / 2real,
    ensures
        cam.ray_at_spec(x, y).direction.inner()@ == cam.orientation.z_axis@,
{
    let rot = cam.orientation;
    let (xa, ya, za) = (rot.x_axis@, rot.y_axis@, rot.z_axis@);
    let f = cam.focal_distance_spec().val();
    lemma_camera_points_exact(cam, x, y);
    lemma_mul_zero(cam.width.val());
    lemma_mul_zero(cam.height.val());
    let sight = cam.sight_spec(x, y);
    assert(sight@ == in_frame(xa, ya, za, 0real, 0real, f));
    lemma_frame_norm(xa, ya, za, 0real, 0real, f);
    lemma_mul_zero(0real);
    lemma_square_nonnegative(f);
    lemma_normalize_exact(sight);
    let m = sight.magnitude_spec().val();
    lemma_square_order(m, f);
    lemma_square_order(f, m);
    assert(m == f);
    lemma_mul_zero(xa.x);
    lemma_mul_zero(xa.y);
    lemma_mul_zero(xa.z);
    lemma_mul_zero(ya.x);
    lemma_mul_zero(ya.y);
    lemma_mul_zero(ya.z);
    lemma_div_mul(za.x, f);
    lemma_div_mul(za.y, f);
    lemma_div_mul(za.z, f);
}

/// Every ray of the camera starts on the view plane: the plane through
/// the position whose normal is the axis of view. This holds with exact
/// arithmetic, for an orthonormal orientation.
pub proof fn law_ray_origin_on_view_plane<T: GenFloat>(cam: Camera<T>, x: T, y: T)
    requires
        exact_arithmetic::<T>(),
        cam.wf(),
    ensures
        cam.ray_at_spec(x, y).origin@.minus(cam.position@).dot(cam.orientation.z_axis@) == 0real,
{
    lemma_camera_points_exact(cam, x, y);
    let rot = cam.orientation;
    let (across, up) = cam.screen_offset(x, y);
    lemma_frame_coordinates(rot.x_axis@, rot.y_axis@, rot.z_axis@, across, up, 0real);
}

/// The view rectangle is as wide and as high as the camera says: the
/// origins of the rays at `x = 0` and `x = 1` of one row lie `width`
/// apart, and those at `y = 0` and `y = 1` of one column lie `height`
/// apart. This holds with exact arithmetic, for an orthonormal
/// orientation.
pub proof fn law_view_rectangle_size<T: GenFloat>(cam: Camera<T>, lo: T, hi: T, other: T)
    requires
        exact_arithmetic::<T>(),
        cam.wf(),
        lo.val() == 0real,
        hi.val() == 1real,
    ensures
        cam.ray_at_spec(lo, other).origin@.minus(cam.ray_at_spec(hi, other).origin@).norm_squared()
            == cam.width.val() * cam.width.val(),
        cam.ray_at_spec(other, lo).origin@.minus(cam.ray_at_spec(other, hi).origin@).norm_squared()
            == cam.height.val() * cam.height.val(),
{
    let rot = cam.orientation;
    let (xa, ya, za) = (rot.x_axis@, rot.y_axis@, rot.z_axis@);
    let (w, h) = (cam.width.val(), cam.height.val());
    lemma_camera_points_exact(cam, lo, other);
    lemma_camera_points_exact(cam, hi, other);
    lemma_camera_points_exact(cam, other, lo);
    lemma_camera_points_exact(cam, other, hi);
    let (a_lo, b) = cam.screen_offset(lo, other);
    let (a_hi, b_too) = cam.screen_offset(hi, other);
    let (a, b_lo) = cam.screen_offset(other, lo);
    let (a_too, b_hi) = cam.screen_offset(other, hi);
    lemma_half_extent(w);
    lemma_half_extent(h);
    assert(a_lo - a_hi == -w);
    assert(b_lo - b_hi == -h);
    // Along a row.
    lemma_frame_is_linear(xa, ya, za, a_lo, b, 0real, a_hi, b, 0real, 1real);
    lemma_frame_norm(xa, ya, za, -w, 0real, 0real);
    lemma_square_of_negation(w);
    lemma_mul_zero(0real);
    let row = cam.ray_at_spec(lo, other).origin@.minus(cam.ray_at_spec(hi, other).origin@);
    assert(row == in_frame(xa, ya, za, a_lo, b, 0real).minus(in_frame(xa, ya, za, a_hi, b, 0real)));
    // Along a column.
    lemma_frame_is_linear(xa, ya, za, a, b_lo, 0real, a, b_hi, 0real, 1real);
    lemma_frame_norm(xa, ya, za, 0real, -h, 0real);
    lemma_square_of_negation(h);
    let column = cam.ray_at_spec(other, lo).origin@.minus(cam.ray_at_spec(other, hi).origin@);
    assert(column == in_frame(xa, ya, za, a, b_lo, 0real).minus(
        in_frame(xa, ya, za, a, b_hi, 0real),
    ));
}

/// Half of `w` below the middle and half of it above.
proof fn lemma_half_extent(w: real)
    ensures
        (0real - 1real / 2real) * w - (1real - 1real / 2real) * w == -w,
{
    assert((0real - 1real / 2real) * w - (1real - 1real / 2real) * w == -w) by (nonlinear_arith);
}

/// The rays of the camera fan out from the focal point with the field of
/// view: in the frame of the camera, the ray at the fractions `x` and `y`
/// is directed along `((x - 1/2) width, (y - 1/2) height, f)`, where the
/// focal distance `f` times `2 tan(fov / 2)` is the width. So the rays at
/// the left and right edge of the middle row make the angle `fov / 2`
/// with the axis of view, one to each side. This holds with exact
/// arithmetic, for an orthonormal orientation and a field of view whose
/// half has a tangent that is not zero.
pub proof fn law_rays_span_field_of_view<T: GenFloat>(cam: Camera<T>, x: T, y: T)
    requires
        exact_arithmetic::<T>(),
        cam.wf(),
        cam.fov.div_spec(double_spec(T::one_spec())).tan_spec().val() != 0real,
    ensures
        ({
            let rot = cam.orientation;
            let sight = cam.sight_spec(x, y)@;
            let f = cam.focal_distance_spec().val();
            let tan = cam.fov.div_spec(double_spec(T::one_spec())).tan_spec().val();
            &&& sight.dot(rot.x_axis@) == (x.val() - 1real / 2real) * cam.width.val()
            &&& sight.dot(rot.y_axis@) == (y.val() - 1real / 2real) * cam.height.val()
            &&& sight.dot(rot.z_axis@) == f
            &&& f * (2real * tan) == cam.width.val()
        }),
{
    lemma_camera_points_exact(cam, x, y);
    let rot = cam.orientation;
    let (across, up) = cam.screen_offset(x, y);
    let f = cam.focal_distance_spec().val();
    lemma_frame_coordinates(rot.x_axis@, rot.y_axis@, rot.z_axis@, across, up, f);
    let two = double_spec(T::one_spec());
    let tan = cam.fov.div_spec(two).tan_spec().val();
    assert(two.val() == 2real);
    let span = two.mul_spec(cam.fov.div_spec(two).tan_spec()).val();
    assert(span == 2real * tan);
    assert(span != 0real);
    lemma_div_mul(cam.width.val(), span);
}

/// The rays at the left and right edge of the middle row span the field
/// of view: both directions have length one, and with `t` the tangent of
/// half the field of view their dot product is `(1 - t^2) / (1 + t^2)`,
/// the cosine of the whole. This holds with exact arithmetic, for an
/// orthonormal orientation, a width that is not zero and a tangent that
/// is not zero.
pub proof fn law_horizontal_view_angle<T: GenFloat>(cam: Camera<T>, lo: T, hi: T, mid: T)
    requires
        exact_arithmetic::<T>(),
        cam.wf(),
        cam.width.val() != 0real,
        cam.fov.div_spec(double_spec(T::one_spec())).tan_spec().val() != 0real,
        lo.val() == 0real,
        hi.val() == 1real,
        mid.val() == 1real / 2real,
    ensures
        ({
            let left = cam.ray_at_spec(lo, mid).direction.inner()@;
            let right = cam.ray_at_spec(hi, mid).direction.inner()@;
            let t = cam.fov.div_spec(double_spec(T::one_spec())).tan_spec().val();
            &&& left.norm_squared() == 1real
            &&& right.norm_squared() == 1real
            &&& (1real + t * t) * left.dot(right) == 1real - t * t
        }),
{
    let rot = cam.orientation;
    let (xa, ya, za) = (rot.x_axis@, rot.y_axis@, rot.z_axis@);
    let w = cam.width.val();
    let f = cam.focal_distance_spec().val();
    let t = cam.fov.div_spec(double_spec(T::one_spec())).tan_spec().val();
    law_rays_span_field_of_view(cam, lo, mid);
    lemma_camera_points_exact(cam, lo, mid);
    lemma_camera_points_exact(cam, hi, mid);
    lemma_mul_zero(cam.height.val());
    // Half the width is `g = f t`; the edges lie at `-g` and `g`.
    let g = f * t;
    assert(f * (2real * t) == 2real * g) by (nonlinear_arith)
        requires
            g == f * t,
    ;
    let (a_left, up_left) = cam.screen_offset(lo, mid);
    let (a_right, up_right) = cam.screen_offset(hi, mid);
    assert(a_left == -g) by (nonlinear_arith)
        requires
            a_left == (0real - 1real / 2real) * w,
            w == 2real * g,
    ;
    assert(a_right == g) by (nonlinear_arith)
        requires
            a_right == (1real - 1real / 2real) * w,
            w == 2real * g,
    ;
    let sight_left = cam.sight_spec(lo, mid);
    let sight_right = cam.sight_spec(hi, mid);
    assert(sight_left@ == in_frame(xa, ya, za, -g, 0real, f));
    assert(sight_right@ == in_frame(xa, ya, za, g, 0real, f));
    // Both have the squared length `n = g^2 + f^2`, which is not zero.
    lemma_frame_norm(xa, ya, za, -g, 0real, f);
    lemma_frame_norm(xa, ya, za, g, 0real, f);
    lemma_frame_dot(xa, ya, za, -g, 0real, f, g, 0real, f);
    lemma_square_of_negation(g);
    lemma_mul_neg(g, g);
    lemma_mul_zero(0real);
    let n = g * g + f * f;
    assert(f != 0real) by {
        if f == 0real {
            lemma_mul_zero(2real * t);
        }
    }
    lemma_square_nonnegative(f);
    lemma_square_nonnegative(g);
    assert(n > 0real);
    assert(sight_left@.norm_squared() == n);
    assert(sight_right@.norm_squared() == n);
    assert(sight_left@.dot(sight_right@) == f * f - g * g);
    // So both have the same length `m`, and the directions are the
    // sights over `m`.
    lemma_normalize_exact(sight_left);
    lemma_normalize_exact(sight_right);
    let m = sight_left.magnitude_spec().val();
    let m_right = sight_right.magnitude_spec().val();
    lemma_square_order(m, m_right);
    lemma_square_order(m_right, m);
    assert(m == m_right);
    let left = cam.ray_at_spec(lo, mid).direction.inner()@;
    let right = cam.ray_at_spec(hi, mid).direction.inner()@;
    assert(left == sight_left@.over(m));
    assert(right == sight_right@.over(m));
    lemma_dot_of_quotients(sight_left@, sight_right@, m);
    let c = left.dot(right);
    assert(n * c == f * f - g * g);
    // With `g = f t`: `f^2 (1 + t^2) c = f^2 (1 - t^2)`.
    let ff = f * f;
    let tt = t * t;
    assert(g * g == ff * tt) by (nonlinear_arith)
        requires
            g == f * t,
            ff == f * f,
            tt == t * t,
    ;
    lemma_mul_distributes(ff, 1real, tt);
    lemma_mul_one(ff);
    assert(n == ff * (1real + tt));
    assert(ff - g * g == ff * (1real - tt));
    lemma_mul_assoc(ff, 1real + tt, c);
    lemma_mul_distributes(ff, (1real + tt) * c, 1real - tt);
    assert(ff * ((1real + tt) * c - (1real - tt)) == 0real);
    lemma_zero_product(ff, (1real + tt) * c - (1real - tt));
}

} // verus!

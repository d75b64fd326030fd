use raytracer::number::GenFloat;
use raytracer::render::camera::Camera;
use raytracer::render::plane::Plane;
use raytracer::render::rotation::Rotation3;
use raytracer::render::vector::{Point3, Vector3};
use std::f64::consts::PI;

/// Double precision as the scalar of the geometry.
#[derive(Clone, Copy, Debug, PartialEq, PartialOrd)]
struct F(f64);

impl GenFloat for F {
    fn zero() -> F {
        F(0.0)
    }
    fn one() -> F {
        F(1.0)
    }
    fn from_u32(n: u32) -> F {
        F(f64::from(n))
    }
    fn add(self, rhs: F) -> F {
        F(self.0 + rhs.0)
    }
    fn sub(self, rhs: F) -> F {
        F(self.0 - rhs.0)
    }
    fn mul(self, rhs: F) -> F {
        F(self.0 * rhs.0)
    }
    fn div(self, rhs: F) -> F {
        F(self.0 / rhs.0)
    }
    fn neg(self) -> F {
        F(-self.0)
    }
    fn abs(self) -> F {
        F(self.0.abs())
    }
    fn sqrt(self) -> F {
        F(self.0.sqrt())
    }
    fn tan(self) -> F {
        F(self.0.tan())
    }
    fn max(self, rhs: F) -> F {
        F(self.0.max(rhs.0))
    }
    fn lt(self, rhs: F) -> bool {
        self.0 < rhs.0
    }
    fn to_u8(self) -> Option<u8> {
        num::ToPrimitive::to_u8(&self.0)
    }
}

fn vec3(x: f64, y: f64, z: f64) -> Vector3<F> {
    Vector3::new(F(x), F(y), F(z))
}

fn point(x: f64, y: f64, z: f64) -> Point3<F> {
    Point3::new(F(x), F(y), F(z))
}

fn len(v: Vector3<F>) -> f64 {
    v.magnitude().0
}

fn angle(a: Vector3<F>, b: Vector3<F>) -> f64 {
    (a.dot(&b).0 / (len(a) * len(b))).acos()
}

fn same_point(a: Point3<F>, b: Point3<F>, eps: f64) -> bool {
    (a.x.0 - b.x.0).abs() <= eps && (a.y.0 - b.y.0).abs() <= eps && (a.z.0 - b.z.0).abs() <= eps
}

/// Cameras at several places, looking several ways.
fn cameras() -> Vec<Camera<F>> {
    let up = vec3(0.0, 1.0, 0.0);
    vec![
        Camera::look_at(point(0.0, 0.0, 0.0), point(0.0, 0.0, 1.0), up, F(1.0), F(1.0), F(PI / 2.0)),
        Camera::look_at(point(1.0, 2.0, -2.0), point(0.5, 0.5, 0.5), up, F(2.0), F(2.0), F(PI / 2.0)),
        Camera::look_at(point(-30.0, 7.5, 12.0), point(4.0, -9.0, 3.0), up, F(16.0), F(9.0), F(1.0)),
        Camera::look_at(
            point(55.0, -20.0, 80.0),
            point(-1.0, 2.0, 3.0),
            vec3(0.3, 0.2, 1.0),
            F(99.0),
            F(1.5),
            F(2.0),
        ),
    ]
}

#[test]
fn center_point_at_position() {
    let position = point(0.0, 0.0, 0.0);
    let cam: Camera<F> = Camera::look_at(
        position,
        point(0.0, 0.0, 1.0),
        vec3(0.0, 1.0, 0.0),
        F(1.0),
        F(1.0),
        F(std::f64::consts::PI / 2.0),
    );
    let mid_ray = cam.ray_at(F(0.5), F(0.5));

    assert!(same_point(mid_ray.origin, position, f64::EPSILON));
}

#[test]
fn camera_new_keeps_its_arguments() {
    let rot = Rotation3::face_towards(&vec3(0.0, 0.0, 1.0), &vec3(0.0, 1.0, 0.0));
    let cam = Camera::new(point(1.0, 2.0, 3.0), rot, F(4.0), F(5.0), F(0.5));
    assert_eq!(cam.position, point(1.0, 2.0, 3.0));
    assert_eq!(cam.orientation, rot);
    assert_eq!(cam.width, F(4.0));
    assert_eq!(cam.height, F(5.0));
    assert_eq!(cam.fov, F(0.5));
}

#[test]
fn look_at_along_the_third_axis_is_the_identity() {
    let cam = Camera::look_at(
        point(0.0, 0.0, 0.0),
        point(0.0, 0.0, 7.0),
        vec3(0.0, 1.0, 0.0),
        F(1.0),
        F(1.0),
        F(PI / 2.0),
    );
    assert_eq!(cam.orientation.x_axis, vec3(1.0, 0.0, 0.0));
    assert_eq!(cam.orientation.y_axis, vec3(0.0, 1.0, 0.0));
    assert_eq!(cam.orientation.z_axis, vec3(0.0, 0.0, 1.0));
}

#[test]
fn ray_at_the_corners_of_a_simple_camera() {
    let cam = Camera::look_at(
        point(0.0, 0.0, 0.0),
        point(0.0, 0.0, 1.0),
        vec3(0.0, 1.0, 0.0),
        F(2.0),
        F(4.0),
        F(PI / 2.0),
    );
    let corner = cam.ray_at(F(0.0), F(0.0));
    assert_eq!(corner.origin, point(-1.0, -2.0, 0.0));
    let opposite = cam.ray_at(F(1.0), F(1.0));
    assert_eq!(opposite.origin, point(1.0, 2.0, 0.0));
    // The focal point lies one behind the middle: width / (2 tan(45 degrees)).
    let d = cam.ray_at(F(1.0), F(0.5)).direction.into_inner();
    assert!((d.x.0 - 0.5f64.sqrt()).abs() < 1e-12);
    assert!(d.y.0.abs() < 1e-12);
    assert!((d.z.0 - 0.5f64.sqrt()).abs() < 1e-12);
}

#[test]
fn center_ray_starts_at_the_position() {
    for cam in cameras() {
        let ray = cam.ray_at(F(0.5), F(0.5));
        assert!(same_point(ray.origin, cam.position, 1e-5));
    }
}

#[test]
fn looks_at_point() {
    let up = vec3(0.0, 1.0, 0.0);
    let pairs = [
        (point(0.0, 0.0, 0.0), point(0.0, 0.0, 1.0)),
        (point(1.0, 2.0, -2.0), point(0.5, 0.5, 0.5)),
        (point(-70.0, 3.0, 99.0), point(12.0, -45.0, 6.0)),
        (point(10.0, 10.0, 10.0), point(-10.0, 20.0, -30.0)),
    ];
    for (position, target) in pairs {
        let cam = Camera::look_at(position, target, up, F(1.0), F(1.0), F(PI / 2.0));
        let center_ray = cam.ray_at(F(0.5), F(0.5));
        let closest = center_ray.closest_point(target);
        assert!(len(closest.sub(&target)) < 0.0001);
    }
}

#[test]
fn ray_origin_on_view_plane() {
    for cam in cameras() {
        let backward = cam.orientation.transform_vector(&vec3(0.0, 0.0, -1.0));
        let view_plane = Plane::new_at_point(cam.position, backward);
        for i in 0..=4 {
            for j in 0..=4 {
                let ray = cam.ray_at(F(f64::from(i) / 4.0), F(f64::from(j) / 4.0));
                assert!(view_plane.distance_to(ray.origin).0 < 0.00001);
            }
        }
    }
}

#[test]
fn center_ray_views_direction() {
    for cam in cameras() {
        let ray = cam.ray_at(F(0.5), F(0.5));
        let view_vector = cam.orientation.transform_vector(&vec3(0.0, 0.0, 1.0));
        let cos = ray.direction.into_inner().dot(&view_vector).0;
        assert!((cos - 1.0).abs() < 1e-9);
    }
}

#[test]
fn camera_width() {
    for cam in cameras() {
        for j in 0..=4 {
            let y = F(f64::from(j) / 4.0);
            let left_most = cam.ray_at(F(0.0), y);
            let right_most = cam.ray_at(F(1.0), y);
            let calc_width_sq = left_most.origin.sub(&right_most.origin).norm_squared().0;
            let actual_width_sq = cam.width.0.powi(2);
            assert!((calc_width_sq - actual_width_sq).abs() < 0.00001 * actual_width_sq.max(1.0));
        }
    }
}

#[test]
fn camera_height() {
    for cam in cameras() {
        for i in 0..=4 {
            let x = F(f64::from(i) / 4.0);
            let top_most = cam.ray_at(x, F(1.0));
            let bottom_most = cam.ray_at(x, F(0.0));
            let calc = top_most.origin.sub(&bottom_most.origin).norm_squared().0;
            let actual = cam.height.0.powi(2);
            assert!((calc - actual).abs() < 0.00001 * actual.max(1.0));
        }
    }
}

#[test]
fn horizontal_view_angle_is_fov() {
    for cam in cameras() {
        let left_most = cam.ray_at(F(0.0), F(0.5));
        let right_most = cam.ray_at(F(1.0), F(0.5));
        let theta = angle(left_most.direction.into_inner(), right_most.direction.into_inner());
        assert!((theta - cam.fov.0).abs() < 0.00001);
    }
}

#[test]
fn look_at_gives_an_orthonormal_orientation() {
    for cam in cameras() {
        let rot = cam.orientation;
        for (a, b, expected) in [
            (rot.x_axis, rot.x_axis, 1.0),
            (rot.y_axis, rot.y_axis, 1.0),
            (rot.z_axis, rot.z_axis, 1.0),
            (rot.x_axis, rot.y_axis, 0.0),
            (rot.y_axis, rot.z_axis, 0.0),
            (rot.x_axis, rot.z_axis, 0.0),
        ] {
            assert!((a.dot(&b).0 - expected).abs() < 1e-12);
        }
    }
}

#[test]
fn look_at_points_the_axis_of_view_at_the_target() {
    let position = point(1.0, 2.0, -2.0);
    let target = point(4.0, 6.0, 10.0);
    let cam = Camera::look_at(position, target, vec3(0.0, 1.0, 0.0), F(1.0), F(1.0), F(1.0));
    // The target lies 13 along the axis of view.
    let reached = position.add(&cam.orientation.z_axis.scale(F(13.0)));
    assert!(same_point(reached, target, 1e-12));
}

#[test]
fn rotation_inverse_is_the_transpose() {
    let rot = Rotation3 {
        x_axis: vec3(1.0, 2.0, 3.0),
        y_axis: vec3(4.0, 5.0, 6.0),
        z_axis: vec3(7.0, 8.0, 9.0),
    };
    let inv = rot.inverse();
    assert_eq!(inv.x_axis, vec3(1.0, 4.0, 7.0));
    assert_eq!(inv.y_axis, vec3(2.0, 5.0, 8.0));
    assert_eq!(inv.z_axis, vec3(3.0, 6.0, 9.0));
    assert_eq!(inv.inverse(), rot);
}

#[test]
fn rotation_transforms_by_weighting_the_axes() {
    let rot = Rotation3 {
        x_axis: vec3(0.0, 1.0, 0.0),
        y_axis: vec3(-1.0, 0.0, 0.0),
        z_axis: vec3(0.0, 0.0, 1.0),
    };
    assert_eq!(rot.transform_vector(&vec3(2.0, 3.0, 4.0)), vec3(-3.0, 2.0, 4.0));
}

#[test]
fn face_towards_takes_the_third_axis_to_the_direction() {
    let rot = Rotation3::face_towards(&vec3(0.0, 3.0, 4.0), &vec3(1.0, 0.0, 0.0));
    assert_eq!(rot.z_axis, vec3(0.0, 0.6, 0.8));
    assert_eq!(rot.transform_vector(&vec3(0.0, 0.0, 1.0)), vec3(0.0, 0.6, 0.8));
    let lh = Rotation3::look_at_lh(&vec3(0.0, 3.0, 4.0), &vec3(1.0, 0.0, 0.0));
    assert_eq!(lh, rot.inverse());
    let back = lh.transform_vector(&vec3(0.0, 0.6, 0.8));
    assert!(back.x.0.abs() < 1e-12 && back.y.0.abs() < 1e-12 && (back.z.0 - 1.0).abs() < 1e-12);
}

#[test]
fn rotations_agree_with_nalgebra() {
    let dir = vec3(0.3, -1.7, 2.9);
    let up = vec3(0.0, 1.0, 0.0);
    let na_dir = nalgebra::Vector3::new(0.3, -1.7, 2.9);
    let na_up = nalgebra::Vector3::new(0.0, 1.0, 0.0);
    let rot = Rotation3::face_towards(&dir, &up);
    let na_rot = nalgebra::Rotation3::face_towards(&na_dir, &na_up);
    let m = na_rot.matrix();
    assert_eq!((rot.x_axis.x.0, rot.x_axis.y.0, rot.x_axis.z.0), (m[(0, 0)], m[(1, 0)], m[(2, 0)]));
    assert_eq!((rot.y_axis.x.0, rot.y_axis.y.0, rot.y_axis.z.0), (m[(0, 1)], m[(1, 1)], m[(2, 1)]));
    assert_eq!((rot.z_axis.x.0, rot.z_axis.y.0, rot.z_axis.z.0), (m[(0, 2)], m[(1, 2)], m[(2, 2)]));

    let lh = Rotation3::look_at_lh(&dir, &up);
    let na_lh = nalgebra::Rotation3::look_at_lh(&na_dir, &na_up);
    assert_eq!(lh.x_axis.y.0, na_lh.matrix()[(1, 0)]);
    assert_eq!(lh.z_axis.x.0, na_lh.matrix()[(0, 2)]);

    let v = vec3(1.25, -0.5, 3.0);
    let na_v = nalgebra::Vector3::new(1.25, -0.5, 3.0);
    let image = rot.transform_vector(&v);
    let na_image = na_rot.transform_vector(&na_v);
    assert!((image.x.0 - na_image.x).abs() < 1e-14);
    assert!((image.y.0 - na_image.y).abs() < 1e-14);
    assert!((image.z.0 - na_image.z).abs() < 1e-14);
}

use raytracer::number::GenFloat;
use raytracer::render::plane::Plane;
use raytracer::render::ray::Ray;
use raytracer::render::shape::{DiffGeom, Shape};
use raytracer::render::sphere::Sphere;
use raytracer::render::triangle::Triangle;
use raytracer::render::vector::{Point3, UnitVec3, Vector3};

/// Double precision as the scalar of the geometry.
#[derive(Clone, Copy, Debug, PartialEq, PartialOrd)]
struct F(f64);

impl GenFloat for F {
    fn zero() -> F {
        F(0.0)
    }
    fn one() -> F {
        F(1.0)
    }
    fn from_u32(n: u32) -> F {
        F(f64::from(n))
    }
    fn add(self, rhs: F) -> F {
        F(self.0 + rhs.0)
    }
    fn sub(self, rhs: F) -> F {
        F(self.0 - rhs.0)
    }
    fn mul(self, rhs: F) -> F {
        F(self.0 * rhs.0)
    }
    fn div(self, rhs: F) -> F {
        F(self.0 / rhs.0)
    }
    fn neg(self) -> F {
        F(-self.0)
    }
    fn abs(self) -> F {
        F(self.0.abs())
    }
    fn sqrt(self) -> F {
        F(self.0.sqrt())
    }
    fn tan(self) -> F {
        F(self.0.tan())
    }
    fn max(self, rhs: F) -> F {
        F(self.0.max(rhs.0))
    }
    fn lt(self, rhs: F) -> bool {
        self.0 < rhs.0
    }
    fn to_u8(self) -> Option<u8> {
        num::ToPrimitive::to_u8(&self.0)
    }
}

fn vec3(x: f64, y: f64, z: f64) -> Vector3<F> {
    Vector3::new(F(x), F(y), F(z))
}

fn point(x: f64, y: f64, z: f64) -> Point3<F> {
    Point3::new(F(x), F(y), F(z))
}

/// Single precision as the scalar of the geometry.
#[derive(Clone, Copy, Debug, PartialEq, PartialOrd)]
struct S(f32);

impl GenFloat for S {
    fn zero() -> S {
        S(0.0)
    }
    fn one() -> S {
        S(1.0)
    }
    fn from_u32(n: u32) -> S {
        S(n as f32)
    }
    fn add(self, rhs: S) -> S {
        S(self.0 + rhs.0)
    }
    fn sub(self, rhs: S) -> S {
        S(self.0 - rhs.0)
    }
    fn mul(self, rhs: S) -> S {
        S(self.0 * rhs.0)
    }
    fn div(self, rhs: S) -> S {
        S(self.0 / rhs.0)
    }
    fn neg(self) -> S {
        S(-self.0)
    }
    fn abs(self) -> S {
        S(self.0.abs())
    }
    fn sqrt(self) -> S {
        S(self.0.sqrt())
    }
    fn tan(self) -> S {
        S(self.0.tan())
    }
    fn max(self, rhs: S) -> S {
        S(self.0.max(rhs.0))
    }
    fn lt(self, rhs: S) -> bool {
        self.0 < rhs.0
    }
    fn to_u8(self) -> Option<u8> {
        num::ToPrimitive::to_u8(&self.0)
    }
}

fn len(v: Vector3<F>) -> f64 {
    v.magnitude().0
}

/// A stream of numbers in `[-1, 1)` that is the same on every run.
struct Stream(u64);

impl Stream {
    fn next(&mut self) -> f64 {
        self.0 = self.0.wrapping_mul(6364136223846793005).wrapping_add(1442695040888963407);
        ((self.0 >> 11) as f64) / ((1u64 << 52) as f64) - 1.0
    }

    fn vec3(&mut self, scale: f64) -> Vector3<F> {
        vec3(self.next() * scale, self.next() * scale, self.next() * scale)
    }

    fn point(&mut self, scale: f64) -> Point3<F> {
        Point3::from_vector(self.vec3(scale))
    }
}

// ---- rays ----

#[test]
fn ray_at_time_moves_along_the_direction() {
    let r = Ray::new_normalize(point(1.0, 2.0, 3.0), vec3(0.0, 0.0, 5.0));
    assert_eq!(r.origin, point(1.0, 2.0, 3.0));
    assert_eq!(r.direction.into_inner(), vec3(0.0, 0.0, 1.0));
    assert_eq!(r.at_time(F(2.5)), point(1.0, 2.0, 5.5));
    assert_eq!(r.at_time(F(0.0)), point(1.0, 2.0, 3.0));
    assert_eq!(r.at_time(F(-1.0)), point(1.0, 2.0, 2.0));
}

#[test]
fn ray_new_keeps_the_direction_as_given() {
    let d = UnitVec3::new_unchecked(vec3(0.0, 2.0, 0.0));
    let r = Ray::new(point(0.0, 0.0, 0.0), d);
    assert_eq!(r.direction.into_inner(), vec3(0.0, 2.0, 0.0));
    assert_eq!(r.at_time(F(3.0)), point(0.0, 6.0, 0.0));
}

#[test]
fn closest_point_is_the_foot_of_the_perpendicular() {
    let r = Ray::new_normalize(point(0.0, 0.0, 0.0), vec3(1.0, 0.0, 0.0));
    assert_eq!(r.closest_point(point(3.0, 4.0, 0.0)), point(3.0, 0.0, 0.0));
    assert_eq!(r.closest_point(point(7.0, -2.0, 9.0)), point(7.0, 0.0, 0.0));
}

#[test]
fn closest_point_behind_the_origin_is_the_origin() {
    let r = Ray::new_normalize(point(1.0, 1.0, 1.0), vec3(1.0, 0.0, 0.0));
    assert_eq!(r.closest_point(point(-3.0, 4.0, 0.0)), point(1.0, 1.0, 1.0));
    assert_eq!(r.closest_point(point(1.0, 5.0, 1.0)), point(1.0, 1.0, 1.0));
}

#[test]
fn closest_origin() {
    let mut s = Stream(1);
    for _ in 0..200 {
        let p = s.point(1000.0);
        let v0 = point(0.0, 0.0, 0.0);
        let r = Ray::new_normalize(v0, p.sub(&v0));
        let closest = r.closest_point(p);
        assert!(len(p.sub(&closest)) < 0.00001);
    }
}

#[test]
fn closest_in_front() {
    let mut s = Stream(2);
    for _ in 0..200 {
        let orig = s.point(1000.0);
        let p = s.point(1000.0);
        let r = Ray::new_normalize(orig, p.sub(&orig));
        let closest = r.closest_point(p);
        assert!(len(p.sub(&closest)) < 0.00001);
    }
}

#[test]
fn closest_behind() {
    let mut s = Stream(3);
    for _ in 0..200 {
        let orig = s.point(1000.0);
        let p = s.point(1000.0);
        let scale = -500.0 + 499.0 * s.next();
        let r = Ray::new_normalize(orig, p.sub(&orig).scale(F(scale)));
        let closest = r.closest_point(p);
        assert!(len(r.origin.sub(&closest)) < 0.00001);
    }
}

// ---- spheres ----

#[test]
fn intersection_test() {
    let s: Sphere<S> = Sphere { center: Point3::origin(), radius: S(5.0) };
    let r: Ray<S> = Ray {
        origin: Point3::origin(),
        direction: UnitVec3::new_unchecked(Vector3::new(S(1.0), S(0.0), S(0.0))),
    };
    let r2: Ray<S> = Ray::new(
        Point3::new(S(100.0), S(0.0), S(0.0)),
        UnitVec3::new_unchecked(Vector3::new(S(1.0), S(0.0), S(0.0))),
    );

    assert!(s.intersection(&r).is_some());
    assert!(s.intersection(&r2).is_none());
}

#[test]
fn negative_radius_is_taken_for_zero() {
    let s = Sphere::new(point(1.0, 2.0, 3.0), F(-5.0));
    assert_eq!(s.radius, F(0.0));
    assert_eq!(s.center, point(1.0, 2.0, 3.0));
    assert_eq!(Sphere::new(point(0.0, 0.0, 0.0), F(0.0)).radius, F(0.0));
    assert_eq!(Sphere::new(point(0.0, 0.0, 0.0), F(2.5)).radius, F(2.5));
    assert_eq!(Sphere::new(point(0.0, 0.0, 0.0), F(f64::NAN)).radius, F(0.0));
}

#[test]
fn sphere_ahead_is_hit_at_the_near_side() {
    let s = Sphere::new(point(0.0, 0.0, 10.0), F(2.0));
    let r = Ray::new_normalize(point(0.0, 0.0, 0.0), vec3(0.0, 0.0, 1.0));
    assert_eq!(s.intersection(&r), Some(F(8.0)));
}

#[test]
fn sphere_around_the_origin_of_the_ray_is_hit_at_the_far_side() {
    let s = Sphere::new(point(0.0, 0.0, 1.0), F(3.0));
    let r = Ray::new_normalize(point(0.0, 0.0, 0.0), vec3(0.0, 0.0, 1.0));
    assert_eq!(s.intersection(&r), Some(F(4.0)));
}

#[test]
fn sphere_behind_the_ray_is_not_hit() {
    let s = Sphere::new(point(0.0, 0.0, -10.0), F(2.0));
    let r = Ray::new_normalize(point(0.0, 0.0, 0.0), vec3(0.0, 0.0, 1.0));
    assert_eq!(s.intersection(&r), None);
}

#[test]
fn sphere_beside_the_ray_is_not_hit() {
    let s = Sphere::new(point(5.0, 0.0, 10.0), F(2.0));
    let r = Ray::new_normalize(point(0.0, 0.0, 0.0), vec3(0.0, 0.0, 1.0));
    assert_eq!(s.intersection(&r), None);
}

#[test]
fn sphere_touched_by_the_ray_is_hit_once() {
    let s = Sphere::new(point(2.0, 0.0, 10.0), F(2.0));
    let r = Ray::new_normalize(point(0.0, 0.0, 0.0), vec3(0.0, 0.0, 1.0));
    assert_eq!(s.intersection(&r), Some(F(10.0)));
}

#[test]
fn sphere_of_radius_zero_is_hit_only_through_its_center() {
    let s = Sphere::new(point(0.0, 0.0, 4.0), F(0.0));
    let through = Ray::new_normalize(point(0.0, 0.0, 0.0), vec3(0.0, 0.0, 1.0));
    let beside = Ray::new_normalize(point(1.0, 0.0, 0.0), vec3(0.0, 0.0, 1.0));
    assert_eq!(s.intersection(&through), Some(F(4.0)));
    assert_eq!(s.intersection(&beside), None);
}

#[test]
fn sphere_normal_leads_from_the_center_to_the_point() {
    let s = Sphere::new(point(1.0, 1.0, 1.0), F(2.0));
    assert_eq!(s.normal(&point(1.0, 3.0, 1.0)), vec3(0.0, 2.0, 0.0));
    assert_eq!(s.normal(&point(4.0, 5.0, 1.0)), vec3(3.0, 4.0, 0.0));
}

#[test]
fn intersection_detection() {
    let mut st = Stream(4);
    let delta = 0.001;
    let mut hits = 0;
    for _ in 0..2000 {
        let r = Ray::new_normalize(st.point(100.0), st.vec3(100.0));
        let s = Sphere::new(st.point(100.0), F(50.0 + 50.0 * st.next()));
        let intersects = s.intersection(&r).is_some();
        let closest = r.closest_point(s.center);
        let dist = len(closest.sub(&s.center));
        if (dist - s.radius.0).abs() < delta {
            continue;
        }
        assert_eq!(intersects, dist < s.radius.0);
        if intersects {
            hits += 1;
        }
    }
    assert!(hits > 100);
}

#[test]
fn intersection_on_surface() {
    let mut st = Stream(5);
    let mut hits = 0;
    for _ in 0..2000 {
        let r = Ray::new_normalize(st.point(100.0), st.vec3(100.0));
        let s = Sphere::new(st.point(100.0), F(50.0 + 50.0 * st.next()));
        if let Some(t) = s.intersection(&r) {
            let p = r.at_time(t);
            assert!((len(p.sub(&s.center)) - s.radius.0).abs() < 0.001);
            assert!(t.0 > 0.0);
            hits += 1;
        }
    }
    assert!(hits > 100);
}

// ---- triangles ----

/// Checks if Triangle is a valid shape
#[test]
fn traingle_is_shape() {
    fn is_shape<T: Shape>() {}
    is_shape::<Triangle<F>>();
}

#[test]
fn intersects_triangle() {
    let tri: Triangle<F> =
        Triangle::new(vec3(0.0, -1.0, 1.0), vec3(0.0, -1.0, -1.0), vec3(0.0, 1.0, 0.0));
    let ray: Ray<F> = Ray::new_normalize(point(-1.0, 0.0, 0.0), vec3(1.0, 0.0, 0.0));

    let intersection = tri.intersection(&ray);
    match intersection {
        None => assert!(false),
        Some(t) => assert!((t.0 - 1.0).abs() < 0.00001),
    }
}

#[test]
fn triangle_new_takes_the_corners_in_order() {
    let tri = Triangle::new(vec3(1.0, 2.0, 3.0), vec3(4.0, 5.0, 6.0), vec3(7.0, 8.0, 9.5));
    assert_eq!(tri.v1, point(1.0, 2.0, 3.0));
    assert_eq!(tri.v2, point(4.0, 5.0, 6.0));
    assert_eq!(tri.v3, point(7.0, 8.0, 9.5));
}

#[test]
fn triangle_normal_is_the_cross_product_of_its_edges() {
    let tri = Triangle::new(vec3(0.0, 0.0, 0.0), vec3(2.0, 0.0, 0.0), vec3(0.0, 3.0, 0.0));
    assert_eq!(tri.true_normal(), vec3(0.0, 0.0, 6.0));
    assert_eq!(tri.normal(&point(10.0, -4.0, 2.0)), vec3(0.0, 0.0, 6.0));
    assert_eq!(tri.normal(&point(0.5, 0.5, 0.0)), vec3(0.0, 0.0, 6.0));
}

#[test]
fn ray_parallel_to_the_triangle_misses() {
    let tri = Triangle::new(vec3(0.0, 0.0, 0.0), vec3(2.0, 0.0, 0.0), vec3(0.0, 3.0, 0.0));
    let ray = Ray::new_normalize(point(0.5, 0.5, 1.0), vec3(1.0, 0.0, 0.0));
    assert_eq!(tri.intersection(&ray), None);
}

#[test]
fn ray_beside_the_triangle_misses() {
    let tri = Triangle::new(vec3(0.0, 0.0, 0.0), vec3(2.0, 0.0, 0.0), vec3(0.0, 2.0, 0.0));
    let down = vec3(0.0, 0.0, -1.0);
    // The first weight is below zero.
    assert_eq!(tri.intersection(&Ray::new_normalize(point(-0.5, 0.5, 1.0), down)), None);
    // The first weight is above one.
    assert_eq!(tri.intersection(&Ray::new_normalize(point(2.5, -0.25, 1.0), down)), None);
    // The second weight is below zero.
    assert_eq!(tri.intersection(&Ray::new_normalize(point(0.5, -0.5, 1.0), down)), None);
    // The two weights together are above one.
    assert_eq!(tri.intersection(&Ray::new_normalize(point(1.5, 1.5, 1.0), down)), None);
    // Inside.
    assert_eq!(tri.intersection(&Ray::new_normalize(point(0.5, 0.5, 1.0), down)), Some(F(1.0)));
}

#[test]
fn triangle_behind_the_ray_misses() {
    let tri = Triangle::new(vec3(0.0, 0.0, 0.0), vec3(2.0, 0.0, 0.0), vec3(0.0, 2.0, 0.0));
    let ray = Ray::new_normalize(point(0.5, 0.5, 1.0), vec3(0.0, 0.0, 1.0));
    assert_eq!(tri.intersection(&ray), None);
}

#[test]
fn triangle_with_corners_on_a_line_is_never_hit() {
    let tri = Triangle::new(vec3(0.0, 0.0, 0.0), vec3(1.0, 0.0, 0.0), vec3(2.0, 0.0, 0.0));
    let ray = Ray::new_normalize(point(0.5, 0.0, 1.0), vec3(0.0, 0.0, -1.0));
    assert_eq!(tri.true_normal(), vec3(0.0, 0.0, 0.0));
    assert_eq!(tri.intersection(&ray), None);
}

#[test]
fn intersection_on_plane() {
    let mut st = Stream(6);
    let mut hits = 0;
    for _ in 0..20000 {
        let tri = Triangle::new(st.vec3(10.0), st.vec3(10.0), st.vec3(10.0));
        let ray = Ray::new_normalize(st.point(1.0), st.vec3(1.0));
        if let Some(t) = tri.intersection(&ray) {
            let p = ray.at_time(t);
            let n = tri.true_normal();
            let d_intersection = n.dot(&p.sub(&Point3::origin())).0;
            let d_actual = n.dot(&tri.v1.sub(&Point3::origin())).0;
            assert!((d_intersection - d_actual).abs() < 0.0001);
            assert!(t.0 >= 0.0);
            hits += 1;
        }
    }
    assert!(hits > 20);
}

// ---- planes ----

#[test]
fn distance_to_test() {
    let plane: Plane<F> = Plane::new(vec3(1.0, 0.0, 0.0), F(0.0));

    let dist = plane.distance_to(point(100.0, 992.3, 59.0));
    assert!((dist.0 - 100.0).abs() <= f64::EPSILON);

    let plane: Plane<F> = Plane::new(vec3(1.0, 0.0, 0.0), F(-10.0));
    let dist = plane.distance_to(point(100.0, 992.3, 59.0));
    assert!((dist.0 - 90.0).abs() <= f64::EPSILON);

    let plane: Plane<F> = Plane::new(vec3(1.0, 1.0, 0.0), F(0.0));
    let dist = plane.distance_to(point(-1.0, 1.0, 0.0));
    assert!((dist.0 - 0.0).abs() <= f64::EPSILON);
}

#[test]
fn new_at_point_test() {
    let pos = point(100.0, 50.0, 25.2);
    let plane: Plane<F> = Plane::new_at_point(pos, vec3(1.0, 0.0, 0.0));

    assert!(plane.distance_to(pos).0 < 0.0001);
    assert!(plane.distance_to(point(100.0, 20.0, 88.0)).0 < 0.0001);
}

#[test]
fn plane_through_a_point_has_the_matching_offset() {
    let plane = Plane::new_at_point(point(1.0, 2.0, 3.0), vec3(0.0, 0.0, 2.0));
    assert_eq!(plane.normal, vec3(0.0, 0.0, 2.0));
    assert_eq!(plane.dist, F(-6.0));
    assert_eq!(plane.distance_to(point(5.0, 5.0, 7.0)), F(4.0));
}

#[test]
fn diff_geom_holds_position_and_normal() {
    let g = DiffGeom::new(point(1.0, 2.0, 3.0), vec3(0.0, 1.0, 0.0));
    assert_eq!(g.position, point(1.0, 2.0, 3.0));
    assert_eq!(g.normal, vec3(0.0, 1.0, 0.0));
}

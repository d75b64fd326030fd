use crate::number::{exact_arithmetic, GenFloat};
use crate::render::color::Rgb;
use crate::render::light::PointLight;
use crate::render::material::{Lambert, UniformMaterial};
use crate::render::ray::Ray;
use crate::render::renderable::ShapeMat;
use crate::render::shape::Shape;
use crate::render::triangle::Triangle;
use crate::render::vector::{Point3, Vector3};
use core::cmp::Ordering;
use vstd::prelude::*;

verus! {

/// A triangle of one matte material: what a scene is made of.
pub type MatTri<T> = ShapeMat<Triangle<T>, UniformMaterial<Lambert<T>>>;

/// The things to draw, in the order they were added, and the lights.
pub struct Scene<T> {
    pub objects: Vec<MatTri<T>>,
    pub lights: Vec<PointLight<T>>,
}

/// Why a mesh could not be made into a scene.
#[derive(Clone, Copy, Debug, PartialEq, Eq)]
pub enum SceneLoadError {
    /// The mesh is malformed: a face names a position that is not there.
    LoadObjError,
    /// The mesh holds a face that is not a triangle.
    SceneContainsGeneralPolyError,
}

/// A mesh as it comes from a model file: the positions, and the faces in
/// the order of the file, each face a list of indices into the positions.
pub struct Mesh<T> {
    pub position: Vec<Vector3<T>>,
    pub polys: Vec<Vec<usize>>,
}

/// The first of two hit times comes after the second when looking for the
/// nearest: no hit comes after everything, and of two hits the later one
/// comes after the earlier.
pub open spec fn comes_after<T: GenFloat>(t1: Option<T>, t2: Option<T>) -> bool {
    match (t1, t2) {
        (None, _) => true,
        (_, None) => false,
        (Some(x), Some(y)) => !x.lt_spec(y) && y.lt_spec(x),
    }
}

/// The first of two hit times comes before the second: it is a hit, and
/// the second is no hit or a later one.
pub open spec fn comes_before<T: GenFloat>(t1: Option<T>, t2: Option<T>) -> bool {
    match (t1, t2) {
        (None, _) => false,
        (_, None) => true,
        (Some(x), Some(y)) => x.lt_spec(y),
    }
}

/// Orders two candidates by their hit time, the nearer first. No hit is
/// greater than anything, and two hits that cannot be told apart are
/// equal.
pub fn order_by_closest<S, T: GenFloat>(a: &(&S, Option<T>), b: &(&S, Option<T>)) -> (r: Ordering)
    ensures
        T::obeys() ==> (r is Less) == comes_before(a.1, b.1),
        T::obeys() ==> (r is Greater) == comes_after(a.1, b.1),
{
    match (a.1, b.1) {
        (None, _) => Ordering::Greater,
        (_, None) => Ordering::Less,
        (Some(x), Some(y)) => {
            if x.lt(y) {
                Ordering::Less
            } else if y.lt(x) {
                Ordering::Greater
            } else {
                Ordering::Equal
            }
        },
    }
}

/// The hit time of each object for `ray`, in the order of the objects.
pub open spec fn hit_times<S: Shape>(objects: Seq<S>, ray: Ray<S::NumTy>) -> Seq<
    Option<S::NumTy>,
> {
    Seq::new(objects.len(), |i: int| objects[i].intersection_spec(&ray))
}

/// The index that a scan from the front settles on: it starts at the
/// first time and moves on to a later index only where the time it holds
/// comes after the time found there.
pub open spec fn closest_index<T: GenFloat>(times: Seq<Option<T>>) -> int
    decreases times.len(),
{
    if times.len() <= 1 {
        0
    } else {
        let best = closest_index(times.drop_last());
        if comes_after(times[best], times.last()) {
            times.len() - 1
        } else {
            best
        }
    }
}

/// The index of the nearest object that `ray` meets, with the time.
pub open spec fn nearest_hit_spec<S: Shape>(objects: Seq<S>, ray: Ray<S::NumTy>) -> Option<
    (int, S::NumTy),
> {
    let times = hit_times(objects, ray);
    let best = closest_index(times);
    if objects.len() > 0 && times[best] is Some {
        Some((best, times[best]->0))
    } else {
        None
    }
}

/// What the scan holds after the first `k` times.
pub open spec fn scanned<T: GenFloat>(times: Seq<Option<T>>, k: usize) -> int {
    closest_index(times.take(k as int))
}

/// The index found by the scan is an index of the sequence.
pub proof fn lemma_closest_index_in_range<T: GenFloat>(times: Seq<Option<T>>)
    requires
        times.len() > 0,
    ensures
        0 <= closest_index(times) < times.len(),
    decreases times.len(),
{
    if times.len() > 1 {
        lemma_closest_index_in_range(times.drop_last());
    }
}

/// The scan ends on no hit only where there is no hit at all.
pub proof fn lemma_closest_is_hit<T: GenFloat>(times: Seq<Option<T>>)
    requires
        times.len() > 0,
    ensures
        times[closest_index(times)] is None <==> forall|j: int|
            0 <= j < times.len() ==> times[j] is None,
    decreases times.len(),
{
    lemma_closest_index_in_range(times);
    if times.len() > 1 {
        let front = times.drop_last();
        lemma_closest_is_hit(front);
        lemma_closest_index_in_range(front);
        let best = closest_index(front);
        assert(front[best] == times[best]);
        if times[closest_index(times)] is None {
            assert forall|j: int| 0 <= j < times.len() implies times[j] is None by {
                if j < front.len() {
                    assert(front[j] == times[j]);
                }
            }
        } else {
            assert(times[closest_index(times)] is Some);
        }
    }
}

/// After the first time the scan holds the first index.
pub proof fn lemma_scan_start<T: GenFloat>(times: Seq<Option<T>>)
    requires
        times.len() >= 1,
    ensures
        scanned(times, 1) == 0,
{
    assert(times.take(1).len() == 1);
}

/// Scanning one time more either keeps what was held or moves on to the
/// new time.
pub proof fn lemma_scan_step<T: GenFloat>(times: Seq<Option<T>>, k: usize)
    requires
        1 <= k < times.len(),
        k < usize::MAX,
    ensures
        0 <= scanned(times, k) < k,
        scanned(times, (k + 1) as usize) == if comes_after(
            times[scanned(times, k)],
            times[k as int],
        ) {
            k as int
        } else {
            scanned(times, k)
        },
{
    let upto = times.take(k + 1);
    assert(upto.drop_last() == times.take(k as int));
    lemma_closest_index_in_range(times.take(k as int));
}

/// After all the times the scan holds the index it settles on.
pub proof fn lemma_scan_end<T: GenFloat>(times: Seq<Option<T>>, n: usize)
    requires
        times.len() == n,
    ensures
        scanned(times, n) == closest_index(times),
{
    assert(times.take(n as int) == times);
}

/// Scans `objects` from the front for the one that `ray` meets first.
/// Objects that the ray misses are passed over. Of several at the same
/// time the first one found is kept.
pub fn nearest_hit<S: Shape>(objects: &Vec<S>, ray: &Ray<S::NumTy>) -> (r: Option<
    (usize, S::NumTy),
>)
    ensures
        r matches Some((i, t)) ==> i < objects.len(),
        S::NumTy::obeys() ==> r is Some == nearest_hit_spec(objects@, *ray) is Some,
        S::NumTy::obeys() ==> (r matches Some((i, t)) ==> {
            let (index, time) = nearest_hit_spec(objects@, *ray)->0;
            i == index && t == time
        }),
        S::NumTy::obeys() ==> (r is None <==> forall|j: int|
            0 <= j < objects.len() ==> objects[j].intersection_spec(ray) is None),
{
    let n = objects.len();
    if n == 0 {
        return None;
    }
    let ghost times = hit_times(objects@, *ray);
    let mut best: usize = 0;
    let mut best_time = objects[0].intersection(ray);
    let mut i: usize = 1;
    proof {
        lemma_scan_start(times);
    }
    while i < n
        invariant
            1 <= i <= n,
            n == objects.len(),
            times == hit_times(objects@, *ray),
            best < i,
            S::NumTy::obeys() ==> best == scanned(times, i),
            S::NumTy::obeys() ==> best_time == times[scanned(times, i)],
        decreases n - i,
    {
        let t = objects[i].intersection(ray);
        let held = (&objects[best], best_time);
        let found = (&objects[i], t);
        proof {
            lemma_scan_step(times, i);
        }
        match order_by_closest(&held, &found) {
            Ordering::Greater => {
                best = i;
                best_time = t;
            },
            _ => {},
        }
        i += 1;
    }
    proof {
        if S::NumTy::obeys() {
            lemma_scan_end(times, n);
            lemma_closest_index_in_range(times);
            lemma_closest_is_hit(times);
            assert forall|j: int| 0 <= j < objects.len() implies times[j]
                == #[trigger] objects[j].intersection_spec(ray) by {}
            if best_time is None {
                assert forall|j: int| 0 <= j < objects.len() implies objects[j].intersection_spec(
                    ray,
                ) is None by {
                    assert(times[j] is None);
                }
            } else {
                assert(times[closest_index(times)] is Some);
            }
        }
    }
    match best_time {
        Some(t) => Some((best, t)),
        None => None,
    }
}

/// With exact arithmetic the scan settles on the earliest time, and on
/// the first of several that are equally early.
pub proof fn lemma_closest_is_nearest<T: GenFloat>(times: Seq<Option<T>>)
    requires
        exact_arithmetic::<T>(),
        times.len() > 0,
    ensures
        ({
            let best = closest_index(times);
            times[best] matches Some(t) ==> forall|j: int|
                0 <= j < times.len() ==> (#[trigger] times[j] matches Some(u) ==> {
                    &&& t.val() <= u.val()
                    &&& j < best ==> t.val() < u.val()
                })
        }),
    decreases times.len(),
{
    lemma_closest_index_in_range(times);
    if times.len() > 1 {
        let front = times.drop_last();
        lemma_closest_is_nearest(front);
        lemma_closest_index_in_range(front);
        lemma_closest_is_hit(front);
        let held = closest_index(front);
        let best = closest_index(times);
        assert(front[held] == times[held]);
        if let Some(t) = times[best] {
            assert forall|j: int| 0 <= j < times.len() implies (#[trigger] times[j] matches Some(
                u,
            ) ==> {
                &&& t.val() <= u.val()
                &&& j < best ==> t.val() < u.val()
            }) by {
                if j < front.len() {
                    assert(front[j] == times[j]);
                }
            }
        }
    }
}

/// The nearest hit is the nearest: no object is met earlier than the one
/// that is found, and every object before it in the sequence that the ray
/// meets is met later. This holds with exact arithmetic.
pub proof fn law_nearest_hit_is_nearest<S: Shape>(objects: Seq<S>, ray: Ray<S::NumTy>)
    requires
        exact_arithmetic::<S::NumTy>(),
    ensures
        nearest_hit_spec(objects, ray) matches Some((best, t)) ==> {
            &&& 0 <= best < objects.len()
            &&& objects[best].intersection_spec(&ray) == Some(t)
            &&& forall|j: int|
                0 <= j < objects.len() ==> (#[trigger] objects[j].intersection_spec(
                    &ray,
                ) matches Some(u) ==> {
                    &&& t.val() <= u.val()
                    &&& j < best ==> t.val() < u.val()
                })
        },
{
    let times = hit_times(objects, ray);
    if objects.len() > 0 {
        lemma_closest_index_in_range(times);
        lemma_closest_is_nearest(times);
        if let Some((best, t)) = nearest_hit_spec(objects, ray) {
            assert forall|j: int| 0 <= j < objects.len() implies (
            #[trigger] objects[j].intersection_spec(&ray) matches Some(u) ==> {
                &&& t.val() <= u.val()
                &&& j < best ==> t.val() < u.val()
            }) by {
                assert(times[j] == objects[j].intersection_spec(&ray));
            }
        }
    }
}

/// The position that a face names by `index`.
pub fn get_point<T: GenFloat>(mesh: &Mesh<T>, index: usize) -> (r: Vector3<T>)
    requires
        index < mesh.position.len(),
    ensures
        r == mesh.position[index as int],
{
    mesh.position[index]
}

/// The triangle of a face: a face of three indices that all name a
/// position. A face of another size is a general polygon, and an index
/// past the positions makes the mesh malformed.
pub open spec fn to_triangle_spec<T: GenFloat>(
    position: Seq<Vector3<T>>,
    poly: Seq<usize>,
) -> Result<Triangle<T>, SceneLoadError> {
    if poly.len() != 3 {
        Err(SceneLoadError::SceneContainsGeneralPolyError)
    } else if poly[0] >= position.len() || poly[1] >= position.len() || poly[2]
        >= position.len() {
        Err(SceneLoadError::LoadObjError)
    } else {
        Ok(
            Triangle {
                v1: Point3::from_vector_spec(position[poly[0] as int]),
                v2: Point3::from_vector_spec(position[poly[1] as int]),
                v3: Point3::from_vector_spec(position[poly[2] as int]),
            },
        )
    }
}

/// Makes the triangle of the face `poly` of `mesh`.
pub fn to_triangle<T: GenFloat>(mesh: &Mesh<T>, poly: &Vec<usize>) -> (r: Result<
    Triangle<T>,
    SceneLoadError,
>)
    ensures
        r == to_triangle_spec(mesh.position@, poly@),
{
    if poly.len() != 3 {
        return Err(SceneLoadError::SceneContainsGeneralPolyError);
    }
    let n = mesh.position.len();
    if poly[0] >= n || poly[1] >= n || poly[2] >= n {
        return Err(SceneLoadError::LoadObjError);
    }
    Ok(
        Triangle::new(get_point(mesh, poly[0]), get_point(mesh, poly[1]), get_point(mesh, poly[2])),
    )
}

/// The material that every face of a loaded mesh gets: matte red.
pub open spec fn default_material_spec<T: GenFloat>() -> UniformMaterial<Lambert<T>> {
    UniformMaterial {
        bsdf: Lambert {
            color: Rgb { red: T::one_spec(), green: T::zero_spec(), blue: T::zero_spec() },
        },
    }
}

/// The one light of a loaded scene: white, at (5, 5, 1).
pub open spec fn default_light_spec<T: GenFloat>() -> PointLight<T> {
    PointLight {
        position: Point3 {
            x: T::from_u32_spec(5),
            y: T::from_u32_spec(5),
            z: T::one_spec(),
        },
        color: Rgb { red: T::one_spec(), green: T::one_spec(), blue: T::one_spec() },
    }
}

/// Every face before the `k`-th is a triangle of the mesh.
pub open spec fn faces_ok<T: GenFloat>(mesh: Mesh<T>, k: int) -> bool {
    forall|j: int|
        0 <= j < k ==> (#[trigger] to_triangle_spec(mesh.position@, mesh.polys[j]@)) is Ok
}

/// `object` is what the `j`-th face of `mesh` is loaded as: its triangle,
/// in the default material.
pub open spec fn is_loaded_face<T: GenFloat>(object: MatTri<T>, mesh: Mesh<T>, j: int) -> bool {
    &&& Ok::<Triangle<T>, SceneLoadError>(object.shape) == to_triangle_spec(
        mesh.position@,
        mesh.polys[j]@,
    )
    &&& T::obeys() ==> object.material == default_material_spec::<T>()
}

impl<T: GenFloat> Scene<T> {
    /// Makes the scene of a mesh: one object for each face, in the order
    /// of the faces, each in the default material, and the default light.
    ///
    /// Every face has to be a triangle of the mesh. The first face that is
    /// not one gives the error, and no scene is made.
    pub fn load(mesh: &Mesh<T>) -> (r: Result<Scene<T>, SceneLoadError>)
        ensures
            r is Ok <==> faces_ok(*mesh, mesh.polys.len() as int),
            r matches Ok(scene) ==> {
                &&& scene.objects.len() == mesh.polys.len()
                &&& forall|j: int|
                    0 <= j < mesh.polys.len() ==> is_loaded_face(scene.objects[j], *mesh, j)
                &&& scene.lights.len() == 1
                &&& T::obeys() ==> scene.lights[0] == default_light_spec::<T>()
            },
            r matches Err(e) ==> exists|k: int|
                0 <= k < mesh.polys.len() && faces_ok(*mesh, k) && #[trigger] to_triangle_spec(
                    mesh.position@,
                    mesh.polys[k]@,
                ) == Err::<Triangle<T>, SceneLoadError>(e),
    {
        let mut scene: Scene<T> = Scene::empty();
        let mut i: usize = 0;
        while i < mesh.polys.len()
            invariant
                0 <= i <= mesh.polys.len(),
                faces_ok(*mesh, i as int),
                scene.objects.len() == i,
                scene.lights@.len() == 0,
                forall|j: int| 0 <= j < i ==> is_loaded_face(scene.objects[j], *mesh, j),
            decreases mesh.polys.len() - i,
        {
            match to_triangle(mesh, &mesh.polys[i]) {
                Ok(tri) => {
                    let material = UniformMaterial::new(Lambert::new(T::one(), T::zero(), T::zero()));
                    scene.objects.push(ShapeMat::new(tri, material));
                },
                Err(e) => {
                    proof {
                        assert(to_triangle_spec(mesh.position@, mesh.polys[i as int]@) == Err::<
                            Triangle<T>,
                            SceneLoadError,
                        >(e));
                    }
                    return Err(e);
                },
            }
            i += 1;
        }
        let white = Rgb::new(T::one(), T::one(), T::one());
        let light = PointLight {
            position: Point3::new(T::from_u32(5), T::from_u32(5), T::one()),
            color: white,
        };
        scene.lights.push(light);
        Ok(scene)
    }

    /// A scene with nothing in it and no light.
    pub fn empty() -> (r: Scene<T>)
        ensures
            r.objects@.len() == 0,
            r.lights@.len() == 0,
    {
        Scene { objects: Vec::new(), lights: Vec::new() }
    }

    /// The nearest object of the scene that `ray` meets, with the time of
    /// the hit, or `None` where the ray meets nothing.
    pub fn intersects_renderable(&self, ray: &Ray<T>) -> (r: Option<(&MatTri<T>, T)>)
        ensures
            T::obeys() ==> r is Some == nearest_hit_spec(self.objects@, *ray) is Some,
            T::obeys() ==> (r matches Some((object, t)) ==> {
                let (i, time) = nearest_hit_spec(self.objects@, *ray)->0;
                0 <= i < self.objects.len() && *object == self.objects[i] && t == time
            }),
            T::obeys() ==> (r is None <==> forall|j: int|
                0 <= j < self.objects.len() ==> self.objects[j].intersection_spec(ray) is None),
    {
        match nearest_hit(&self.objects, ray) {
            Some((i, t)) => {
                proof {
                    lemma_closest_index_in_range(hit_times(self.objects@, *ray));
                }
                Some((&self.objects[i], t))
            },
            None => None,
        }
    }
}

} // verus!

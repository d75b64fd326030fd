use crate::number::{exact_arithmetic, GenFloat};
use crate::render::camera::Camera;
use crate::render::color::Rgb;
use crate::render::light::PointLight;
use crate::render::material::{Material, BSDF};
use crate::render::picture::{picture_data, picture_dimensions, Picture, Pixel};
use crate::render::ray::Ray;
use crate::render::renderable::Renderable;
use crate::render::scene::{
    hit_times, lemma_closest_index_in_range, nearest_hit, nearest_hit_spec, Scene,
};
use crate::render::shape::{DiffGeom, Shape};
use vstd::prelude::*;

verus! {

/// The width of a rendered image, in pixels.
pub const IMAGE_WIDTH: u32 = 100;

/// The height of a rendered image, in pixels.
pub const IMAGE_HEIGHT: u32 = 100;

/// `x` brought into the range from zero to one. A value that is not a
/// number is left as it is.
pub open spec fn clamp_unit_spec<T: GenFloat>(x: T) -> T {
    if x.lt_spec(T::zero_spec()) {
        T::zero_spec()
    } else if T::one_spec().lt_spec(x) {
        T::one_spec()
    } else {
        x
    }
}

/// The byte for a color part: the part clamped to the range from zero to
/// one, times 255, rounded toward zero. What does not fit in a byte is 0.
pub open spec fn clamp_255_spec<T: GenFloat>(x: T) -> u8 {
    match clamp_unit_spec(x).mul_spec(T::from_u32_spec(255)).to_u8_spec() {
        Some(byte) => byte,
        None => 0,
    }
}

/// Clamps to the range from zero to one and scales to a byte: zero gives
/// 0 and one gives 255.
pub fn clamp_255<T: GenFloat>(x: T) -> (r: u8)
    ensures
        T::obeys() ==> r == clamp_255_spec(x),
{
    let clamped = if x.lt(T::zero()) {
        T::zero()
    } else if T::one().lt(x) {
        T::one()
    } else {
        x
    };
    match clamped.mul(T::from_u32(255)).to_u8() {
        Some(byte) => byte,
        None => 0,
    }
}

/// `v` brought into the range from zero to one.
pub open spec fn unit_clamped(v: real) -> real {
    if v < 0real {
        0real
    } else if v > 1real {
        1real
    } else {
        v
    }
}

/// The byte for a color part is the integer part of 255 times the part
/// clamped to the range from zero to one: zero and less give 0, one and
/// more give 255. This holds with exact arithmetic.
pub proof fn law_clamp_255_value<T: GenFloat>(x: T)
    requires
        exact_arithmetic::<T>(),
    ensures
        clamp_255_spec(x) == (unit_clamped(x.val()) * 255real).floor(),
        x.val() <= 0real ==> clamp_255_spec(x) == 0,
        x.val() >= 1real ==> clamp_255_spec(x) == 255,
{
    let clamped = clamp_unit_spec(x);
    assert(clamped.val() == unit_clamped(x.val()));
    let scale = T::from_u32_spec(255);
    assert(scale.val() == 255real);
    let scaled = clamped.mul_spec(scale);
    assert(scaled.val() == clamped.val() * scale.val());
    assert(scaled.val() == clamped.val() * 255real);
    assert(0real <= scaled.val() <= 255real);
    let whole = scaled.val().floor();
    assert(0 <= whole <= 255);
}

pub open spec fn spectrum_to_pixel_color_spec<T: GenFloat>(spec: Rgb<T>) -> Pixel {
    Pixel {
        red: clamp_255_spec(spec.red),
        green: clamp_255_spec(spec.green),
        blue: clamp_255_spec(spec.blue),
    }
}

/// The pixel for a color: each part clamped and scaled to a byte.
pub fn spectrum_to_pixel_color<T: GenFloat>(spec: Rgb<T>) -> (r: Pixel)
    ensures
        T::obeys() ==> r == spectrum_to_pixel_color_spec(spec),
{
    Pixel { red: clamp_255(spec.red), green: clamp_255(spec.green), blue: clamp_255(spec.blue) }
}

/// No light at all.
pub open spec fn black_spec<T: GenFloat>() -> Rgb<T> {
    Rgb { red: T::zero_spec(), green: T::zero_spec(), blue: T::zero_spec() }
}

/// The light that the surface of `object` sends back along `ray` from the
/// point hit at `time`, lit by `light`: the color of the light times what
/// the material scatters from the direction of the light toward the
/// origin of the ray.
pub open spec fn reflected_spec<R>(
    ray: Ray<<R as Shape>::NumTy>,
    object: R,
    time: <R as Shape>::NumTy,
    light: PointLight<<R as Shape>::NumTy>,
) -> Rgb<<R as Shape>::NumTy> where
    R: Renderable,
    <R as Material>::BSDF_fn: BSDF<NumTy = <R as Shape>::NumTy>,
 {
    let point = ray.at_time_spec(time);
    let normal = object.normal_spec(&point);
    let bsdf = object.get_bsdf_spec(&DiffGeom { position: point, normal });
    let view = ray.direction.inner().scale_spec(<R as Shape>::NumTy::one_spec().neg_spec());
    light.color.modulate_spec(bsdf.bsdf_spec(&view, &light.position.sub_spec(point)))
}

/// The light that arrives at the origin of `ray` from `objects`: black
/// where the ray meets nothing, else what the nearest object sends back
/// of the first light.
pub open spec fn radiance_spec<R>(
    ray: Ray<<R as Shape>::NumTy>,
    objects: Seq<R>,
    lights: Seq<PointLight<<R as Shape>::NumTy>>,
) -> Rgb<<R as Shape>::NumTy> where
    R: Renderable,
    <R as Material>::BSDF_fn: BSDF<NumTy = <R as Shape>::NumTy>,
 {
    match nearest_hit_spec(objects, ray) {
        None => black_spec(),
        Some((i, time)) => reflected_spec(ray, objects[i], time, lights[0]),
    }
}

/// The light that arrives at the origin of `ray` from `objects`, lit by
/// the first of `lights`. The other lights are not looked at.
///
/// Where there is an object there has to be a light.
pub fn radiance_of<R>(
    ray: &Ray<<R as Shape>::NumTy>,
    objects: &Vec<R>,
    lights: &Vec<PointLight<<R as Shape>::NumTy>>,
) -> (r: Rgb<<R as Shape>::NumTy>) where
    R: Renderable,
    <R as Material>::BSDF_fn: BSDF<NumTy = <R as Shape>::NumTy>,

    requires
        lights.len() > 0 || objects.len() == 0,
    ensures
        <R as Shape>::NumTy::obeys() ==> r == radiance_spec(*ray, objects@, lights@),
{
    match nearest_hit(objects, ray) {
        None => Rgb::new(
            <R as Shape>::NumTy::zero(),
            <R as Shape>::NumTy::zero(),
            <R as Shape>::NumTy::zero(),
        ),
        Some((i, t)) => {
            let renderable = &objects[i];
            let isct_pt = ray.at_time(t);
            let norm = renderable.normal(&isct_pt);
            let diff_geom = DiffGeom::new(isct_pt, norm);
            let bsdf = renderable.get_bsdf(&diff_geom);
            let view = ray.direction.into_inner().scale(<R as Shape>::NumTy::one().neg());
            let reflect = bsdf.bsdf(&view, &lights[0].position.sub(&isct_pt));
            lights[0].color * reflect
        },
    }
}

/// The light that arrives at the origin of `ray` from `scene`.
pub fn radiance<T: GenFloat>(ray: Ray<T>, scene: &Scene<T>) -> (r: Rgb<T>)
    requires
        scene.lights.len() > 0 || scene.objects.len() == 0,
    ensures
        T::obeys() ==> r == radiance_spec(ray, scene.objects@, scene.lights@),
{
    radiance_of(&ray, &scene.objects, &scene.lights)
}

/// The pixel that `ray` sees of `scene`.
pub open spec fn render_ray_spec<T: GenFloat>(ray: Ray<T>, scene: Scene<T>) -> Pixel {
    spectrum_to_pixel_color_spec(radiance_spec(ray, scene.objects@, scene.lights@))
}

pub fn render_ray<T: GenFloat>(ray: Ray<T>, scene: &Scene<T>) -> (r: Pixel)
    requires
        scene.lights.len() > 0 || scene.objects.len() == 0,
    ensures
        T::obeys() ==> r == render_ray_spec(ray, *scene),
{
    spectrum_to_pixel_color(radiance(ray, scene))
}

/// A ray that meets nothing sees black: where no object of the scene is
/// met, and so in a scene without objects, the pixel is black. This
/// holds with exact arithmetic.
pub proof fn law_miss_is_black<T: GenFloat>(ray: Ray<T>, scene: Scene<T>)
    requires
        exact_arithmetic::<T>(),
        forall|j: int|
            0 <= j < scene.objects.len() ==> scene.objects[j].intersection_spec(&ray) is None,
    ensures
        radiance_spec(ray, scene.objects@, scene.lights@) == black_spec::<T>(),
        render_ray_spec(ray, scene) == (Pixel { red: 0, green: 0, blue: 0 }),
{
    let times = hit_times(scene.objects@, ray);
    if scene.objects.len() > 0 {
        lemma_closest_index_in_range(times);
    }
    law_clamp_255_value(T::zero_spec());
}

/// The pixel in column `x` and row `y` of the image: what the ray of the
/// camera at the fractions `x / width` and `y / height` sees.
pub open spec fn rendered_pixel_spec<T: GenFloat>(
    cam: Camera<T>,
    scene: Scene<T>,
    x: u32,
    y: u32,
) -> Pixel {
    render_ray_spec(
        cam.ray_at_spec(
            T::from_u32_spec(x).div_spec(T::from_u32_spec(IMAGE_WIDTH)),
            T::from_u32_spec(y).div_spec(T::from_u32_spec(IMAGE_HEIGHT)),
        ),
        scene,
    )
}

/// Renders `scene` as `cam` sees it: one ray for each pixel of a picture
/// of `IMAGE_WIDTH` by `IMAGE_HEIGHT`. A scene without objects gives a
/// black picture. A scene with objects has to have a light.
pub fn render<T: GenFloat>(cam: Camera<T>, scene: &Scene<T>) -> (r: Picture)
    requires
        scene.lights.len() > 0 || scene.objects.len() == 0,
    ensures
        picture_dimensions(r) == (IMAGE_WIDTH, IMAGE_HEIGHT),
        picture_data(r).len() == 3 * IMAGE_WIDTH * IMAGE_HEIGHT,
        r.wf(),
        T::obeys() ==> forall|x: u32, y: u32|
            x < IMAGE_WIDTH && y < IMAGE_HEIGHT ==> #[trigger] r.pixel_spec(x, y) == Some(
                rendered_pixel_spec(cam, *scene, x, y),
            ),
{
    let mut channels: Vec<u8> = Vec::new();
    let mut y: u32 = 0;
    while y < IMAGE_HEIGHT
        invariant
            y <= IMAGE_HEIGHT,
            scene.lights.len() > 0 || scene.objects.len() == 0,
            channels.len() == 3 * (y * IMAGE_WIDTH),
            T::obeys() ==> forall|i: u32, j: u32|
                i < IMAGE_WIDTH && j < y ==> #[trigger] pixel_in(channels@, i, j)
                    == rendered_pixel_spec(cam, *scene, i, j),
        decreases IMAGE_HEIGHT - y,
    {
        let mut x: u32 = 0;
        while x < IMAGE_WIDTH
            invariant
                x <= IMAGE_WIDTH,
                y < IMAGE_HEIGHT,
                scene.lights.len() > 0 || scene.objects.len() == 0,
                channels.len() == 3 * (y * IMAGE_WIDTH + x),
                T::obeys() ==> forall|i: u32, j: u32|
                    i < IMAGE_WIDTH && j < y ==> #[trigger] pixel_in(channels@, i, j)
                        == rendered_pixel_spec(cam, *scene, i, j),
                T::obeys() ==> forall|i: u32|
                    i < x ==> #[trigger] pixel_in(channels@, i, y) == rendered_pixel_spec(
                        cam,
                        *scene,
                        i,
                        y,
                    ),
            decreases IMAGE_WIDTH - x,
        {
            let ray = cam.ray_at(
                T::from_u32(x).div(T::from_u32(IMAGE_WIDTH)),
                T::from_u32(y).div(T::from_u32(IMAGE_HEIGHT)),
            );
            let pixel = render_ray(ray, scene);
            let ghost before = channels@;
            channels.push(pixel.red);
            channels.push(pixel.green);
            channels.push(pixel.blue);
            proof {
                assert forall|i: u32, j: u32|
                    i < IMAGE_WIDTH && (j < y || (j == y && i < x)) implies #[trigger] pixel_in(
                    channels@,
                    i,
                    j,
                ) == pixel_in(before, i, j) by {
                    assert(3 * (j * IMAGE_WIDTH + i) + 2 < before.len());
                }
            }
            x += 1;
        }
        y += 1;
    }
    let ghost data = channels@;
    let picture = Picture::from_raw(IMAGE_WIDTH, IMAGE_HEIGHT, channels).unwrap();
    proof {
        assert forall|x: u32, y: u32| x < IMAGE_WIDTH && y < IMAGE_HEIGHT implies (
        #[trigger] picture.pixel_spec(x, y)) == Some(pixel_in(data, x, y)) by {
            assert(3 * (y * IMAGE_WIDTH + x) + 2 < data.len());
        }
    }
    picture
}

/// The pixel whose channels stand in `channels` at the place of column
/// `x` of row `y` of a picture of `IMAGE_WIDTH` columns.
pub open spec fn pixel_in(channels: Seq<u8>, x: u32, y: u32) -> Pixel {
    let at = 3 * (y * IMAGE_WIDTH + x);
    Pixel { red: channels[at], green: channels[at + 1], blue: channels[at + 2] }
}

} // verus!

use vstd::prelude::*;

use crate::camera::{get_ray_spec, Camera};
use crate::color::{channel_spec, color_to_rgb};
use crate::fixed::{fp_add, fp_add_spec, fp_mul, fp_mul_spec, fp_sub, fp_sub_spec, tdiv, FP_HALF,
    FP_MAX, FP_ONE};
use crate::hits::{list_hit_from, list_hit_spec, list_wf, HitRecord, Hittable, HittableList};
use crate::material::Material;
use crate::objects::{sphere_hit_spec, Sphere};
use crate::ray::Ray;
use crate::rng::{rand_frac, random_in_unit_sphere};
use crate::vec3::{
    add_spec, comp_mul_spec, dot_spec, length_squared_spec, scale_spec, unit_spec, Color, Vec3,
};

verus! {

/// Hits closer than this (one thousandth of a unit, rounded up to the grid)
/// are ignored, so that a scattered ray does not immediately re-hit the
/// surface it starts on.
pub const T_MIN_HIT: i64 = 66;

/// Pure black: the color of an exhausted or absorbed ray.
pub open spec fn black_spec() -> Color {
    Vec3 { x: 0, y: 0, z: 0 }
}

/// Pure white: the low end of the background gradient.
pub open spec fn white_spec() -> Color {
    Vec3 { x: FP_ONE, y: FP_ONE, z: FP_ONE }
}

/// Sky blue, one half red and seven tenths green on the fixed-point grid:
/// the high end of the background gradient.
pub open spec fn sky_blue_spec() -> Color {
    Vec3 { x: FP_HALF, y: 45875, z: FP_ONE }
}

/// A color whose channels all lie inside `[0, 1]`.
pub open spec fn color_wf(c: Color) -> bool {
    &&& 0 <= c.x <= FP_ONE
    &&& 0 <= c.y <= FP_ONE
    &&& 0 <= c.z <= FP_ONE
}

/// The base reflectance either material variant multiplies into outgoing
/// light.
pub open spec fn material_albedo(m: Material) -> Color {
    match m {
        Material::Lambertian(l) => l.albedo,
        Material::Metal(mm) => mm.albedo,
    }
}

/// A material whose albedo is a well-formed color.
pub open spec fn material_wf(m: Material) -> bool {
    match m {
        Material::Lambertian(l) => color_wf(l.albedo),
        Material::Metal(mm) => color_wf(mm.albedo),
    }
}

/// A renderable scene: positive radii and well-formed albedos throughout.
pub open spec fn scene_wf(s: Seq<Sphere>) -> bool {
    &&& list_wf(s)
    &&& forall|k: int| 0 <= k < s.len() ==> #[trigger] material_wf(s[k].material)
}

/// The gradient parameter of the background: half of one plus the unit
/// direction's height, kept inside `[0, 1]` against rounding overshoot; a
/// direction too short to normalize counts as level.
pub open spec fn background_t_spec(dir: Vec3) -> i64 {
    let uy = if length_squared_spec(dir) >= 1 {
        unit_spec(dir).y
    } else {
        0i64
    };
    let raw = fp_mul_spec(FP_HALF, fp_add_spec(uy, FP_ONE));
    if raw < 0 {
        0i64
    } else if raw > FP_ONE {
        FP_ONE
    } else {
        raw
    }
}

/// The background a missed ray sees: a vertical blend from white at the
/// bottom to sky blue at the top.
pub open spec fn background_spec(dir: Vec3) -> Color {
    let t = background_t_spec(dir);
    add_spec(scale_spec(fp_sub_spec(FP_ONE, t), white_spec()), scale_spec(t, sky_blue_spec()))
}

/// A fixed-point product of values from `[0, 1]` stays in `[0, 1]` and under
/// either factor.
proof fn lemma_fp_mul_range(a: i64, b: i64)
    requires
        0 <= a <= FP_ONE,
        0 <= b <= FP_ONE,
    ensures
        0 <= fp_mul_spec(a, b) <= a,
        fp_mul_spec(a, b) <= b,
{
    let x = a as int * b as int;
    assert(0 <= x && x <= a * 65536 && x <= b * 65536) by (nonlinear_arith)
        requires
            0 <= a <= 65536,
            0 <= b <= 65536,
            x == a as int * b as int,
    ;
    assert(tdiv(x, 65536) == x / 65536);
    assert(x / 65536 <= (a * 65536) / 65536);
    assert((a * 65536) / 65536 == a);
    assert(x / 65536 <= (b * 65536) / 65536);
    assert((b * 65536) / 65536 == b);
}

/// Scaling a full-bright channel is exact: multiplying by one gives the
/// factor back.
proof fn lemma_fp_mul_one(a: i64)
    requires
        0 <= a <= FP_ONE,
    ensures
        fp_mul_spec(a, FP_ONE) == a,
{
    assert(tdiv(a as int * 65536, 65536) == (a as int * 65536) / 65536);
    assert((a as int * 65536) / 65536 == a as int);
}

/// The background color is well formed whatever the ray direction.
proof fn lemma_background_wf(dir: Vec3)
    ensures
        color_wf(background_spec(dir)),
{
    let t = background_t_spec(dir);
    let u = fp_sub_spec(FP_ONE, t);
    assert(0 <= t <= FP_ONE);
    assert(u == FP_ONE - t);
    lemma_fp_mul_one(u);
    lemma_fp_mul_range(t, FP_HALF);
    lemma_fp_mul_range(t, 45875);
    lemma_fp_mul_range(t, FP_ONE);
    lemma_fp_mul_one(t);
}

/// Attenuating a well-formed color by a well-formed color keeps it well
/// formed.
proof fn lemma_attenuate_wf(a: Color, c: Color)
    requires
        color_wf(a),
        color_wf(c),
    ensures
        color_wf(comp_mul_spec(a, c)),
{
    lemma_fp_mul_range(a.x, c.x);
    lemma_fp_mul_range(a.y, c.y);
    lemma_fp_mul_range(a.z, c.z);
}

/// Whatever record the fold reports carries the material of some member and
/// witnesses a direction long enough to normalize.
proof fn lemma_list_hit_props(
    s: Seq<Sphere>,
    i: int,
    ray: Ray,
    t_min: i64,
    closest: i64,
    best: Option<HitRecord>,
)
    requires
        forall|k: int| 0 <= k < s.len() ==> #[trigger] material_wf(s[k].material),
        match best {
            Some(b) => material_wf(b.material) && dot_spec(ray.direction, ray.direction) > 0,
            None => true,
        },
    ensures
        ({
            let r = list_hit_from(s, i, ray, t_min, closest, best);
            r.is_some() ==> material_wf(r.unwrap().material) && dot_spec(
                ray.direction,
                ray.direction,
            ) > 0
        }),
    decreases s.len() - i,
{
    if 0 <= i < s.len() {
        match sphere_hit_spec(s[i], ray, t_min, closest) {
            Some(h) => {
                assert(material_wf(s[i].material));
                lemma_list_hit_props(s, i + 1, ray, t_min, h.t, Some(h));
            },
            None => {
                lemma_list_hit_props(s, i + 1, ray, t_min, closest, best);
            },
        }
    }
}

/// The background a missed ray sees, as executable code.
fn background(dir: Vec3) -> (c: Color)
    ensures
        c == background_spec(dir),
{
    let lsq = dir.length_squared();
    let uy: i64 = if lsq >= 1 {
        dir.unit_vector().y
    } else {
        0
    };
    let raw = fp_mul(FP_HALF, fp_add(uy, FP_ONE));
    let t: i64 = if raw < 0 {
        0
    } else if raw > FP_ONE {
        FP_ONE
    } else {
        raw
    };
    let white = Vec3::new(FP_ONE, FP_ONE, FP_ONE);
    let sky_blue = Vec3::new(FP_HALF, 45875, FP_ONE);
    white.scale(fp_sub(FP_ONE, t)).add(sky_blue.scale(t))
}

/// Everything `ray_color`'s contract allows a single radiance estimate `c`
/// to be, for a given scene, ray and bounce budget: a color inside the unit
/// cube; black when the budget is exhausted; the exact background gradient
/// on a miss; and on a hit either black (absorbed) or the hit material's
/// albedo attenuating some well-formed color.
pub open spec fn ray_color_outcome(s: Seq<Sphere>, r: Ray, depth: i32, c: Color) -> bool {
    &&& color_wf(c)
    &&& (depth <= 0 ==> c == black_spec())
    &&& (depth > 0 && list_hit_spec(s, r, T_MIN_HIT, FP_MAX).is_none() ==> c == background_spec(
        r.direction,
    ))
    &&& (depth > 0 && list_hit_spec(s, r, T_MIN_HIT, FP_MAX).is_some() ==> (c == black_spec()
        || exists|sub: Color|
        color_wf(sub) && c == comp_mul_spec(
            material_albedo(list_hit_spec(s, r, T_MIN_HIT, FP_MAX).unwrap().material),
            sub,
        )))
}

/// The radiance a ray gathers from the scene, bounded to `depth` bounces.
/// An exhausted budget or an absorbed ray yields black; a miss yields the
/// background gradient, exactly; a hit scatters on the hit material with a
/// fresh random sample and recurses, attenuated by the albedo. The result
/// always lies inside the unit color cube.
pub fn ray_color(ray: &Ray, world: &HittableList, depth: i32) -> (c: Color)
    requires
        scene_wf(world.objects@),
    ensures
        ray_color_outcome(world.objects@, *ray, depth, c),
    decreases depth,
{
    if depth <= 0 {
        return Vec3::zeros();
    }
    match world.hit(ray, T_MIN_HIT, FP_MAX) {
        Some(rec) => {
            proof {
                lemma_list_hit_props(
                    world.objects@,
                    0,
                    *ray,
                    T_MIN_HIT,
                    FP_MAX,
                    None,
                );
            }
            let rand = random_in_unit_sphere();
            match rec.material.scatter(ray, &rec, rand) {
                Some((attenuation, scattered)) => {
                    let sub = ray_color(&scattered, world, depth - 1);
                    proof {
                        lemma_attenuate_wf(attenuation, sub);
                        assert(attenuation == material_albedo(rec.material));
                    }
                    let out = attenuation.comp_mul(sub);
                    proof {
                        assert(color_wf(sub) && out == comp_mul_spec(
                            material_albedo(rec.material),
                            sub,
                        ));
                    }
                    out
                },
                None => Vec3::zeros(),
            }
        },
        None => {
            proof {
                lemma_background_wf(ray.direction);
            }
            background(ray.direction)
        },
    }
}

/// The horizontal viewport fraction of a sample through pixel column `i`
/// jittered by `xi` fixed-point steps: `(i + xi) / (width - 1)`.
pub open spec fn sample_u_spec(i: u32, width: u32, xi: i64) -> i64 {
    ((i * FP_ONE + xi) / (width - 1)) as i64
}

/// The vertical viewport fraction of a sample through pixel row `j` (row 0
/// at the top, so the row index is flipped) jittered by `xj` fixed-point
/// steps: `((height - 1 - j) + xj) / (height - 1)`.
pub open spec fn sample_v_spec(j: u32, height: u32, xj: i64) -> i64 {
    (((height - 1 - j) * FP_ONE + xj) / (height - 1)) as i64
}

/// One admissible radiance sample for pixel `(i, j)`: for some jitter pair
/// inside the pixel, `c` is an outcome `ray_color`'s contract allows for
/// the camera ray through the jittered viewport point.
pub open spec fn pixel_sample_ok(
    s: Seq<Sphere>,
    cam: Camera,
    i: u32,
    j: u32,
    width: u32,
    height: u32,
    depth: i32,
    c: Color,
) -> bool {
    exists|xi: i64, xj: i64|
        0 <= xi < FP_ONE && 0 <= xj < FP_ONE && #[trigger] ray_color_outcome(
            s,
            get_ray_spec(cam, sample_u_spec(i, width, xi), sample_v_spec(j, height, xj)),
            depth,
            c,
        )
}

/// The componentwise saturating sum of a sequence of colors, accumulated
/// left to right from black.
pub open spec fn color_sum_spec(samples: Seq<Color>) -> Color
    decreases samples.len(),
{
    if samples.len() == 0 {
        black_spec()
    } else {
        add_spec(color_sum_spec(samples.drop_last()), samples.last())
    }
}

/// Everything `render_pixel`'s contract allows its output to be: some
/// sequence of `samples_n` admissible radiance samples for pixel `(i, j)`
/// exists whose saturating sum, averaged over `samples_n` and mapped by
/// `channel_spec`, is exactly the reported triple.
pub open spec fn render_pixel_ok(
    s: Seq<Sphere>,
    cam: Camera,
    i: u32,
    j: u32,
    width: u32,
    height: u32,
    samples_n: u32,
    depth: i32,
    rgb: [u8; 3],
) -> bool {
    exists|samples: Seq<Color>|
        {
            &&& #[trigger] samples.len() == samples_n
            &&& (forall|k: int|
                0 <= k < samples.len() ==> pixel_sample_ok(
                    s,
                    cam,
                    i,
                    j,
                    width,
                    height,
                    depth,
                    #[trigger] samples[k],
                ))
            &&& rgb[0] == channel_spec(color_sum_spec(samples).x, samples_n as i32)
            &&& rgb[1] == channel_spec(color_sum_spec(samples).y, samples_n as i32)
            &&& rgb[2] == channel_spec(color_sum_spec(samples).z, samples_n as i32)
        }
}

/// One pixel of the output: `samples_per_pixel` jittered rays through pixel
/// `(i, j)` — row 0 at the top — averaged, gamma-corrected and quantized.
#[verifier::rlimit(60)]
pub fn render_pixel(
    world: &HittableList,
    cam: &Camera,
    i: u32,
    j: u32,
    image_width: u32,
    image_height: u32,
    samples_per_pixel: u32,
    max_depth: i32,
) -> (rgb: [u8; 3])
    requires
        scene_wf(world.objects@),
        image_width >= 2,
        image_height >= 2,
        i < image_width,
        j < image_height,
        1 <= samples_per_pixel <= i32::MAX as u32,
    ensures
        render_pixel_ok(
            world.objects@,
            *cam,
            i,
            j,
            image_width,
            image_height,
            samples_per_pixel,
            max_depth,
            rgb,
        ),
{
    let mut acc = Vec3::zeros();
    let ghost mut samples: Seq<Color> = Seq::empty();
    let mut s: u32 = 0;
    while s < samples_per_pixel
        invariant
            scene_wf(world.objects@),
            image_width >= 2,
            image_height >= 2,
            i < image_width,
            j < image_height,
            s <= samples_per_pixel,
            samples.len() == s,
            acc == color_sum_spec(samples),
            acc.x >= 0,
            acc.y >= 0,
            acc.z >= 0,
            forall|k: int|
                0 <= k < samples.len() ==> pixel_sample_ok(
                    world.objects@,
                    *cam,
                    i,
                    j,
                    image_width,
                    image_height,
                    max_depth,
                    #[trigger] samples[k],
                ),
        decreases samples_per_pixel - s,
    {
        let xi = rand_frac();
        let xj = rand_frac();
        let u = (((i as u64) * 65536 + (xi as u64)) / ((image_width - 1) as u64)) as i64;
        let v = ((((image_height - 1 - j) as u64) * 65536 + (xj as u64)) / ((image_height - 1)
            as u64)) as i64;
        let ray = cam.get_ray(u, v);
        let c = ray_color(&ray, world, max_depth);
        proof {
            assert(u == sample_u_spec(i, image_width, xi));
            assert(v == sample_v_spec(j, image_height, xj));
            assert(ray_color_outcome(
                world.objects@,
                get_ray_spec(*cam, sample_u_spec(i, image_width, xi), sample_v_spec(j, image_height, xj)),
                max_depth,
                c,
            ));
            assert(pixel_sample_ok(
                world.objects@,
                *cam,
                i,
                j,
                image_width,
                image_height,
                max_depth,
                c,
            ));
        }
        acc = acc.add(c);
        proof {
            let prev = samples;
            samples = samples.push(c);
            assert(samples.drop_last() =~= prev);
            assert(samples.last() == c);
            assert forall|k: int| 0 <= k < samples.len() implies pixel_sample_ok(
                world.objects@,
                *cam,
                i,
                j,
                image_width,
                image_height,
                max_depth,
                #[trigger] samples[k],
            ) by {
                if k < prev.len() {
                    assert(samples[k] == prev[k]);
                } else {
                    assert(samples[k] == c);
                }
            }
        }
        s = s + 1;
    }
    let rgb = color_to_rgb(acc, samples_per_pixel as i32);
    proof {
        assert(samples.len() == samples_per_pixel);
        assert(rgb[0] == channel_spec(color_sum_spec(samples).x, samples_per_pixel as i32));
        assert(rgb[1] == channel_spec(color_sum_spec(samples).y, samples_per_pixel as i32));
        assert(rgb[2] == channel_spec(color_sum_spec(samples).z, samples_per_pixel as i32));
    }
    rgb
}

/// The whole frame, row-major with row 0 at the top: one RGB triple per
/// pixel. Pixels are independent, so callers wanting parallelism may equally
/// call `render_pixel` per pixel in any order and assemble the same grid.
pub fn render(
    world: &HittableList,
    cam: &Camera,
    image_width: u32,
    image_height: u32,
    samples_per_pixel: u32,
    max_depth: i32,
) -> (pixels: Vec<[u8; 3]>)
    requires
        scene_wf(world.objects@),
        image_width >= 2,
        image_height >= 2,
        1 <= samples_per_pixel <= i32::MAX as u32,
        image_width * image_height <= usize::MAX,
    ensures
        pixels@.len() == image_width * image_height,
        forall|row: int, col: int|
            0 <= row < image_height && 0 <= col < image_width ==> render_pixel_ok(
                world.objects@,
                *cam,
                col as u32,
                row as u32,
                image_width,
                image_height,
                samples_per_pixel,
                max_depth,
                #[trigger] pixels@[row * image_width + col],
            ),
{
    let ghost w = image_width as int;
    let mut pixels: Vec<[u8; 3]> = Vec::new();
    let mut j: u32 = 0;
    while j < image_height
        invariant
            scene_wf(world.objects@),
            image_width >= 2,
            image_height >= 2,
            1 <= samples_per_pixel <= i32::MAX as u32,
            image_width * image_height <= usize::MAX,
            w == image_width as int,
            j <= image_height,
            pixels@.len() == j * image_width,
            forall|t: int|
                0 <= t < pixels@.len() ==> render_pixel_ok(
                    world.objects@,
                    *cam,
                    (t % w) as u32,
                    (t / w) as u32,
                    image_width,
                    image_height,
                    samples_per_pixel,
                    max_depth,
                    #[trigger] pixels@[t],
                ),
        decreases image_height - j,
    {
        let mut i: u32 = 0;
        while i < image_width
            invariant
                scene_wf(world.objects@),
                image_width >= 2,
                image_height >= 2,
                1 <= samples_per_pixel <= i32::MAX as u32,
                image_width * image_height <= usize::MAX,
                w == image_width as int,
                j < image_height,
                i <= image_width,
                pixels@.len() == j * image_width + i,
                forall|t: int|
                    0 <= t < pixels@.len() ==> render_pixel_ok(
                        world.objects@,
                        *cam,
                        (t % w) as u32,
                        (t / w) as u32,
                        image_width,
                        image_height,
                        samples_per_pixel,
                        max_depth,
                        #[trigger] pixels@[t],
                    ),
            decreases image_width - i,
        {
            let rgb = render_pixel(
                world,
                cam,
                i,
                j,
                image_width,
                image_height,
                samples_per_pixel,
                max_depth,
            );
            let ghost prev = pixels@;
            pixels.push(rgb);
            proof {
                let t_new = j * w + i;
                vstd::arithmetic::div_mod::lemma_fundamental_div_mod_converse(
                    t_new,
                    w,
                    j as int,
                    i as int,
                );
                assert(pixels@[t_new] == rgb);
                assert forall|t: int| 0 <= t < pixels@.len() implies render_pixel_ok(
                    world.objects@,
                    *cam,
                    (t % w) as u32,
                    (t / w) as u32,
                    image_width,
                    image_height,
                    samples_per_pixel,
                    max_depth,
                    #[trigger] pixels@[t],
                ) by {
                    if t < prev.len() {
                        assert(pixels@[t] == prev[t]);
                    } else {
                        assert(t == t_new);
                    }
                }
            }
            i = i + 1;
        }
        proof {
            assert((j as int + 1) * w == j as int * w + w) by (nonlinear_arith);
        }
        j = j + 1;
    }
    proof {
        assert(image_height as int * w == w * (image_height as int)) by (nonlinear_arith);
        assert forall|row: int, col: int|
            0 <= row < image_height && 0 <= col < image_width implies render_pixel_ok(
            world.objects@,
            *cam,
            col as u32,
            row as u32,
            image_width,
            image_height,
            samples_per_pixel,
            max_depth,
            #[trigger] pixels@[row * w + col],
        ) by {
            let t = row * w + col;
            vstd::arithmetic::mul::lemma_mul_nonnegative(row, w);
            vstd::arithmetic::mul::lemma_mul_inequality(row + 1, image_height as int, w);
            assert((row + 1) * w == row * w + w) by (nonlinear_arith);
            assert(0 <= t < pixels@.len());
            vstd::arithmetic::div_mod::lemma_fundamental_div_mod_converse(t, w, row, col);
        }
    }
    pixels
}

} // verus!


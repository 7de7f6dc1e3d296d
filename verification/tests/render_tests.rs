use raytrace::camera::Camera;
use raytrace::color::{color_to_rgb, write_color};
use raytrace::fixed::{FP_HALF, FP_MAX, FP_ONE};
use raytrace::hits::{HitRecord, Hittable, HittableList};
use raytrace::material::{Lambertian, Material, Metal};
use raytrace::objects::Sphere;
use raytrace::ray::Ray;
use raytrace::render::{ray_color, render};
use raytrace::rng::{rand_frac, random_in_unit_sphere};
use raytrace::vec3::Vec3;

fn gray() -> Vec3 {
    Vec3::new(FP_HALF, FP_HALF, FP_HALF)
}

fn lambertian_gray() -> Material {
    Material::Lambertian(Lambertian::new(gray()))
}

#[test]
fn reflect_flips_normal_component_only() {
    // Incoming (1, -1, 0) against the unit normal (0, 1, 0).
    let v = Vec3::new(FP_ONE, -FP_ONE, 0);
    let n = Vec3::new(0, FP_ONE, 0);
    assert!(v.dot(n) < 0);
    let r = v.reflect(n);
    assert_eq!(r, Vec3::new(FP_ONE, FP_ONE, 0));
    // The normal component's dot product flips sign exactly.
    assert_eq!(r.dot(n), -v.dot(n));
    // The components orthogonal to the normal are untouched.
    assert_eq!(r.x, v.x);
    assert_eq!(r.z, v.z);
}

#[test]
fn sphere_hit_straight_ahead() {
    // Sphere at (0, 0, -1) with radius one half, ray from the origin along -z.
    let sphere = Sphere::new(Vec3::new(0, 0, -FP_ONE), FP_HALF, lambertian_gray());
    let ray = Ray::new(Vec3::new(0, 0, 0), Vec3::new(0, 0, -FP_ONE));
    let rec = sphere.hit(&ray, 0, FP_MAX).expect("the ray points straight at the sphere");
    assert_eq!(rec.t, FP_HALF);
    assert_eq!(rec.p, Vec3::new(0, 0, -FP_HALF));
    assert_eq!(rec.normal, Vec3::new(0, 0, FP_ONE));
    assert!(rec.front_face);
}

#[test]
fn list_hit_reports_nearest_regardless_of_order() {
    let near = Sphere::new(Vec3::new(0, 0, -FP_ONE), FP_HALF, lambertian_gray());
    let far = Sphere::new(Vec3::new(0, 0, -3 * FP_ONE), FP_HALF, lambertian_gray());
    let ray = Ray::new(Vec3::new(0, 0, 0), Vec3::new(0, 0, -FP_ONE));

    // Each sphere alone is hit at a distinct parameter.
    assert_eq!(near.hit(&ray, 0, FP_MAX).unwrap().t, FP_HALF);
    assert_eq!(far.hit(&ray, 0, FP_MAX).unwrap().t, 5 * FP_HALF);

    let mut world_a = HittableList::new();
    world_a.add(near);
    world_a.add(far);
    let mut world_b = HittableList::new();
    world_b.add(far);
    world_b.add(near);

    let rec_a = world_a.hit(&ray, 0, FP_MAX).expect("both members lie on the ray");
    let rec_b = world_b.hit(&ray, 0, FP_MAX).expect("both members lie on the ray");
    assert_eq!(rec_a.t, FP_HALF);
    assert_eq!(rec_b.t, FP_HALF);
    assert_eq!(rec_a, rec_b);
}

#[test]
fn lambertian_degenerate_direction_falls_back_to_normal() {
    let normal = Vec3::new(0, 0, FP_ONE);
    let hit = HitRecord {
        p: Vec3::new(0, 0, 0),
        normal,
        material: lambertian_gray(),
        t: FP_ONE,
        front_face: true,
    };
    let material = Lambertian::new(gray());
    // A stubbed random unit vector exactly opposite the normal cancels it.
    let (attenuation, scattered) = material
        .scatter(&hit, normal.neg())
        .expect("a diffuse surface never absorbs");
    assert_eq!(attenuation, gray());
    assert_eq!(scattered.direction, normal);
    assert_ne!(scattered.direction, Vec3::new(0, 0, 0));
}

#[test]
fn metal_fuzz_is_clamped_from_above_at_construction() {
    let two = 2 * FP_ONE;
    assert_eq!(Metal::new(gray(), two).fuzz, FP_ONE);
    assert_eq!(Metal::new(gray(), 19661).fuzz, 19661);
    // No clamp from below: a negative roughness passes through as given.
    assert_eq!(Metal::new(gray(), -FP_ONE).fuzz, -FP_ONE);
}

#[test]
fn depth_zero_is_black_even_with_a_hit_in_view() {
    let mut world = HittableList::new();
    world.add(Sphere::new(Vec3::new(0, 0, -FP_ONE), FP_HALF, lambertian_gray()));
    let ray = Ray::new(Vec3::new(0, 0, 0), Vec3::new(0, 0, -FP_ONE));
    assert_eq!(ray_color(&ray, &world, 0), Vec3::new(0, 0, 0));

    let empty = HittableList::new();
    assert_eq!(ray_color(&ray, &empty, 0), Vec3::new(0, 0, 0));
}

#[test]
fn background_gradient_top_and_bottom() {
    let empty = HittableList::new();
    // Straight up: the gradient parameter is one, giving pure sky blue.
    let up = Ray::new(Vec3::new(0, 0, 0), Vec3::new(0, FP_ONE, 0));
    assert_eq!(ray_color(&up, &empty, 1), Vec3::new(FP_HALF, 45875, FP_ONE));
    // Straight down: the gradient parameter is zero, giving pure white.
    let down = Ray::new(Vec3::new(0, 0, 0), Vec3::new(0, -FP_ONE, 0));
    assert_eq!(ray_color(&down, &empty, 1), Vec3::new(FP_ONE, FP_ONE, FP_ONE));
}

#[test]
fn color_mapping_full_bright_sum() {
    // Four samples summing to four: the average of one gamma-corrects to
    // one, is clamped just below one, and quantizes to 255.
    let sum = Vec3::new(4 * FP_ONE, 4 * FP_ONE, 4 * FP_ONE);
    assert_eq!(color_to_rgb(sum, 4), [255, 255, 255]);
}

#[test]
fn color_mapping_black_sum() {
    assert_eq!(color_to_rgb(Vec3::new(0, 0, 0), 7), [0, 0, 0]);
    assert_eq!(color_to_rgb(Vec3::new(0, 0, 0), 1), [0, 0, 0]);
}

#[test]
fn write_color_formats_one_line() {
    let mut out: Vec<u8> = Vec::new();
    let sum = Vec3::new(4 * FP_ONE, 4 * FP_ONE, 4 * FP_ONE);
    write_color(&mut out, sum, 4).expect("writing into a vector cannot fail");
    assert_eq!(out, b"255 255 255\n");
}

#[test]
fn end_to_end_two_by_two_render() {
    // One Lambertian sphere so large that every camera ray starts inside
    // it: with a single sample and a single bounce, every path hits, the
    // bounce budget runs out, and each pixel is exactly black — a
    // deterministic 2x2 grid whatever the jitter and scatter draws.
    let mut world = HittableList::new();
    world.add(Sphere::new(Vec3::new(0, 0, -FP_ONE), 4 * FP_ONE, lambertian_gray()));
    let camera = Camera::new(
        Vec3::new(0, 0, 0),
        Vec3::new(0, 0, -FP_ONE),
        Vec3::new(0, FP_ONE, 0),
        FP_ONE,
        FP_ONE,
    );
    let pixels = render(&world, &camera, 2, 2, 1, 1);
    assert_eq!(pixels.len(), 4);
    for rgb in pixels {
        assert_eq!(rgb, [0, 0, 0]);
    }
}

#[test]
fn unit_ball_samples_are_usable_directions() {
    for _ in 0..200 {
        let p = random_in_unit_sphere();
        let lsq = p.length_squared();
        assert!(lsq >= 1);
        assert!(lsq < FP_ONE);
    }
}

#[test]
fn random_fractions_vary_and_stay_in_range() {
    let draws: Vec<i64> = (0..32).map(|_| rand_frac()).collect();
    for &d in &draws {
        assert!((0..FP_ONE).contains(&d));
    }
    assert!(
        draws.iter().any(|&d| d != draws[0]),
        "thirty-two identical draws point at a broken generator"
    );
}

#[test]
fn clearing_the_world_removes_every_member() {
    let mut world = HittableList::new();
    world.add(Sphere::new(Vec3::new(0, 0, -FP_ONE), FP_HALF, lambertian_gray()));
    let ray = Ray::new(Vec3::new(0, 0, 0), Vec3::new(0, 0, -FP_ONE));
    assert!(world.hit(&ray, 0, FP_MAX).is_some());
    world.clear();
    assert!(world.hit(&ray, 0, FP_MAX).is_none());
}

#[test]
fn camera_center_ray_points_at_the_look_target() {
    // Eye at the origin looking down -z, a square viewport two units tall
    // (tangent of the half field of view is one).
    let camera = Camera::new(
        Vec3::new(0, 0, 0),
        Vec3::new(0, 0, -FP_ONE),
        Vec3::new(0, FP_ONE, 0),
        FP_ONE,
        FP_ONE,
    );
    assert_eq!(camera.origin, Vec3::new(0, 0, 0));
    assert_eq!(camera.horizontal, Vec3::new(2 * FP_ONE, 0, 0));
    assert_eq!(camera.vertical, Vec3::new(0, 2 * FP_ONE, 0));
    assert_eq!(camera.lower_left_corner, Vec3::new(-FP_ONE, -FP_ONE, -FP_ONE));
    // Through the middle of the viewport the ray runs straight at the target.
    let ray = camera.get_ray(FP_HALF, FP_HALF);
    assert_eq!(ray.origin, Vec3::new(0, 0, 0));
    assert_eq!(ray.direction, Vec3::new(0, 0, -FP_ONE));
}

#[test]
fn metal_scatter_mirrors_and_absorbs() {
    let normal = Vec3::new(0, FP_ONE, 0);
    let hit = HitRecord {
        p: Vec3::new(0, 0, 0),
        normal,
        material: lambertian_gray(),
        t: FP_ONE,
        front_face: true,
    };
    let incoming = Ray::new(Vec3::new(-FP_ONE, FP_ONE, 0), Vec3::new(FP_ONE, -FP_ONE, 0));

    // With zero roughness the perturbation vanishes and the scattered ray is
    // the exact mirror image of the incoming unit direction.
    let smooth = Metal::new(gray(), 0);
    let sample = Vec3::new(16384, 0, 0);
    let (attenuation, scattered) = smooth
        .scatter(&incoming, &hit, sample)
        .expect("the mirror direction leaves the surface");
    assert_eq!(attenuation, gray());
    assert_eq!(scattered.origin, hit.p);
    assert_eq!(scattered.direction, Vec3::new(46341, 46341, 0));

    // Head-on incidence is free of rounding: the mirrored direction's dot
    // product with the normal flips in sign exactly.
    let head_on = Ray::new(Vec3::new(0, FP_ONE, 0), Vec3::new(0, -FP_ONE, 0));
    let (_, mirrored) = smooth
        .scatter(&head_on, &hit, sample)
        .expect("the mirror direction leaves the surface");
    assert_eq!(mirrored.direction, Vec3::new(0, FP_ONE, 0));
    assert_eq!(
        mirrored.direction.dot(normal),
        -head_on.direction.unit_vector().dot(normal)
    );

    // A rough surface whose perturbation pushes the direction below the
    // surface absorbs the ray.
    let rough = Metal::new(gray(), FP_ONE);
    let downward_sample = Vec3::new(0, -49152, 0);
    assert!(rough.scatter(&incoming, &hit, downward_sample).is_none());
}

#[test]
fn random_unit_vectors_are_nonzero_and_bounded() {
    for _ in 0..100 {
        let u = raytrace::rng::random_unit_vector();
        // Normalizing a usable ball sample never yields the zero vector,
        // and no component strays far beyond one despite rounding.
        assert_ne!(u, Vec3::new(0, 0, 0));
        for c in [u.x, u.y, u.z] {
            assert!(c.abs() <= 2 * FP_ONE);
        }
    }
}

#[test]
fn ray_evaluation_walks_along_the_direction() {
    let ray = Ray::new(Vec3::new(0, 0, 0), Vec3::new(0, 0, -FP_ONE));
    assert_eq!(ray.at(FP_HALF), Vec3::new(0, 0, -FP_HALF));
    assert_eq!(ray.at(0), Vec3::new(0, 0, 0));
    assert_eq!(ray.at(-FP_ONE), Vec3::new(0, 0, FP_ONE));
}

#[test]
fn vector_arithmetic_saturates_at_the_edge_of_the_range() {
    let big = Vec3::new(i64::MAX, 0, i64::MIN + 1);
    let sum = big.add(big);
    assert_eq!(sum.x, i64::MAX);
    assert_eq!(sum.z, -i64::MAX);
    assert_eq!(big.neg(), Vec3::new(-i64::MAX, 0, i64::MAX));
}

#[test]
fn empty_scene_pixels_are_fully_blue() {
    // With nothing to hit, every jittered sample is the background
    // gradient, whose blue channel is always one; averaging and gamma
    // correction keep it there, so the blue byte is 255 whatever the
    // jitter and wherever the pixel sits.
    let world = HittableList::new();
    let camera = Camera::new(
        Vec3::new(0, 0, 0),
        Vec3::new(0, 0, -FP_ONE),
        Vec3::new(0, FP_ONE, 0),
        FP_ONE,
        FP_ONE,
    );
    for (i, j) in [(0, 0), (1, 0), (0, 1), (2, 2)] {
        let rgb = raytrace::render::render_pixel(&world, &camera, i, j, 3, 3, 5, 8);
        assert_eq!(rgb[2], 255);
    }
}

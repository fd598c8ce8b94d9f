//! Integrator and renderer tests: the bounce-budget base case, the
//! background gradient for empty scenes, camera geometry derivation, the
//! P3 byte stream, and a deterministic end-to-end render.

use ray_tracer::camera::{background_gradient, get_pixel_color, ray_color, Camera};
use ray_tracer::entropy::Entropy;
use ray_tracer::fixed::{HALF, SCALE};
use ray_tracer::hit::HittableList;
use ray_tracer::material::{Lambertian, MaterialKind};
use ray_tracer::ppm::ppm_bytes;
use ray_tracer::ray::Ray;
use ray_tracer::scene::SceneContext;
use ray_tracer::sphere::Sphere;
use ray_tracer::vec3::Vec3;
use ray_tracer::{generate_world, lerp_color, random_range_scalar, random_scalar};

fn v(x: i64, y: i64, z: i64) -> Vec3 {
    Vec3 { x, y, z }
}

#[test]
fn entropy_fixed_repeats_its_value() {
    let e = Entropy::Fixed(5);
    assert_eq!(e.next_unit(), 5);
    assert_eq!(e.next_unit(), 5);
    let s = Entropy::System;
    for _ in 0..32 {
        let u = s.next_unit();
        assert!((0..SCALE).contains(&u));
    }
}

#[test]
fn random_scalars_stay_in_range() {
    let e = Entropy::System;
    for _ in 0..32 {
        let u = random_scalar(&e);
        assert!((0..SCALE).contains(&u));
        let r = random_range_scalar(&e, -SCALE, SCALE);
        assert!((-SCALE..SCALE).contains(&r));
    }
}

#[test]
fn ray_color_with_zero_depth_is_black() {
    let world = generate_world();
    let r = Ray::new(v(0, 0, 0), v(0, 0, -SCALE));
    let c = ray_color(&r, &world, 0, &Entropy::System);
    assert_eq!((c.x, c.y, c.z), (0, 0, 0));
}

#[test]
fn empty_scene_yields_the_background_gradient() {
    let world = HittableList::new();
    let r = Ray::new(v(0, 0, 0), v(0, 0, -SCALE));
    let c = ray_color(&r, &world, 8, &Entropy::System);
    let bg = background_gradient(&r);
    assert_eq!((c.x, c.y, c.z), (bg.x, bg.y, bg.z));
    // horizontal direction blends exactly halfway
    assert_eq!((bg.x, bg.y, bg.z), (SCALE, 49152, 55705));
}

#[test]
fn lerp_color_matches_background_for_the_reference_tones() {
    let r = Ray::new(v(0, 0, 0), v(0, 0, -SCALE));
    let c = lerp_color(&v(SCALE, SCALE, SCALE), &v(SCALE, HALF, 45875), &r);
    let bg = background_gradient(&r);
    assert_eq!((c.x, c.y, c.z), (bg.x, bg.y, bg.z));
}

#[test]
fn empty_scene_pixels_are_sample_count_independent() {
    // with a fixed entropy source, a surface-free render is exactly the
    // gradient of the pixel's ray, whether one sample is taken or many
    let world = HittableList::new();
    let e = Entropy::Fixed(0);
    let mut one = Camera::default();
    one.samples_per_pixel = 1;
    one.initialize();
    let mut many = one;
    many.samples_per_pixel = 7;
    let a = get_pixel_color(&one, 3, 2, &world, &e);
    let b = get_pixel_color(&many, 3, 2, &world, &e);
    assert_eq!((a.x, a.y, a.z), (b.x, b.y, b.z));
    let bg = background_gradient(&one.get_ray(&e, 3, 2));
    assert_eq!((a.x, a.y, a.z), (bg.x, bg.y, bg.z));
}

#[test]
fn camera_height_follows_the_aspect_ratio() {
    // width 400 at 16:9 gives exactly 225 rows
    let mut cam = Camera::default();
    cam.image_width = 400;
    cam.aspect_ratio = 116508;  // 16/9 in raw units
    cam.initialize();
    assert_eq!(cam.image_height, 225);
}

#[test]
fn zero_width_is_clamped_to_one_pixel() {
    let mut cam = Camera::default();
    cam.image_width = 0;
    cam.initialize();
    assert_eq!(cam.image_width, 1);
    assert!(cam.image_height >= 1);
    let ctx = SceneContext::new(0, Vec3 { x: 0, y: 0, z: 0 });
    assert_eq!(ctx.width, 1);
    assert_eq!(ctx.height, 1);
}

#[test]
fn camera_height_is_at_least_one() {
    let mut cam = Camera::default();
    cam.image_width = 1;
    cam.aspect_ratio = 100 * SCALE;
    cam.initialize();
    assert_eq!(cam.image_height, 1);
}

#[test]
fn default_camera_reference_values() {
    let cam = Camera::default();
    assert_eq!(cam.image_width, 100);
    assert_eq!(cam.samples_per_pixel, 10);
    assert_eq!(cam.max_ray_bounce_depth, 10);
    assert_eq!(cam.vfov, 90);
    assert_eq!(cam.aspect_ratio, 156558);  // 43/18 in raw units
    assert_eq!(cam.focus_dist, 10 * SCALE);
    assert_eq!(cam.defocus_angle, 0);
}

#[test]
fn pinhole_rays_start_at_the_camera_center() {
    let mut cam = Camera::default();
    cam.initialize();
    let r = cam.get_ray(&Entropy::System, 0, 0);
    assert_eq!(
        (r.origin.x, r.origin.y, r.origin.z),
        (cam.center.x, cam.center.y, cam.center.z),
    );
}

#[test]
fn scene_context_matches_the_camera_height_rule() {
    let ctx = SceneContext::new(400, v(0, 0, 0));
    assert_eq!(ctx.height, 225);
    assert_eq!(ctx.width, 400);
    let tiny = SceneContext::new(1, v(0, 0, 0));
    assert_eq!(tiny.height, 1);
}

#[test]
fn ppm_stream_is_exact() {
    let pixels = vec![(0u8, 12u8, 255u8), (1u8, 2u8, 3u8)];
    let bytes = ppm_bytes(2, 1, &pixels);
    assert_eq!(bytes, b"P3\n2 1\n255\n0 12 255\n1 2 3\n".to_vec());
}

#[test]
fn generated_world_has_the_feature_spheres() {
    let w = generate_world();
    assert!(w.objects.len() >= 4);
    // the ground sphere comes first, the three feature spheres last
    assert_eq!(w.objects[0].radius, 1000 * SCALE);
    let n = w.objects.len();
    assert_eq!(w.objects[n - 3].radius, SCALE);
    assert_eq!(w.objects[n - 2].radius, SCALE);
    assert_eq!(w.objects[n - 1].radius, SCALE);
}

#[test]
fn scheduler_order_does_not_change_the_image() {
    // the slot map (x, y) -> y*w + x is a bijection, so filling the
    // framebuffer in any order gives the same image; here column-major
    // stands in for an arbitrary parallel schedule
    let mut cam = Camera::default();
    cam.image_width = 4;
    cam.aspect_ratio = SCALE;
    cam.samples_per_pixel = 2;
    cam.max_ray_bounce_depth = 3;
    cam.look_from = v(0, 0, 0);
    cam.look_at = v(0, 0, -SCALE);
    cam.focus_dist = SCALE;

    let mut world = HittableList::new();
    world.add(Sphere::new(
        v(0, 0, -SCALE),
        HALF,
        MaterialKind::Lambertian(Lambertian::new(v(HALF, HALF, HALF))),
    ));

    let e = Entropy::Fixed(123);
    let bytes = cam.render(&world, &e);

    let (w, h) = (cam.image_width, cam.image_height);
    assert_eq!((w, h), (4, 4));
    let mut slots = vec![(0u8, 0u8, 0u8); (w * h) as usize];
    for x in 0..w {
        for y in 0..h {
            let c = get_pixel_color(&cam, x, y, &world, &e);
            slots[(y * w + x) as usize] = c.get_color_256();
        }
    }
    assert_eq!(bytes, ppm_bytes(w, h, &slots));
}

#[test]
fn deterministic_end_to_end_render() {
    // a 2x2 image from a pinhole camera at the origin looking down -z at a
    // diffuse sphere of radius 1/2 centered at (0,0,-1); one sample per
    // pixel, one bounce, every draw zero
    let mut cam = Camera::default();
    cam.image_width = 2;
    cam.aspect_ratio = SCALE;  // square image: 2x2
    cam.samples_per_pixel = 1;
    cam.max_ray_bounce_depth = 1;
    cam.vfov = 90;
    cam.look_from = v(0, 0, 0);
    cam.look_at = v(0, 0, -SCALE);
    cam.defocus_angle = 0;
    cam.focus_dist = SCALE;

    let mut world = HittableList::new();
    world.add(Sphere::new(
        v(0, 0, -SCALE),
        HALF,
        MaterialKind::Lambertian(Lambertian::new(v(HALF, HALF, HALF))),
    ));

    let e = Entropy::Fixed(0);
    let bytes = cam.render(&world, &e);

    // the header is exact
    assert_eq!(&bytes[..11], &b"P3\n2 2\n255\n"[..]);

    // the same pixels recomputed directly: with every draw zero the sample
    // point is each pixel's upper-left corner, so the corner ray of pixel
    // (1,1) runs straight down the axis into the sphere; its path scatters
    // once and exhausts the bounce budget, reporting black, while the
    // other pixels see the background gradient of their own rays
    let mut expected: Vec<(u8, u8, u8)> = Vec::new();
    for y in 0..2u32 {
        for x in 0..2u32 {
            expected.push(get_pixel_color(&cam, x, y, &world, &e).get_color_256());
        }
    }
    assert_eq!(bytes, ppm_bytes(2, 2, &expected));

    assert_eq!(expected[3], (0, 0, 0));
    for (x, y, k) in [(0u32, 0u32, 0usize), (1, 0, 1), (0, 1, 2)] {
        let bg = background_gradient(&cam.get_ray(&e, x, y)).get_color_256();
        assert_eq!(expected[k], bg, "pixel ({x},{y}) must be pure background");
    }
}

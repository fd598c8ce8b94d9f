//! Vector algebra and ray-sphere intersection tests, including the
//! smallest-root-in-range rule, normal orientation, and the closest-hit
//! scan of the scene list.

use ray_tracer::entropy::Entropy;
use ray_tracer::fixed::{HALF, SCALE};
use ray_tracer::hit::{HitRecord, Hittable, HittableList};
use ray_tracer::material::{Lambertian, MaterialKind};
use ray_tracer::ray::Ray;
use ray_tracer::sphere::Sphere;
use ray_tracer::vec3::Vec3;
use ray_tracer::INFINITY;

fn v(x: i64, y: i64, z: i64) -> Vec3 {
    Vec3 { x, y, z }
}

fn gray() -> MaterialKind {
    MaterialKind::Lambertian(Lambertian::new(v(HALF, HALF, HALF)))
}

#[test]
fn dot_and_cross_exact() {
    let a = v(SCALE, 2 * SCALE, 3 * SCALE);
    let b = v(4 * SCALE, -SCALE, 2 * SCALE);
    assert_eq!(Vec3::dot(&a, &b), 8 * SCALE);
    let c = a.cross(&b);
    assert_eq!((c.x, c.y, c.z), (7 * SCALE, 10 * SCALE, -9 * SCALE));
}

#[test]
fn unit_vector_of_three_four_zero() {
    let u = v(3 * SCALE, 4 * SCALE, 0).unit_vector();
    assert_eq!((u.x, u.y, u.z), (39321, 52428, 0));
    // length squared is one up to rounding
    assert!((u.length_squared() - SCALE).abs() < 8);
}

#[test]
fn reflect_head_on() {
    let d = v(0, 0, -SCALE);
    let n = v(0, 0, SCALE);
    let r = d.reflect(&n);
    assert_eq!((r.x, r.y, r.z), (0, 0, SCALE));
}

#[test]
fn near_zero_means_unresolvable() {
    assert!(v(0, 0, 0).near_zero());
    assert!(!v(1, 0, 0).near_zero());
}

#[test]
fn gamma_and_quantization() {
    assert_eq!(Vec3::linear_to_gamma(16384), HALF);
    assert_eq!(Vec3::linear_to_gamma(-5), 0);
    let c = v(SCALE, 0, 16384);
    assert_eq!(c.get_color_256(), (255, 0, 128));
}

#[test]
fn ray_at_walks_the_line() {
    let r = Ray::new(v(SCALE, 0, 0), v(0, 0, -SCALE));
    let p = r.at(2 * SCALE);
    assert_eq!((p.x, p.y, p.z), (SCALE, 0, -2 * SCALE));
}

#[test]
fn sphere_hit_reports_smallest_root_in_range() {
    let s = Sphere::new(v(0, 0, -2 * SCALE), HALF, gray());
    let r = Ray::new(v(0, 0, 0), v(0, 0, -SCALE));
    let rec = s.hit(&r, 66, INFINITY).expect("head-on ray must hit");
    // the smaller root (h - sqrt(disc)) / a, exactly 1.5 in scalar units
    assert_eq!(rec.t, 98304);
    assert_eq!((rec.point.x, rec.point.y, rec.point.z), (0, 0, -98304));
    assert!(rec.front_face);
    assert_eq!((rec.normal.x, rec.normal.y, rec.normal.z), (0, 0, SCALE));
    // the normal is unit length and faces against the ray
    assert_eq!(rec.normal.length_squared(), SCALE);
    assert!(Vec3::dot(&r.direction, &rec.normal) <= 0);
}

#[test]
fn sphere_behind_ray_misses() {
    let s = Sphere::new(v(0, 0, -2 * SCALE), HALF, gray());
    let away = Ray::new(v(0, 0, 0), v(0, 0, SCALE));
    assert!(s.hit(&away, 66, INFINITY).is_none());
}

#[test]
fn sphere_off_axis_misses() {
    let s = Sphere::new(v(10 * SCALE, 0, 0), HALF, gray());
    let r = Ray::new(v(0, 0, 0), v(0, 0, -SCALE));
    assert!(s.hit(&r, 66, INFINITY).is_none());
}

#[test]
fn degenerate_sphere_never_hits() {
    let s = Sphere::new(v(0, 0, -2 * SCALE), -5 * SCALE, gray());
    assert_eq!(s.radius, 0);
    let r = Ray::new(v(0, 0, 0), v(0, 0, -SCALE));
    assert!(s.hit(&r, 66, INFINITY).is_none());
}

#[test]
fn hit_inside_sphere_flips_normal() {
    // ray starts at the center: the hit comes from inside
    let s = Sphere::new(v(0, 0, 0), SCALE, gray());
    let r = Ray::new(v(0, 0, 0), v(0, 0, -SCALE));
    let rec = s.hit(&r, 66, INFINITY).expect("must hit the shell");
    assert!(!rec.front_face);
    assert!(Vec3::dot(&r.direction, &rec.normal) <= 0);
}

#[test]
fn set_face_normal_orients_against_ray() {
    let r = Ray::new(v(0, 0, 0), v(0, 0, -SCALE));
    let outward = v(0, 0, -SCALE);  // same way as the ray: must flip
    let rec = HitRecord::new(v(0, 0, -SCALE), outward, SCALE, &r, gray());
    assert!(!rec.front_face);
    assert_eq!((rec.normal.x, rec.normal.y, rec.normal.z), (0, 0, SCALE));
}

#[test]
fn list_scan_returns_closest_whatever_the_order() {
    let near = Sphere::new(v(0, 0, -2 * SCALE), HALF, gray());
    let far = Sphere::new(v(0, 0, -4 * SCALE), HALF, gray());
    let r = Ray::new(v(0, 0, 0), v(0, 0, -SCALE));

    let mut a = HittableList::new();
    a.add(near);
    a.add(far);
    let rec_a = a.hit(&r, 66, INFINITY).expect("must hit the near sphere");

    let mut b = HittableList::new();
    b.add(far);
    b.add(near);
    let rec_b = b.hit(&r, 66, INFINITY).expect("must hit the near sphere");

    assert_eq!(rec_a.t, 98304);
    assert_eq!(rec_b.t, 98304);
}

#[test]
fn empty_list_never_hits() {
    let w = HittableList::new();
    let r = Ray::new(v(0, 0, 0), v(0, 0, -SCALE));
    assert!(w.hit(&r, 66, INFINITY).is_none());
}

#[test]
fn clear_empties_the_scene() {
    let mut w = HittableList::new();
    w.add(Sphere::new(v(0, 0, -2 * SCALE), HALF, gray()));
    assert_eq!(w.objects.len(), 1);
    w.clear();
    assert_eq!(w.objects.len(), 0);
}

#[test]
fn random_unit_vec_has_unit_length() {
    let e = Entropy::System;
    for _ in 0..32 {
        let u = Vec3::random_unit_vec(&e);
        assert!((u.length_squared() - SCALE).abs() < 4096);
    }
}

#[test]
fn hemisphere_draw_never_points_into_surface() {
    let e = Entropy::System;
    let n = v(0, 0, SCALE);
    for _ in 0..32 {
        let u = Vec3::random_unit_vec_on_hemisphere(&e, &n);
        assert!(Vec3::dot(&u, &n) >= 0);
    }
}

#[test]
fn unit_disk_draw_stays_inside() {
    let e = Entropy::System;
    for _ in 0..32 {
        let p = Vec3::random_in_unit_disk(&e);
        assert!(p.length_squared() < SCALE);
        assert_eq!(p.z, 0);
    }
}

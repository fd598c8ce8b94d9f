//! Scattering behavior: the diffuse material never absorbs, the metal
//! absorbs exactly when the fuzzed reflection points into the surface, and
//! glass never absorbs and never colors the light.

use ray_tracer::entropy::Entropy;
use ray_tracer::fixed::{HALF, SCALE};
use ray_tracer::hit::HitRecord;
use ray_tracer::material::{Dielectric, Lambertian, Material, MaterialKind, Metal};
use ray_tracer::ray::Ray;
use ray_tracer::vec3::Vec3;

fn v(x: i64, y: i64, z: i64) -> Vec3 {
    Vec3 { x, y, z }
}

/// A head-on hit of a surface at the origin facing +z.
fn head_on_hit(material: MaterialKind) -> (Ray, HitRecord) {
    let r = Ray::new(v(0, 0, SCALE), v(0, 0, -SCALE));
    let rec = HitRecord::new(v(0, 0, 0), v(0, 0, SCALE), SCALE, &r, material);
    (r, rec)
}

#[test]
fn metal_clamps_fuzz_at_construction() {
    let m = Metal::new(v(HALF, HALF, HALF), 3 * SCALE);
    assert_eq!(m.fuzz, SCALE);
    let m2 = Metal::new(v(HALF, HALF, HALF), 1000);
    assert_eq!(m2.fuzz, 1000);
}

#[test]
fn lambertian_never_absorbs() {
    let albedo = v(HALF, 16384, SCALE);
    let mat = MaterialKind::Lambertian(Lambertian::new(albedo));
    let (r, rec) = head_on_hit(mat);
    let lam = Lambertian::new(albedo);
    for _ in 0..16 {
        let out = lam.scatter(&Entropy::System, &r, &rec);
        let (scattered, att) = out.expect("diffuse scatter is never absorbed");
        assert_eq!((att.x, att.y, att.z), (HALF, 16384, SCALE));
        assert_eq!(
            (scattered.origin.x, scattered.origin.y, scattered.origin.z),
            (0, 0, 0),
        );
    }
}

#[test]
fn lambertian_fixed_draw_degenerates_to_fallback_axis() {
    // with every draw zero the cube candidate (-1,-1,-1) is rejected, so
    // the unit draw is the fallback axis (1, 0, 0)
    let albedo = v(HALF, HALF, HALF);
    let mat = MaterialKind::Lambertian(Lambertian::new(albedo));
    let (r, rec) = head_on_hit(mat);
    let lam = Lambertian::new(albedo);
    let out = lam.scatter(&Entropy::Fixed(0), &r, &rec).unwrap();
    assert_eq!(
        (out.0.direction.x, out.0.direction.y, out.0.direction.z),
        (SCALE, 0, SCALE),
    );
}

#[test]
fn metal_reflects_head_on() {
    let albedo = v(HALF, HALF, HALF);
    let mat = MaterialKind::Metal(Metal::new(albedo, 0));
    let (r, rec) = head_on_hit(mat);
    let metal = Metal::new(albedo, 0);
    // fuzz 0: the jitter contributes nothing, any entropy gives the mirror
    let out = metal.scatter(&Entropy::System, &r, &rec);
    let (scattered, att) = out.expect("the head-on mirror points out of the surface");
    assert_eq!(
        (scattered.direction.x, scattered.direction.y, scattered.direction.z),
        (0, 0, SCALE),
    );
    assert_eq!((att.x, att.y, att.z), (HALF, HALF, HALF));
}

#[test]
fn metal_absorbs_iff_fuzzed_direction_points_inward() {
    let albedo = v(HALF, HALF, HALF);
    let metal = Metal::new(albedo, SCALE);
    let (r, rec) = head_on_hit(MaterialKind::Metal(metal));
    // jitter that drags the unit reflection (0,0,1) to (0,0,-1): absorbed
    let inward = metal.scatter_with(&r, &rec, &v(0, 0, -2 * SCALE));
    assert!(inward.is_none());
    // jitter that leaves it pointing outward: scattered
    let outward = metal.scatter_with(&r, &rec, &v(0, 0, HALF));
    assert!(outward.is_some());
}

#[test]
fn dielectric_is_colorless_and_never_absorbs() {
    let glass = Dielectric::new(98304);  // index 1.5
    let (r, rec) = head_on_hit(MaterialKind::Dielectric(glass));
    for draw in [0i64, 1000, 30000, 65535] {
        let e = Entropy::Fixed(draw);
        let out = glass.scatter(&e, &r, &rec);
        let (_, att) = out.expect("glass never absorbs");
        assert_eq!((att.x, att.y, att.z), (SCALE, SCALE, SCALE));
    }
    let out = glass.scatter(&Entropy::System, &r, &rec);
    let (_, att) = out.expect("glass never absorbs");
    assert_eq!((att.x, att.y, att.z), (SCALE, SCALE, SCALE));
}

#[test]
fn dielectric_head_on_reflects_or_refracts_along_the_axis() {
    let glass = Dielectric::new(98304);
    let (r, rec) = head_on_hit(MaterialKind::Dielectric(glass));
    // head-on Schlick reflectance is 2621 in raw units: a draw of zero
    // reflects, a large draw refracts straight through
    let (reflected, _) = glass.scatter_with(&r, &rec, 0);
    assert_eq!(
        (reflected.direction.x, reflected.direction.y, reflected.direction.z),
        (0, 0, SCALE),
    );
    let (refracted, _) = glass.scatter_with(&r, &rec, 60000);
    assert_eq!(
        (refracted.direction.x, refracted.direction.y, refracted.direction.z),
        (0, 0, -SCALE),
    );
}

#[test]
fn refract_straight_through() {
    let d = Vec3::refract(&v(0, 0, -SCALE), &v(0, 0, SCALE), 43690);
    assert_eq!((d.x, d.y, d.z), (0, 0, -SCALE));
}

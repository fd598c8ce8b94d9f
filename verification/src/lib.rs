//! A Monte-Carlo ray tracer whose arithmetic is exact fixed-point: every
//! quantity (point, direction, color, ray parameter) is a signed 64-bit
//! integer counting 1/65536 units. All geometry, scattering and rendering
//! logic is verified against that arithmetic model; entropy comes from the
//! `rand` crate behind a trusted wrapper, or from a fixed source for
//! reproducible runs.

pub mod camera;
pub mod entropy;
pub mod fixed;
pub mod hit;
pub mod material;
pub mod ppm;
pub mod ray;
pub mod scene;
pub mod sphere;
pub mod vec3;

use vstd::prelude::*;
use crate::camera::blend_s;
use crate::entropy::Entropy;
use crate::fixed::{
    add_fx, clamp_s, fx_add, fx_mul, fx_sub, fx_wf, lemma_mul_fx_unit_range, mul_fx, FX_MAX,
    HALF, SCALE,
};
use crate::hit::HittableList;
use crate::material::{color_wf, Dielectric, Lambertian, MaterialKind, Metal};
use crate::ray::{ray_wf, Ray};
use crate::sphere::Sphere;
use crate::fixed::sqrt_fx_s;
use crate::vec3::{len_sq_s, rand_range_s, unit_s, v_wf, vsub_s, Color, Vec3};

verus! {

/// The largest representable scalar: the upper end of every unbounded
/// parameter range, standing in for a float infinity.
pub const INFINITY: i64 = FX_MAX;

/// pi, in raw units.
pub const PI: i64 = crate::fixed::PI_FX;

/// One random scalar in [0, 1).
pub fn random_scalar(e: &Entropy) -> (r: i64)
    requires
        e.wf(),
    ensures
        0 <= r < SCALE,
        e.yields(r as int),
{
    e.next_unit()
}

/// One random scalar mapped into [min, max) by `u * (max - min) + min`:
/// for an ordered, well-formed range the result stays inside it.
pub fn random_range_scalar(e: &Entropy, min: i64, max: i64) -> (r: i64)
    requires
        e.wf(),
    ensures
        exists|u: int| e.yields(u) && r == #[trigger] rand_range_s(u, min as int, max as int),
        fx_wf(min as int) && fx_wf(max as int) && min <= max ==> min <= r <= max && (min < max
            ==> r < max),
        e.is_fixed() ==> r == rand_range_s(e.fixed_val(), min as int, max as int),
        fx_wf(r as int),
{
    let u = e.next_unit();
    let r = fx_add(fx_mul(u, fx_sub(max, min)), min);
    proof {
        assert(e.yields(u as int) && r == rand_range_s(u as int, min as int, max as int));
        if fx_wf(min as int) && fx_wf(max as int) && min <= max {
            crate::vec3::lemma_rand_range_bounds(u as int, min as int, max as int);
        }
    }
    r
}

/// The linear blend of two colors driven by a ray\'s direction: the blend
/// factor is the normalized direction\'s vertical component mapped from
/// [-1, 1] to [0, 1] (clamped against rounding; the midpoint for directions
/// too short to normalize).
pub fn lerp_color(start_color: &Color, end_color: &Color, r: &Ray) -> (c: Color)
    requires
        ray_wf(*r),
    ensures
        c@ == ({
            let m = len_sq_s(r.direction@);
            let uy = if m >= 1 {
                unit_s(r.direction@).1
            } else {
                0
            };
            let a = clamp_s(0, mul_fx(add_fx(uy, SCALE as int), HALF as int), SCALE as int);
            (
                blend_s(start_color@.0, end_color@.0, a),
                blend_s(start_color@.1, end_color@.1, a),
                blend_s(start_color@.2, end_color@.2, a),
            )
        }),
        v_wf(c@),
{
    let m = r.direction.length_squared();
    let uy = if m >= 1 {
        r.direction.unit_vector().y()
    } else {
        0
    };
    let a = crate::fixed::clamp(0, fx_mul(fx_add(uy, SCALE), HALF), SCALE);
    Vec3 {
        x: fx_add(fx_mul(start_color.x, fx_sub(SCALE, a)), fx_mul(end_color.x, a)),
        y: fx_add(fx_mul(start_color.y, fx_sub(SCALE, a)), fx_mul(end_color.y, a)),
        z: fx_add(fx_mul(start_color.z, fx_sub(SCALE, a)), fx_mul(end_color.z, a)),
    }
}

/// A random color: three independent draws in [0, 1), componentwise
/// attenuated by three more.
fn random_albedo(e: &Entropy) -> (c: Color)
    requires
        e.wf(),
    ensures
        color_wf(c@),
{
    let a = Vec3::random(e);
    let b = Vec3::random(e);
    proof {
        lemma_mul_fx_unit_range(a@.0, b@.0);
        lemma_mul_fx_unit_range(a@.1, b@.1);
        lemma_mul_fx_unit_range(a@.2, b@.2);
    }
    a.mul(&b)
}

/// A random metal albedo: each channel drawn from [1/2, 1).
fn random_metal_albedo(e: &Entropy) -> (c: Color)
    requires
        e.wf(),
    ensures
        color_wf(c@),
{
    let u1 = e.next_unit();
    let u2 = e.next_unit();
    let u3 = e.next_unit();
    proof {
        lemma_mul_fx_unit_range(u1 as int, HALF as int);
        lemma_mul_fx_unit_range(u2 as int, HALF as int);
        lemma_mul_fx_unit_range(u3 as int, HALF as int);
    }
    Vec3 {
        x: fx_add(fx_mul(u1, HALF), HALF),
        y: fx_add(fx_mul(u2, HALF), HALF),
        z: fx_add(fx_mul(u3, HALF), HALF),
    }
}

/// The large diffuse ground sphere: center (0, -1000, 0), radius 1000,
/// half-gray albedo.
pub open spec fn ground_sphere_s() -> Sphere {
    Sphere {
        center: Vec3 { x: 0, y: -65536000i64, z: 0 },
        radius: 65536000,
        material: MaterialKind::Lambertian(
            Lambertian { albedo: Vec3 { x: 32768, y: 32768, z: 32768 } },
        ),
    }
}

/// The large glass feature sphere: center (0, 1, 0), radius 1, index 1.5.
pub open spec fn feature_glass_s() -> Sphere {
    Sphere {
        center: Vec3 { x: 0, y: 65536, z: 0 },
        radius: 65536,
        material: MaterialKind::Dielectric(Dielectric { refraction_index: 98304 }),
    }
}

/// The large diffuse feature sphere: center (-4, 1, 0), radius 1, albedo
/// (0.4, 0.2, 0.1).
pub open spec fn feature_diffuse_s() -> Sphere {
    Sphere {
        center: Vec3 { x: -262144i64, y: 65536, z: 0 },
        radius: 65536,
        material: MaterialKind::Lambertian(
            Lambertian { albedo: Vec3 { x: 26214, y: 13107, z: 6554 } },
        ),
    }
}

/// The large mirror feature sphere: center (4, 1, 0), radius 1, albedo
/// (0.7, 0.6, 0.5), no fuzz.
pub open spec fn feature_metal_s() -> Sphere {
    Sphere {
        center: Vec3 { x: 262144, y: 65536, z: 0 },
        radius: 65536,
        material: MaterialKind::Metal(
            Metal { albedo: Vec3 { x: 45875, y: 39322, z: 32768 }, fuzz: 0 },
        ),
    }
}

/// What holds of every small randomly placed sphere: well formed, radius
/// 0.2, center height 0.2, and clearance more than 0.9 from the point
/// (4, 0.2, 0) under the metal feature sphere.
pub open spec fn small_sphere_ok(s: Sphere) -> bool {
    &&& s.wf()
    &&& s.radius == 13107
    &&& s.center@.1 == 13107
    &&& sqrt_fx_s(len_sq_s(vsub_s(s.center@, (262144, 13107, 0)))) > 58982
}

/// The reference scene: the ground sphere first, then up to 484 small
/// randomly placed and randomly shaded spheres, and the three feature
/// spheres (glass, diffuse, metal) last.
pub fn generate_world() -> (w: HittableList)
    ensures
        w.wf(),
        4 <= w.objects@.len() <= 488,
        w.objects@[0] == ground_sphere_s(),
        w.objects@[w.objects@.len() - 3] == feature_glass_s(),
        w.objects@[w.objects@.len() - 2] == feature_diffuse_s(),
        w.objects@[w.objects@.len() - 1] == feature_metal_s(),
        forall|i: int|
            1 <= i < w.objects@.len() - 3 ==> small_sphere_ok(#[trigger] w.objects@[i]),
{
    let e = Entropy::System;
    let mut world = HittableList::new();

    let half_gray = Vec3 { x: HALF, y: HALF, z: HALF };
    let ground_material = MaterialKind::Lambertian(Lambertian::new(half_gray));
    world.add(
        Sphere::new(Vec3 { x: 0, y: -1000 * SCALE, z: 0 }, 1000 * SCALE, ground_material),
    );
    proof {
        assert(world.objects@[0] == ground_sphere_s());
    }

    let mut ia: u32 = 0;
    while ia < 22
        invariant
            world.wf(),
            1 <= world.objects@.len() <= 1 + (ia as int) * 22,
            ia <= 22,
            world.objects@[0] == ground_sphere_s(),
            forall|i: int|
                1 <= i < world.objects@.len() ==> small_sphere_ok(
                    #[trigger] world.objects@[i],
                ),
            e.wf(),
        decreases 22 - ia,
    {
        let mut ib: u32 = 0;
        while ib < 22
            invariant
                world.wf(),
                1 <= world.objects@.len() <= 1 + (ia as int) * 22 + (ib as int),
                ia < 22,
                ib <= 22,
                world.objects@[0] == ground_sphere_s(),
                forall|i: int|
                    1 <= i < world.objects@.len() ==> small_sphere_ok(
                        #[trigger] world.objects@[i],
                    ),
                e.wf(),
            decreases 22 - ib,
        {
            let a_fx = (ia as i64 - 11) * SCALE;
            let b_fx = (ib as i64 - 11) * SCALE;
            let choose_mat = e.next_unit();
            let center = Vec3 {
                x: fx_add(a_fx, fx_mul(58982, e.next_unit())),
                y: 13107,  // radius 0.2 above the ground
                z: fx_add(b_fx, fx_mul(58982, e.next_unit())),
            };

            let clearance = center.sub(&Vec3 { x: 4 * SCALE, y: 13107, z: 0 }).length();
            if clearance > 58982 {
                let sphere_material: MaterialKind;
                if choose_mat < 52429 {
                    // diffuse
                    sphere_material = MaterialKind::Lambertian(
                        Lambertian::new(random_albedo(&e)),
                    );
                } else if choose_mat < 62259 {
                    // metal
                    let albedo = random_metal_albedo(&e);
                    let fuzz = fx_mul(e.next_unit(), HALF);
                    sphere_material = MaterialKind::Metal(Metal::new(albedo, fuzz));
                } else {
                    // glass
                    sphere_material = MaterialKind::Dielectric(Dielectric::new(98304));
                }

                world.add(Sphere::new(center, 13107, sphere_material));
            }
            ib = ib + 1;
        }
        ia = ia + 1;
    }
    proof {
        assert(world.objects@.len() <= 485);
    }

    let material1 = MaterialKind::Dielectric(Dielectric::new(98304));
    world.add(Sphere::new(Vec3 { x: 0, y: SCALE, z: 0 }, SCALE, material1));

    let material2 = MaterialKind::Lambertian(
        Lambertian::new(Vec3 { x: 26214, y: 13107, z: 6554 }),
    );
    world.add(Sphere::new(Vec3 { x: -4 * SCALE, y: SCALE, z: 0 }, SCALE, material2));

    let material3 = MaterialKind::Metal(Metal::new(Vec3 { x: 45875, y: 39322, z: 32768 }, 0));
    world.add(Sphere::new(Vec3 { x: 4 * SCALE, y: SCALE, z: 0 }, SCALE, material3));

    world
}

} // verus!

//! The camera: turns a viewpoint configuration into per-pixel sampling
//! geometry, produces camera rays (with optional depth-of-field), and drives
//! the recursive path integrator over the whole pixel grid. Also home of the
//! integrator itself (`ray_color`) and the per-pixel sampling loop.

use vstd::prelude::*;
use crate::entropy::Entropy;
use crate::fixed::{
    add_fx, clamp_s, cos_fx_s, deg_to_rad_s, degrees_to_radians, div_fx, fx_add, fx_div,
    fx_div_int, fx_from_u32, fx_mul, fx_sub, fx_wf, mul_fx, sin_fx_s, sqrt_fx_s, sub_fx,
    tan_fx, tan_fx_s, tdiv, FX_MAX, HALF, SCALE,
};
use crate::hit::{scan_hit_s, Hittable, HittableList};
use crate::material::{
    color_wf, lemma_scatter_ok_fixed, scatter_fixed_s, Lambertian, Material, MaterialKind,
};
use crate::ray::{ray_wf, Ray};
use crate::sphere::{
    sph_a_s, sph_c_s, sph_disc_s, sph_h_s, sph_record_s, sph_root1_s, Sphere,
};
use crate::vec3::{
    disk_fixed_s, len_sq_s, lemma_v3_s_view, ruv_fixed_s, unit_s, v3_s, v_wf, vadd_s,
    vcross_s, vdiv_scalar_s, vmul_s, vneg_s, vscale_s, vsub_s, Color, Vec3,
};

verus! {

/// The lower end of every scene query: a small positive parameter that
/// excludes self-intersections of freshly scattered rays (the shadow-acne
/// guard, about 0.001).
pub const T_MIN_EPS: i64 = 66;

/// The camera's viewpoint configuration and, once `initialize` has run, the
/// sampling geometry derived from it.
#[derive(Clone, Copy, PartialEq, Eq, Structural, Debug)]
pub struct Camera {
    pub aspect_ratio: i64,
    pub image_width: u32,
    pub center: Vec3,
    pub samples_per_pixel: u32,
    pub max_ray_bounce_depth: u32,
    pub vfov: u32,
    pub vup: Vec3,
    pub look_from: Vec3,
    pub look_at: Vec3,
    pub defocus_angle: i64,
    pub focus_dist: i64,
    pub defocus_disk_u: Vec3,
    pub defocus_disk_v: Vec3,
    pub image_height: u32,
    pub px00_loc: Vec3,
    pub pixel_delta_u: Vec3,
    pub pixel_delta_v: Vec3,
    pub u: Vec3,
    pub v: Vec3,
    pub w: Vec3,
}

/// The image width actually used: a zero configuration is clamped to one
/// pixel rather than failing.
pub open spec fn cam_width_s(c: Camera) -> int {
    if c.image_width < 1 {
        1
    } else {
        c.image_width as int
    }
}

/// The image height derived from width and aspect ratio: their truncated
/// ratio, at least one pixel.
pub open spec fn cam_image_height_s(c: Camera) -> int
    recommends
        c.aspect_ratio > 0,
{
    let h = tdiv(cam_width_s(c) * (SCALE as int), c.aspect_ratio as int);
    if h < 1 {
        1
    } else {
        h
    }
}

/// The image width as a scalar.
pub open spec fn cam_wfx_s(c: Camera) -> int {
    cam_width_s(c) * (SCALE as int)
}

/// The derived image height as a scalar.
pub open spec fn cam_hfx_s(c: Camera) -> int {
    cam_image_height_s(c) * (SCALE as int)
}

/// The aspect ratio of the actual integer pixel grid (not the nominal
/// configuration value).
pub open spec fn cam_actual_ar_s(c: Camera) -> int {
    div_fx(cam_wfx_s(c), cam_hfx_s(c))
}

/// Half the viewport height: the tangent of half the vertical field of view.
pub open spec fn cam_hhalf_s(c: Camera) -> int {
    tan_fx_s(div_fx(deg_to_rad_s((c.vfov as int) * (SCALE as int)), 2 * SCALE as int))
}

/// The viewport height at the focus plane.
pub open spec fn cam_viewport_height_s(c: Camera) -> int {
    mul_fx(mul_fx(2 * SCALE as int, cam_hhalf_s(c)), c.focus_dist as int)
}

/// The viewport width, from the height and the actual pixel ratio.
pub open spec fn cam_viewport_width_s(c: Camera) -> int {
    mul_fx(cam_viewport_height_s(c), cam_actual_ar_s(c))
}

/// The camera-backward axis.
pub open spec fn cam_w_s(c: Camera) -> (int, int, int) {
    unit_s(vsub_s(c.look_from@, c.look_at@))
}

/// The camera-right axis.
pub open spec fn cam_u_s(c: Camera) -> (int, int, int) {
    unit_s(vcross_s(c.vup@, cam_w_s(c)))
}

/// The camera-up axis.
pub open spec fn cam_v_s(c: Camera) -> (int, int, int) {
    vcross_s(cam_w_s(c), cam_u_s(c))
}

/// The viewport's horizontal edge vector.
pub open spec fn cam_viewport_u_s(c: Camera) -> (int, int, int) {
    vscale_s(cam_u_s(c), cam_viewport_width_s(c))
}

/// The viewport's vertical edge vector (flipped: image rows grow downward).
pub open spec fn cam_viewport_v_s(c: Camera) -> (int, int, int) {
    vscale_s(vneg_s(cam_v_s(c)), cam_viewport_height_s(c))
}

/// The step from one pixel to the next along a row.
pub open spec fn cam_pixel_delta_u_s(c: Camera) -> (int, int, int) {
    vdiv_scalar_s(cam_viewport_u_s(c), cam_wfx_s(c))
}

/// The step from one row to the next.
pub open spec fn cam_pixel_delta_v_s(c: Camera) -> (int, int, int) {
    vdiv_scalar_s(cam_viewport_v_s(c), cam_hfx_s(c))
}

/// The viewport's upper-left corner.
pub open spec fn cam_upper_left_s(c: Camera) -> (int, int, int) {
    vsub_s(
        vsub_s(
            vsub_s(c.look_from@, vscale_s(cam_w_s(c), c.focus_dist as int)),
            vdiv_scalar_s(cam_viewport_u_s(c), 2 * SCALE as int),
        ),
        vdiv_scalar_s(cam_viewport_v_s(c), 2 * SCALE as int),
    )
}

/// The location of pixel (0, 0): the upper-left corner inset by half a pixel
/// step in each direction.
pub open spec fn cam_px00_s(c: Camera) -> (int, int, int) {
    vadd_s(
        cam_upper_left_s(c),
        vscale_s(vadd_s(cam_pixel_delta_u_s(c), cam_pixel_delta_v_s(c)), HALF as int),
    )
}

/// The defocus disk radius, from the aperture angle and the focus distance.
pub open spec fn cam_defocus_radius_s(c: Camera) -> int {
    mul_fx(
        c.focus_dist as int,
        tan_fx_s(deg_to_rad_s(div_fx(c.defocus_angle as int, 2 * SCALE as int))),
    )
}

/// The defocus disk's horizontal basis vector.
pub open spec fn cam_defocus_disk_u_s(c: Camera) -> (int, int, int) {
    vscale_s(cam_u_s(c), cam_defocus_radius_s(c))
}

/// The defocus disk's vertical basis vector.
pub open spec fn cam_defocus_disk_v_s(c: Camera) -> (int, int, int) {
    vscale_s(cam_v_s(c), cam_defocus_radius_s(c))
}

impl Camera {
    /// The configuration fields are well formed and in the documented
    /// ranges: a positive aspect ratio, at least one pixel of width, at
    /// least one sample per pixel.
    pub open spec fn cfg_wf(&self) -> bool {
        &&& self.aspect_ratio > 0
        &&& fx_wf(self.aspect_ratio as int)
        &&& self.samples_per_pixel >= 1
        &&& fx_wf(self.defocus_angle as int)
        &&& fx_wf(self.focus_dist as int)
        &&& v_wf(self.vup@)
        &&& v_wf(self.look_from@)
        &&& v_wf(self.look_at@)
    }

    /// The geometric preconditions of initialization: the view direction
    /// and the cross product that builds the camera-right axis must be long
    /// enough to normalize, and the derived height must fit its field.
    pub open spec fn cfg_geometry_ok(&self) -> bool {
        &&& len_sq_s(vsub_s(self.look_from@, self.look_at@)) >= 1
        &&& len_sq_s(vcross_s(self.vup@, cam_w_s(*self))) >= 1
        &&& cam_image_height_s(*self) <= u32::MAX
    }

    /// The derived sampling geometry is well formed.
    pub open spec fn derived_wf(&self) -> bool {
        &&& v_wf(self.center@)
        &&& v_wf(self.px00_loc@)
        &&& v_wf(self.pixel_delta_u@)
        &&& v_wf(self.pixel_delta_v@)
        &&& v_wf(self.defocus_disk_u@)
        &&& v_wf(self.defocus_disk_v@)
        &&& self.samples_per_pixel >= 1
    }

    /// `new` holds the configuration of `old` with every derived field
    /// recomputed from it.
    pub open spec fn initialized_from(new: Camera, old: Camera) -> bool {
        &&& new.aspect_ratio == old.aspect_ratio
        &&& new.image_width as int == cam_width_s(old)
        &&& new.samples_per_pixel == old.samples_per_pixel
        &&& new.max_ray_bounce_depth == old.max_ray_bounce_depth
        &&& new.vfov == old.vfov
        &&& new.vup == old.vup
        &&& new.look_from == old.look_from
        &&& new.look_at == old.look_at
        &&& new.defocus_angle == old.defocus_angle
        &&& new.focus_dist == old.focus_dist
        &&& new.center == old.look_from
        &&& new.image_height as int == cam_image_height_s(old)
        &&& new.w@ == cam_w_s(old)
        &&& new.u@ == cam_u_s(old)
        &&& new.v@ == cam_v_s(old)
        &&& new.pixel_delta_u@ == cam_pixel_delta_u_s(old)
        &&& new.pixel_delta_v@ == cam_pixel_delta_v_s(old)
        &&& new.px00_loc@ == cam_px00_s(old)
        &&& new.defocus_disk_u@ == cam_defocus_disk_u_s(old)
        &&& new.defocus_disk_v@ == cam_defocus_disk_v_s(old)
    }

    /// Computes the derived sampling geometry from the configuration. Must
    /// run before any ray is requested; the derived state is treated as
    /// immutable afterwards.
    pub fn initialize(&mut self)
        requires
            old(self).cfg_wf(),
            old(self).cfg_geometry_ok(),
        ensures
            Camera::initialized_from(*final(self), *old(self)),
            final(self).cfg_wf(),
            final(self).derived_wf(),
    {
        self.center = self.look_from;

        // a zero or negative configured size never fails: it is clamped to
        // one pixel before the geometry is derived
        if self.image_width < 1 {
            self.image_width = 1;
        }

        let w_fx = fx_from_u32(self.image_width);
        let mut image_height = fx_div_int(w_fx, self.aspect_ratio);
        if image_height < 1 {
            image_height = 1;
        }
        self.image_height = image_height as u32;
        let h_fx = fx_from_u32(self.image_height);

        let actual_aspect_ratio = fx_div(w_fx, h_fx);

        let theta = degrees_to_radians(fx_from_u32(self.vfov));
        let h = tan_fx(fx_div(theta, 2 * SCALE));
        let viewport_height = fx_mul(fx_mul(2 * SCALE, h), self.focus_dist);
        let viewport_width = fx_mul(viewport_height, actual_aspect_ratio);

        self.w = self.look_from.sub(&self.look_at).unit_vector();
        self.u = self.vup.cross(&self.w).unit_vector();
        self.v = self.w.cross(&self.u);

        let viewport_u = self.u.scale(viewport_width);
        let viewport_v = self.v.neg().scale(viewport_height);

        let pixel_delta_u = viewport_u.div_scalar(w_fx);
        let pixel_delta_v = viewport_v.div_scalar(h_fx);

        let viewport_upper_left = self
            .center
            .sub(&self.w.scale(self.focus_dist))
            .sub(&viewport_u.div_scalar(2 * SCALE))
            .sub(&viewport_v.div_scalar(2 * SCALE));

        let pixel00_loc = viewport_upper_left.add(
            &pixel_delta_u.add(&pixel_delta_v).scale(HALF),
        );

        let defocus_radius = fx_mul(
            self.focus_dist,
            tan_fx(degrees_to_radians(fx_div(self.defocus_angle, 2 * SCALE))),
        );
        self.defocus_disk_u = self.u.scale(defocus_radius);
        self.defocus_disk_v = self.v.scale(defocus_radius);

        self.px00_loc = pixel00_loc;
        self.pixel_delta_u = pixel_delta_u;
        self.pixel_delta_v = pixel_delta_v;
    }
}

/// The ray a fixed entropy source yields for pixel (i, j): its origin and
/// direction triples. All three jitter draws are the fixed value.
pub open spec fn get_ray_fixed_s(c: Camera, i: int, j: int, v: int) -> (
    (int, int, int),
    (int, int, int),
) {
    let off = sub_fx(v, HALF as int);
    let sample = vadd_s(
        vadd_s(c.px00_loc@, vscale_s(c.pixel_delta_u@, add_fx(i * (SCALE as int), off))),
        vscale_s(c.pixel_delta_v@, add_fx(j * (SCALE as int), off)),
    );
    let origin = if c.defocus_angle <= 0 {
        c.center@
    } else {
        let p = disk_fixed_s(v);
        vadd_s(
            vadd_s(c.center@, vscale_s(c.defocus_disk_u@, p.0)),
            vscale_s(c.defocus_disk_v@, p.1),
        )
    };
    (origin, vsub_s(sample, origin))
}

impl Camera {
    /// The vector to a random point in the square [-1/2, 1/2)^2.
    fn sample_square(e: &Entropy) -> (r: Vec3)
        requires
            e.wf(),
        ensures
            v_wf(r@),
            r@.2 == 0,
            e.is_fixed() ==> r@ == (
                sub_fx(e.fixed_val(), HALF as int),
                sub_fx(e.fixed_val(), HALF as int),
                0int,
            ),
    {
        Vec3 { x: fx_sub(e.next_unit(), HALF), y: fx_sub(e.next_unit(), HALF), z: 0 }
    }

    /// A random point on the defocus disk (the lens aperture).
    fn defocus_disk_sample(&self, e: &Entropy) -> (r: Vec3)
        requires
            self.derived_wf(),
            e.wf(),
        ensures
            v_wf(r@),
            e.is_fixed() ==> r@ == ({
                let p = disk_fixed_s(e.fixed_val());
                vadd_s(
                    vadd_s(self.center@, vscale_s(self.defocus_disk_u@, p.0)),
                    vscale_s(self.defocus_disk_v@, p.1),
                )
            }),
    {
        let p = Vec3::random_in_unit_disk(e);
        self.center.add(&self.defocus_disk_u.scale(p.x())).add(&self.defocus_disk_v.scale(p.y()))
    }

    /// One camera ray for pixel column `i`, row `j`: aimed at a jittered
    /// point inside the pixel, from the camera center (pinhole) or from a
    /// random point on the defocus disk.
    pub fn get_ray(&self, e: &Entropy, i: u32, j: u32) -> (r: Ray)
        requires
            self.derived_wf(),
            e.wf(),
        ensures
            ray_wf(r),
            self.defocus_angle <= 0 ==> r.origin == self.center,
            e.is_fixed() ==> r.origin@ == get_ray_fixed_s(
                *self,
                i as int,
                j as int,
                e.fixed_val(),
            ).0 && r.direction@ == get_ray_fixed_s(*self, i as int, j as int, e.fixed_val()).1,
    {
        let offset = Camera::sample_square(e);

        let pixel_sample = self
            .px00_loc
            .add(&self.pixel_delta_u.scale(fx_add(fx_from_u32(i), offset.x())))
            .add(&self.pixel_delta_v.scale(fx_add(fx_from_u32(j), offset.y())));

        let ray_origin = if self.defocus_angle <= 0 {
            self.center
        } else {
            self.defocus_disk_sample(e)
        };

        let ray_dir = pixel_sample.sub(&ray_origin);

        Ray::new(ray_origin, ray_dir)
    }
}

/// One channel of the background blend: `start * (1 - a) + end * a`.
pub open spec fn blend_s(start: int, end: int, a: int) -> int {
    add_fx(mul_fx(start, sub_fx(SCALE as int, a)), mul_fx(end, a))
}

/// The blue channel of the horizon tone (0.7).
pub const BG_HORIZON_B: i64 = 45875;

/// The background gradient for a ray direction: a vertical blend from a
/// white top tone toward a warmer horizon tone, driven by the normalized
/// direction's vertical component mapped from [-1, 1] to [0, 1] (clamped
/// into [0, 1] against rounding, and taken as the midpoint for directions
/// too short to normalize).
pub open spec fn background_s(dir: (int, int, int)) -> (int, int, int) {
    let m = len_sq_s(dir);
    let uy = if m >= 1 {
        unit_s(dir).1
    } else {
        0
    };
    let a0 = mul_fx(add_fx(uy, SCALE as int), HALF as int);
    let a = clamp_s(0, a0, SCALE as int);
    (
        blend_s(SCALE as int, SCALE as int, a),
        blend_s(SCALE as int, HALF as int, a),
        blend_s(SCALE as int, BG_HORIZON_B as int, a),
    )
}

/// One blended channel.
fn blend_channel(start: i64, end: i64, a: i64) -> (r: i64)
    ensures
        r == blend_s(start as int, end as int, a as int),
        fx_wf(r as int),
{
    fx_add(fx_mul(start, fx_sub(SCALE, a)), fx_mul(end, a))
}

/// The fixed vertical gradient a missing ray resolves to.
pub fn background_gradient(r: &Ray) -> (c: Color)
    requires
        ray_wf(*r),
    ensures
        c@ == background_s(r.direction@),
        color_wf(c@),
        v_wf(c@),
{
    let m = r.direction.length_squared();
    let uy = if m >= 1 {
        r.direction.unit_vector().y()
    } else {
        0
    };
    let a0 = fx_mul(fx_add(uy, SCALE), HALF);
    let a = crate::fixed::clamp(0, a0, SCALE);
    proof {
        crate::fixed::lemma_blend_unit_range(SCALE as int, SCALE as int, a as int);
        crate::fixed::lemma_blend_unit_range(SCALE as int, HALF as int, a as int);
        crate::fixed::lemma_blend_unit_range(SCALE as int, BG_HORIZON_B as int, a as int);
    }
    Vec3 {
        x: blend_channel(SCALE, SCALE, a),
        y: blend_channel(SCALE, HALF, a),
        z: blend_channel(SCALE, BG_HORIZON_B, a),
    }
}

/// The color the path integrator computes when every draw returns `v`: a
/// deterministic function of the ray, the scene and the bounce budget.
pub open spec fn ray_color_fixed_s(r: Ray, objs: Seq<Sphere>, depth: nat, v: int) -> (
    int,
    int,
    int,
)
    decreases depth,
{
    if depth == 0 {
        (0, 0, 0)
    } else {
        match scan_hit_s(objs, r, T_MIN_EPS as int, FX_MAX as int) {
            Some(rec) => match scatter_fixed_s(rec.material, r, rec, v) {
                Some(da) => vmul_s(
                    ray_color_fixed_s(
                        Ray { origin: rec.point, direction: v3_s(da.0) },
                        objs,
                        (depth - 1) as nat,
                        v,
                    ),
                    da.1,
                ),
                None => (0, 0, 0),
            },
            None => background_s(r.direction@),
        }
    }
}

/// The recursive path integrator: black once the bounce budget is spent,
/// the background gradient on a miss, and otherwise the scattered ray's
/// color attenuated by the surface material (black when absorbed). The
/// result is always a color in the unit cube.
pub fn ray_color(r: &Ray, world: &HittableList, depth: u32, e: &Entropy) -> (c: Color)
    requires
        world.wf(),
        ray_wf(*r),
        e.wf(),
    ensures
        v_wf(c@),
        color_wf(c@),
        depth == 0 ==> c@ == (0int, 0int, 0int),
        scan_hit_s(world.objects@, *r, T_MIN_EPS as int, FX_MAX as int) is None && depth > 0
            ==> c@ == background_s(r.direction@),
        world.objects@.len() == 0 && depth > 0 ==> c@ == background_s(r.direction@),
        e.is_fixed() ==> c@ == ray_color_fixed_s(
            *r,
            world.objects@,
            depth as nat,
            e.fixed_val(),
        ),
    decreases depth,
{
    if depth == 0 {
        return Vec3 { x: 0, y: 0, z: 0 };
    }

    match world.hit(r, T_MIN_EPS, FX_MAX) {
        Some(rec) => {
            let out = rec.material.scatter(e, r, &rec);
            proof {
                if e.is_fixed() {
                    lemma_scatter_ok_fixed(rec.material, *e, *r, rec, out);
                }
            }
            match out {
                Some((scattered, attenuation)) => {
                    proof {
                        if e.is_fixed() {
                            let da = scatter_fixed_s(
                                rec.material,
                                *r,
                                rec,
                                e.fixed_val(),
                            )->Some_0;
                            lemma_v3_s_view(da.0);
                            assert(scattered.direction == v3_s(da.0));
                            assert(scattered == Ray { origin: rec.point, direction: v3_s(da.0) });
                        }
                    }
                    let col = ray_color(&scattered, world, depth - 1, e);
                    proof {
                        crate::fixed::lemma_mul_fx_unit_range(col@.0, attenuation@.0);
                        crate::fixed::lemma_mul_fx_unit_range(col@.1, attenuation@.1);
                        crate::fixed::lemma_mul_fx_unit_range(col@.2, attenuation@.2);
                    }
                    col.mul(&attenuation)
                },
                None => Vec3 { x: 0, y: 0, z: 0 },
            }
        },
        None => background_gradient(r),
    }
}

/// The camera ray a fixed entropy source yields for pixel (i, j), as a ray
/// value.
pub open spec fn pixel_ray_fixed_s(c: Camera, i: int, j: int, v: int) -> Ray {
    Ray {
        origin: v3_s(get_ray_fixed_s(c, i, j, v).0),
        direction: v3_s(get_ray_fixed_s(c, i, j, v).1),
    }
}

/// The pixel color a fixed entropy source yields: every sample is the same,
/// so the average is one path evaluation.
pub open spec fn pixel_color_fixed_s(
    c: Camera,
    objs: Seq<Sphere>,
    i: int,
    j: int,
    v: int,
) -> (int, int, int) {
    ray_color_fixed_s(pixel_ray_fixed_s(c, i, j, v), objs, c.max_ray_bounce_depth as nat, v)
}

/// Averages `samples_per_pixel` independent path samples for one pixel.
/// With a fixed entropy source every sample is identical, so the pixel is
/// exactly one path evaluation, independent of the sample count; in
/// particular, for a scene with no surfaces it is exactly the background
/// gradient at that pixel's ray.
pub fn get_pixel_color(cam: &Camera, x: u32, y: u32, world: &HittableList, e: &Entropy) -> (c:
    Color)
    requires
        cam.derived_wf(),
        world.wf(),
        e.wf(),
    ensures
        v_wf(c@),
        color_wf(c@),
        e.is_fixed() ==> c@ == pixel_color_fixed_s(
            *cam,
            world.objects@,
            x as int,
            y as int,
            e.fixed_val(),
        ),
        world.objects@.len() == 0 && cam.max_ray_bounce_depth > 0 && e.is_fixed() ==> c@
            == background_s(get_ray_fixed_s(*cam, x as int, y as int, e.fixed_val()).1),
{
    let ghost bg = pixel_color_fixed_s(*cam, world.objects@, x as int, y as int, e.fixed_val());
    let spp = cam.samples_per_pixel;
    let mut pixel_color = Vec3 { x: 0, y: 0, z: 0 };
    let mut s: u32 = 0;
    while s < spp
        invariant
            cam.derived_wf(),
            world.wf(),
            e.wf(),
            0 <= s <= spp,
            v_wf(pixel_color@),
            0 <= pixel_color@.0 <= (s as int) * (SCALE as int),
            0 <= pixel_color@.1 <= (s as int) * (SCALE as int),
            0 <= pixel_color@.2 <= (s as int) * (SCALE as int),
            bg == pixel_color_fixed_s(*cam, world.objects@, x as int, y as int, e.fixed_val()),
            e.is_fixed() ==> pixel_color@ == ((s as int) * bg.0, (s as int) * bg.1, (
            s as int) * bg.2),
        decreases spp - s,
    {
        let r = cam.get_ray(e, x, y);
        let col = ray_color(&r, world, cam.max_ray_bounce_depth, e);
        proof {
            assert(((s as int) + 1) * (SCALE as int) <= 0x100000000 * 65536) by (nonlinear_arith)
                requires
                    0 <= s as int,
                    (s as int) + 1 <= 0x100000000,
            ;
            assert((s as int) * (SCALE as int) + (SCALE as int) == ((s as int) + 1) * (
            SCALE as int)) by (nonlinear_arith);
            if e.is_fixed() {
                let o = get_ray_fixed_s(*cam, x as int, y as int, e.fixed_val()).0;
                let d = get_ray_fixed_s(*cam, x as int, y as int, e.fixed_val()).1;
                lemma_v3_s_view(o);
                lemma_v3_s_view(d);
                assert(r == pixel_ray_fixed_s(*cam, x as int, y as int, e.fixed_val()));
                assert(col@ == bg);
                assert((s as int) * bg.0 + bg.0 == ((s as int) + 1) * bg.0) by (nonlinear_arith);
                assert((s as int) * bg.1 + bg.1 == ((s as int) + 1) * bg.1) by (nonlinear_arith);
                assert((s as int) * bg.2 + bg.2 == ((s as int) + 1) * bg.2) by (nonlinear_arith);
            }
        }
        pixel_color = pixel_color.add(&col);
        s = s + 1;
    }
    let inv = spp as i64;
    let c = Vec3 {
        x: fx_div_int(pixel_color.x, inv),
        y: fx_div_int(pixel_color.y, inv),
        z: fx_div_int(pixel_color.z, inv),
    };
    proof {
        let sc = SCALE as int;
        let k = spp as int;
        vstd::arithmetic::mul::lemma_mul_is_commutative(k, sc);
        vstd::arithmetic::div_mod::lemma_div_by_multiple(sc, k);
        crate::fixed::lemma_tdiv_mono(pixel_color@.0, k * sc, inv as int);
        crate::fixed::lemma_tdiv_mono(pixel_color@.1, k * sc, inv as int);
        crate::fixed::lemma_tdiv_mono(pixel_color@.2, k * sc, inv as int);
        crate::fixed::lemma_tdiv_mono(0, pixel_color@.0, inv as int);
        crate::fixed::lemma_tdiv_mono(0, pixel_color@.1, inv as int);
        crate::fixed::lemma_tdiv_mono(0, pixel_color@.2, inv as int);
        if e.is_fixed() {
            assert(bg.0 >= 0 && bg.1 >= 0 && bg.2 >= 0) by (nonlinear_arith)
                requires
                    k > 0,
                    k * bg.0 >= 0,
                    k * bg.1 >= 0,
                    k * bg.2 >= 0,
            ;
            vstd::arithmetic::mul::lemma_mul_is_commutative(k, bg.0);
            vstd::arithmetic::mul::lemma_mul_is_commutative(k, bg.1);
            vstd::arithmetic::mul::lemma_mul_is_commutative(k, bg.2);
            vstd::arithmetic::div_mod::lemma_div_by_multiple(bg.0, k);
            vstd::arithmetic::div_mod::lemma_div_by_multiple(bg.1, k);
            vstd::arithmetic::div_mod::lemma_div_by_multiple(bg.2, k);
        }
        if world.objects@.len() == 0 && cam.max_ray_bounce_depth > 0 && e.is_fixed() {
            let d = get_ray_fixed_s(*cam, x as int, y as int, e.fixed_val()).1;
            lemma_v3_s_view(d);
        }
    }
    c
}

/// The framebuffer a fixed entropy source yields: slot `k` holds the
/// quantized color of pixel `(k % width, k / width)` and of nothing else,
/// so any scheduler that computes each pixel once produces this exact
/// sequence.
pub open spec fn framebuffer_fixed_s(c: Camera, objs: Seq<Sphere>, v: int) -> Seq<(u8, u8, u8)> {
    Seq::new(
        (cam_image_height_s(c) * (c.image_width as int)) as nat,
        |k: int|
            {
                let px = pixel_color_fixed_s(
                    c,
                    objs,
                    k % (c.image_width as int),
                    k / (c.image_width as int),
                    v,
                );
                (
                    crate::vec3::channel_256_s(px.0) as u8,
                    crate::vec3::channel_256_s(px.1) as u8,
                    crate::vec3::channel_256_s(px.2) as u8,
                )
            },
    )
}

/// Row-major pixel slots never collide: the slot map `(i, j) -> j*w + i` is
/// injective over the pixel grid, so however pixel tasks are scheduled, no
/// two of them write the same framebuffer slot.
pub proof fn lemma_pixel_slot_bijection(
    w: int,
    h: int,
    x1: int,
    y1: int,
    x2: int,
    y2: int,
)
    requires
        0 <= x1 < w,
        0 <= y1 < h,
        0 <= x2 < w,
        0 <= y2 < h,
        y1 * w + x1 == y2 * w + x2,
    ensures
        x1 == x2,
        y1 == y2,
{
    let idx = y1 * w + x1;
    vstd::arithmetic::mul::lemma_mul_is_commutative(y1, w);
    vstd::arithmetic::mul::lemma_mul_is_commutative(y2, w);
    vstd::arithmetic::div_mod::lemma_fundamental_div_mod_converse(idx, w, y1, x1);
    vstd::arithmetic::div_mod::lemma_fundamental_div_mod_converse(idx, w, y2, x2);
}

/// A pixel's slot lies inside the framebuffer.
proof fn lemma_grid_index(x: int, y: int, w: int, h: int)
    requires
        0 <= x < w,
        0 <= y < h,
    ensures
        0 <= y * w + x,
        y * w + x < h * w,
        y * w + x + 1 <= h * w,
{
    assert(y * w + x < h * w) by (nonlinear_arith)
        requires
            0 <= x < w,
            0 <= y < h,
    ;
    assert(y * w + x >= 0) by (nonlinear_arith)
        requires
            0 <= x,
            0 <= y,
            0 < w,
    ;
}

impl Camera {
    /// Renders the scene: derives the sampling geometry, averages the path
    /// samples of every pixel in row-major order, and serializes the
    /// framebuffer as a P3 byte stream for the caller to persist.
    #[verifier::rlimit(60)]
    pub fn render(&mut self, world: &HittableList, e: &Entropy) -> (out: Vec<u8>)
        requires
            old(self).cfg_wf(),
            old(self).cfg_geometry_ok(),
            world.wf(),
            e.wf(),
            cam_image_height_s(*old(self)) * cam_width_s(*old(self)) <= usize::MAX as int,
        ensures
            Camera::initialized_from(*final(self), *old(self)),
            final(self).derived_wf(),
            exists|px: Seq<(u8, u8, u8)>|
                px.len() == cam_image_height_s(*old(self)) * cam_width_s(*old(self)) && out@
                    == #[trigger] crate::ppm::ppm_s(
                    final(self).image_width,
                    final(self).image_height,
                    px,
                ),
            e.is_fixed() ==> out@ == crate::ppm::ppm_s(
                final(self).image_width,
                final(self).image_height,
                framebuffer_fixed_s(*final(self), world.objects@, e.fixed_val()),
            ),
    {
        self.initialize();
        let cam = *self;
        let w = cam.image_width;
        let h = cam.image_height;
        let ghost fb = framebuffer_fixed_s(cam, world.objects@, e.fixed_val());
        proof {
            assert(fb.len() == (h as int) * (w as int));
        }
        let mut pixels: Vec<(u8, u8, u8)> = Vec::new();
        let mut y: u32 = 0;
        while y < h
            invariant
                cam.derived_wf(),
                world.wf(),
                e.wf(),
                0 <= y <= h,
                pixels@.len() == (y as int) * (w as int),
                (h as int) * (w as int) <= usize::MAX as int,
                fb == framebuffer_fixed_s(cam, world.objects@, e.fixed_val()),
                fb.len() == (h as int) * (w as int),
                w == cam.image_width,
                e.is_fixed() ==> pixels@ == fb.take((y as int) * (w as int)),
            decreases h - y,
        {
            let mut x: u32 = 0;
            while x < w
                invariant
                    cam.derived_wf(),
                    world.wf(),
                    e.wf(),
                    0 <= x <= w,
                    y < h,
                    pixels@.len() == (y as int) * (w as int) + (x as int),
                    (h as int) * (w as int) <= usize::MAX as int,
                    fb == framebuffer_fixed_s(cam, world.objects@, e.fixed_val()),
                    fb.len() == (h as int) * (w as int),
                    w == cam.image_width,
                    e.is_fixed() ==> pixels@ == fb.take((y as int) * (w as int) + (x as int)),
                decreases w - x,
            {
                proof {
                    lemma_grid_index(x as int, y as int, w as int, h as int);
                }
                let color = get_pixel_color(&cam, x, y, world, e);
                let q = color.get_color_256();
                pixels.push(q);
                proof {
                    if e.is_fixed() {
                        let idx = (y as int) * (w as int) + (x as int);
                        vstd::arithmetic::mul::lemma_mul_is_commutative(y as int, w as int);
                        vstd::arithmetic::div_mod::lemma_fundamental_div_mod_converse(
                            idx,
                            w as int,
                            y as int,
                            x as int,
                        );
                        assert(idx % (w as int) == x as int && idx / (w as int) == y as int);
                        assert(fb[idx] == q);
                        assert(pixels@ =~= fb.take(idx + 1));
                    }
                }
                x = x + 1;
            }
            proof {
                assert((y as int) * (w as int) + (w as int) == ((y as int) + 1) * (w as int))
                    by (nonlinear_arith);
            }
            y = y + 1;
        }
        proof {
            assert((h as int) * (w as int) == cam_image_height_s(*old(self)) * cam_width_s(
                *old(self),
            ));
            if e.is_fixed() {
                assert(pixels@ =~= fb);
            }
        }
        crate::ppm::ppm_bytes(w, h, &pixels)
    }
}

impl Default for Camera {
    /// The reference configuration: a 100-pixel-wide image, ten samples per
    /// pixel, a 90 degree field of view looking down the negative z-axis,
    /// no defocus blur, with every derived field zeroed until
    /// `initialize` runs.
    fn default() -> (r: Camera)
        ensures
            r.image_width == 100,
            r.image_height == 0,
            r.vfov == 90,
            r.vup@ == (0int, SCALE as int, 0int),
            r.look_from@ == (0int, 0int, 0int),
            r.look_at@ == (0int, 0int, -(SCALE as int)),
            r.aspect_ratio == 156558,
            r.samples_per_pixel == 10,
            r.max_ray_bounce_depth == 10,
            r.defocus_angle == 0,
            r.focus_dist == 10 * SCALE as int,
            r.center@ == (0int, 0int, 0int),
            r.px00_loc@ == (0int, 0int, 0int),
            r.pixel_delta_u@ == (0int, 0int, 0int),
            r.pixel_delta_v@ == (0int, 0int, 0int),
            r.u@ == (0int, 0int, 0int),
            r.v@ == (0int, 0int, 0int),
            r.w@ == (0int, 0int, 0int),
            r.defocus_disk_u@ == (0int, 0int, 0int),
            r.defocus_disk_v@ == (0int, 0int, 0int),
            r.cfg_wf(),
    {
        Camera {
            image_width: 100,
            image_height: 0,
            vfov: 90,
            vup: Vec3 { x: 0, y: SCALE, z: 0 },
            look_from: Vec3 { x: 0, y: 0, z: 0 },
            look_at: Vec3 { x: 0, y: 0, z: -SCALE },
            aspect_ratio: 156558,
            samples_per_pixel: 10,
            center: Vec3 { x: 0, y: 0, z: 0 },
            px00_loc: Vec3 { x: 0, y: 0, z: 0 },
            pixel_delta_u: Vec3 { x: 0, y: 0, z: 0 },
            pixel_delta_v: Vec3 { x: 0, y: 0, z: 0 },
            max_ray_bounce_depth: 10,
            u: Vec3 { x: 0, y: 0, z: 0 },
            v: Vec3 { x: 0, y: 0, z: 0 },
            w: Vec3 { x: 0, y: 0, z: 0 },
            defocus_angle: 0,
            focus_dist: 10 * SCALE,
            defocus_disk_u: Vec3 { x: 0, y: 0, z: 0 },
            defocus_disk_v: Vec3 { x: 0, y: 0, z: 0 },
        }
    }
}

/// The configuration of a small worked scenario: a 2x2-pixel square image
/// from a pinhole camera at the origin looking down the negative z-axis,
/// one sample per pixel and a bounce budget of one.
pub open spec fn scenario_config_s() -> Camera {
    Camera {
        aspect_ratio: 65536,
        image_width: 2,
        center: Vec3 { x: 0, y: 0, z: 0 },
        samples_per_pixel: 1,
        max_ray_bounce_depth: 1,
        vfov: 90,
        vup: Vec3 { x: 0, y: 65536, z: 0 },
        look_from: Vec3 { x: 0, y: 0, z: 0 },
        look_at: Vec3 { x: 0, y: 0, z: -65536i64 },
        defocus_angle: 0,
        focus_dist: 65536,
        defocus_disk_u: Vec3 { x: 0, y: 0, z: 0 },
        defocus_disk_v: Vec3 { x: 0, y: 0, z: 0 },
        image_height: 0,
        px00_loc: Vec3 { x: 0, y: 0, z: 0 },
        pixel_delta_u: Vec3 { x: 0, y: 0, z: 0 },
        pixel_delta_v: Vec3 { x: 0, y: 0, z: 0 },
        u: Vec3 { x: 0, y: 0, z: 0 },
        v: Vec3 { x: 0, y: 0, z: 0 },
        w: Vec3 { x: 0, y: 0, z: 0 },
    }
}

/// The scenario camera after initialization: the derived geometry of
/// `scenario_config_s`, evaluated.
pub open spec fn scenario_camera_s() -> Camera {
    Camera {
        image_height: 2,
        px00_loc: Vec3 { x: -32768i64, y: 32768, z: -65536i64 },
        pixel_delta_u: Vec3 { x: 65536, y: 0, z: 0 },
        pixel_delta_v: Vec3 { x: 0, y: -65536i64, z: 0 },
        u: Vec3 { x: 65536, y: 0, z: 0 },
        v: Vec3 { x: 0, y: 65536, z: 0 },
        w: Vec3 { x: 0, y: 0, z: 65536 },
        ..scenario_config_s()
    }
}

/// The scenario's one surface: a diffuse sphere of radius 1/2 centered at
/// (0, 0, -1).
pub open spec fn scenario_sphere_s() -> Sphere {
    Sphere {
        center: Vec3 { x: 0, y: 0, z: -65536i64 },
        radius: 32768,
        material: MaterialKind::Lambertian(
            Lambertian { albedo: Vec3 { x: 32768, y: 32768, z: 32768 } },
        ),
    }
}

/// A worked evaluation of the deterministic render model on the scenario
/// above, with every draw zero: the derived camera really is what
/// `initialize` computes for that configuration; the pixel whose corner ray
/// runs straight down the axis hits the sphere, scatters once, exhausts its
/// bounce budget and reports black; and a corner pixel misses the sphere
/// and reports exactly the background gradient of its own ray.
#[verifier::rlimit(100)]
#[verifier::spinoff_prover]
pub proof fn lemma_deterministic_scenario()
    ensures
        Camera::initialized_from(scenario_camera_s(), scenario_config_s()),
        pixel_color_fixed_s(scenario_camera_s(), seq![scenario_sphere_s()], 1, 1, 0) == (
            0int,
            0int,
            0int,
        ),
        pixel_color_fixed_s(scenario_camera_s(), seq![scenario_sphere_s()], 0, 0, 0)
            == background_s(get_ray_fixed_s(scenario_camera_s(), 0, 0, 0).1),
{
    let cfg = scenario_config_s();
    let cam = scenario_camera_s();
    let sph = scenario_sphere_s();
    let objs = seq![sph];

    // the two square roots this evaluation meets: |(0,0,1)| (and |(1,0,0)|)
    // rescaled, and the discriminant of the axis hit
    crate::fixed::lemma_isqrt_value(0x1_0000_0000nat, 65536);
    crate::fixed::lemma_isqrt_value(0x4000_0000nat, 32768);

    // every division of concrete values this evaluation meets, spelled out
    // so the arithmetic folds
    assert(131072int / 65536int == 2);
    assert(8589934592int / 131072int == 65536);
    assert(1214370938880int / 65536int == 18529830);
    assert(1214370938880int / 11796480int == 102943);
    assert(6746472448int / 131072int == 51471);
    assert(2649263841int / 65536int == 40424);
    assert(1634099776int / 65536int == 24934);
    assert(1007932016int / 65536int == 15379);
    assert(621704356int / 65536int == 9486);
    assert(383462064int / 65536int == 5851);
    assert(40424int / 2int == 20212);
    assert(24934int / 24int == 1038);
    assert(15379int / 720int == 21);
    assert(9486int / 40320int == 0);
    assert(5851int / 3628800int == 0);
    assert(2080663704int / 65536int == 31748);
    assert(1283381152int / 65536int == 19582);
    assert(791582768int / 65536int == 12078);
    assert(488241072int / 65536int == 7449);
    assert(31748int / 6int == 5291);
    assert(19582int / 120int == 163);
    assert(12078int / 5040int == 2);
    assert(7449int / 362880int == 0);
    assert(3037003776int / 46341int == 65536);
    assert(8589934592int / 65536int == 131072);
    assert(0int / 65536int == 0);
    assert(4294967296int / 65536int == 65536);
    assert(0int / 131072int == 0);
    assert(2147483648int / 65536int == 32768);
    assert(0int / 11796480int == 0);
    assert(0int / 2int == 0);
    assert(0int / 24int == 0);
    assert(0int / 720int == 0);
    assert(0int / 40320int == 0);
    assert(0int / 3628800int == 0);
    assert(0int / 6int == 0);
    assert(0int / 120int == 0);
    assert(0int / 5040int == 0);
    assert(0int / 362880int == 0);
    assert(1073741824int / 65536int == 16384);
    assert(3221225472int / 65536int == 49152);
    assert(6442450944int / 65536int == 98304);
    assert(0int / 32768int == 0);
    assert(2147483648int / 32768int == 65536);
    assert(9663676416int / 65536int == 147456);

    // the derived geometry of the configuration, one small step at a time:
    // first the half-angle tangent of the 90 degree field of view
    assert(cam_image_height_s(cfg) == 2);
    assert(deg_to_rad_s(5898240int) == 102943);
    assert(div_fx(102943, 131072) == 51471);
    assert(mul_fx(51471, 51471) == 40424);
    assert(mul_fx(40424, 51471) == 31748);
    assert(mul_fx(31748, 40424) == 19582);
    assert(mul_fx(19582, 40424) == 12078);
    assert(mul_fx(12078, 40424) == 7449);
    assert(sin_fx_s(51471) == 46341);
    assert(mul_fx(40424, 40424) == 24934);
    assert(mul_fx(24934, 40424) == 15379);
    assert(mul_fx(24934, 24934) == 9486);
    assert(mul_fx(9486, 40424) == 5851);
    assert(cos_fx_s(51471) == 46341);
    assert(tan_fx_s(51471) == 65536);
    assert(cam_hhalf_s(cfg) == 65536);

    // the orthonormal basis
    assert(vsub_s(cfg.look_from@, cfg.look_at@) == (0int, 0int, 65536int));
    assert(len_sq_s((0int, 0int, 65536int)) == 65536);
    assert(sqrt_fx_s(65536) == 65536);
    assert(div_fx(65536, 65536) == 65536);
    assert(cam_w_s(cfg) == (0int, 0int, 65536int));
    assert(vcross_s(cfg.vup@, (0int, 0int, 65536int)) == (65536int, 0int, 0int));
    assert(len_sq_s((65536int, 0int, 0int)) == 65536);
    assert(cam_u_s(cfg) == (65536int, 0int, 0int));
    assert(cam_v_s(cfg) == (0int, 65536int, 0int));

    // the viewport and the pixel grid
    assert(cam_actual_ar_s(cfg) == 65536);
    assert(mul_fx(131072, 65536) == 131072);
    assert(cam_viewport_height_s(cfg) == 131072);
    assert(cam_viewport_width_s(cfg) == 131072);
    assert(div_fx(131072, 131072) == 65536);
    assert(cam_pixel_delta_u_s(cfg) == (65536int, 0int, 0int));
    assert(cam_pixel_delta_v_s(cfg) == (0int, -65536int, 0int));
    assert(mul_fx(65536, 32768) == 32768);
    assert(cam_upper_left_s(cfg) == (-65536int, 65536int, -65536int));
    assert(cam_px00_s(cfg) == (-32768int, 32768int, -65536int));

    // a closed aperture gives a zero-radius defocus disk
    assert(deg_to_rad_s(0) == 0);
    assert(cos_fx_s(0) == 65536);
    assert(tan_fx_s(0) == 0);
    assert(cam_defocus_radius_s(cfg) == 0);
    assert(cam_defocus_disk_u_s(cfg) == (0int, 0int, 0int));
    assert(cam_defocus_disk_v_s(cfg) == (0int, 0int, 0int));

    assert(Camera::initialized_from(cam, cfg));

    reveal_with_fuel(scan_hit_s, 2);
    reveal_with_fuel(ray_color_fixed_s, 2);
    assert(objs.drop_last() =~= Seq::<Sphere>::empty());
    assert(objs.last() == sph);

    // pixel (1, 1): its corner ray runs straight down the axis and hits
    let r11 = pixel_ray_fixed_s(cam, 1, 1, 0);
    assert(get_ray_fixed_s(cam, 1, 1, 0) == ((0int, 0int, 0int), (0int, 0int, -65536int)));
    assert(r11.direction@ == (0int, 0int, -65536int));
    assert(sph_a_s(sph, r11) == 65536);
    assert(sph_h_s(sph, r11) == 65536);
    assert(sph_c_s(sph, r11) == 49152);
    assert(sph_disc_s(sph, r11) == 16384);
    assert(sph_root1_s(sph, r11) == 32768);
    let rec = sph_record_s(sph, r11, 32768);
    assert(sph.hit_s(r11, T_MIN_EPS as int, FX_MAX as int) == Some(rec));
    assert(scan_hit_s(objs, r11, T_MIN_EPS as int, FX_MAX as int) == Some(rec));
    assert(rec.normal@ == (0int, 0int, 65536int));

    // the all-zero draw's cube candidate is rejected, so the diffuse
    // scatter direction is normal plus the fallback axis
    assert(ruv_fixed_s(0) == (65536int, 0int, 0int));
    assert(scatter_fixed_s(rec.material, r11, rec, 0) matches Some(da) && da.0 == (
        65536int,
        0int,
        65536int,
    ));
    assert(ray_color_fixed_s(r11, objs, 1nat, 0) == (0int, 0int, 0int));
    assert(pixel_color_fixed_s(cam, objs, 1, 1, 0) == (0int, 0int, 0int));

    // pixel (0, 0): its corner ray has a negative discriminant, so the
    // scan misses and the model reports the gradient of that ray
    let r00 = pixel_ray_fixed_s(cam, 0, 0, 0);
    assert(get_ray_fixed_s(cam, 0, 0, 0) == (
        (0int, 0int, 0int),
        (-65536int, 65536int, -65536int),
    ));
    assert(r00.direction@ == (-65536int, 65536int, -65536int));
    assert(sph_a_s(sph, r00) == 196608);
    assert(sph_h_s(sph, r00) == 65536);
    assert(sph_c_s(sph, r00) == 49152);
    assert(mul_fx(196608, 49152) == 147456);
    assert(sph_disc_s(sph, r00) == -81920);
    assert(sph.hit_s(r00, T_MIN_EPS as int, FX_MAX as int) is None);
    assert(scan_hit_s(objs, r00, T_MIN_EPS as int, FX_MAX as int) is None);
    assert(ray_color_fixed_s(r00, objs, 1nat, 0) == background_s(r00.direction@));
    assert(pixel_color_fixed_s(cam, objs, 0, 0, 0) == background_s(
        get_ray_fixed_s(cam, 0, 0, 0).1,
    ));
}

} // verus!

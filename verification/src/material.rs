//! Surface materials: diffuse (Lambertian), reflective with fuzz (Metal) and
//! refractive (Dielectric), closed under one tagged variant type so a hit
//! record can carry its surface's material by value.

use vstd::prelude::*;
use crate::entropy::Entropy;
use crate::fixed::{
    add_fx, div_fx, fx_add, fx_div, fx_mul, fx_sqrt, fx_sub, mul_fx, sqrt_fx_s, sub_fx, SCALE,
};
use crate::hit::HitRecord;
use crate::ray::{ray_wf, Ray};
use crate::vec3::{
    len_sq_s, near_zero_s, reflect_s, refract_s, ruv_fallback_s, ruv_fixed_s, unit_s, vadd_s,
    vdot_s, vneg_s, vscale_s, Color, Vec3,
};

verus! {

/// A color is in the unit cube: each channel in [0, 1].
pub open spec fn color_wf(c: (int, int, int)) -> bool {
    0 <= c.0 <= SCALE as int && 0 <= c.1 <= SCALE as int && 0 <= c.2 <= SCALE as int
}

/// Diffuse surface: scatters around the normal, never absorbs.
#[derive(Clone, Copy, PartialEq, Eq, Structural, Debug)]
pub struct Lambertian {
    pub albedo: Color,
}

/// Reflective surface with a fuzz radius; absorbs rays that fuzz into the
/// surface.
#[derive(Clone, Copy, PartialEq, Eq, Structural, Debug)]
pub struct Metal {
    pub albedo: Color,
    pub fuzz: i64,
}

/// Refractive surface (glass); never absorbs and never colors the light.
#[derive(Clone, Copy, PartialEq, Eq, Structural, Debug)]
pub struct Dielectric {
    pub refraction_index: i64,
}

/// The closed set of materials a surface can carry.
#[derive(Clone, Copy, PartialEq, Eq, Structural, Debug)]
pub enum MaterialKind {
    Lambertian(Lambertian),
    Metal(Metal),
    Dielectric(Dielectric),
}

impl Lambertian {
    /// The albedo is a color.
    pub open spec fn wf(&self) -> bool {
        color_wf(self.albedo@)
    }

    /// Builds a diffuse material from its albedo.
    pub fn new(albedo: Color) -> (r: Lambertian)
        requires
            color_wf(albedo@),
        ensures
            r.albedo == albedo,
            r.wf(),
    {
        Lambertian { albedo }
    }
}

impl Metal {
    /// The albedo is a color and the fuzz radius is at most one.
    pub open spec fn wf(&self) -> bool {
        color_wf(self.albedo@) && self.fuzz <= SCALE
    }

    /// Builds a reflective material; the fuzz radius is clamped to at most
    /// one at construction.
    pub fn new(albedo: Color, fuzz: i64) -> (r: Metal)
        requires
            color_wf(albedo@),
        ensures
            r.albedo == albedo,
            r.fuzz == if fuzz < SCALE { fuzz as int } else { SCALE as int },
            r.wf(),
    {
        let fuzz = if fuzz < SCALE {
            fuzz
        } else {
            SCALE
        };
        Metal { albedo, fuzz }
    }
}

impl Dielectric {
    /// A refraction index is a positive ratio.
    pub open spec fn wf(&self) -> bool {
        self.refraction_index > 0
    }

    /// Builds a refractive material from its (positive) refraction index.
    pub fn new(refraction_index: i64) -> (r: Dielectric)
        requires
            refraction_index > 0,
        ensures
            r.refraction_index == refraction_index,
            r.wf(),
    {
        Dielectric { refraction_index }
    }
}

impl MaterialKind {
    /// Well-formedness of whichever material this is.
    pub open spec fn wf(&self) -> bool {
        match *self {
            MaterialKind::Lambertian(m) => m.wf(),
            MaterialKind::Metal(m) => m.wf(),
            MaterialKind::Dielectric(m) => m.wf(),
        }
    }
}

/// The unit (colorless) attenuation.
pub open spec fn white_s() -> (int, int, int) {
    (SCALE as int, SCALE as int, SCALE as int)
}

/// The capability of scattering an incoming ray at a hit. `scatter_ok` is
/// the implementation's contract: what holds of the outcome for every draw
/// the entropy source can make.
pub trait Material: Sized {
    /// When this material's own data is well formed.
    spec fn mat_wf(&self) -> bool;

    /// What holds of a scatter outcome, whatever the entropy source drew.
    spec fn scatter_ok(&self, e: Entropy, r_in: Ray, rec: HitRecord, out: Option<(Ray, Color)>)
        -> bool;

    /// Either a scattered ray with an attenuation color, or `None` for an
    /// absorbed path.
    fn scatter(&self, e: &Entropy, r_in: &Ray, rec: &HitRecord) -> (out: Option<(Ray, Color)>)
        requires
            e.wf(),
            self.mat_wf(),
            ray_wf(*r_in),
            rec.wf(),
        ensures
            self.scatter_ok(*e, *r_in, *rec, out),
    ;
}

/// Model of the diffuse scatter direction for a given unit-sphere draw:
/// normal plus draw, degenerating to the bare normal when the sum is too
/// small to resolve.
pub open spec fn lambertian_dir_s(rec: HitRecord, ruv: (int, int, int)) -> (int, int, int) {
    let d = vadd_s(rec.normal@, ruv);
    if near_zero_s(d) {
        rec.normal@
    } else {
        d
    }
}

impl Lambertian {
    /// The scatter outcome for a known unit-sphere draw: deterministic, and
    /// never absorbed.
    pub fn scatter_with(&self, rec: &HitRecord, ruv: &Vec3) -> (out: (Ray, Color))
        ensures
            out.0.origin == rec.point,
            out.0.direction@ == lambertian_dir_s(*rec, ruv@),
            out.1 == self.albedo,
    {
        let mut scatter_direction = rec.normal.add(ruv);
        if scatter_direction.near_zero() {
            scatter_direction = rec.normal;
        }
        (Ray::new(rec.point, scatter_direction), self.albedo)
    }
}

impl Material for Lambertian {
    open spec fn mat_wf(&self) -> bool {
        self.wf()
    }

    open spec fn scatter_ok(
        &self,
        e: Entropy,
        r_in: Ray,
        rec: HitRecord,
        out: Option<(Ray, Color)>,
    ) -> bool {
        &&& out matches Some(p) && {
            &&& p.0.origin == rec.point
            &&& p.1 == self.albedo
            &&& ray_wf(p.0)
            &&& color_wf(p.1@)
            &&& e.is_fixed() ==> p.0.direction@ == lambertian_dir_s(
                rec,
                ruv_fixed_s(e.fixed_val()),
            )
        }
    }

    fn scatter(&self, e: &Entropy, r_in: &Ray, rec: &HitRecord) -> (out: Option<(Ray, Color)>) {
        let ruv = Vec3::random_unit_vec(e);
        Some(self.scatter_with(rec, &ruv))
    }
}

/// Model of the fuzzed mirror direction for a known jitter draw: the
/// normalized reflection (a fixed axis when the reflection is too short to
/// normalize) plus the jitter scaled by the fuzz radius.
pub open spec fn metal_dir_s(m: Metal, r_in: Ray, rec: HitRecord, jitter: (int, int, int)) -> (
    int,
    int,
    int,
) {
    let refl = reflect_s(r_in.direction@, rec.normal@);
    let u = if len_sq_s(refl) >= 1 {
        unit_s(refl)
    } else {
        ruv_fallback_s()
    };
    vadd_s(u, vscale_s(jitter, m.fuzz as int))
}

impl Metal {
    /// The scatter outcome for a known jitter draw: absorbed exactly when
    /// the fuzzed reflection points into the surface (non-positive dot
    /// product with the normal).
    pub fn scatter_with(&self, r_in: &Ray, rec: &HitRecord, jitter: &Vec3) -> (out: Option<
        (Ray, Color),
    >)
        requires
            ray_wf(*r_in),
            rec.wf(),
        ensures
            out.is_none() <==> vdot_s(metal_dir_s(*self, *r_in, *rec, jitter@), rec.normal@)
                <= 0,
            out matches Some(p) ==> {
                &&& p.0.origin == rec.point
                &&& p.0.direction@ == metal_dir_s(*self, *r_in, *rec, jitter@)
                &&& p.1 == self.albedo
            },
    {
        let reflected = r_in.direction.reflect(&rec.normal);
        let m = reflected.length_squared();
        let u = if m >= 1 {
            reflected.unit_vector()
        } else {
            Vec3 { x: SCALE, y: 0, z: 0 }
        };
        let direction = u.add(&jitter.scale(self.fuzz));
        let scattered = Ray::new(rec.point, direction);
        if Vec3::dot(&scattered.direction, &rec.normal) <= 0 {
            return None;
        }
        Some((scattered, self.albedo))
    }
}

impl Material for Metal {
    open spec fn mat_wf(&self) -> bool {
        self.wf()
    }

    open spec fn scatter_ok(
        &self,
        e: Entropy,
        r_in: Ray,
        rec: HitRecord,
        out: Option<(Ray, Color)>,
    ) -> bool {
        &&& out matches Some(p) ==> {
            &&& p.0.origin == rec.point
            &&& p.1 == self.albedo
            &&& ray_wf(p.0)
            &&& color_wf(p.1@)
            &&& vdot_s(p.0.direction@, rec.normal@) > 0
        }
        &&& e.is_fixed() ==> {
            let dir = metal_dir_s(*self, r_in, rec, ruv_fixed_s(e.fixed_val()));
            &&& out.is_none() <==> vdot_s(dir, rec.normal@) <= 0
            &&& out matches Some(p) ==> p.0.direction@ == dir
        }
    }

    fn scatter(&self, e: &Entropy, r_in: &Ray, rec: &HitRecord) -> (out: Option<(Ray, Color)>) {
        let jitter = Vec3::random_unit_vec(e);
        self.scatter_with(r_in, rec, &jitter)
    }
}

/// Model of Schlick's reflectance approximation in fixed point.
pub open spec fn reflectance_s(cos: int, ri: int) -> int
    recommends
        ri > 0,
{
    let base = div_fx(sub_fx(SCALE as int, ri), add_fx(SCALE as int, ri));
    let r0 = mul_fx(base, base);
    let omc = sub_fx(SCALE as int, cos);
    let p5 = mul_fx(mul_fx(mul_fx(mul_fx(omc, omc), omc), omc), omc);
    add_fx(r0, mul_fx(sub_fx(SCALE as int, r0), p5))
}

/// Schlick's approximation of the reflectance at a dielectric boundary.
fn reflectance(cos: i64, refraction_index: i64) -> (r: i64)
    requires
        refraction_index > 0,
    ensures
        r == reflectance_s(cos as int, refraction_index as int),
{
    let denom = fx_add(SCALE, refraction_index);
    let base = fx_div(fx_sub(SCALE, refraction_index), denom);
    let r0 = fx_mul(base, base);
    let omc = fx_sub(SCALE, cos);
    let p5 = fx_mul(fx_mul(fx_mul(fx_mul(omc, omc), omc), omc), omc);
    fx_add(r0, fx_mul(fx_sub(SCALE, r0), p5))
}

/// The effective ratio of refraction indices: inverted when the ray enters
/// from outside the medium, and kept at least one grid unit so the ratio
/// stays positive after rounding.
pub open spec fn dielectric_ri_s(d: Dielectric, front_face: bool) -> int
    recommends
        d.wf(),
{
    if front_face {
        let inv = div_fx(SCALE as int, d.refraction_index as int);
        if inv < 1 {
            1
        } else {
            inv
        }
    } else {
        d.refraction_index as int
    }
}

/// The incoming direction normalized, with a fixed axis standing in for a
/// direction too short to normalize.
pub open spec fn unit_dir_s(r_in: Ray) -> (int, int, int) {
    if len_sq_s(r_in.direction@) >= 1 {
        unit_s(r_in.direction@)
    } else {
        ruv_fallback_s()
    }
}

/// Model of the dielectric scatter direction for a known reflectance draw:
/// refraction by Snell's law, except where total internal reflection forces,
/// or Schlick reflectance wins, a mirror reflection.
pub open spec fn dielectric_dir_s(d: Dielectric, r_in: Ray, rec: HitRecord, u: int) -> (
    int,
    int,
    int,
)
    recommends
        d.wf(),
{
    let ri = dielectric_ri_s(d, rec.front_face);
    let ud = unit_dir_s(r_in);
    let cos0 = vdot_s(vneg_s(ud), rec.normal@);
    let cos_theta = if cos0 < SCALE as int {
        cos0
    } else {
        SCALE as int
    };
    let s20 = sub_fx(SCALE as int, mul_fx(cos_theta, cos_theta));
    let s2 = if s20 < 0 {
        0
    } else {
        s20
    };
    let sin_theta = sqrt_fx_s(s2);
    let cannot_refract = mul_fx(ri, sin_theta) > SCALE as int;
    if cannot_refract || reflectance_s(cos_theta, ri) > u {
        reflect_s(ud, rec.normal@)
    } else {
        refract_s(ud, rec.normal@, ri)
    }
}

impl Dielectric {
    /// The scatter outcome for a known reflectance draw: deterministic,
    /// never absorbed, and always colorless.
    pub fn scatter_with(&self, r_in: &Ray, rec: &HitRecord, u: i64) -> (out: (Ray, Color))
        requires
            self.wf(),
            ray_wf(*r_in),
            rec.wf(),
        ensures
            out.0.origin == rec.point,
            out.0.direction@ == dielectric_dir_s(*self, *r_in, *rec, u as int),
            out.1@ == white_s(),
    {
        let attenuation = Vec3 { x: SCALE, y: SCALE, z: SCALE };
        let ri = if rec.front_face {
            let inv = fx_div(SCALE, self.refraction_index);
            if inv < 1 {
                1
            } else {
                inv
            }
        } else {
            self.refraction_index
        };
        let m = r_in.direction.length_squared();
        let unit_dir = if m >= 1 {
            r_in.direction.unit_vector()
        } else {
            Vec3 { x: SCALE, y: 0, z: 0 }
        };
        let cos0 = Vec3::dot(&unit_dir.neg(), &rec.normal);
        let cos_theta = if cos0 < SCALE {
            cos0
        } else {
            SCALE
        };
        let s20 = fx_sub(SCALE, fx_mul(cos_theta, cos_theta));
        let s2 = if s20 < 0 {
            0
        } else {
            s20
        };
        let sin_theta = fx_sqrt(s2);
        let cannot_refract = fx_mul(ri, sin_theta) > SCALE;
        let direction = if cannot_refract || reflectance(cos_theta, ri) > u {
            unit_dir.reflect(&rec.normal)
        } else {
            Vec3::refract(&unit_dir, &rec.normal, ri)
        };
        (Ray::new(rec.point, direction), attenuation)
    }
}

impl Material for Dielectric {
    open spec fn mat_wf(&self) -> bool {
        self.wf()
    }

    open spec fn scatter_ok(
        &self,
        e: Entropy,
        r_in: Ray,
        rec: HitRecord,
        out: Option<(Ray, Color)>,
    ) -> bool {
        &&& out matches Some(p) && {
            &&& p.0.origin == rec.point
            &&& p.1@ == white_s()
            &&& ray_wf(p.0)
            &&& color_wf(p.1@)
            &&& e.is_fixed() ==> p.0.direction@ == dielectric_dir_s(
                *self,
                r_in,
                rec,
                e.fixed_val(),
            )
        }
    }

    fn scatter(&self, e: &Entropy, r_in: &Ray, rec: &HitRecord) -> (out: Option<(Ray, Color)>) {
        let u = e.next_unit();
        Some(self.scatter_with(r_in, rec, u))
    }
}

/// The scatter outcome when every draw returns `v`: `None` for an absorbed
/// path, else the scattered direction and the attenuation color.
pub open spec fn scatter_fixed_s(m: MaterialKind, r_in: Ray, rec: HitRecord, v: int) -> Option<
    ((int, int, int), (int, int, int)),
> {
    match m {
        MaterialKind::Lambertian(l) => Some(
            (lambertian_dir_s(rec, ruv_fixed_s(v)), l.albedo@),
        ),
        MaterialKind::Metal(mm) => {
            let dir = metal_dir_s(mm, r_in, rec, ruv_fixed_s(v));
            if vdot_s(dir, rec.normal@) <= 0 {
                None
            } else {
                Some((dir, mm.albedo@))
            }
        },
        MaterialKind::Dielectric(d) => Some((dielectric_dir_s(d, r_in, rec, v), white_s())),
    }
}

/// For a fixed entropy source, the scatter contract pins the outcome to
/// `scatter_fixed_s`: absorbed exactly when the model absorbs, and
/// otherwise starting at the hit point in the model's direction with the
/// model's attenuation.
pub proof fn lemma_scatter_ok_fixed(
    m: MaterialKind,
    e: Entropy,
    r_in: Ray,
    rec: HitRecord,
    out: Option<(Ray, Color)>,
)
    requires
        m.scatter_ok(e, r_in, rec, out),
        e.is_fixed(),
    ensures
        (out is None) <==> (scatter_fixed_s(m, r_in, rec, e.fixed_val()) is None),
        out matches Some(p) ==> {
            let da = scatter_fixed_s(m, r_in, rec, e.fixed_val())->Some_0;
            &&& p.0.origin == rec.point
            &&& p.0.direction@ == da.0
            &&& p.1@ == da.1
        },
{
    match m {
        MaterialKind::Lambertian(_) => {},
        MaterialKind::Metal(_) => {},
        MaterialKind::Dielectric(_) => {},
    }
}

impl Material for MaterialKind {
    open spec fn mat_wf(&self) -> bool {
        self.wf()
    }

    open spec fn scatter_ok(
        &self,
        e: Entropy,
        r_in: Ray,
        rec: HitRecord,
        out: Option<(Ray, Color)>,
    ) -> bool {
        match *self {
            MaterialKind::Lambertian(m) => m.scatter_ok(e, r_in, rec, out),
            MaterialKind::Metal(m) => m.scatter_ok(e, r_in, rec, out),
            MaterialKind::Dielectric(m) => m.scatter_ok(e, r_in, rec, out),
        }
    }

    fn scatter(&self, e: &Entropy, r_in: &Ray, rec: &HitRecord) -> (out: Option<(Ray, Color)>) {
        match self {
            MaterialKind::Lambertian(m) => m.scatter(e, r_in, rec),
            MaterialKind::Metal(m) => m.scatter(e, r_in, rec),
            MaterialKind::Dielectric(m) => m.scatter(e, r_in, rec),
        }
    }
}

} // verus!

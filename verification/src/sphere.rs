//! The one concrete surface: a sphere, with the quadratic ray-intersection
//! rule. The executable `hit` returns exactly the value of its spec model,
//! and the model is characterized: a hit is reported iff the (fixed-point)
//! discriminant is nonnegative and a root lies in the open parameter range,
//! and the reported parameter is the smaller root in range.

use vstd::prelude::*;
use crate::fixed::{
    add_fx, div_fx, fx_add, fx_div, fx_mul, fx_sqrt, fx_sub, fx_wf, mul_fx, sqrt_fx_s, sub_fx,
    surrounds, FX_MAX, SCALE,
};
use crate::hit::{HitRecord, Hittable};
use crate::material::MaterialKind;
use crate::ray::{ray_at_s, ray_wf, Ray};
use crate::vec3::{
    len_sq_s, lemma_len_sq_nonneg, lemma_v3_s_view, lemma_vdot_neg_right, v3_s, v_wf, vdiv_scalar_s,
    vdot_s, vneg_s, vsub_s, Vec3,
};

verus! {

/// A sphere with its material.
#[derive(Clone, Copy, PartialEq, Eq, Structural, Debug)]
pub struct Sphere {
    pub center: Vec3,
    pub radius: i64,
    pub material: MaterialKind,
}

/// The parameter lies strictly inside the open interval.
pub open spec fn t_in_range(t: int, tmin: int, tmax: int) -> bool {
    tmin < t && t < tmax
}

/// Center minus ray origin.
pub open spec fn sph_oc_s(s: Sphere, r: Ray) -> (int, int, int) {
    vsub_s(s.center@, r.origin@)
}

/// The quadratic's leading coefficient: the squared length of the ray
/// direction.
pub open spec fn sph_a_s(s: Sphere, r: Ray) -> int {
    len_sq_s(r.direction@)
}

/// Half the negated linear coefficient.
pub open spec fn sph_h_s(s: Sphere, r: Ray) -> int {
    vdot_s(r.direction@, sph_oc_s(s, r))
}

/// The constant coefficient.
pub open spec fn sph_c_s(s: Sphere, r: Ray) -> int {
    sub_fx(len_sq_s(sph_oc_s(s, r)), mul_fx(s.radius as int, s.radius as int))
}

/// The (quarter) discriminant `h*h - a*c`.
pub open spec fn sph_disc_s(s: Sphere, r: Ray) -> int {
    sub_fx(mul_fx(sph_h_s(s, r), sph_h_s(s, r)), mul_fx(sph_a_s(s, r), sph_c_s(s, r)))
}

/// The smaller root `(h - sqrt(disc)) / a`.
pub open spec fn sph_root1_s(s: Sphere, r: Ray) -> int {
    div_fx(sub_fx(sph_h_s(s, r), sqrt_fx_s(sph_disc_s(s, r))), sph_a_s(s, r))
}

/// The larger root `(h + sqrt(disc)) / a`.
pub open spec fn sph_root2_s(s: Sphere, r: Ray) -> int {
    div_fx(add_fx(sph_h_s(s, r), sqrt_fx_s(sph_disc_s(s, r))), sph_a_s(s, r))
}

/// The root the intersection rule picks: the smaller root when in range,
/// else the larger root when in range, else none.
pub open spec fn sph_chosen_root_s(s: Sphere, r: Ray, tmin: int, tmax: int) -> Option<int> {
    if t_in_range(sph_root1_s(s, r), tmin, tmax) {
        Some(sph_root1_s(s, r))
    } else if t_in_range(sph_root2_s(s, r), tmin, tmax) {
        Some(sph_root2_s(s, r))
    } else {
        None
    }
}

/// The record reported for a hit of `s` by `r` at parameter `t`: the point
/// on the ray, and the outward normal `(point - center) / radius` oriented
/// against the ray.
pub open spec fn sph_record_s(s: Sphere, r: Ray, t: int) -> HitRecord
    recommends
        s.radius != 0,
{
    let p = ray_at_s(r, t);
    let outward = vdiv_scalar_s(vsub_s(p, s.center@), s.radius as int);
    let front = vdot_s(r.direction@, outward) < 0;
    let n = if front {
        outward
    } else {
        vneg_s(outward)
    };
    HitRecord {
        point: v3_s(p),
        normal: v3_s(n),
        t: t as i64,
        front_face: front,
        material: s.material,
    }
}

impl Sphere {
    /// A sphere is well formed when its geometry is in range and its
    /// material is well formed. Degenerate (zero-radius) spheres are well
    /// formed; they never intersect anything.
    pub open spec fn wf(&self) -> bool {
        v_wf(self.center@) && 0 <= self.radius <= FX_MAX && self.material.wf()
    }

    /// Builds a sphere; a negative radius is clamped to zero (a degenerate
    /// sphere that never intersects).
    pub fn new(center: Vec3, radius: i64, material: MaterialKind) -> (s: Sphere)
        requires
            v_wf(center@),
            material.wf(),
        ensures
            s.center == center,
            s.material == material,
            s.radius == if radius < 0 {
                0int
            } else if radius > FX_MAX {
                FX_MAX as int
            } else {
                radius as int
            },
            s.wf(),
    {
        let r = if radius < 0 {
            0
        } else if radius > FX_MAX {
            FX_MAX
        } else {
            radius
        };
        Sphere { center, radius: r, material }
    }
}

/// The smaller root never exceeds the larger root.
pub proof fn lemma_sphere_root_order(s: Sphere, r: Ray)
    requires
        sph_disc_s(s, r) >= 0,
        sph_a_s(s, r) > 0,
    ensures
        sph_root1_s(s, r) <= sph_root2_s(s, r),
{
    let d = sph_disc_s(s, r);
    crate::fixed::lemma_isqrt_exists((d * (SCALE as int)) as nat);
    let sq = sqrt_fx_s(d);
    assert(sq >= 0);
    let h = sph_h_s(s, r);
    crate::fixed::lemma_div_fx_mono(sub_fx(h, sq), add_fx(h, sq), sph_a_s(s, r));
}

/// What the sphere intersection rule guarantees: a hit is reported iff the
/// sphere and ray are nondegenerate, the discriminant is nonnegative, and a
/// root lies strictly inside the parameter range; the reported parameter is
/// the smallest root in range; and the reported normal faces against the
/// incoming ray.
pub proof fn lemma_sphere_hit_characterization(s: Sphere, r: Ray, tmin: int, tmax: int)
    requires
        s.wf(),
        ray_wf(r),
    ensures
        (s.hit_s(r, tmin, tmax) is Some) <==> (s.radius != 0 && sph_a_s(s, r) != 0 && sph_disc_s(
            s,
            r,
        ) >= 0 && (t_in_range(sph_root1_s(s, r), tmin, tmax) || t_in_range(
            sph_root2_s(s, r),
            tmin,
            tmax,
        ))),
        s.hit_s(r, tmin, tmax) matches Some(rec) ==> {
            &&& t_in_range(rec.t as int, tmin, tmax)
            &&& rec.t as int == (if t_in_range(sph_root1_s(s, r), tmin, tmax) {
                sph_root1_s(s, r)
            } else {
                sph_root2_s(s, r)
            })
            &&& t_in_range(sph_root1_s(s, r), tmin, tmax) ==> rec.t as int <= sph_root1_s(s, r)
            &&& t_in_range(sph_root2_s(s, r), tmin, tmax) ==> rec.t as int <= sph_root2_s(s, r)
            &&& vdot_s(r.direction@, rec.normal@) <= 0
        },
{
    let res = s.hit_s(r, tmin, tmax);
    if res is Some {
        let rec = res->Some_0;
        let root1 = sph_root1_s(s, r);
        let root2 = sph_root2_s(s, r);
        let t = if t_in_range(root1, tmin, tmax) {
            root1
        } else {
            root2
        };
        assert(fx_wf(root1) && fx_wf(root2));
        assert(rec.t as int == t);
        lemma_len_sq_nonneg(r.direction@);
        lemma_sphere_root_order(s, r);
        let p = ray_at_s(r, t);
        let outward = vdiv_scalar_s(vsub_s(p, s.center@), s.radius as int);
        assert(v_wf(outward));
        let n = if vdot_s(r.direction@, outward) < 0 {
            outward
        } else {
            vneg_s(outward)
        };
        assert(v_wf(n));
        lemma_v3_s_view(n);
        if !(vdot_s(r.direction@, outward) < 0) {
            lemma_vdot_neg_right(r.direction@, outward);
        }
    }
}

/// The few facts the scene scan needs of any reported record: its
/// parameter is in range and it is well formed.
pub proof fn lemma_sphere_hit_basic(s: Sphere, r: Ray, tmin: int, tmax: int)
    requires
        s.wf(),
        ray_wf(r),
    ensures
        s.hit_s(r, tmin, tmax) matches Some(rec) ==> t_in_range(rec.t as int, tmin, tmax)
            && rec.wf(),
{
    lemma_sphere_hit_characterization(s, r, tmin, tmax);
    if s.hit_s(r, tmin, tmax) is Some {
        let rec = s.hit_s(r, tmin, tmax)->Some_0;
        let root1 = sph_root1_s(s, r);
        let root2 = sph_root2_s(s, r);
        let t = if t_in_range(root1, tmin, tmax) {
            root1
        } else {
            root2
        };
        let p = ray_at_s(r, t);
        let outward = vdiv_scalar_s(vsub_s(p, s.center@), s.radius as int);
        let n = if vdot_s(r.direction@, outward) < 0 {
            outward
        } else {
            vneg_s(outward)
        };
        assert(v_wf(p) && v_wf(n));
        lemma_v3_s_view(p);
        lemma_v3_s_view(n);
    }
}

/// Narrowing the upper end of the parameter window never changes which
/// point a sphere reports, it can only hide it: a hit found in a narrowed
/// window is exactly the hit of the full window, and a miss in a narrowed
/// window means the full window's hit (if any) lies at or beyond the
/// narrowed end.
pub proof fn lemma_sphere_hit_window(s: Sphere, r: Ray, tmin: int, w: int, tmax: int)
    requires
        s.wf(),
        ray_wf(r),
        w <= tmax,
    ensures
        s.hit_s(r, tmin, w) matches Some(rec) ==> s.hit_s(r, tmin, tmax) == Some(rec),
        s.hit_s(r, tmin, w) is None && (s.hit_s(r, tmin, tmax) matches Some(rec)) ==> (s.hit_s(
            r,
            tmin,
            tmax,
        )->Some_0).t as int >= w,
{
    if s.radius != 0 && sph_a_s(s, r) != 0 && sph_disc_s(s, r) >= 0 {
        lemma_len_sq_nonneg(r.direction@);
        lemma_sphere_root_order(s, r);
        lemma_sphere_hit_characterization(s, r, tmin, w);
        lemma_sphere_hit_characterization(s, r, tmin, tmax);
    }
}

impl Hittable for Sphere {
    /// Model of the sphere intersection: no hit for a degenerate sphere, an
    /// unresolvably short direction, a negative discriminant, or roots out
    /// of range; otherwise the record at the chosen root.
    open spec fn hit_s(&self, r: Ray, tmin: int, tmax: int) -> Option<HitRecord> {
        if self.radius == 0 {
            None
        } else if sph_a_s(*self, r) == 0 {
            None
        } else if sph_disc_s(*self, r) < 0 {
            None
        } else {
            match sph_chosen_root_s(*self, r, tmin, tmax) {
                Some(t) => Some(sph_record_s(*self, r, t)),
                None => None,
            }
        }
    }

    open spec fn hittable_wf(&self) -> bool {
        self.wf()
    }

    fn hit(&self, r: &Ray, ray_tmin: i64, ray_tmax: i64) -> (res: Option<HitRecord>) {
        let oc = self.center.sub(&r.origin);
        let a = r.direction.length_squared();
        let h = Vec3::dot(&r.direction, &oc);
        let c = fx_sub(oc.length_squared(), fx_mul(self.radius, self.radius));

        let discriminant = fx_sub(fx_mul(h, h), fx_mul(a, c));

        if self.radius == 0 {
            return None;
        }
        if a == 0 {
            return None;
        }
        if discriminant < 0 {
            return None;
        }

        let sqrtd = fx_sqrt(discriminant);

        let mut root = fx_div(fx_sub(h, sqrtd), a);

        if !surrounds(ray_tmin, root, ray_tmax) {
            root = fx_div(fx_add(h, sqrtd), a);
            if !surrounds(ray_tmin, root, ray_tmax) {
                return None;
            }
        }

        let t = root;
        let point = r.at(root);
        let normal = point.sub(&self.center).div_scalar(self.radius);

        let res = HitRecord::new(point, normal, t, r, self.material);
        proof {
            let ghost spec_rec = sph_record_s(*self, *r, t as int);
            lemma_v3_s_view(ray_at_s(*r, t as int));
            lemma_v3_s_view(
                if spec_rec.front_face {
                    vdiv_scalar_s(
                        vsub_s(ray_at_s(*r, t as int), self.center@),
                        self.radius as int,
                    )
                } else {
                    vneg_s(
                        vdiv_scalar_s(
                            vsub_s(ray_at_s(*r, t as int), self.center@),
                            self.radius as int,
                        ),
                    )
                },
            );
        }
        Some(res)
    }
}

} // verus!

//! The intersection protocol: the record a successful ray-surface
//! intersection produces, and the capability trait every surface (and the
//! scene aggregate) implements. The stored normal always faces against the
//! incoming ray.

use vstd::prelude::*;
use crate::fixed::fx_wf;
use crate::material::MaterialKind;
use crate::ray::{ray_wf, Ray};
use crate::sphere::{lemma_sphere_hit_basic, lemma_sphere_hit_window, t_in_range, Sphere};
use crate::vec3::{lemma_vdot_neg_right, v_wf, vdot_s, vneg_s, Vec3};

verus! {

/// What a successful intersection reports: the point, the unit-length normal
/// oriented against the incoming ray, the ray parameter, which side the ray
/// came from, and the surface's material.
#[derive(Clone, Copy, PartialEq, Eq, Structural, Debug)]
pub struct HitRecord {
    pub point: Vec3,
    pub normal: Vec3,
    pub t: i64,
    pub front_face: bool,
    pub material: MaterialKind,
}

impl HitRecord {
    /// All components are well formed.
    pub open spec fn wf(&self) -> bool {
        v_wf(self.point@) && v_wf(self.normal@) && fx_wf(self.t as int) && self.material.wf()
    }

    /// Builds a record for a hit of ray `r`, orienting the stored normal
    /// against the ray: `normal` must be the outward surface normal.
    pub fn new(point: Vec3, normal: Vec3, t: i64, r: &Ray, material: MaterialKind) -> (res:
        HitRecord)
        requires
            v_wf(point@),
            v_wf(normal@),
            fx_wf(t as int),
            ray_wf(*r),
            material.wf(),
        ensures
            res.point == point,
            res.t == t,
            res.material == material,
            res.front_face == (vdot_s(r.direction@, normal@) < 0),
            res.front_face ==> res.normal == normal,
            !res.front_face ==> res.normal@ == vneg_s(normal@),
            vdot_s(r.direction@, res.normal@) <= 0,
            res.wf(),
    {
        let mut res = HitRecord { point, normal, t, front_face: false, material };
        res.set_face_normal(r, &normal);
        res
    }

    /// Recomputes the facing flag from the outward normal `n` and flips the
    /// stored normal if the ray arrived from inside.
    pub fn set_face_normal(&mut self, r: &Ray, n: &Vec3)
        requires
            v_wf(old(self).normal@),
            ray_wf(*r),
        ensures
            final(self).front_face == (vdot_s(r.direction@, n@) < 0),
            final(self).front_face ==> final(self).normal == old(self).normal,
            !final(self).front_face ==> final(self).normal@ == vneg_s(old(self).normal@),
            final(self).point == old(self).point,
            final(self).t == old(self).t,
            final(self).material == old(self).material,
            v_wf(final(self).normal@),
            old(self).normal == *n && v_wf(n@) ==> vdot_s(r.direction@, final(self).normal@)
                <= 0,
    {
        self.front_face = Vec3::dot(&r.direction, n) < 0;
        if !self.front_face {
            proof {
                lemma_vdot_neg_right(r.direction@, self.normal@);
            }
            self.normal = self.normal.neg();
        }
    }
}

/// The capability of being intersected by a ray within an open parameter
/// interval. `hit_s` is the implementation's exact model: the executable
/// `hit` must return precisely that value.
pub trait Hittable: Sized {
    /// The model of this surface's intersection result.
    spec fn hit_s(&self, r: Ray, tmin: int, tmax: int) -> Option<HitRecord>;

    /// When the surface's own data is well formed.
    spec fn hittable_wf(&self) -> bool;

    /// The nearest intersection of `r` with this surface at a parameter in
    /// the open interval `(ray_tmin, ray_tmax)`, or `None`.
    fn hit(&self, r: &Ray, ray_tmin: i64, ray_tmax: i64) -> (res: Option<HitRecord>)
        requires
            self.hittable_wf(),
            ray_wf(*r),
        ensures
            res == self.hit_s(*r, ray_tmin as int, ray_tmax as int),
            res matches Some(rec) ==> rec.wf(),
    ;
}

/// Model of the scene-level scan in insertion order: each member is asked
/// for a hit with the upper end of the window narrowed to the closest
/// parameter found so far.
pub open spec fn scan_hit_s(objs: Seq<Sphere>, r: Ray, tmin: int, tmax: int) -> Option<HitRecord>
    decreases objs.len(),
{
    if objs.len() == 0 {
        None
    } else {
        let prefix = scan_hit_s(objs.drop_last(), r, tmin, tmax);
        let cur_tmax = match prefix {
            Some(rec) => rec.t as int,
            None => tmax,
        };
        match objs.last().hit_s(r, tmin, cur_tmax) {
            Some(rec2) => Some(rec2),
            None => prefix,
        }
    }
}

/// The aggregate scene: an ordered collection of spheres, itself hittable
/// by a linear scan that keeps the closest intersection.
pub struct HittableList {
    pub objects: Vec<Sphere>,
}

impl HittableList {
    /// Every member is well formed.
    pub open spec fn wf(&self) -> bool {
        forall|i: int| 0 <= i < self.objects@.len() ==> (#[trigger] self.objects@[i]).wf()
    }

    /// An empty scene.
    pub fn new() -> (r: HittableList)
        ensures
            r.objects@.len() == 0,
            r.wf(),
    {
        HittableList { objects: Vec::new() }
    }

    /// Removes every member.
    pub fn clear(&mut self)
        ensures
            final(self).objects@.len() == 0,
            final(self).wf(),
    {
        self.objects.clear();
    }

    /// Appends a surface; it is visited after all current members.
    pub fn add(&mut self, obj: Sphere)
        requires
            obj.wf(),
            old(self).wf(),
        ensures
            final(self).objects@ == old(self).objects@.push(obj),
            final(self).wf(),
    {
        self.objects.push(obj);
    }
}

impl Default for HittableList {
    /// An empty scene.
    fn default() -> (r: HittableList)
        ensures
            r.objects@.len() == 0,
            r.wf(),
    {
        HittableList::new()
    }
}

/// The scan misses exactly when every member misses the full window.
#[verifier::rlimit(60)]
#[verifier::spinoff_prover]
pub proof fn lemma_scan_none_iff(objs: Seq<Sphere>, r: Ray, tmin: int, tmax: int)
    requires
        forall|i: int| 0 <= i < objs.len() ==> (#[trigger] objs[i]).wf(),
        ray_wf(r),
    ensures
        (scan_hit_s(objs, r, tmin, tmax) is None) <==> (forall|i: int|
            0 <= i < objs.len() ==> (#[trigger] objs[i]).hit_s(r, tmin, tmax) is None),
    decreases objs.len(),
{
    if objs.len() > 0 {
        let prefix_objs = objs.drop_last();
        lemma_scan_none_iff(prefix_objs, r, tmin, tmax);
        lemma_scan_some(prefix_objs, r, tmin, tmax);
        let prefix = scan_hit_s(prefix_objs, r, tmin, tmax);
        let last = objs.last();
        let cur_tmax = match prefix {
            Some(rec) => rec.t as int,
            None => tmax,
        };
        lemma_sphere_hit_window(last, r, tmin, cur_tmax, tmax);
        assert(forall|i: int|
            0 <= i < prefix_objs.len() ==> objs[i] == #[trigger] prefix_objs[i]);
        assert(objs[objs.len() - 1] == last);
        let res = scan_hit_s(objs, r, tmin, tmax);
        if res is None {
            assert(last.hit_s(r, tmin, cur_tmax) is None);
            assert(prefix is None);
            assert(cur_tmax == tmax);
            assert forall|i: int|
                0 <= i < objs.len() implies (#[trigger] objs[i]).hit_s(r, tmin, tmax)
                is None by {
                if i < objs.len() - 1 {
                    assert(objs[i] == prefix_objs[i]);
                    assert(prefix_objs[i].hit_s(r, tmin, tmax) is None);
                }
            }
        } else {
            if last.hit_s(r, tmin, cur_tmax) is Some {
                assert(last.hit_s(r, tmin, tmax) is Some);
                assert(objs[objs.len() - 1].hit_s(r, tmin, tmax) is Some);
            } else {
                assert(prefix is Some);
                let j = choose|i: int|
                    0 <= i < prefix_objs.len() && !((#[trigger] prefix_objs[i]).hit_s(
                        r,
                        tmin,
                        tmax,
                    ) is None);
                assert(objs[j].hit_s(r, tmin, tmax) is Some);
            }
        }
    }
}

/// A record reported by the scan is some member's full-window hit, its
/// parameter is in range and no larger than any member's hit parameter, and
/// it is well formed. (Which member wins an exact parameter tie depends on
/// insertion order.)
#[verifier::rlimit(60)]
#[verifier::spinoff_prover]
pub proof fn lemma_scan_some(objs: Seq<Sphere>, r: Ray, tmin: int, tmax: int)
    requires
        forall|i: int| 0 <= i < objs.len() ==> (#[trigger] objs[i]).wf(),
        ray_wf(r),
    ensures
        scan_hit_s(objs, r, tmin, tmax) matches Some(rec) ==> {
            &&& t_in_range(rec.t as int, tmin, tmax)
            &&& exists|i: int|
                0 <= i < objs.len() && (#[trigger] objs[i]).hit_s(r, tmin, tmax) == Some(rec)
            &&& forall|i: int|
                0 <= i < objs.len() && (#[trigger] objs[i]).hit_s(r, tmin, tmax) is Some
                    ==> rec.t as int <= (objs[i].hit_s(r, tmin, tmax)->Some_0).t as int
            &&& rec.wf()
        },
    decreases objs.len(),
{
    if objs.len() > 0 && scan_hit_s(objs, r, tmin, tmax) is Some {
        let prefix_objs = objs.drop_last();
        lemma_scan_some(prefix_objs, r, tmin, tmax);
        lemma_scan_none_iff(prefix_objs, r, tmin, tmax);
        let prefix = scan_hit_s(prefix_objs, r, tmin, tmax);
        let last = objs.last();
        let cur_tmax = match prefix {
            Some(rec) => rec.t as int,
            None => tmax,
        };
        lemma_sphere_hit_basic(last, r, tmin, cur_tmax);
        lemma_sphere_hit_window(last, r, tmin, cur_tmax, tmax);
        assert(forall|i: int|
            0 <= i < prefix_objs.len() ==> objs[i] == #[trigger] prefix_objs[i]);
        assert(objs[objs.len() - 1] == last);
        let res = scan_hit_s(objs, r, tmin, tmax);
        let rec = res->Some_0;
        match last.hit_s(r, tmin, cur_tmax) {
            Some(rec2) => {
                assert(rec == rec2);
                assert(last.hit_s(r, tmin, tmax) == Some(rec2));
                assert(t_in_range(rec2.t as int, tmin, cur_tmax));
                assert forall|i: int|
                    0 <= i < objs.len() && (#[trigger] objs[i]).hit_s(r, tmin, tmax)
                    is Some implies rec.t as int <= (objs[i].hit_s(r, tmin, tmax)->Some_0).t
                    as int by {
                    if i < objs.len() - 1 {
                        assert(objs[i] == prefix_objs[i]);
                        match prefix {
                            Some(prec) => {
                                assert(prec.t as int <= (prefix_objs[i].hit_s(
                                    r,
                                    tmin,
                                    tmax,
                                )->Some_0).t as int);
                                assert((rec.t as int) < (prec.t as int));
                            },
                            None => {
                                assert(prefix_objs[i].hit_s(r, tmin, tmax) is None);
                            },
                        }
                    }
                }
                assert(objs[objs.len() - 1].hit_s(r, tmin, tmax) == Some(rec));
            },
            None => {
                assert(prefix == res);
                match last.hit_s(r, tmin, tmax) {
                    Some(rlast) => {
                        assert(rlast.t as int >= cur_tmax);
                    },
                    None => {},
                }
                assert forall|i: int|
                    0 <= i < objs.len() && (#[trigger] objs[i]).hit_s(r, tmin, tmax)
                    is Some implies rec.t as int <= (objs[i].hit_s(r, tmin, tmax)->Some_0).t
                    as int by {
                    if i < objs.len() - 1 {
                        assert(objs[i] == prefix_objs[i]);
                    } else {
                        assert(objs[i] == last);
                        assert((last.hit_s(r, tmin, tmax)->Some_0).t as int >= cur_tmax);
                    }
                }
                let j = choose|i: int|
                    0 <= i < prefix_objs.len() && (#[trigger] prefix_objs[i]).hit_s(
                        r,
                        tmin,
                        tmax,
                    ) == Some(rec);
                assert(objs[j].hit_s(r, tmin, tmax) == Some(rec));
            },
        }
    }
}

impl Hittable for HittableList {
    /// Model: the insertion-order scan with a narrowing window.
    open spec fn hit_s(&self, r: Ray, tmin: int, tmax: int) -> Option<HitRecord> {
        scan_hit_s(self.objects@, r, tmin, tmax)
    }

    open spec fn hittable_wf(&self) -> bool {
        self.wf()
    }

    fn hit(&self, r: &Ray, ray_tmin: i64, ray_tmax: i64) -> (res: Option<HitRecord>) {
        let mut hit_record: Option<HitRecord> = None;
        let mut closest_t_so_far = ray_tmax;

        let n = self.objects.len();
        let mut i: usize = 0;
        while i < n
            invariant
                n == self.objects@.len(),
                0 <= i <= n,
                self.wf(),
                ray_wf(*r),
                hit_record == scan_hit_s(
                    self.objects@.take(i as int),
                    *r,
                    ray_tmin as int,
                    ray_tmax as int,
                ),
                closest_t_so_far as int == match hit_record {
                    Some(rec) => rec.t as int,
                    None => ray_tmax as int,
                },
                hit_record matches Some(rec) ==> rec.wf(),
            decreases n - i,
        {
            let object = &self.objects[i];
            let found = object.hit(r, ray_tmin, closest_t_so_far);
            proof {
                assert(self.objects@.take(i + 1).drop_last() =~= self.objects@.take(i as int));
                assert(self.objects@.take(i + 1).last() == self.objects@[i as int]);
            }
            match found {
                None => {},
                Some(record) => {
                    closest_t_so_far = record.t;
                    hit_record = Some(record);
                },
            }
            i = i + 1;
        }
        proof {
            assert(self.objects@.take(n as int) =~= self.objects@);
        }
        hit_record
    }
}

} // verus!

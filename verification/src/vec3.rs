//! Three-component fixed-point vector, used interchangeably as a point, a
//! free direction and an RGB color in linear space. Its view is the triple of
//! raw components as mathematical integers, and every operation is specified
//! exactly by a model function over such triples.

use vstd::prelude::*;
use crate::entropy::Entropy;
use crate::fixed::{
    add_fx, clamp_fx, clamp_s, div_fx, fx_add, fx_div, fx_mul, fx_neg, fx_sqrt, fx_sub, fx_wf,
    is_isqrt, mul_fx, neg_fx, q_fx, sqrt_fx_s, sub_fx, clamp, FX_MAX, SCALE,
};

verus! {

/// 0.999 in raw units (truncated): the top of the displayable color range.
pub const MAX_CHANNEL_FX: i64 = 65470;

/// A vector of three fixed-point scalars.
#[derive(Clone, Copy, PartialEq, Eq, Structural, Debug)]
pub struct Vec3 {
    pub x: i64,
    pub y: i64,
    pub z: i64,
}

/// Colors are vectors whose components are linear RGB channels.
pub type Color = Vec3;

impl View for Vec3 {
    type V = (int, int, int);

    open spec fn view(&self) -> (int, int, int) {
        (self.x as int, self.y as int, self.z as int)
    }
}

/// All three components lie in the saturated scalar range.
pub open spec fn v_wf(v: (int, int, int)) -> bool {
    fx_wf(v.0) && fx_wf(v.1) && fx_wf(v.2)
}

/// Model of componentwise addition.
pub open spec fn vadd_s(a: (int, int, int), b: (int, int, int)) -> (int, int, int) {
    (add_fx(a.0, b.0), add_fx(a.1, b.1), add_fx(a.2, b.2))
}

/// Model of componentwise subtraction.
pub open spec fn vsub_s(a: (int, int, int), b: (int, int, int)) -> (int, int, int) {
    (sub_fx(a.0, b.0), sub_fx(a.1, b.1), sub_fx(a.2, b.2))
}

/// Model of componentwise multiplication.
pub open spec fn vmul_s(a: (int, int, int), b: (int, int, int)) -> (int, int, int) {
    (mul_fx(a.0, b.0), mul_fx(a.1, b.1), mul_fx(a.2, b.2))
}

/// Model of negation.
pub open spec fn vneg_s(a: (int, int, int)) -> (int, int, int) {
    (neg_fx(a.0), neg_fx(a.1), neg_fx(a.2))
}

/// Model of scaling by a scalar.
pub open spec fn vscale_s(a: (int, int, int), s: int) -> (int, int, int) {
    (mul_fx(a.0, s), mul_fx(a.1, s), mul_fx(a.2, s))
}

/// Model of division by a nonzero scalar.
pub open spec fn vdiv_scalar_s(a: (int, int, int), s: int) -> (int, int, int)
    recommends
        s != 0,
{
    (div_fx(a.0, s), div_fx(a.1, s), div_fx(a.2, s))
}

/// Model of the dot product (sum of componentwise products, left to right).
pub open spec fn vdot_s(a: (int, int, int), b: (int, int, int)) -> int {
    add_fx(add_fx(mul_fx(a.0, b.0), mul_fx(a.1, b.1)), mul_fx(a.2, b.2))
}

/// Model of the cross product.
pub open spec fn vcross_s(a: (int, int, int), b: (int, int, int)) -> (int, int, int) {
    (
        sub_fx(mul_fx(a.1, b.2), mul_fx(a.2, b.1)),
        sub_fx(mul_fx(a.2, b.0), mul_fx(a.0, b.2)),
        sub_fx(mul_fx(a.0, b.1), mul_fx(a.1, b.0)),
    )
}

/// Model of the squared length.
pub open spec fn len_sq_s(a: (int, int, int)) -> int {
    vdot_s(a, a)
}

/// Model of normalization: division by the fixed-point square root of the
/// squared length.
pub open spec fn unit_s(a: (int, int, int)) -> (int, int, int)
    recommends
        len_sq_s(a) >= 1,
{
    vdiv_scalar_s(a, sqrt_fx_s(len_sq_s(a)))
}

/// The vector is too short for the grid to resolve (every component is zero).
pub open spec fn near_zero_s(a: (int, int, int)) -> bool {
    a.0 == 0 && a.1 == 0 && a.2 == 0
}

/// Model of mirror reflection about a surface normal.
pub open spec fn reflect_s(v: (int, int, int), n: (int, int, int)) -> (int, int, int) {
    vsub_s(v, vscale_s(n, mul_fx(2 * SCALE, vdot_s(v, n))))
}

/// Model of one gamma-encoded channel: square root for positive linear
/// values, zero otherwise.
pub open spec fn gamma_s(c: int) -> int {
    if c > 0 {
        sqrt_fx_s(c)
    } else {
        0
    }
}

/// Model of quantizing one channel to an integer in [0, 255].
pub open spec fn channel_256_s(c: int) -> int {
    clamp_s(0, gamma_s(c), MAX_CHANNEL_FX as int) / 256
}

/// Model of one component of a range draw: `u * (max - min) + min` for a
/// unit draw `u`.
pub open spec fn rand_range_s(u: int, min: int, max: int) -> int {
    add_fx(mul_fx(u, sub_fx(max, min)), min)
}

/// Model of a range-draw vector whose three draws were all `u`.
pub open spec fn vrand_range_s(u: int, min: int, max: int) -> (int, int, int) {
    (rand_range_s(u, min, max), rand_range_s(u, min, max), rand_range_s(u, min, max))
}

/// Whether a candidate cube point is accepted by rejection sampling: strictly
/// inside the unit sphere and long enough to normalize.
pub open spec fn ruv_accepts_s(c: (int, int, int)) -> bool {
    0 < len_sq_s(c) && len_sq_s(c) < SCALE as int
}

/// The unit vector returned when every rejection attempt failed.
pub open spec fn ruv_fallback_s() -> (int, int, int) {
    (SCALE as int, 0, 0)
}

/// Model of a unit-vector draw when every unit draw returns `u`: the single
/// candidate the fixed source can produce, normalized if acceptable, else the
/// fallback axis.
pub open spec fn ruv_fixed_s(u: int) -> (int, int, int) {
    let c = vrand_range_s(u, -(SCALE as int), SCALE as int);
    if ruv_accepts_s(c) {
        unit_s(c)
    } else {
        ruv_fallback_s()
    }
}

/// The vector whose raw components are the given (in-range) integers.
pub open spec fn v3_s(t: (int, int, int)) -> Vec3 {
    Vec3 { x: t.0 as i64, y: t.1 as i64, z: t.2 as i64 }
}

/// For well-formed triples the spec constructor round-trips with the view.
pub proof fn lemma_v3_s_view(t: (int, int, int))
    requires
        v_wf(t),
    ensures
        (v3_s(t))@ == t,
{
}

/// Model of refraction by Snell's law (see `Vec3::refract`).
pub open spec fn refract_s(uv: (int, int, int), n: (int, int, int), etai_over_etat: int) -> (
    int,
    int,
    int,
) {
    let cos0 = vdot_s(vneg_s(uv), n);
    let cos_theta = if cos0 < SCALE as int {
        cos0
    } else {
        SCALE as int
    };
    let r_out_perp = vscale_s(vadd_s(uv, vscale_s(n, cos_theta)), etai_over_etat);
    let k0 = sub_fx(SCALE as int, len_sq_s(r_out_perp));
    let k = if k0 < 0 {
        -k0
    } else {
        k0
    };
    let r_out_parallel = vscale_s(n, neg_fx(sqrt_fx_s(k)));
    vadd_s(r_out_perp, r_out_parallel)
}

/// An outcome the unit-sphere rejection sampler can produce, whatever the
/// entropy source: a normalized accepted cube candidate, or the fallback
/// axis when every attempt was rejected.
pub open spec fn ruv_outcome_s(o: (int, int, int)) -> bool {
    (exists|c: (int, int, int)| ruv_accepts_s(c) && o == #[trigger] unit_s(c)) || o
        == ruv_fallback_s()
}

/// The candidate a fixed source draws for the unit-disk rejection loop.
pub open spec fn disk_cand_s(u: int) -> (int, int, int) {
    (
        rand_range_s(u, -(SCALE as int), SCALE as int),
        rand_range_s(u, -(SCALE as int), SCALE as int),
        0,
    )
}

/// Whether the unit-disk rejection loop accepts a candidate.
pub open spec fn disk_accepts_s(c: (int, int, int)) -> bool {
    len_sq_s(c) < SCALE as int
}

/// Model of a unit-disk draw when every unit draw returns `u`.
pub open spec fn disk_fixed_s(u: int) -> (int, int, int) {
    if disk_accepts_s(disk_cand_s(u)) {
        disk_cand_s(u)
    } else {
        (0, 0, 0)
    }
}

/// Negating the left argument of a product negates the product.
pub proof fn lemma_mul_fx_neg_left(a: int, b: int)
    requires
        fx_wf(a),
    ensures
        mul_fx(neg_fx(a), b) == -mul_fx(a, b),
{
    assert((-a) * b == -(a * b)) by (nonlinear_arith);
}

/// Negating the right argument of a product negates the product.
pub proof fn lemma_mul_fx_neg_right(a: int, b: int)
    requires
        fx_wf(b),
    ensures
        mul_fx(a, neg_fx(b)) == -mul_fx(a, b),
{
    assert(a * (-b) == -(a * b)) by (nonlinear_arith);
}

/// Negating a vector negates its dot product with any other vector.
pub proof fn lemma_vdot_neg_left(a: (int, int, int), b: (int, int, int))
    requires
        v_wf(a),
    ensures
        vdot_s(vneg_s(a), b) == -vdot_s(a, b),
{
    lemma_mul_fx_neg_left(a.0, b.0);
    lemma_mul_fx_neg_left(a.1, b.1);
    lemma_mul_fx_neg_left(a.2, b.2);
}

/// Negating the second vector negates the dot product.
pub proof fn lemma_vdot_neg_right(a: (int, int, int), b: (int, int, int))
    requires
        v_wf(b),
    ensures
        vdot_s(a, vneg_s(b)) == -vdot_s(a, b),
{
    lemma_mul_fx_neg_right(a.0, b.0);
    lemma_mul_fx_neg_right(a.1, b.1);
    lemma_mul_fx_neg_right(a.2, b.2);
}

/// A draw mapped into a range by `u * (max - min) + min` stays inside the
/// range: at least `min`, at most `max`, and strictly below `max` when the
/// range is nonempty.
pub proof fn lemma_rand_range_bounds(u: int, min: int, max: int)
    requires
        0 <= u < SCALE as int,
        fx_wf(min),
        fx_wf(max),
        min <= max,
    ensures
        min <= rand_range_s(u, min, max) <= max,
        min < max ==> rand_range_s(u, min, max) < max,
{
    let sc = SCALE as int;
    let d0 = max - min;
    let d = sub_fx(max, min);
    assert(0 <= d <= d0);
    assert(u * d >= 0) by (nonlinear_arith)
        requires
            u >= 0,
            d >= 0,
    ;
    vstd::arithmetic::div_mod::lemma_fundamental_div_mod(u * d, sc);
    let q = (u * d) / sc;
    assert(q >= 0) by (nonlinear_arith)
        requires
            u * d >= 0,
            q == (u * d) / sc,
            sc > 0,
    ;
    if d == 0 {
        assert(u * d == 0) by (nonlinear_arith)
            requires
                d == 0,
        ;
        assert(rand_range_s(u, min, max) == min);
    } else {
        // q < d: otherwise u*d would reach sc*d, impossible for u < sc
        assert(u * d < sc * d) by (nonlinear_arith)
            requires
                0 <= u < sc,
                d >= 1,
        ;
        if q >= d {
            assert(sc * q >= sc * d) by (nonlinear_arith)
                requires
                    q >= d,
                    sc > 0,
            ;
            assert(u * d >= sc * q) by (nonlinear_arith)
                requires
                    u * d == sc * q + (u * d) % sc,
                    (u * d) % sc >= 0,
            ;
            assert(false);
        }
        assert(mul_fx(u, d) == q);
        assert(min + q < max);
    }
}

/// A fixed-point square is never negative.
pub proof fn lemma_sq_nonneg(a: int)
    ensures
        mul_fx(a, a) >= 0,
{
    assert(a * a >= 0) by (nonlinear_arith);
    assert(q_fx(a * a) == (a * a) / (SCALE as int));
    assert((a * a) / (SCALE as int) >= 0) by (nonlinear_arith)
        requires
            a * a >= 0,
    ;
}

/// Squared lengths are never negative.
pub proof fn lemma_len_sq_nonneg(a: (int, int, int))
    ensures
        len_sq_s(a) >= 0,
{
    lemma_sq_nonneg(a.0);
    lemma_sq_nonneg(a.1);
    lemma_sq_nonneg(a.2);
}

impl Vec3 {
    /// Builds a vector, saturating each component into the scalar range.
    pub fn new(x: i64, y: i64, z: i64) -> (r: Vec3)
        ensures
            r@ == (clamp_fx(x as int), clamp_fx(y as int), clamp_fx(z as int)),
            v_wf(r@),
    {
        Vec3 { x: clamp(-FX_MAX, x, FX_MAX), y: clamp(-FX_MAX, y, FX_MAX), z: clamp(-FX_MAX, z, FX_MAX) }
    }

    /// The first component.
    pub fn x(&self) -> (r: i64)
        ensures
            r == self@.0,
    {
        self.x
    }

    /// The second component.
    pub fn y(&self) -> (r: i64)
        ensures
            r == self@.1,
    {
        self.y
    }

    /// The third component.
    pub fn z(&self) -> (r: i64)
        ensures
            r == self@.2,
    {
        self.z
    }

    /// Componentwise sum.
    pub fn add(&self, rhs: &Vec3) -> (r: Vec3)
        ensures
            r@ == vadd_s(self@, rhs@),
            v_wf(r@),
    {
        Vec3 { x: fx_add(self.x, rhs.x), y: fx_add(self.y, rhs.y), z: fx_add(self.z, rhs.z) }
    }

    /// Componentwise difference.
    pub fn sub(&self, rhs: &Vec3) -> (r: Vec3)
        ensures
            r@ == vsub_s(self@, rhs@),
            v_wf(r@),
    {
        Vec3 { x: fx_sub(self.x, rhs.x), y: fx_sub(self.y, rhs.y), z: fx_sub(self.z, rhs.z) }
    }

    /// Componentwise product (used to attenuate colors).
    pub fn mul(&self, rhs: &Vec3) -> (r: Vec3)
        ensures
            r@ == vmul_s(self@, rhs@),
            v_wf(r@),
    {
        Vec3 { x: fx_mul(self.x, rhs.x), y: fx_mul(self.y, rhs.y), z: fx_mul(self.z, rhs.z) }
    }

    /// Negation.
    pub fn neg(&self) -> (r: Vec3)
        ensures
            r@ == vneg_s(self@),
            v_wf(r@),
    {
        Vec3 { x: fx_neg(self.x), y: fx_neg(self.y), z: fx_neg(self.z) }
    }

    /// Scaling by a scalar.
    pub fn scale(&self, s: i64) -> (r: Vec3)
        ensures
            r@ == vscale_s(self@, s as int),
            v_wf(r@),
    {
        Vec3 { x: fx_mul(self.x, s), y: fx_mul(self.y, s), z: fx_mul(self.z, s) }
    }

    /// Division by a nonzero scalar.
    pub fn div_scalar(&self, s: i64) -> (r: Vec3)
        requires
            s != 0,
        ensures
            r@ == vdiv_scalar_s(self@, s as int),
            v_wf(r@),
    {
        Vec3 { x: fx_div(self.x, s), y: fx_div(self.y, s), z: fx_div(self.z, s) }
    }

    /// Dot product.
    pub fn dot(a: &Vec3, b: &Vec3) -> (r: i64)
        ensures
            r == vdot_s(a@, b@),
            fx_wf(r as int),
    {
        fx_add(fx_add(fx_mul(a.x, b.x), fx_mul(a.y, b.y)), fx_mul(a.z, b.z))
    }

    /// Cross product.
    pub fn cross(&self, other: &Vec3) -> (r: Vec3)
        ensures
            r@ == vcross_s(self@, other@),
            v_wf(r@),
    {
        Vec3 {
            x: fx_sub(fx_mul(self.y, other.z), fx_mul(self.z, other.y)),
            y: fx_sub(fx_mul(self.z, other.x), fx_mul(self.x, other.z)),
            z: fx_sub(fx_mul(self.x, other.y), fx_mul(self.y, other.x)),
        }
    }

    /// Squared length.
    pub fn length_squared(&self) -> (r: i64)
        ensures
            r == len_sq_s(self@),
            r >= 0,
            fx_wf(r as int),
    {
        proof {
            lemma_len_sq_nonneg(self@);
        }
        Vec3::dot(self, self)
    }

    /// Length: the fixed-point square root of the squared length.
    pub fn length(&self) -> (r: i64)
        ensures
            r == sqrt_fx_s(len_sq_s(self@)),
            r >= 0,
            fx_wf(r as int),
    {
        fx_sqrt(self.length_squared())
    }

    /// The vector rescaled to (approximately) unit length. The caller must
    /// not normalize a vector whose squared length rounds to zero.
    pub fn unit_vector(&self) -> (r: Vec3)
        requires
            len_sq_s(self@) >= 1,
        ensures
            r@ == unit_s(self@),
            v_wf(r@),
    {
        let m = self.length_squared();
        let len = fx_sqrt(m);
        proof {
            assert(is_isqrt(m * (SCALE as int), len as int));
            assert(m * (SCALE as int) >= SCALE as int) by (nonlinear_arith)
                requires
                    m >= 1,
            ;
            assert(len >= 1) by (nonlinear_arith)
                requires
                    is_isqrt(m * (SCALE as int), len as int),
                    m * (SCALE as int) >= SCALE as int,
            ;
        }
        self.div_scalar(len)
    }

    /// True when every component is too small for the grid to resolve.
    pub fn near_zero(&self) -> (r: bool)
        ensures
            r == near_zero_s(self@),
    {
        self.x == 0 && self.y == 0 && self.z == 0
    }

    /// Mirror reflection of `self` about the surface normal.
    pub fn reflect(&self, surface_normal: &Vec3) -> (r: Vec3)
        ensures
            r@ == reflect_s(self@, surface_normal@),
            v_wf(r@),
    {
        self.sub(&surface_normal.scale(fx_mul(2 * SCALE, Vec3::dot(self, surface_normal))))
    }

    /// Gamma encoding of one linear channel: square root of positive values,
    /// zero otherwise.
    pub fn linear_to_gamma(linear_value: i64) -> (r: i64)
        ensures
            r == gamma_s(linear_value as int),
            r >= 0,
            fx_wf(r as int),
    {
        if linear_value > 0 {
            fx_sqrt(linear_value)
        } else {
            0
        }
    }

    /// The three channels gamma-encoded and quantized to integers in
    /// [0, 255], ready for a P3 stream.
    pub fn get_color_256(&self) -> (r: (u8, u8, u8))
        ensures
            r.0 == channel_256_s(self@.0),
            r.1 == channel_256_s(self@.1),
            r.2 == channel_256_s(self@.2),
    {
        let cr = clamp(0, Vec3::linear_to_gamma(self.x), MAX_CHANNEL_FX);
        let cg = clamp(0, Vec3::linear_to_gamma(self.y), MAX_CHANNEL_FX);
        let cb = clamp(0, Vec3::linear_to_gamma(self.z), MAX_CHANNEL_FX);
        ((cr / 256) as u8, (cg / 256) as u8, (cb / 256) as u8)
    }
    /// The refraction of unit direction `uv` at a surface with unit normal
    /// `n`, for the given ratio of refraction indices (Snell's law; the
    /// parallel part's radicand is kept nonnegative by taking its
    /// magnitude, guarding the square root against rounding).
    pub fn refract(uv: &Vec3, n: &Vec3, etai_over_etat: i64) -> (r: Vec3)
        ensures
            r@ == refract_s(uv@, n@, etai_over_etat as int),
            v_wf(r@),
    {
        let cos0 = Vec3::dot(&uv.neg(), n);
        let cos_theta = if cos0 < SCALE {
            cos0
        } else {
            SCALE
        };
        let r_out_perp = uv.add(&n.scale(cos_theta)).scale(etai_over_etat);
        let k0 = fx_sub(SCALE, r_out_perp.length_squared());
        let k = if k0 < 0 {
            -k0
        } else {
            k0
        };
        let r_out_parallel = n.scale(fx_neg(fx_sqrt(k)));
        r_out_perp.add(&r_out_parallel)
    }

    /// A vector whose components are three unit draws (each in [0, 1)).
    pub fn random(e: &Entropy) -> (r: Vec3)
        requires
            e.wf(),
        ensures
            v_wf(r@),
            0 <= r@.0 < SCALE as int,
            0 <= r@.1 < SCALE as int,
            0 <= r@.2 < SCALE as int,
            e.is_fixed() ==> r@ == (e.fixed_val(), e.fixed_val(), e.fixed_val()),
    {
        Vec3 { x: e.next_unit(), y: e.next_unit(), z: e.next_unit() }
    }

    /// A vector whose components are three independent draws mapped into
    /// [min, max) by `u * (max - min) + min`: for an ordered, well-formed
    /// range every component stays inside it (strictly below `max` when the
    /// range is nonempty).
    pub fn random_range(e: &Entropy, min: i64, max: i64) -> (r: Vec3)
        requires
            e.wf(),
        ensures
            v_wf(r@),
            fx_wf(min as int) && fx_wf(max as int) && min <= max ==> {
                &&& min <= r@.0 <= max && min <= r@.1 <= max && min <= r@.2 <= max
                &&& min < max ==> r@.0 < max && r@.1 < max && r@.2 < max
            },
            e.is_fixed() ==> r@ == vrand_range_s(e.fixed_val(), min as int, max as int),
    {
        let d = fx_sub(max, min);
        let ux = e.next_unit();
        let uy = e.next_unit();
        let uz = e.next_unit();
        proof {
            if fx_wf(min as int) && fx_wf(max as int) && min <= max {
                lemma_rand_range_bounds(ux as int, min as int, max as int);
                lemma_rand_range_bounds(uy as int, min as int, max as int);
                lemma_rand_range_bounds(uz as int, min as int, max as int);
            }
        }
        Vec3 {
            x: fx_add(fx_mul(ux, d), min),
            y: fx_add(fx_mul(uy, d), min),
            z: fx_add(fx_mul(uz, d), min),
        }
    }

    /// A (approximately) unit-length vector in a random direction, by
    /// rejection sampling in the cube [-1, 1)^3. Attempts are bounded so the
    /// draw is total for every entropy source; when all candidates are
    /// rejected a fixed axis is returned. Whatever the source, the result is
    /// a normalized accepted candidate or that fallback axis.
    pub fn random_unit_vec(e: &Entropy) -> (r: Vec3)
        requires
            e.wf(),
        ensures
            v_wf(r@),
            ruv_outcome_s(r@),
            e.is_fixed() ==> r@ == ruv_fixed_s(e.fixed_val()),
    {
        let mut attempt: u32 = 0;
        while attempt < 16
            invariant
                e.wf(),
                attempt > 0 && e.is_fixed() ==> !ruv_accepts_s(
                    vrand_range_s(e.fixed_val(), -(SCALE as int), SCALE as int),
                ),
            decreases 16 - attempt,
        {
            let point_in_unit_cube = Vec3::random_range(e, -SCALE, SCALE);
            let magnitude = point_in_unit_cube.length_squared();
            if 0 < magnitude && magnitude < SCALE {
                let u = point_in_unit_cube.unit_vector();
                proof {
                    assert(ruv_accepts_s(point_in_unit_cube@) && u@ == unit_s(
                        point_in_unit_cube@,
                    ));
                }
                return u;
            }
            attempt = attempt + 1;
        }
        Vec3 { x: SCALE, y: 0, z: 0 }
    }

    /// A random point strictly inside the unit disk of the xy-plane, by
    /// rejection sampling in the square [-1, 1)^2. Attempts are bounded so
    /// the draw is total; when all candidates are rejected the disk's center
    /// is returned.
    pub fn random_in_unit_disk(e: &Entropy) -> (r: Vec3)
        requires
            e.wf(),
        ensures
            v_wf(r@),
            len_sq_s(r@) < SCALE as int,
            r@.2 == 0,
            e.is_fixed() ==> r@ == disk_fixed_s(e.fixed_val()),
    {
        let mut attempt: u32 = 0;
        while attempt < 16
            invariant
                e.wf(),
                attempt > 0 && e.is_fixed() ==> !disk_accepts_s(disk_cand_s(e.fixed_val())),
            decreases 16 - attempt,
        {
            let d = fx_sub(SCALE, fx_neg(SCALE));
            let p = Vec3 {
                x: fx_add(fx_mul(e.next_unit(), d), fx_neg(SCALE)),
                y: fx_add(fx_mul(e.next_unit(), d), fx_neg(SCALE)),
                z: 0,
            };
            if p.length_squared() < SCALE {
                return p;
            }
            attempt = attempt + 1;
        }
        proof {
            lemma_len_sq_nonneg((0int, 0int, 0int));
        }
        Vec3 { x: 0, y: 0, z: 0 }
    }

    /// A random unit vector on the hemisphere around the surface normal: a
    /// unit-sphere draw, or its negation when that draw pointed against the
    /// normal, so the result's dot product with the normal is never
    /// negative.
    pub fn random_unit_vec_on_hemisphere(e: &Entropy, surface_normal: &Vec3) -> (r: Vec3)
        requires
            e.wf(),
        ensures
            v_wf(r@),
            vdot_s(r@, surface_normal@) >= 0,
            exists|o: (int, int, int)|
                #[trigger] ruv_outcome_s(o) && (r@ == o || r@ == vneg_s(o)),
    {
        let on_unit_sphere = Vec3::random_unit_vec(e);
        proof {
            assert(ruv_outcome_s(on_unit_sphere@));
        }
        if Vec3::dot(&on_unit_sphere, surface_normal) > 0 {
            on_unit_sphere
        } else {
            proof {
                lemma_vdot_neg_left(on_unit_sphere@, surface_normal@);
            }
            on_unit_sphere.neg()
        }
    }
}

} // verus!

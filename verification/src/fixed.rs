//! Scalar fixed-point arithmetic: an `i64` holds a real number scaled by
//! `SCALE` (so `SCALE` itself is 1.0). Every operation is total: results are
//! saturated into the symmetric range `[-FX_MAX, FX_MAX]`, the fixed-point
//! analogue of a float overflowing to infinity. Each executable operation is
//! specified exactly by a spec-level model function, so callers can reason
//! about results as mathematical integers.

use vstd::prelude::*;

verus! {

use vstd::math::abs;
use vstd::arithmetic::div_mod::lemma_div_is_ordered;

/// Raw units per 1.0: values are counted in 1/65536ths.
pub const SCALE: i64 = 65536;

/// Half of one, in raw units.
pub const HALF: i64 = 32768;

/// Saturation bound: every operation clamps its result into
/// `[-FX_MAX, FX_MAX]` (2^62), keeping the range symmetric.
pub const FX_MAX: i64 = 0x4000_0000_0000_0000;

/// pi in raw units (round(pi * 65536)).
pub const PI_FX: i64 = 205887;

/// Saturate a mathematical integer into the symmetric representable range.
pub open spec fn clamp_fx(n: int) -> int {
    if n > FX_MAX {
        FX_MAX as int
    } else if n < -(FX_MAX as int) {
        -(FX_MAX as int)
    } else {
        n
    }
}

/// A scalar is well formed when it lies in the saturated range; every
/// operation below returns a well-formed scalar.
pub open spec fn fx_wf(a: int) -> bool {
    -(FX_MAX as int) <= a <= FX_MAX as int
}

/// Division by SCALE, truncating toward zero (matching how the executable
/// code divides nonnegative magnitudes).
pub open spec fn q_fx(n: int) -> int {
    if n >= 0 {
        n / (SCALE as int)
    } else {
        -((-n) / (SCALE as int))
    }
}

/// General truncating (toward zero) division, for a nonzero divisor.
pub open spec fn tdiv(n: int, d: int) -> int
    recommends
        d != 0,
{
    let q = (abs(n) / abs(d)) as int;
    if (n < 0) != (d < 0) {
        -q
    } else {
        q
    }
}

/// Model of fixed-point addition.
pub open spec fn add_fx(a: int, b: int) -> int {
    clamp_fx(a + b)
}

/// Model of fixed-point subtraction.
pub open spec fn sub_fx(a: int, b: int) -> int {
    clamp_fx(a - b)
}

/// Model of fixed-point negation.
pub open spec fn neg_fx(a: int) -> int {
    clamp_fx(-a)
}

/// Model of fixed-point multiplication: the wide product, scaled back down
/// with truncation toward zero, then saturated.
pub open spec fn mul_fx(a: int, b: int) -> int {
    clamp_fx(q_fx(a * b))
}

/// Model of fixed-point division (`a / b` as reals), for nonzero `b`.
pub open spec fn div_fx(a: int, b: int) -> int
    recommends
        b != 0,
{
    clamp_fx(tdiv(a * (SCALE as int), b))
}

/// `r` is the integer square root of `n`.
pub open spec fn is_isqrt(n: int, r: int) -> bool {
    0 <= r && r * r <= n && n < (r + 1) * (r + 1)
}

/// The integer square root as a spec-level function.
pub open spec fn isqrt_s(n: int) -> int {
    choose|r: int| is_isqrt(n, r)
}

/// Model of the fixed-point square root of a nonnegative scalar: the integer
/// square root of the value rescaled by SCALE, so that SCALE maps to SCALE.
pub open spec fn sqrt_fx_s(a: int) -> int
    recommends
        a >= 0,
{
    isqrt_s(a * (SCALE as int))
}

/// Integer square roots are unique.
pub proof fn lemma_isqrt_unique(n: int, r1: int, r2: int)
    requires
        is_isqrt(n, r1),
        is_isqrt(n, r2),
    ensures
        r1 == r2,
{
    if r1 < r2 {
        assert((r1 + 1) * (r1 + 1) <= r2 * r2) by (nonlinear_arith)
            requires
                0 <= r1,
                r1 < r2,
        ;
    }
    if r2 < r1 {
        assert((r2 + 1) * (r2 + 1) <= r1 * r1) by (nonlinear_arith)
            requires
                0 <= r2,
                r2 < r1,
        ;
    }
}

/// Every nonnegative integer has an integer square root, so `isqrt_s` is
/// really it.
pub proof fn lemma_isqrt_exists(n: nat)
    ensures
        is_isqrt(n as int, isqrt_s(n as int)),
    decreases n,
{
    if n == 0 {
        assert(is_isqrt(0, 0));
    } else {
        lemma_isqrt_exists((n - 1) as nat);
        let r = isqrt_s(n - 1);
        if n == (r + 1) * (r + 1) {
            assert((r + 2) * (r + 2) > (r + 1) * (r + 1)) by (nonlinear_arith)
                requires
                    r >= 0,
            ;
            assert(is_isqrt(n as int, r + 1));
        } else {
            assert(is_isqrt(n as int, r));
        }
    }
    assert(exists|r: int| is_isqrt(n as int, r));
}

/// Pins the integer square root at a concrete value: whoever exhibits a
/// witness satisfying the square-root property names `isqrt_s` itself.
pub proof fn lemma_isqrt_value(n: nat, r: int)
    requires
        0 <= r,
        r * r <= n,
        n < (r + 1) * (r + 1),
    ensures
        isqrt_s(n as int) == r,
{
    lemma_isqrt_exists(n);
    lemma_isqrt_unique(n as int, isqrt_s(n as int), r);
}

/// Truncating division is monotone in the numerator, for a positive divisor.
pub proof fn lemma_tdiv_mono(n1: int, n2: int, d: int)
    requires
        n1 <= n2,
        d > 0,
    ensures
        tdiv(n1, d) <= tdiv(n2, d),
{
    if n1 >= 0 {
        lemma_div_is_ordered(n1, n2, d);
    } else if n2 < 0 {
        lemma_div_is_ordered(-n2, -n1, d);
    } else {
        lemma_div_is_ordered(0, -n1, d);
        lemma_div_is_ordered(0, n2, d);
    }
}

/// Fixed-point division is monotone in the numerator, for a positive
/// divisor.
pub proof fn lemma_div_fx_mono(a1: int, a2: int, b: int)
    requires
        a1 <= a2,
        b > 0,
    ensures
        div_fx(a1, b) <= div_fx(a2, b),
{
    assert(a1 * (SCALE as int) <= a2 * (SCALE as int)) by (nonlinear_arith)
        requires
            a1 <= a2,
    ;
    lemma_tdiv_mono(a1 * (SCALE as int), a2 * (SCALE as int), b);
}

/// A product of two scalars in the unit interval stays in the unit
/// interval.
pub proof fn lemma_mul_fx_unit_range(a: int, b: int)
    requires
        0 <= a <= SCALE as int,
        0 <= b <= SCALE as int,
    ensures
        0 <= mul_fx(a, b) <= SCALE as int,
{
    assert(0 <= a * b <= (SCALE as int) * (SCALE as int)) by (nonlinear_arith)
        requires
            0 <= a <= SCALE as int,
            0 <= b <= SCALE as int,
    ;
    lemma_div_is_ordered(a * b, (SCALE as int) * (SCALE as int), SCALE as int);
    vstd::arithmetic::div_mod::lemma_div_by_multiple(SCALE as int, SCALE as int);
    lemma_div_is_ordered(0, a * b, SCALE as int);
}

/// A convex blend of two scalars in the unit interval stays in the unit
/// interval: `s * (1 - a) + e * a` for a blend factor `a` in [0, 1].
pub proof fn lemma_blend_unit_range(s: int, e: int, a: int)
    requires
        0 <= s <= SCALE as int,
        0 <= e <= SCALE as int,
        0 <= a <= SCALE as int,
    ensures
        0 <= add_fx(mul_fx(s, sub_fx(SCALE as int, a)), mul_fx(e, a)) <= SCALE as int,
{
    let sc = SCALE as int;
    let x = s * (sc - a);
    let y = e * a;
    assert(0 <= x <= sc * (sc - a)) by (nonlinear_arith)
        requires
            x == s * (sc - a),
            0 <= s <= sc,
            0 <= a <= sc,
    ;
    assert(0 <= y <= sc * a) by (nonlinear_arith)
        requires
            y == e * a,
            0 <= e <= sc,
            0 <= a <= sc,
    ;
    assert(sc * (sc - a) + sc * a == sc * sc) by (nonlinear_arith);
    lemma_div_is_ordered(0, x, sc);
    lemma_div_is_ordered(0, y, sc);
    // floor(x/sc) + floor(y/sc) <= floor((x+y)/sc)
    vstd::arithmetic::div_mod::lemma_fundamental_div_mod(x, sc);
    vstd::arithmetic::div_mod::lemma_fundamental_div_mod(y, sc);
    let qx = x / sc;
    let qy = y / sc;
    assert(x + y >= sc * (qx + qy)) by (nonlinear_arith)
        requires
            x == sc * qx + x % sc,
            y == sc * qy + y % sc,
            x % sc >= 0,
            y % sc >= 0,
    ;
    lemma_div_is_ordered(sc * (qx + qy), x + y, sc);
    vstd::arithmetic::div_mod::lemma_div_by_multiple(qx + qy, sc);
    lemma_div_is_ordered(x + y, sc * sc, sc);
    vstd::arithmetic::div_mod::lemma_div_by_multiple(sc, sc);
}

/// Magnitude of an `i64`, as a `u128`.
fn abs_u128(a: i64) -> (r: u128)
    ensures
        r == abs(a as int),
{
    if a >= 0 {
        a as u128
    } else {
        (-(a as i128)) as u128
    }
}

/// Saturate a nonnegative magnitude with a sign into the well-formed range.
fn clamp_signed(mag: u128, negative: bool) -> (r: i64)
    ensures
        r == clamp_fx(if negative { -(mag as int) } else { mag as int }),
        fx_wf(r as int),
{
    if mag > FX_MAX as u128 {
        if negative {
            -FX_MAX
        } else {
            FX_MAX
        }
    } else {
        if negative {
            -(mag as i64)
        } else {
            mag as i64
        }
    }
}

/// Fixed-point addition, saturating.
pub fn fx_add(a: i64, b: i64) -> (r: i64)
    ensures
        r == add_fx(a as int, b as int),
        fx_wf(r as int),
{
    let s: i128 = (a as i128) + (b as i128);
    if s >= 0 {
        clamp_signed(s as u128, false)
    } else {
        clamp_signed((-s) as u128, true)
    }
}

/// Fixed-point subtraction, saturating.
pub fn fx_sub(a: i64, b: i64) -> (r: i64)
    ensures
        r == sub_fx(a as int, b as int),
        fx_wf(r as int),
{
    let s: i128 = (a as i128) - (b as i128);
    if s >= 0 {
        clamp_signed(s as u128, false)
    } else {
        clamp_signed((-s) as u128, true)
    }
}

/// The magnitude of a product is the product of the magnitudes.
proof fn lemma_abs_mul(a: int, b: int)
    ensures
        abs(a * b) == abs(a) * abs(b),
{
    assert(abs(a * b) == abs(a) * abs(b)) by (nonlinear_arith);
}

/// Fixed-point multiplication, saturating.
pub fn fx_mul(a: i64, b: i64) -> (r: i64)
    ensures
        r == mul_fx(a as int, b as int),
        fx_wf(r as int),
{
    let ma = abs_u128(a);
    let mb = abs_u128(b);
    proof {
        assert((ma as int) * (mb as int) <= 0x8000_0000_0000_0000 * 0x8000_0000_0000_0000)
            by (nonlinear_arith)
            requires
                0 <= ma as int <= 0x8000_0000_0000_0000,
                0 <= mb as int <= 0x8000_0000_0000_0000,
        ;
    }
    let p: u128 = ma * mb;
    let q: u128 = p / (SCALE as u128);
    let negative = (a < 0) != (b < 0);
    proof {
        lemma_abs_mul(a as int, b as int);
        assert(q == (abs((a as int) * (b as int)) as int) / (SCALE as int));
        if (a as int) * (b as int) >= 0 {
            assert(q_fx((a as int) * (b as int)) == q as int);
            if negative {
                assert((a as int) * (b as int) == 0) by (nonlinear_arith)
                    requires
                        (a as int) * (b as int) >= 0,
                        (a < 0) != (b < 0),
                ;
            }
        } else {
            assert(q_fx((a as int) * (b as int)) == -(q as int));
            assert(negative) by (nonlinear_arith)
                requires
                    (a as int) * (b as int) < 0,
                    negative == ((a < 0) != (b < 0)),
            ;
        }
    }
    clamp_signed(q, negative)
}

/// Fixed-point division, saturating. The divisor must be nonzero.
pub fn fx_div(a: i64, b: i64) -> (r: i64)
    requires
        b != 0,
    ensures
        r == div_fx(a as int, b as int),
        fx_wf(r as int),
{
    let ma = abs_u128(a);
    let mb = abs_u128(b);
    let num: u128 = ma * (SCALE as u128);
    let q: u128 = num / mb;
    let negative = (a < 0) != (b < 0);
    proof {
        lemma_abs_mul(a as int, SCALE as int);
        assert(abs((a as int) * (SCALE as int)) == abs(a as int) * (SCALE as int));
        assert(q == (abs((a as int) * (SCALE as int)) as int) / (abs(b as int) as int));
        let n = (a as int) * (SCALE as int);
        assert(a < 0 ==> n < 0 && a > 0 ==> n > 0) by (nonlinear_arith);
        if a == 0 {
            assert(n == 0) by (nonlinear_arith)
                requires
                    n == (a as int) * (SCALE as int),
                    a == 0,
            ;
            assert(q == 0);
            assert(tdiv(n, b as int) == 0);
        } else if a > 0 {
            assert(n > 0) by (nonlinear_arith)
                requires
                    n == (a as int) * (SCALE as int),
                    a > 0,
            ;
            assert(tdiv(n, b as int) == if negative { -(q as int) } else { q as int });
        } else {
            assert(n < 0) by (nonlinear_arith)
                requires
                    n == (a as int) * (SCALE as int),
                    a < 0,
            ;
            assert(tdiv(n, b as int) == if negative { -(q as int) } else { q as int });
        }
    }
    clamp_signed(q, negative)
}

/// Integer square root of `n` by binary search.
pub fn isqrt_u128(n: u128) -> (r: u128)
    requires
        n < 0x4000_0000_0000_0000_0000_0000_0000_0000u128,
    ensures
        is_isqrt(n as int, r as int),
        r == isqrt_s(n as int),
{
    let mut lo: u128 = 0;
    let mut hi: u128 = 0x8000_0000_0000_0000u128;
    while hi - lo > 1
        invariant
            lo < hi,
            hi <= 0x8000_0000_0000_0000u128,
            (lo as int) * (lo as int) <= n as int,
            (n as int) < (hi as int) * (hi as int),
        decreases hi - lo,
    {
        let mid = lo + (hi - lo) / 2;
        proof {
            assert((mid as int) * (mid as int) <= 0x8000_0000_0000_0000 * 0x8000_0000_0000_0000)
                by (nonlinear_arith)
                requires
                    0 <= mid as int <= 0x8000_0000_0000_0000,
            ;
        }
        let sq: u128 = mid * mid;
        if sq <= n {
            lo = mid;
        } else {
            hi = mid;
        }
    }
    proof {
        assert(is_isqrt(n as int, lo as int));
        lemma_isqrt_unique(n as int, lo as int, isqrt_s(n as int));
    }
    lo
}

/// Fixed-point square root of a nonnegative scalar.
pub fn fx_sqrt(a: i64) -> (r: i64)
    requires
        a >= 0,
    ensures
        r == sqrt_fx_s(a as int),
        is_isqrt((a as int) * (SCALE as int), r as int),
        0 <= r,
        fx_wf(r as int),
{
    let n: u128 = (a as u128) * (SCALE as u128);
    proof {
        let am = (a as u128) as int;
        assert(am * 65536 < 0x4000_0000_0000_0000_0000_0000_0000_0000) by (nonlinear_arith)
            requires
                0 <= am < 0x8000_0000_0000_0000,
        ;
    }
    let r = isqrt_u128(n);
    proof {
        let ri = r as int;
        let ni = n as int;
        assert(ni < 0x8000_0000_0000_0000_0000);
        if ri >= 0x1_0000_0000_0000 {
            assert(ri * ri >= 0x1_0000_0000_0000 * 0x1_0000_0000_0000) by (nonlinear_arith)
                requires
                    ri >= 0x1_0000_0000_0000,
            ;
        }
        assert(ri < 0x1_0000_0000_0000);
    }
    r as i64
}

/// Truncating division of a well-formed scalar by a positive integer count
/// (not another scalar): used to split viewports into pixels and to average
/// sample sums.
pub fn fx_div_int(a: i64, n: i64) -> (r: i64)
    requires
        fx_wf(a as int),
        n > 0,
    ensures
        r == tdiv(a as int, n as int),
        fx_wf(r as int),
{
    let ma = abs_u128(a);
    let q: u128 = ma / (n as u128);
    if a < 0 {
        -(q as i64)
    } else {
        q as i64
    }
}

/// A whole pixel count, as a scalar (64 = 64.0).
pub fn fx_from_u32(n: u32) -> (r: i64)
    ensures
        r == (n as int) * (SCALE as int),
        fx_wf(r as int),
{
    (n as i64) * SCALE
}

/// The integer part of a nonnegative scalar.
pub fn fx_floor(a: i64) -> (r: i64)
    requires
        a >= 0,
    ensures
        r == (a as int) / (SCALE as int),
{
    a / SCALE
}

/// Clamps the value x between min and max.
pub fn clamp(min: i64, x: i64, max: i64) -> (r: i64)
    ensures
        r == clamp_s(min as int, x as int, max as int),
{
    if x < min {
        min
    } else if x > max {
        max
    } else {
        x
    }
}

/// Model of `clamp`.
pub open spec fn clamp_s(min: int, x: int, max: int) -> int {
    if x < min {
        min
    } else if x > max {
        max
    } else {
        x
    }
}

/// Checks if x is strictly between min and max.
pub fn surrounds(min: i64, x: i64, max: i64) -> (r: bool)
    ensures
        r == (min < x && x < max),
{
    min < x && x < max
}

/// 180 degrees, in raw units.
pub const DEG180_FX: i64 = 11796480;

/// Model of `degrees_to_radians`.
pub open spec fn deg_to_rad_s(d: int) -> int {
    div_fx(mul_fx(d, PI_FX as int), DEG180_FX as int)
}

/// Converts a scalar angle in degrees to radians.
pub fn degrees_to_radians(degrees: i64) -> (r: i64)
    ensures
        r == deg_to_rad_s(degrees as int),
        fx_wf(r as int),
{
    fx_div(fx_mul(degrees, PI_FX), DEG180_FX)
}

/// Model of `radians_to_degrees`.
pub open spec fn rad_to_deg_s(x: int) -> int {
    div_fx(mul_fx(x, DEG180_FX as int), PI_FX as int)
}

/// Converts a scalar angle in radians to degrees.
pub fn radians_to_degrees(radians: i64) -> (r: i64)
    ensures
        r == rad_to_deg_s(radians as int),
        fx_wf(r as int),
{
    fx_div(fx_mul(radians, DEG180_FX), PI_FX)
}

/// Model of `sin_fx`: a truncated Taylor series in the fixed-point model.
pub open spec fn sin_fx_s(x: int) -> int {
    let x2 = mul_fx(x, x);
    let x3 = mul_fx(x2, x);
    let x5 = mul_fx(x3, x2);
    let x7 = mul_fx(x5, x2);
    let x9 = mul_fx(x7, x2);
    add_fx(
        sub_fx(add_fx(sub_fx(x, tdiv(x3, 6)), tdiv(x5, 120)), tdiv(x7, 5040)),
        tdiv(x9, 362880),
    )
}

/// Sine of a scalar angle in radians, by a truncated Taylor series
/// (intended for arguments within about half a turn of zero).
pub fn sin_fx(x: i64) -> (r: i64)
    requires
        fx_wf(x as int),
    ensures
        r == sin_fx_s(x as int),
        fx_wf(r as int),
{
    let x2 = fx_mul(x, x);
    let x3 = fx_mul(x2, x);
    let x5 = fx_mul(x3, x2);
    let x7 = fx_mul(x5, x2);
    let x9 = fx_mul(x7, x2);
    fx_add(
        fx_sub(fx_add(fx_sub(x, fx_div_int(x3, 6)), fx_div_int(x5, 120)), fx_div_int(x7, 5040)),
        fx_div_int(x9, 362880),
    )
}

/// Model of `cos_fx`: a truncated Taylor series in the fixed-point model.
pub open spec fn cos_fx_s(x: int) -> int {
    let x2 = mul_fx(x, x);
    let x4 = mul_fx(x2, x2);
    let x6 = mul_fx(x4, x2);
    let x8 = mul_fx(x4, x4);
    let x10 = mul_fx(x8, x2);
    sub_fx(
        add_fx(
            sub_fx(add_fx(sub_fx(SCALE as int, tdiv(x2, 2)), tdiv(x4, 24)), tdiv(x6, 720)),
            tdiv(x8, 40320),
        ),
        tdiv(x10, 3628800),
    )
}

/// Cosine of a scalar angle in radians, by a truncated Taylor series
/// (intended for arguments within about half a turn of zero).
pub fn cos_fx(x: i64) -> (r: i64)
    requires
        fx_wf(x as int),
    ensures
        r == cos_fx_s(x as int),
        fx_wf(r as int),
{
    let x2 = fx_mul(x, x);
    let x4 = fx_mul(x2, x2);
    let x6 = fx_mul(x4, x2);
    let x8 = fx_mul(x4, x4);
    let x10 = fx_mul(x8, x2);
    fx_sub(
        fx_add(
            fx_sub(
                fx_add(fx_sub(SCALE, fx_div_int(x2, 2)), fx_div_int(x4, 24)),
                fx_div_int(x6, 720),
            ),
            fx_div_int(x8, 40320),
        ),
        fx_div_int(x10, 3628800),
    )
}

/// Model of `tan_fx`: sine over cosine, saturated where the cosine of the
/// series is not positive.
pub open spec fn tan_fx_s(x: int) -> int {
    if cos_fx_s(x) <= 0 {
        FX_MAX as int
    } else {
        div_fx(sin_fx_s(x), cos_fx_s(x))
    }
}

/// Tangent of a scalar angle in radians. Where the cosine degenerates the
/// result saturates, the analogue of the float tangent blowing up.
pub fn tan_fx(x: i64) -> (r: i64)
    requires
        fx_wf(x as int),
    ensures
        r == tan_fx_s(x as int),
        fx_wf(r as int),
{
    let c = cos_fx(x);
    if c <= 0 {
        FX_MAX
    } else {
        fx_div(sin_fx(x), c)
    }
}

/// Fixed-point negation, saturating.
pub fn fx_neg(a: i64) -> (r: i64)
    ensures
        r == neg_fx(a as int),
        fx_wf(r as int),
{
    let s: i128 = -(a as i128);
    if s >= 0 {
        clamp_signed(s as u128, false)
    } else {
        clamp_signed((-s) as u128, true)
    }
}

} // verus!

//! The fixed-point scalar of the simulation.
//!
//! A raw `i64` value `v` stands for the real number `v / FX_ONE`, with 32
//! fractional bits. Every operation is total: results that would leave the
//! representable range saturate at the `i64` bounds, and a division by zero
//! yields zero. Each executable operation is pinned to an exact spec-level
//! model (`fx_add_s`, `fx_mul_s`, ...) over unbounded integers.

use vstd::prelude::*;

verus! {

/// One whole unit of the 32.32 fixed-point encoding.
pub const FX_ONE: i64 = 4294967296;

pub open spec fn abs_i(v: int) -> int {
    if v >= 0 { v } else { -v }
}

/// Saturation to the range of a raw scalar.
pub open spec fn clamp_s(v: int) -> int {
    if v > i64::MAX as int {
        i64::MAX as int
    } else if v < i64::MIN as int {
        i64::MIN as int
    } else {
        v
    }
}

/// Quotient of `n` and `d`, rounded toward zero; zero when `d` is zero.
pub open spec fn div_tz(n: int, d: int) -> int {
    if d == 0 {
        0
    } else if (n >= 0) == (d > 0) {
        abs_i(n) / abs_i(d)
    } else {
        -(abs_i(n) / abs_i(d))
    }
}

pub open spec fn fx_add_s(a: int, b: int) -> int {
    clamp_s(a + b)
}

pub open spec fn fx_sub_s(a: int, b: int) -> int {
    clamp_s(a - b)
}

pub open spec fn fx_neg_s(a: int) -> int {
    clamp_s(-a)
}

pub open spec fn fx_mul_s(a: int, b: int) -> int {
    clamp_s(div_tz(a * b, FX_ONE as int))
}

pub open spec fn fx_div_s(a: int, b: int) -> int {
    if b == 0 {
        0
    } else {
        clamp_s(div_tz(a * (FX_ONE as int), b))
    }
}

pub open spec fn fx_min_s(a: int, b: int) -> int {
    if a <= b {
        a
    } else {
        b
    }
}

pub open spec fn fx_abs_s(a: int) -> int {
    clamp_s(abs_i(a))
}

/// Magnitude of an `i64`, exact even for `i64::MIN`.
fn abs64(a: i64) -> (r: u64)
    ensures
        r as int == abs_i(a as int),
{
    if a >= 0 {
        a as u64
    } else {
        ((-(a + 1)) as u64) + 1
    }
}

/// Reattaches a sign to a magnitude and saturates into the scalar range.
fn sign_mag_to_fx(neg: bool, mag: u128) -> (r: i64)
    ensures
        r as int == clamp_s(if neg { -(mag as int) } else { mag as int }),
{
    if neg {
        if mag >= 0x8000000000000000u128 {
            i64::MIN
        } else {
            -(mag as i64)
        }
    } else {
        if mag > 0x7fffffffffffffffu128 {
            i64::MAX
        } else {
            mag as i64
        }
    }
}

pub fn fx_add(a: i64, b: i64) -> (r: i64)
    ensures
        r as int == fx_add_s(a as int, b as int),
{
    let s: i128 = a as i128 + b as i128;
    if s > i64::MAX as i128 {
        i64::MAX
    } else if s < i64::MIN as i128 {
        i64::MIN
    } else {
        s as i64
    }
}

pub fn fx_sub(a: i64, b: i64) -> (r: i64)
    ensures
        r as int == fx_sub_s(a as int, b as int),
{
    let s: i128 = a as i128 - b as i128;
    if s > i64::MAX as i128 {
        i64::MAX
    } else if s < i64::MIN as i128 {
        i64::MIN
    } else {
        s as i64
    }
}

pub fn fx_neg(a: i64) -> (r: i64)
    ensures
        r as int == fx_neg_s(a as int),
{
    if a == i64::MIN {
        i64::MAX
    } else {
        -a
    }
}

pub fn fx_abs(a: i64) -> (r: i64)
    ensures
        r as int == fx_abs_s(a as int),
{
    if a >= 0 {
        a
    } else {
        fx_neg(a)
    }
}

pub fn fx_min(a: i64, b: i64) -> (r: i64)
    ensures
        r as int == fx_min_s(a as int, b as int),
{
    if a <= b {
        a
    } else {
        b
    }
}

proof fn lemma_abs_product(a: int, b: int)
    ensures
        abs_i(a * b) == abs_i(a) * abs_i(b),
        (a < 0) != (b < 0) ==> a * b <= 0,
        (a < 0) == (b < 0) ==> a * b >= 0,
{
    assert(abs_i(a * b) == abs_i(a) * abs_i(b) && ((a < 0) != (b < 0) ==> a * b <= 0) && ((a
        < 0) == (b < 0) ==> a * b >= 0)) by (nonlinear_arith);
}

/// Truncating division of a signed product, expressed over sign and magnitude.
proof fn lemma_div_tz_sign_mag(n: int, d: int)
    requires
        d != 0,
    ensures
        div_tz(n, d) == (if (n < 0) != (d < 0) {
            -(abs_i(n) / abs_i(d))
        } else {
            abs_i(n) / abs_i(d)
        }),
{
    if n == 0 {
        assert(abs_i(0int) / abs_i(d) == 0) by {
            assert(0int / abs_i(d) == 0);
        }
    }
}

pub fn fx_mul(a: i64, b: i64) -> (r: i64)
    ensures
        r as int == fx_mul_s(a as int, b as int),
{
    let am: u64 = abs64(a);
    let bm: u64 = abs64(b);
    proof {
        assert((am as int) * (bm as int) <= 0xffffffffffffffffffffffffffffffff)
            by (nonlinear_arith)
            requires
                am <= 0x8000000000000000u64,
                bm <= 0x8000000000000000u64,
        ;
    }
    let m: u128 = (am as u128) * (bm as u128);
    let q: u128 = m / (FX_ONE as u128);
    let neg: bool = (a < 0) != (b < 0);
    let r = sign_mag_to_fx(neg, q);
    proof {
        lemma_abs_product(a as int, b as int);
        lemma_div_tz_sign_mag((a as int) * (b as int), FX_ONE as int);
        assert(abs_i((a as int) * (b as int)) / (FX_ONE as int) == q as int);
        assert(((a as int) * (b as int) < 0) != (FX_ONE < 0) ==> div_tz(
            (a as int) * (b as int),
            FX_ONE as int,
        ) == -(q as int));
    }
    r
}

pub fn fx_div(a: i64, b: i64) -> (r: i64)
    ensures
        r as int == fx_div_s(a as int, b as int),
{
    if b == 0 {
        return 0;
    }
    let am: u64 = abs64(a);
    let bm: u64 = abs64(b);
    let m: u128 = (am as u128) * (FX_ONE as u128);
    let q: u128 = m / (bm as u128);
    let neg: bool = (a < 0) != (b < 0);
    let r = sign_mag_to_fx(neg, q);
    proof {
        lemma_abs_product(a as int, FX_ONE as int);
        lemma_div_tz_sign_mag((a as int) * (FX_ONE as int), b as int);
        assert(abs_i((a as int) * (FX_ONE as int)) == (am as int) * (FX_ONE as int));
        assert(((a as int) * (FX_ONE as int) < 0) == (a < 0));
    }
    r
}

/// The nonnegative integer square root: the unique `r >= 0` with
/// `r * r <= n < (r + 1) * (r + 1)` (zero for `n <= 0`).
pub open spec fn sqrt_floor(n: int) -> int {
    if n <= 0 {
        0
    } else {
        choose|r: int| 0 <= r && #[trigger] (r * r) <= n && (r + 1) * (r + 1) > n
    }
}

/// The square root of a fixed-point scalar: `sqrt(v / S) * S == sqrt(v * S)`.
pub open spec fn fx_sqrt_s(a: int) -> int {
    if a <= 0 {
        0
    } else {
        sqrt_floor(a * (FX_ONE as int))
    }
}

proof fn lemma_sqrt_floor_unique(n: int, r: int)
    requires
        n > 0,
        0 <= r,
        r * r <= n,
        (r + 1) * (r + 1) > n,
    ensures
        sqrt_floor(n) == r,
{
    assert(exists|x: int| 0 <= x && #[trigger] (x * x) <= n && (x + 1) * (x + 1) > n) by {
        assert(0 <= r && r * r <= n && (r + 1) * (r + 1) > n);
    }
    let c = choose|x: int| 0 <= x && #[trigger] (x * x) <= n && (x + 1) * (x + 1) > n;
    if c < r {
        assert((c + 1) * (c + 1) <= r * r) by (nonlinear_arith)
            requires
                0 <= c,
                c + 1 <= r,
        ;
    }
    if r < c {
        assert((r + 1) * (r + 1) <= c * c) by (nonlinear_arith)
            requires
                0 <= r,
                r + 1 <= c,
        ;
    }
}

pub fn fx_sqrt(a: i64) -> (r: i64)
    ensures
        r as int == fx_sqrt_s(a as int),
        r >= 0,
{
    if a <= 0 {
        return 0;
    }
    proof {
        assert((a as int) * (FX_ONE as int) <= 0xffffffffffffffffffffffffffffffff)
            by (nonlinear_arith)
            requires
                0 < a <= 0x7fffffffffffffffi64,
        ;
    }
    let n: u128 = (a as u128) * (FX_ONE as u128);
    let mut lo: u128 = 0;
    let mut hi: u128 = 0x1000000000000u128;
    proof {
        assert((0x1000000000000u128 as int) * (0x1000000000000u128 as int) > n as int);
    }
    while lo + 1 < hi
        invariant
            (lo as int) * (lo as int) <= n as int,
            (hi as int) * (hi as int) > n as int,
            lo < hi,
            hi <= 0x1000000000000u128,
        decreases hi - lo,
    {
        let mid: u128 = lo + (hi - lo) / 2;
        proof {
            assert(lo < mid && mid < hi);
            assert((mid as int) * (mid as int) < 0xffffffffffffffffffffffffffffffff)
                by (nonlinear_arith)
                requires
                    mid < 0x1000000000000u128,
            ;
        }
        if mid * mid <= n {
            lo = mid;
        } else {
            hi = mid;
        }
    }
    proof {
        assert(hi == lo + 1);
        lemma_sqrt_floor_unique(n as int, lo as int);
    }
    lo as i64
}

/// pi, half pi and two pi in raw fixed-point units.
pub const PI_RAW: i64 = 13493037704;

pub const HALF_PI_RAW: i64 = 6746518852;

pub const TWO_PI_RAW: i64 = 26986075408;

/// 6, 120 and 5040 as fixed-point scalars (the Taylor denominators of sine).
pub const FX_SIX: i64 = 25769803776;

pub const FX_ONE_TWENTY: i64 = 515396075520;

pub const FX_FIVE_THOUSAND_FORTY: i64 = 21646635171840;

/// Remainder of an angle modulo one full turn, with the sign of the angle.
pub open spec fn angle_rem_s(a: int) -> int {
    let m = abs_i(a) % (TWO_PI_RAW as int);
    if a >= 0 {
        m
    } else {
        -m
    }
}

/// Reduction of an angle into `[-pi, pi]`.
pub open spec fn angle_reduce_s(a: int) -> int {
    let rem = angle_rem_s(a);
    if rem > PI_RAW as int {
        rem - TWO_PI_RAW as int
    } else if rem < -(PI_RAW as int) {
        rem + TWO_PI_RAW as int
    } else {
        rem
    }
}

/// Reflection of a reduced angle into `[-pi/2, pi/2]`, preserving its sine.
pub open spec fn fold_quadrant_s(x: int) -> int {
    if x > HALF_PI_RAW as int {
        PI_RAW as int - x
    } else if x < -(HALF_PI_RAW as int) {
        -(PI_RAW as int) - x
    } else {
        x
    }
}

/// Four-term Taylor polynomial of sine on `[-pi/2, pi/2]`.
pub open spec fn sin_poly_s(x: int) -> int {
    let x2 = fx_mul_s(x, x);
    let x3 = fx_mul_s(x2, x);
    let x5 = fx_mul_s(x3, x2);
    let x7 = fx_mul_s(x5, x2);
    fx_sub_s(
        fx_add_s(fx_sub_s(x, fx_div_s(x3, FX_SIX as int)), fx_div_s(x5, FX_ONE_TWENTY as int)),
        fx_div_s(x7, FX_FIVE_THOUSAND_FORTY as int),
    )
}

pub open spec fn fx_sin_s(a: int) -> int {
    sin_poly_s(fold_quadrant_s(angle_reduce_s(a)))
}

pub open spec fn fx_cos_s(a: int) -> int {
    fx_sin_s(fx_add_s(a, HALF_PI_RAW as int))
}

pub fn fx_sin(a: i64) -> (r: i64)
    ensures
        r as int == fx_sin_s(a as int),
{
    let am: u64 = abs64(a);
    let rm: u64 = am % (TWO_PI_RAW as u64);
    let r0: i64 = if a >= 0 {
        rm as i64
    } else {
        -(rm as i64)
    };
    let x: i64 = if r0 > PI_RAW {
        r0 - TWO_PI_RAW
    } else if r0 < -PI_RAW {
        r0 + TWO_PI_RAW
    } else {
        r0
    };
    let y: i64 = if x > HALF_PI_RAW {
        PI_RAW - x
    } else if x < -HALF_PI_RAW {
        -PI_RAW - x
    } else {
        x
    };
    let y2 = fx_mul(y, y);
    let y3 = fx_mul(y2, y);
    let y5 = fx_mul(y3, y2);
    let y7 = fx_mul(y5, y2);
    let t1 = fx_sub(y, fx_div(y3, FX_SIX));
    let t2 = fx_add(t1, fx_div(y5, FX_ONE_TWENTY));
    fx_sub(t2, fx_div(y7, FX_FIVE_THOUSAND_FORTY))
}

pub fn fx_cos(a: i64) -> (r: i64)
    ensures
        r as int == fx_cos_s(a as int),
{
    fx_sin(fx_add(a, HALF_PI_RAW))
}

/// Scaling by a zero factor yields exactly zero.
pub proof fn lemma_fx_mul_zero(a: int)
    ensures
        fx_mul_s(a, 0) == 0,
        fx_mul_s(0, a) == 0,
{
}

/// A product of scalars of equal sign is nonnegative.
pub proof fn lemma_fx_mul_nonneg(a: int, b: int)
    requires
        a >= 0,
        b >= 0,
    ensures
        fx_mul_s(a, b) >= 0,
{
    lemma_abs_product(a, b);
}

/// The sign of a fixed-point product follows the signs of its factors
/// (truncation and saturation preserve sign).
pub proof fn lemma_fx_mul_signs(a: int, b: int)
    ensures
        a >= 0 && b >= 0 ==> fx_mul_s(a, b) >= 0,
        a <= 0 && b <= 0 ==> fx_mul_s(a, b) >= 0,
        a >= 0 && b <= 0 ==> fx_mul_s(a, b) <= 0,
        a <= 0 && b >= 0 ==> fx_mul_s(a, b) <= 0,
{
    lemma_abs_product(a, b);
}

/// A quotient of nonnegative scalars is nonnegative.
pub proof fn lemma_fx_div_nonneg(a: int, b: int)
    requires
        a >= 0,
        b >= 0,
    ensures
        fx_div_s(a, b) >= 0,
{
    if b != 0 {
        lemma_abs_product(a, FX_ONE as int);
    }
}

} // verus!

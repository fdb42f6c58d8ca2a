//! Fixed-point scalar arithmetic.
//!
//! Every real quantity of the renderer (coordinates, colors, ray parameters)
//! is a binary fixed-point number: an `i64` holding the value times
//! `FX_SCALE`.  All operations round toward zero and saturate into
//! `[-FX_MAX, FX_MAX]`, so they are total and their results are pinned
//! exactly by the spec functions below.

use vstd::prelude::*;

verus! {

/// One, as a fixed-point value: 16 fractional bits.
pub const FX_SCALE: i64 = 65536;

/// Largest magnitude a fixed-point value may take; every arithmetic helper
/// saturates its result into `[-FX_MAX, FX_MAX]`.
pub const FX_MAX: i64 = 0x7fff_ffff_ffff;

/// Saturation into the fixed-point range.
pub open spec fn sat(v: int) -> int {
    if v > FX_MAX as int {
        FX_MAX as int
    } else if v < -(FX_MAX as int) {
        -(FX_MAX as int)
    } else {
        v
    }
}

/// Division rounded toward zero (the rounding of the executable code),
/// total: division by zero gives zero.
pub open spec fn tdiv(a: int, b: int) -> int {
    if b == 0 {
        0
    } else if b > 0 {
        if a >= 0 {
            a / b
        } else {
            -((-a) / b)
        }
    } else {
        if a >= 0 {
            -(a / (-b))
        } else {
            (-a) / (-b)
        }
    }
}

pub open spec fn fx_add_s(a: int, b: int) -> int {
    sat(a + b)
}

pub open spec fn fx_sub_s(a: int, b: int) -> int {
    sat(a - b)
}

pub open spec fn fx_neg_s(a: int) -> int {
    sat(-a)
}

pub open spec fn fx_mul_s(a: int, b: int) -> int {
    sat(tdiv(a * b, 65536))
}

pub open spec fn fx_div_s(a: int, b: int) -> int {
    if b == 0 {
        0
    } else {
        sat(tdiv(a * 65536, b))
    }
}

/// `r` is the integer square root of `n`.
pub open spec fn is_sqrt(n: int, r: int) -> bool {
    &&& r >= 0
    &&& r * r <= n
    &&& (r + 1) * (r + 1) > n
}

/// The integer square root, as a function.
pub open spec fn sqrt_s(n: int) -> int
    decreases n,
{
    if n <= 0 {
        0
    } else {
        let p = sqrt_s(n - 1);
        if (p + 1) * (p + 1) <= n {
            p + 1
        } else {
            p
        }
    }
}

/// Square root of a fixed-point value (zero on nonpositive input):
/// `sqrt(v / S) * S == sqrt(v * S)` for the scale `S`.
pub open spec fn fx_sqrt_s(a: int) -> int {
    if a <= 0 {
        0
    } else {
        sqrt_s(a * 65536)
    }
}

pub proof fn lemma_sqrt_s_is_sqrt(n: int)
    requires
        n >= 0,
    ensures
        is_sqrt(n, sqrt_s(n)),
    decreases n,
{
    if n == 0 {
    } else {
        lemma_sqrt_s_is_sqrt(n - 1);
        let p = sqrt_s(n - 1);
        if (p + 1) * (p + 1) <= n {
            assert((p + 1) * (p + 1) > n - 1);
            assert((p + 2) * (p + 2) > (p + 1) * (p + 1)) by (nonlinear_arith)
                requires
                    p >= 0,
            ;
        }
    }
}

pub proof fn lemma_sqrt_unique(n: int, r: int)
    requires
        n >= 0,
        is_sqrt(n, r),
    ensures
        r == sqrt_s(n),
{
    lemma_sqrt_s_is_sqrt(n);
    lemma_sqrt_unique_aux(n, r, sqrt_s(n));
}

proof fn lemma_sqrt_unique_aux(n: int, r: int, s: int)
    by (nonlinear_arith)
    requires
        r >= 0,
        s >= 0,
        r * r <= n,
        (r + 1) * (r + 1) > n,
        s * s <= n,
        (s + 1) * (s + 1) > n,
    ensures
        r == s,
{
}

pub proof fn lemma_tdiv_nonneg(n: int, d: int)
    requires
        n >= 0,
        d > 0,
    ensures
        0 <= tdiv(n, d) <= n,
{
    vstd::arithmetic::div_mod::lemma_div_pos_is_pos(n, d);
    vstd::arithmetic::div_mod::lemma_div_basics_5(n, d);
}

pub proof fn lemma_tdiv_mono(n1: int, n2: int, d: int)
    requires
        n1 <= n2,
        d > 0,
    ensures
        tdiv(n1, d) <= tdiv(n2, d),
{
    if n1 >= 0 {
        vstd::arithmetic::div_mod::lemma_div_is_ordered(n1, n2, d);
    } else if n2 < 0 {
        vstd::arithmetic::div_mod::lemma_div_is_ordered(-n2, -n1, d);
    } else {
        lemma_tdiv_nonneg(-n1, d);
        lemma_tdiv_nonneg(n2, d);
    }
}

/// Scaling by one fixed-point unit and dividing it away again is exact.
pub proof fn lemma_tdiv_scale_cancel(x: int)
    ensures
        tdiv(x * 65536, 65536) == x,
{
    if x >= 0 {
        vstd::arithmetic::div_mod::lemma_div_multiples_vanish(x, 65536);
    } else {
        vstd::arithmetic::div_mod::lemma_div_multiples_vanish(-x, 65536);
    }
}

/// Multiplying by minus one in fixed point is exact negation.
pub proof fn lemma_fx_mul_neg_one(x: int)
    ensures
        fx_mul_s(x, -65536) == fx_neg_s(x),
{
    lemma_tdiv_scale_cancel(-x);
    assert(x * (-65536) == (-x) * 65536);
}

proof fn lemma_mul_i64_fits(a: int, b: int)
    by (nonlinear_arith)
    requires
        -0x8000_0000_0000_0000 <= a <= 0x7fff_ffff_ffff_ffff,
        -0x8000_0000_0000_0000 <= b <= 0x7fff_ffff_ffff_ffff,
    ensures
        -0x4000_0000_0000_0000_0000_0000_0000_0000 <= a * b
            <= 0x4000_0000_0000_0000_0000_0000_0000_0000,
{
}

/// Quotient rounded toward zero, on `i128` operands.
fn tdiv_i128(a: i128, b: i128) -> (r: i128)
    requires
        b != 0,
        a != i128::MIN,
        b != i128::MIN,
    ensures
        r == tdiv(a as int, b as int),
{
    let aa: u128 = if a < 0 {
        (-a) as u128
    } else {
        a as u128
    };
    let bb: u128 = if b < 0 {
        (-b) as u128
    } else {
        b as u128
    };
    let q: u128 = aa / bb;
    proof {
        assert(q <= aa) by (nonlinear_arith)
            requires
                bb >= 1,
                q == aa as int / bb as int,
                aa >= 0,
        ;
    }
    if (a < 0) != (b < 0) {
        -(q as i128)
    } else {
        q as i128
    }
}

/// Quotient rounded toward zero and saturated into the fixed-point range.
pub fn sat_tdiv_i128(a: i128, b: i128) -> (r: i64)
    requires
        b != 0,
        a != i128::MIN,
        b != i128::MIN,
    ensures
        r == sat(tdiv(a as int, b as int)),
{
    sat_i128(tdiv_i128(a, b))
}

/// Saturation of an `i128` into the fixed-point range.
fn sat_i128(v: i128) -> (r: i64)
    ensures
        r == sat(v as int),
{
    if v > FX_MAX as i128 {
        FX_MAX
    } else if v < -(FX_MAX as i128) {
        -FX_MAX
    } else {
        v as i64
    }
}

pub fn fx_add(a: i64, b: i64) -> (r: i64)
    ensures
        r == fx_add_s(a as int, b as int),
{
    sat_i128((a as i128) + (b as i128))
}

pub fn fx_sub(a: i64, b: i64) -> (r: i64)
    ensures
        r == fx_sub_s(a as int, b as int),
{
    sat_i128((a as i128) - (b as i128))
}

pub fn fx_neg(a: i64) -> (r: i64)
    ensures
        r == fx_neg_s(a as int),
{
    sat_i128(-(a as i128))
}

pub fn fx_mul(a: i64, b: i64) -> (r: i64)
    ensures
        r == fx_mul_s(a as int, b as int),
{
    proof {
        lemma_mul_i64_fits(a as int, b as int);
    }
    let wide: i128 = (a as i128) * (b as i128);
    sat_i128(tdiv_i128(wide, FX_SCALE as i128))
}

pub fn fx_div(a: i64, b: i64) -> (r: i64)
    ensures
        r == fx_div_s(a as int, b as int),
{
    if b == 0 {
        0
    } else {
        let wide: i128 = (a as i128) * 65536i128;
        sat_i128(tdiv_i128(wide, b as i128))
    }
}

/// Integer square root by bisection.
pub fn isqrt(n: u128) -> (r: u64)
    ensures
        is_sqrt(n as int, r as int),
        r == sqrt_s(n as int),
{
    let mut lo: u128 = 0;
    let mut hi: u128 = 0xffff_ffff_ffff_ffff;
    proof {
        assert((hi as int + 1) * (hi as int + 1) > n as int);
    }
    while lo < hi
        invariant
            lo <= hi,
            hi <= 0xffff_ffff_ffff_ffff,
            (lo as int) * (lo as int) <= n as int,
            (hi as int + 1) * (hi as int + 1) > n as int,
        decreases hi - lo,
    {
        let mid: u128 = lo + (hi - lo + 1) / 2;
        proof {
            assert(mid * mid <= 0xffff_ffff_ffff_ffff * 0xffff_ffff_ffff_ffff)
                by (nonlinear_arith)
                requires
                    0 <= mid <= 0xffff_ffff_ffff_ffff,
            ;
        }
        if mid * mid <= n {
            lo = mid;
        } else {
            hi = mid - 1;
        }
    }
    proof {
        lemma_sqrt_unique(n as int, lo as int);
    }
    lo as u64
}

/// A small integer, taken into fixed point.
pub fn fx_from_u32(i: u32) -> (r: i64)
    ensures
        r == sat((i as int) * 65536),
{
    sat_i128((i as i128) * 65536i128)
}

/// A small signed integer, taken into fixed point.
pub fn fx_from_i32(i: i32) -> (r: i64)
    ensures
        r == sat((i as int) * 65536),
{
    sat_i128((i as i128) * 65536i128)
}

pub fn fx_sqrt(a: i64) -> (r: i64)
    ensures
        r == fx_sqrt_s(a as int),
{
    if a <= 0 {
        0
    } else {
        let n: u128 = (a as u128) * 65536u128;
        let r = isqrt(n);
        proof {
            assert(r < 0x1_0000_0000_0000) by (nonlinear_arith)
                requires
                    (r as int) * (r as int) <= n as int,
                    n <= 0x7fff_ffff_ffff_ffff_0000,
                    r >= 0,
            ;
        }
        r as i64
    }
}

} // verus!

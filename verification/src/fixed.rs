//! Fixed-point scalars: an `i64` holds a real number scaled by `SCALE`.
//!
//! Every arithmetic step truncates its quotient toward zero and clips the
//! outcome symmetrically into `[-FX_MAX, FX_MAX]`, so each operation is a
//! total function that the spec-level mirror (`fx_add_s`, `fx_mul_s`, ...)
//! describes exactly.

use vstd::prelude::*;

verus! {

/// One whole unit: the fixed-point representation of 1.0.
pub const SCALE: i64 = 1_000_000;

/// Largest magnitude a fixed-point scalar may carry. The clip range is
/// symmetric (`-FX_MAX ..= FX_MAX`) so that negation is always exact.
pub const FX_MAX: i64 = 9_223_372_036_854_775_807;

/// Clip an unbounded integer into the symmetric fixed-point range.
pub open spec fn sat64(x: int) -> int {
    if x > FX_MAX as int {
        FX_MAX as int
    } else if x < -(FX_MAX as int) {
        -(FX_MAX as int)
    } else {
        x
    }
}

/// Division with the quotient truncated toward zero, as machine division
/// does it; meaningful for positive divisors.
pub open spec fn tdiv(a: int, b: int) -> int
    recommends
        b > 0,
{
    if a >= 0 {
        a / b
    } else {
        -((-a) / b)
    }
}

/// Spec mirror of fixed-point addition.
pub open spec fn fx_add_s(a: int, b: int) -> int {
    sat64(a + b)
}

/// Spec mirror of fixed-point subtraction.
pub open spec fn fx_sub_s(a: int, b: int) -> int {
    sat64(a - b)
}

/// Spec mirror of fixed-point multiplication: the raw product carries a
/// factor `SCALE` too many, which one truncating division removes.
pub open spec fn fx_mul_s(a: int, b: int) -> int {
    sat64(tdiv(a * b, SCALE as int))
}

/// Spec mirror of fixed-point division by a positive fixed-point divisor.
pub open spec fn fx_div_s(a: int, b: int) -> int
    recommends
        b > 0,
{
    sat64(tdiv(a * (SCALE as int), b))
}

/// Spec mirror of dividing a fixed-point value by a positive sample count.
pub open spec fn div_n_s(a: int, n: int) -> int
    recommends
        n > 0,
{
    sat64(tdiv(a, n))
}

/// Whether `r` is the integer square root (floor) of `v`.
pub open spec fn is_floor_sqrt(v: int, r: int) -> bool {
    0 <= r && r * r <= v && v < (r + 1) * (r + 1)
}

/// The integer square root of a nonnegative `v`, as the unique `r` with
/// `r * r <= v < (r + 1) * (r + 1)`.
pub open spec fn sqrt_floor(v: int) -> int {
    choose|r: int| is_floor_sqrt(v, r)
}

/// The floor square root is unique, so any witness pins `sqrt_floor` down.
pub proof fn lemma_sqrt_floor_is(v: int, r: int)
    requires
        is_floor_sqrt(v, r),
    ensures
        sqrt_floor(v) == r,
{
    assert(is_floor_sqrt(v, sqrt_floor(v)));
    let r2 = sqrt_floor(v);
    if r2 < r {
        assert((r2 + 1) * (r2 + 1) <= r * r) by (nonlinear_arith)
            requires
                0 <= r2,
                r2 + 1 <= r,
        ;
    }
    if r2 > r {
        assert((r + 1) * (r + 1) <= r2 * r2) by (nonlinear_arith)
            requires
                0 <= r,
                r + 1 <= r2,
        ;
    }
}

/// Clip an `i128` into the fixed-point range.
pub(crate) fn sat_i64(x: i128) -> (r: i64)
    ensures
        r as int == sat64(x as int),
{
    if x > FX_MAX as i128 {
        FX_MAX
    } else if x < -(FX_MAX as i128) {
        -FX_MAX
    } else {
        x as i64
    }
}

/// Truncating division on `i128`, carried out through unsigned division so
/// that the rounding direction is explicit.
pub(crate) fn tdiv_i128(a: i128, b: i128) -> (r: i128)
    requires
        b > 0,
        a > i128::MIN,
    ensures
        r as int == tdiv(a as int, b as int),
{
    if a >= 0 {
        let q: u128 = (a as u128) / (b as u128);
        q as i128
    } else {
        let na: i128 = -a;
        let q: u128 = (na as u128) / (b as u128);
        -(q as i128)
    }
}

/// Fixed-point addition.
pub fn fx_add(a: i64, b: i64) -> (r: i64)
    ensures
        r as int == fx_add_s(a as int, b as int),
{
    sat_i64(a as i128 + b as i128)
}

/// Fixed-point subtraction.
pub fn fx_sub(a: i64, b: i64) -> (r: i64)
    ensures
        r as int == fx_sub_s(a as int, b as int),
{
    sat_i64(a as i128 - b as i128)
}

/// Fixed-point multiplication.
pub fn fx_mul(a: i64, b: i64) -> (r: i64)
    ensures
        r as int == fx_mul_s(a as int, b as int),
{
    proof {
        assert(-0x4000_0000_0000_0000_0000_0000_0000_0000 <= (a as int) * (b as int)
            <= 0x4000_0000_0000_0000_0000_0000_0000_0000) by (nonlinear_arith)
            requires
                i64::MIN as int <= a as int <= i64::MAX as int,
                i64::MIN as int <= b as int <= i64::MAX as int,
        ;
    }
    let p: i128 = (a as i128) * (b as i128);
    let q = tdiv_i128(p, SCALE as i128);
    sat_i64(q)
}

/// Fixed-point division by a positive fixed-point divisor.
pub fn fx_div(a: i64, b: i64) -> (r: i64)
    requires
        b > 0,
    ensures
        r as int == fx_div_s(a as int, b as int),
{
    proof {
        assert(-0x4000_0000_0000_0000_0000_0000_0000_0000 <= (a as int) * (SCALE as int)
            <= 0x4000_0000_0000_0000_0000_0000_0000_0000) by (nonlinear_arith)
            requires
                i64::MIN as int <= a as int <= i64::MAX as int,
                0 < SCALE as int <= i64::MAX as int,
        ;
    }
    let p: i128 = (a as i128) * (SCALE as i128);
    let q = tdiv_i128(p, b as i128);
    sat_i64(q)
}

/// Divide a fixed-point value by a positive sample count.
pub fn fx_div_n(a: i64, n: usize) -> (r: i64)
    requires
        n > 0,
    ensures
        r as int == div_n_s(a as int, n as int),
{
    let q = tdiv_i128(a as i128, n as i128);
    sat_i64(q)
}

/// Multiply an accumulated gradient sum by `-2`, then divide by a positive
/// sample count, truncating toward zero.
pub fn fx_scale_neg2_div_n(raw: i64, n: usize) -> (r: i64)
    requires
        n > 0,
    ensures
        r as int == sat64(tdiv((raw as int) * -2, n as int)),
{
    proof {
        assert(-0x2_0000_0000_0000_0000 <= (raw as int) * -2 <= 0x2_0000_0000_0000_0000)
            by (nonlinear_arith)
            requires
                i64::MIN as int <= raw as int <= i64::MAX as int,
        ;
    }
    let p: i128 = (raw as i128) * -2;
    let q = tdiv_i128(p, n as i128);
    sat_i64(q)
}

/// Fixed-point square root of a nonnegative fixed-point value: the integer
/// square root of `v * SCALE`, which is again at fixed-point scale.
pub fn fx_sqrt(v: i64) -> (r: i64)
    requires
        v >= 0,
    ensures
        r as int == sqrt_floor((v as int) * (SCALE as int)),
        r >= 0,
        is_floor_sqrt((v as int) * (SCALE as int), r as int),
{
    proof {
        assert((v as int) * (SCALE as int) <= (FX_MAX as int) * (SCALE as int)) by (nonlinear_arith)
            requires
                0 <= v as int <= FX_MAX as int,
                0 < SCALE as int,
        ;
    }
    let prod: u128 = (v as u128) * (SCALE as u128);
    let r0 = isqrt(prod);
    proof {
        lemma_sqrt_floor_is(prod as int, r0 as int);
        assert(r0 as int <= 0x7FFF_FFFF_FFFF_FFFF) by (nonlinear_arith)
            requires
                0 <= r0 as int,
                (r0 as int) * (r0 as int) <= prod as int,
                prod as int <= (FX_MAX as int) * (SCALE as int),
        ;
    }
    r0 as i64
}

/// Integer square root: the largest `r` with `r * r <= v`.
pub fn isqrt(v: u128) -> (r: u64)
    ensures
        is_floor_sqrt(v as int, r as int),
{
    let mut lo: u128 = 0;
    let mut hi: u128 = 0x1_0000_0000_0000_0000;
    proof {
        assert((hi as int) * (hi as int) > u128::MAX as int) by (nonlinear_arith)
            requires
                hi == 0x1_0000_0000_0000_0000,
        ;
    }
    while hi - lo > 1
        invariant
            lo < hi,
            hi <= 0x1_0000_0000_0000_0000,
            (lo as int) * (lo as int) <= v as int,
            (v as int) < (hi as int) * (hi as int),
        decreases hi - lo,
    {
        let mid: u128 = lo + (hi - lo) / 2;
        proof {
            assert((mid as int) * (mid as int) <= (0xFFFF_FFFF_FFFF_FFFFu128 as int) * (
            0xFFFF_FFFF_FFFF_FFFFu128 as int)) by (nonlinear_arith)
                requires
                    0 <= mid as int <= 0xFFFF_FFFF_FFFF_FFFFu128 as int,
            ;
        }
        if mid * mid <= v {
            lo = mid;
        } else {
            hi = mid;
        }
    }
    lo as u64
}

} // verus!

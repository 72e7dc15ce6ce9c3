//! Integer arithmetic shared by the ledger: rounded-down ratios and
//! basis-point fractions, computed without intermediate overflow.

use vstd::prelude::*;

verus! {

/// Denominator of the risk fractions: a fraction `f` stands for `f / BPS`.
pub const BPS: u64 = 10_000;

/// `a * b / d`, rounded down.
pub open spec fn mul_div_floor(a: int, b: int, d: int) -> int {
    (a * b) / d
}

/// The fraction `bps / BPS` of `value`, rounded down.
pub open spec fn bps_floor(value: int, bps: int) -> int {
    (value * bps) / (BPS as int)
}

/// `floor(a * b / d)`, or `None` when that does not fit in a `u64`.
pub fn mul_div(a: u64, b: u64, d: u64) -> (r: Option<u64>)
    requires
        d > 0,
    ensures
        mul_div_floor(a as int, b as int, d as int) <= u64::MAX ==> r == Some(
            mul_div_floor(a as int, b as int, d as int) as u64,
        ),
        mul_div_floor(a as int, b as int, d as int) > u64::MAX ==> r is None,
{
    assert(0 <= a * b <= 0xffff_ffff_ffff_ffff * 0xffff_ffff_ffff_ffff) by (nonlinear_arith)
        requires
            0 <= a <= 0xffff_ffff_ffff_ffff,
            0 <= b <= 0xffff_ffff_ffff_ffff,
    ;
    let product: u128 = (a as u128) * (b as u128);
    let quotient: u128 = product / (d as u128);
    if quotient > u64::MAX as u128 {
        None
    } else {
        Some(quotient as u64)
    }
}

/// A fraction of something is not negative, and a fraction of at most one is
/// at most the whole.
pub proof fn lemma_bps_floor_bounds(value: int, bps: int)
    requires
        0 <= value,
        0 <= bps,
    ensures
        0 <= bps_floor(value, bps),
        bps <= BPS ==> bps_floor(value, bps) <= value,
        bps < BPS && value > 0 ==> bps_floor(value, bps) < value,
        bps == BPS ==> bps_floor(value, bps) == value,
{
    assert(0 <= (value * bps) / 10_000) by (nonlinear_arith)
        requires
            0 <= value,
            0 <= bps,
    ;
    if bps <= 10_000 {
        assert((value * bps) / 10_000 <= value) by (nonlinear_arith)
            requires
                0 <= value,
                0 <= bps <= 10_000,
        ;
    }
    if bps < 10_000 && value > 0 {
        assert((value * bps) / 10_000 < value) by (nonlinear_arith)
            requires
                0 < value,
                0 <= bps < 10_000,
        ;
    }
    if bps == 10_000 {
        assert((value * 10_000) / 10_000 == value) by (nonlinear_arith);
    }
}

/// Dividing before multiplying loses nothing when the remainder is carried
/// along: `a * b / d` is the whole part of `a / d` times `b`, plus what the
/// rest of `a` contributes.
pub proof fn lemma_mul_div_split(a: int, b: int, d: int)
    requires
        0 <= a,
        0 <= b,
        0 < d,
    ensures
        (a * b) / d == (a / d) * b + ((a % d) * b) / d,
        0 <= (a / d) * b,
        0 <= (a % d) * b <= (d - 1) * b,
        0 <= ((a % d) * b) / d,
{
    let q = a / d;
    let r = a % d;
    assert(a == d * q + r && 0 <= r < d && 0 <= q) by (nonlinear_arith)
        requires
            q == a / d,
            r == a % d,
            0 <= a,
            0 < d,
    ;
    assert(a * b == (q * b) * d + r * b) by (nonlinear_arith)
        requires
            a == d * q + r,
    ;
    assert(0 <= q * b && 0 <= r * b <= (d - 1) * b) by (nonlinear_arith)
        requires
            0 <= q,
            0 <= r <= d - 1,
            0 <= b,
    ;
    vstd::arithmetic::div_mod::lemma_hoist_over_denominator(r * b, q * b, d as nat);
    assert(0 <= (r * b) / d) by (nonlinear_arith)
        requires
            0 <= r * b,
            0 < d,
    ;
}

/// `floor(a * b / d)` for a wide `a`, or `None` when that does not fit in a
/// `u128`. The product `a * b` itself is never formed.
pub fn mul_div_wide(a: u128, b: u64, d: u64) -> (r: Option<u128>)
    requires
        d > 0,
    ensures
        mul_div_floor(a as int, b as int, d as int) <= u128::MAX ==> r == Some(
            mul_div_floor(a as int, b as int, d as int) as u128,
        ),
        mul_div_floor(a as int, b as int, d as int) > u128::MAX ==> r is None,
{
    let whole: u128 = a / (d as u128);
    let rest: u128 = a % (d as u128);
    proof {
        lemma_mul_div_split(a as int, b as int, d as int);
        assert((d - 1) * b <= 0xffff_ffff_ffff_ffff * 0xffff_ffff_ffff_ffff) by (nonlinear_arith)
            requires
                0 <= b <= 0xffff_ffff_ffff_ffff,
                0 < d <= 0xffff_ffff_ffff_ffff,
        ;
    }
    let scaled_rest: u128 = (rest * (b as u128)) / (d as u128);
    match whole.checked_mul(b as u128) {
        Some(scaled_whole) => scaled_whole.checked_add(scaled_rest),
        None => None,
    }
}

/// The fraction `bps / BPS` of `value`, rounded down, or `None` when that
/// does not fit in a `u128`. A fraction of at most one never fails.
pub fn bps_of(value: u128, bps: u64) -> (r: Option<u128>)
    ensures
        bps_floor(value as int, bps as int) <= u128::MAX ==> r == Some(
            bps_floor(value as int, bps as int) as u128,
        ),
        bps_floor(value as int, bps as int) > u128::MAX ==> r is None,
        bps <= BPS ==> r is Some && r->0 <= value,
{
    proof {
        lemma_bps_floor_bounds(value as int, bps as int);
    }
    mul_div_wide(value, bps, BPS)
}

} // verus!

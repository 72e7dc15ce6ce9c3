//! Interest on deposits: continuous growth at a pool's rate, computed in
//! fixed point so that every machine gets the same result.
//!
//! The growth factor over a period is `exp(rate * seconds)`. Both the
//! exponent and the factor are held in units of `10^-18`. Up to an exponent
//! of one the exponential is the sum of the first terms of its power
//! series, each term rounded down; every further whole unit of the exponent
//! multiplies the factor by the series' value at one, rounded down.

use vstd::prelude::*;
use crate::error::ErrorCode;
use crate::math::mul_div_wide;

verus! {

/// One, in the fixed-point unit of rates and growth factors.
pub const WAD: u128 = 1_000_000_000_000_000_000;

/// Number of terms of the power series after the constant one.
pub const EXP_TERMS: u32 = 20;

/// The growth factor from which on a single unit grows out of a `u64`:
/// `2^64`, in the fixed-point unit.
pub const GROWTH_LIMIT: u128 = 18_446_744_073_709_551_616_000_000_000_000_000_000;

/// Term `k` of the series for `exp(x / WAD) * WAD`: the term before it times
/// `x / WAD`, divided by `k`, rounded down.
pub open spec fn exp_term(x: int, k: nat) -> int
    decreases k,
{
    if k == 0 {
        WAD as int
    } else {
        (exp_term(x, (k - 1) as nat) * x) / (k * WAD)
    }
}

/// The terms `0..=k` of the series, added up.
pub open spec fn exp_sum(x: int, k: nat) -> int
    decreases k,
{
    if k == 0 {
        exp_term(x, 0)
    } else {
        exp_sum(x, (k - 1) as nat) + exp_term(x, k)
    }
}

/// The power series of `exp(x / WAD) * WAD`, as far as the ledger takes it.
pub open spec fn exp_series(x: int) -> int {
    exp_sum(x, EXP_TERMS as nat)
}

/// `exp(x / WAD) * WAD`, as the ledger computes it: the series up to an
/// exponent of one, and for every whole unit beyond it a multiplication by
/// the series' value at one.
pub open spec fn exp_wad(x: int) -> int
    decreases x,
{
    if x <= WAD {
        exp_series(x)
    } else {
        (exp_wad(x - WAD) * exp_series(WAD as int)) / (WAD as int)
    }
}

/// `deposited * exp(rate * seconds)`, rounded down: what `deposited` has
/// grown to after `seconds` at `interest_rate` per second.
pub open spec fn grown(deposited: u64, interest_rate: u64, seconds: int) -> int {
    (deposited * exp_wad(interest_rate * seconds)) / (WAD as int)
}

/// What `deposited` has grown to between `last_update` and `now` at
/// `interest_rate` per second. Only time that runs backwards and a value
/// beyond `u64` are refused; nothing grows to nothing, however long it is
/// left.
pub open spec fn accrued_value(
    deposited: u64,
    interest_rate: u64,
    last_update: i64,
    now: i64,
) -> Result<u64, ErrorCode> {
    if now < last_update {
        Err(ErrorCode::ArithmeticOverflow)
    } else if deposited == 0 {
        Ok(0)
    } else if grown(deposited, interest_rate, now - last_update) > u64::MAX {
        Err(ErrorCode::ArithmeticOverflow)
    } else {
        Ok(grown(deposited, interest_rate, now - last_update) as u64)
    }
}

/// The divisor of a term is a positive multiple of one.
proof fn lemma_term_divisor(k: nat)
    requires
        k >= 1,
    ensures
        0 < WAD <= k * WAD,
        k <= 20 ==> k * WAD <= 20 * WAD,
{
    assert(WAD <= k * WAD && (k <= 20 ==> k * WAD <= 20 * WAD)) by (nonlinear_arith)
        requires
            k >= 1,
            WAD == 1_000_000_000_000_000_000,
    ;
}

/// One step of the series keeps a term below the one before it, from the
/// second step on at most half of it, and from the third at most a third.
proof fn lemma_exp_term_step(term: int, x: int, k: nat)
    requires
        0 <= term,
        0 <= x <= WAD,
        k >= 1,
    ensures
        0 <= (term * x) / (k * WAD) <= term,
        k >= 2 ==> 2 * ((term * x) / (k * WAD)) <= term,
        k >= 3 ==> 3 * ((term * x) / (k * WAD)) <= term,
        0 <= term * x <= term * WAD,
{
    let d = k * WAD;
    let next = (term * x) / d;
    lemma_term_divisor(k);
    assert(0 <= term * x <= term * WAD) by (nonlinear_arith)
        requires
            0 <= x <= WAD,
            0 <= term,
    ;
    assert(next * d <= term * x && 0 <= next) by (nonlinear_arith)
        requires
            next == (term * x) / d,
            d > 0,
            0 <= term * x,
    ;
    assert(next <= term) by (nonlinear_arith)
        requires
            next * d <= term * WAD,
            d >= WAD,
            WAD == 1_000_000_000_000_000_000,
            0 <= next,
    ;
    if k >= 2 {
        assert(2 * next <= term) by (nonlinear_arith)
            requires
                next * d <= term * WAD,
                d == k * WAD,
                k >= 2,
                WAD == 1_000_000_000_000_000_000,
                0 <= next,
        ;
    }
    if k >= 3 {
        assert(3 * next <= term) by (nonlinear_arith)
            requires
                next * d <= term * WAD,
                d == k * WAD,
                k >= 3,
                WAD == 1_000_000_000_000_000_000,
                0 <= next,
        ;
    }
}

/// Multiplying by one and dividing by one, in fixed point, changes nothing.
proof fn lemma_wad_cancels(a: int)
    ensures
        (a * WAD) / (WAD as int) == a,
        (WAD * a) / (WAD as int) == a,
        (WAD * a) / (1 * WAD) == a,
{
    assert((a * WAD) / (WAD as int) == a && (WAD * a) / (WAD as int) == a && (WAD * a) / (1
        * WAD) == a) by (nonlinear_arith)
        requires
            WAD == 1_000_000_000_000_000_000,
    ;
}

/// The first term of the series after the constant one is the exponent.
proof fn lemma_first_term(x: int)
    ensures
        exp_term(x, 1) == x,
        exp_sum(x, 1) == WAD + x,
{
    assert(exp_term(x, 0) == WAD);
    assert(exp_sum(x, 0) == WAD);
    lemma_wad_cancels(x);
}

/// For an exponent between zero and one no term of the series exceeds one,
/// the sum stays below three, and from the first term on it is at least
/// `1 + x`.
pub proof fn lemma_exp_bounds(x: int, k: nat)
    requires
        0 <= x <= WAD,
    ensures
        0 <= exp_term(x, k) <= WAD,
        exp_sum(x, k) + exp_term(x, k) <= 3 * WAD,
        WAD <= exp_sum(x, k),
        k >= 1 ==> WAD + x <= exp_sum(x, k),
    decreases k,
{
    if k >= 1 {
        let before = (k - 1) as nat;
        lemma_exp_bounds(x, before);
        lemma_exp_term_step(exp_term(x, before), x, k);
        lemma_first_term(x);
    }
}

/// From the third term on every term is at most a third of the one before
/// it, so all terms from the second on add up to at most one and a half
/// times the second.
proof fn lemma_exp_tail(x: int, k: nat)
    requires
        0 <= x <= WAD,
        k >= 2,
    ensures
        0 <= exp_term(x, k),
        2 * (exp_sum(x, k) - WAD - x) + exp_term(x, k) <= 3 * exp_term(x, 2),
    decreases k,
{
    let before = (k - 1) as nat;
    lemma_exp_bounds(x, before);
    lemma_exp_bounds(x, k);
    lemma_first_term(x);
    if k > 2 {
        lemma_exp_tail(x, before);
        lemma_exp_term_step(exp_term(x, before), x, k);
    }
}

/// The series is close to the exponential from above as well: for an
/// exponent `x` of at most one it does not exceed `1 + x + x^2`.
pub proof fn lemma_exp_upper_bound(x: int)
    requires
        0 <= x <= WAD,
    ensures
        exp_wad(x) == exp_series(x),
        (exp_wad(x) - WAD - x) * WAD <= x * x,
{
    lemma_exp_tail(x, EXP_TERMS as nat);
    lemma_exp_tail(x, 2);
    lemma_first_term(x);
    let tail = exp_series(x) - WAD - x;
    let second = exp_term(x, 2);
    assert(second == (x * x) / (2 * WAD));
    assert(second * (2 * WAD) <= x * x) by (nonlinear_arith)
        requires
            second == (x * x) / (2 * WAD),
            WAD == 1_000_000_000_000_000_000,
    ;
    assert(tail * WAD <= x * x) by (nonlinear_arith)
        requires
            2 * tail <= 3 * second,
            second * (2 * WAD) <= x * x,
            0 <= second,
            WAD == 1_000_000_000_000_000_000,
    ;
}

/// A larger exponent makes no term and no sum of the series smaller.
pub proof fn lemma_exp_monotone(x: int, y: int, k: nat)
    requires
        0 <= x <= y,
    ensures
        0 <= exp_term(x, k) <= exp_term(y, k),
        0 <= exp_sum(x, k) <= exp_sum(y, k),
    decreases k,
{
    if k >= 1 {
        let before = (k - 1) as nat;
        lemma_exp_monotone(x, y, before);
        let a = exp_term(x, before);
        let b = exp_term(y, before);
        let d = k * WAD;
        assert(0 <= a * x <= b * y) by (nonlinear_arith)
            requires
                0 <= a <= b,
                0 <= x <= y,
        ;
        lemma_term_divisor(k);
        assert(0 <= (a * x) / d <= (b * y) / d) by (nonlinear_arith)
            requires
                0 <= a * x <= b * y,
                0 < d,
        ;
    }
}

/// Over no time at all, or at a rate of zero, the growth factor is one.
pub proof fn lemma_exp_of_zero(k: nat)
    ensures
        k >= 1 ==> exp_term(0, k) == 0,
        exp_sum(0, k) == WAD,
    decreases k,
{
    if k >= 1 {
        let before = (k - 1) as nat;
        lemma_exp_of_zero(before);
        let d = k * WAD;
        lemma_term_divisor(k);
        assert((exp_term(0, before) * 0) / d == 0) by (nonlinear_arith)
            requires
                0 < d,
        ;
    }
}

/// One whole unit of the exponent at least doubles a growth factor and at
/// most triples it, and keeps the larger of two factors the larger.
proof fn lemma_growth_step(g: int, h: int)
    requires
        0 <= g <= h,
    ensures
        2 * WAD <= exp_series(WAD as int) <= 3 * WAD,
        2 * g <= (g * exp_series(WAD as int)) / (WAD as int) <= 3 * g,
        (g * exp_series(WAD as int)) / (WAD as int) <= (h * exp_series(WAD as int)) / (
        WAD as int),
{
    lemma_exp_bounds(WAD as int, EXP_TERMS as nat);
    let e = exp_series(WAD as int);
    assert(2 * g <= (g * e) / (WAD as int) <= 3 * g) by (nonlinear_arith)
        requires
            0 <= g,
            2 * WAD <= e <= 3 * WAD,
            WAD == 1_000_000_000_000_000_000,
    ;
    assert((g * e) / (WAD as int) <= (h * e) / (WAD as int)) by (nonlinear_arith)
        requires
            0 <= g <= h,
            0 <= e,
            WAD == 1_000_000_000_000_000_000,
    ;
}

/// Growth is at least simple interest: the factor is never below `1 + x`.
pub proof fn lemma_exp_lower_bound(x: int)
    requires
        0 <= x,
    ensures
        WAD + x <= exp_wad(x),
    decreases x,
{
    if x <= WAD {
        lemma_exp_bounds(x, EXP_TERMS as nat);
    } else {
        lemma_exp_lower_bound(x - WAD);
        lemma_growth_step(exp_wad(x - WAD), exp_wad(x - WAD));
    }
}

/// A larger exponent gives no smaller growth factor.
pub proof fn lemma_exp_wad_monotone(x: int, y: int)
    requires
        0 <= x <= y,
    ensures
        exp_wad(x) <= exp_wad(y),
    decreases y,
{
    if y <= WAD {
        lemma_exp_monotone(x, y, EXP_TERMS as nat);
    } else if x > WAD {
        lemma_exp_wad_monotone(x - WAD, y - WAD);
        lemma_exp_lower_bound(x - WAD);
        lemma_growth_step(exp_wad(x - WAD), exp_wad(y - WAD));
    } else {
        lemma_exp_monotone(x, WAD as int, EXP_TERMS as nat);
        lemma_exp_lower_bound(y - WAD);
        lemma_growth_step(WAD as int, exp_wad(y - WAD));
        lemma_wad_cancels(exp_series(WAD as int));
    }
}

/// The series for an exponent of at most one.
fn series(x: u128) -> (r: u128)
    requires
        x <= WAD,
    ensures
        r == exp_series(x as int),
        WAD + x <= r <= 3 * WAD,
{
    let mut k: u32 = 0;
    let mut term: u128 = WAD;
    let mut sum: u128 = WAD;
    while k < EXP_TERMS
        invariant
            x <= WAD,
            k <= EXP_TERMS,
            term == exp_term(x as int, k as nat),
            sum == exp_sum(x as int, k as nat),
            term <= WAD,
            sum + term <= 3 * WAD,
            k == 0 ==> sum == WAD && term == WAD,
            k >= 1 ==> sum >= WAD + x,
        decreases EXP_TERMS - k,
    {
        k = k + 1;
        proof {
            lemma_exp_bounds(x as int, k as nat);
            lemma_exp_term_step(term as int, x as int, k as nat);
            lemma_term_divisor(k as nat);
        }
        term = (term * x) / ((k as u128) * WAD);
        sum = sum + term;
    }
    sum
}

/// `exp(x / WAD) * WAD`, or `None` when that reaches `GROWTH_LIMIT`, where
/// nothing that grows by it fits in a `u64` any more.
pub fn exp_fixed(x: u128) -> (r: Option<u128>)
    ensures
        exp_wad(x as int) < GROWTH_LIMIT ==> r == Some(exp_wad(x as int) as u128),
        exp_wad(x as int) >= GROWTH_LIMIT ==> r is None,
{
    if x <= WAD {
        return Some(series(x));
    }
    let e: u128 = series(WAD);
    let units: u128 = (x - 1) / WAD;
    let rest: u128 = (x - 1) % WAD + 1;
    let mut growth: u128 = series(rest);
    let mut i: u128 = 0;
    while i < units
        invariant
            i <= units,
            0 < rest <= WAD,
            x == rest + units * WAD,
            e == exp_series(WAD as int),
            2 * WAD <= e <= 3 * WAD,
            growth == exp_wad(rest + i * WAD),
            growth < GROWTH_LIMIT,
        decreases units - i,
    {
        proof {
            let reached = rest + i * WAD;
            assert(rest + (i + 1) * WAD == reached + WAD) by (nonlinear_arith)
                requires
                    reached == rest + i * WAD,
            ;
            assert(reached >= rest) by (nonlinear_arith)
                requires
                    reached == rest + i * WAD,
                    0 <= i,
                    WAD == 1_000_000_000_000_000_000,
            ;
            assert(reached + WAD <= x) by (nonlinear_arith)
                requires
                    reached == rest + i * WAD,
                    x == rest + units * WAD,
                    i < units,
                    WAD == 1_000_000_000_000_000_000,
            ;
            assert(exp_wad(reached + WAD) == (exp_wad(reached) * exp_series(WAD as int)) / (
            WAD as int));
            lemma_exp_wad_monotone(reached + WAD, x as int);
        }
        let next = match mul_div_wide(growth, e as u64, WAD as u64) {
            Some(next) => next,
            None => { return None; },
        };
        if next >= GROWTH_LIMIT {
            return None;
        }
        growth = next;
        i = i + 1;
    }
    proof {
        assert(rest + units * WAD == x);
    }
    Some(growth)
}

/// What `deposited` is worth at time `now` after growing at `interest_rate`
/// per second since `last_update`.
///
/// Fails with `ArithmeticOverflow` when `now` is before `last_update` and
/// when the value does not fit in a `u64`; nothing grows to nothing,
/// however long it is left.
pub fn calculate_accrued_interest(
    deposited: u64,
    interest_rate: u64,
    last_update: i64,
    now: i64,
) -> (r: Result<u64, ErrorCode>)
    ensures
        r == accrued_value(deposited, interest_rate, last_update, now),
{
    if now < last_update {
        return Err(ErrorCode::ArithmeticOverflow);
    }
    if deposited == 0 {
        return Ok(0);
    }
    let elapsed: u128 = ((now as i128) - (last_update as i128)) as u128;
    assert(interest_rate * elapsed <= 0xffff_ffff_ffff_ffff * 0xffff_ffff_ffff_ffff) by (nonlinear_arith)
        requires
            0 <= interest_rate <= 0xffff_ffff_ffff_ffff,
            0 <= elapsed <= 0xffff_ffff_ffff_ffff,
    ;
    let exponent: u128 = (interest_rate as u128) * elapsed;
    proof {
        let g = exp_wad(exponent as int);
        lemma_exp_lower_bound(exponent as int);
        assert(g * deposited == deposited * g) by (nonlinear_arith);
        if g >= GROWTH_LIMIT {
            assert((deposited * g) / (WAD as int) > u64::MAX) by (nonlinear_arith)
                requires
                    deposited >= 1,
                    g >= 18_446_744_073_709_551_616_000_000_000_000_000_000,
                    WAD == 1_000_000_000_000_000_000,
            ;
        }
    }
    let growth = match exp_fixed(exponent) {
        Some(growth) => growth,
        None => { return Err(ErrorCode::ArithmeticOverflow); },
    };
    match mul_div_wide(growth, deposited, WAD as u64) {
        Some(value) => if value > u64::MAX as u128 {
            Err(ErrorCode::ArithmeticOverflow)
        } else {
            Ok(value as u64)
        },
        None => Err(ErrorCode::ArithmeticOverflow),
    }
}

/// Interest never takes anything away: a deposit is worth at least itself,
/// exactly itself when no time has passed or the rate is zero, and at least
/// `deposited * (1 + rate * seconds)`, rounded down, otherwise. Nothing is
/// worth nothing at any later time.
pub proof fn lemma_accrued_never_loses(
    deposited: u64,
    interest_rate: u64,
    last_update: i64,
    now: i64,
)
    ensures
        accrued_value(deposited, interest_rate, last_update, now) matches Ok(value) ==> value
            == grown(deposited, interest_rate, now - last_update) && value >= deposited && value
            >= (deposited * (WAD + interest_rate * (now - last_update))) / (WAD as int),
        accrued_value(deposited, interest_rate, last_update, now) is Ok <==> now >= last_update
            && grown(deposited, interest_rate, now - last_update) <= u64::MAX,
        now == last_update || (interest_rate == 0 && now >= last_update) ==> accrued_value(
            deposited,
            interest_rate,
            last_update,
            now,
        ) == Ok::<u64, ErrorCode>(deposited),
        deposited == 0 && now >= last_update ==> accrued_value(
            deposited,
            interest_rate,
            last_update,
            now,
        ) == Ok::<u64, ErrorCode>(0),
{
    let elapsed = now - last_update;
    let exponent = interest_rate * elapsed;
    lemma_wad_cancels(deposited as int);
    if now == last_update || (interest_rate == 0 && now >= last_update) {
        assert(exponent == 0) by (nonlinear_arith)
            requires
                exponent == interest_rate * elapsed,
                interest_rate == 0 || elapsed == 0,
        ;
        lemma_exp_of_zero(EXP_TERMS as nat);
    }
    if now >= last_update {
        assert(0 <= exponent) by (nonlinear_arith)
            requires
                exponent == interest_rate * elapsed,
                0 <= interest_rate,
                0 <= elapsed,
        ;
        lemma_exp_lower_bound(exponent);
        let growth = exp_wad(exponent);
        assert(deposited * WAD <= deposited * (WAD + exponent) <= deposited * growth)
            by (nonlinear_arith)
            requires
                0 <= exponent,
                WAD + exponent <= growth,
                0 <= deposited,
        ;
        vstd::arithmetic::div_mod::lemma_div_is_ordered(
            deposited * WAD,
            deposited * (WAD + exponent),
            WAD as int,
        );
        vstd::arithmetic::div_mod::lemma_div_is_ordered(
            deposited * (WAD + exponent),
            deposited * growth,
            WAD as int,
        );
    }
}

/// A deposit is worth no less later than earlier: if it can be valued at a
/// later time it can be valued at every earlier time since the last update,
/// and at no more.
pub proof fn lemma_accrued_grows_with_time(
    deposited: u64,
    interest_rate: u64,
    last_update: i64,
    earlier: i64,
    later: i64,
)
    requires
        last_update <= earlier <= later,
        accrued_value(deposited, interest_rate, last_update, later) is Ok,
    ensures
        accrued_value(deposited, interest_rate, last_update, earlier) is Ok,
        accrued_value(deposited, interest_rate, last_update, earlier)->Ok_0 <= accrued_value(
            deposited,
            interest_rate,
            last_update,
            later,
        )->Ok_0,
{
    let x = interest_rate * (earlier - last_update);
    let y = interest_rate * (later - last_update);
    assert(0 <= x <= y) by (nonlinear_arith)
        requires
            x == interest_rate * (earlier - last_update),
            y == interest_rate * (later - last_update),
            0 <= interest_rate,
            0 <= earlier - last_update <= later - last_update,
    ;
    lemma_exp_wad_monotone(x, y);
    lemma_exp_lower_bound(x);
    assert(0 <= deposited * exp_wad(x) <= deposited * exp_wad(y)) by (nonlinear_arith)
        requires
            0 <= exp_wad(x) <= exp_wad(y),
            0 <= deposited,
    ;
    vstd::arithmetic::div_mod::lemma_div_is_ordered(
        deposited * exp_wad(x),
        deposited * exp_wad(y),
        WAD as int,
    );
    assert(0 <= (deposited * exp_wad(x)) / (WAD as int)) by (nonlinear_arith)
        requires
            0 <= deposited * exp_wad(x),
            WAD == 1_000_000_000_000_000_000,
    ;
}

} // verus!

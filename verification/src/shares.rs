//! Share bookkeeping: how an amount that enters or leaves a pool is turned
//! into shares, for the pool and for the position alike.

use vstd::prelude::*;
use crate::error::ErrorCode;
use crate::math::mul_div;
use crate::state::Balance;

verus! {

/// Shares issued for `amount` entering `pool`: one per unit while the pool is
/// empty, afterwards the pool's shares in proportion, rounded down.
pub open spec fn minted_shares(pool: Balance, amount: int) -> int {
    if pool.amount == 0 {
        amount
    } else {
        (amount * pool.shares) / (pool.amount as int)
    }
}

/// Shares retired for `amount` leaving a pool that is not empty: the pool's
/// shares in proportion, rounded down.
pub open spec fn burned_shares(pool: Balance, amount: int) -> int {
    (amount * pool.shares) / (pool.amount as int)
}

/// `amount` and the shares minted for it, added to the pool and to the
/// position's part of it.
pub open spec fn credit_outcome(pool: Balance, part: Balance, amount: u64) -> Result<
    (Balance, Balance),
    ErrorCode,
> {
    let minted = minted_shares(pool, amount as int);
    if pool.amount + amount > u64::MAX || pool.shares + minted > u64::MAX || part.amount + amount
        > u64::MAX || part.shares + minted > u64::MAX {
        Err(ErrorCode::ArithmeticOverflow)
    } else {
        Ok(
            (
                Balance {
                    amount: (pool.amount + amount) as u64,
                    shares: (pool.shares + minted) as u64,
                },
                Balance {
                    amount: (part.amount + amount) as u64,
                    shares: (part.shares + minted) as u64,
                },
            ),
        )
    }
}

/// `amount` and the shares burned for it, taken from the pool and from the
/// position's part of it.
pub open spec fn debit_outcome(pool: Balance, part: Balance, amount: u64) -> Result<
    (Balance, Balance),
    ErrorCode,
> {
    if pool.amount == 0 {
        Err(ErrorCode::EmptyPool)
    } else {
        let burned = burned_shares(pool, amount as int);
        if amount > pool.amount || burned > pool.shares || amount > part.amount || burned
            > part.shares {
            Err(ErrorCode::ArithmeticOverflow)
        } else {
            Ok(
                (
                    Balance {
                        amount: (pool.amount - amount) as u64,
                        shares: (pool.shares - burned) as u64,
                    },
                    Balance {
                        amount: (part.amount - amount) as u64,
                        shares: (part.shares - burned) as u64,
                    },
                ),
            )
        }
    }
}

/// The number of shares to issue for `amount` entering `pool`, or `None`
/// when it does not fit in a `u64`. An empty pool is never divided by.
pub fn shares_to_mint(pool: &Balance, amount: u64) -> (r: Option<u64>)
    ensures
        minted_shares(*pool, amount as int) <= u64::MAX ==> r == Some(
            minted_shares(*pool, amount as int) as u64,
        ),
        minted_shares(*pool, amount as int) > u64::MAX ==> r is None,
        pool.amount == 0 ==> r == Some(amount),
{
    if pool.amount == 0 {
        Some(amount)
    } else {
        mul_div(amount, pool.shares, pool.amount)
    }
}

/// The number of shares to retire for `amount` leaving `pool`.
/// Fails with `EmptyPool` when the pool holds nothing, and with
/// `ArithmeticOverflow` when the number does not fit in a `u64`.
pub fn shares_to_burn(pool: &Balance, amount: u64) -> (r: Result<u64, ErrorCode>)
    ensures
        pool.amount == 0 ==> r == Err::<u64, ErrorCode>(ErrorCode::EmptyPool),
        pool.amount != 0 && burned_shares(*pool, amount as int) <= u64::MAX ==> r == Ok::<
            u64,
            ErrorCode,
        >(burned_shares(*pool, amount as int) as u64),
        pool.amount != 0 && burned_shares(*pool, amount as int) > u64::MAX ==> r == Err::<
            u64,
            ErrorCode,
        >(ErrorCode::ArithmeticOverflow),
{
    if pool.amount == 0 {
        return Err(ErrorCode::EmptyPool);
    }
    match mul_div(amount, pool.shares, pool.amount) {
        Some(burned) => Ok(burned),
        None => Err(ErrorCode::ArithmeticOverflow),
    }
}

/// Adds `amount` to `pool` and to `part`, and to both the shares minted for
/// it. Fails with `ArithmeticOverflow` when a sum leaves the `u64` range.
pub fn credit(pool: &Balance, part: &Balance, amount: u64) -> (r: Result<
    (Balance, Balance),
    ErrorCode,
>)
    ensures
        r == credit_outcome(*pool, *part, amount),
{
    proof {
        assert(0 <= amount * pool.shares) by (nonlinear_arith)
            requires
                0 <= amount,
                0 <= pool.shares,
        ;
        if pool.amount != 0 {
            vstd::arithmetic::div_mod::lemma_div_pos_is_pos(
                amount * pool.shares,
                pool.amount as int,
            );
        }
    }
    let minted = match shares_to_mint(pool, amount) {
        Some(minted) => minted,
        None => { return Err(ErrorCode::ArithmeticOverflow); },
    };
    let pool_amount = match pool.amount.checked_add(amount) {
        Some(sum) => sum,
        None => { return Err(ErrorCode::ArithmeticOverflow); },
    };
    let pool_shares = match pool.shares.checked_add(minted) {
        Some(sum) => sum,
        None => { return Err(ErrorCode::ArithmeticOverflow); },
    };
    let part_amount = match part.amount.checked_add(amount) {
        Some(sum) => sum,
        None => { return Err(ErrorCode::ArithmeticOverflow); },
    };
    let part_shares = match part.shares.checked_add(minted) {
        Some(sum) => sum,
        None => { return Err(ErrorCode::ArithmeticOverflow); },
    };
    Ok(
        (
            Balance { amount: pool_amount, shares: pool_shares },
            Balance { amount: part_amount, shares: part_shares },
        ),
    )
}

/// Takes `amount` from `pool` and from `part`, and from both the shares
/// burned for it. Fails with `EmptyPool` when the pool holds nothing, and
/// with `ArithmeticOverflow` when a difference would fall below zero.
pub fn debit(pool: &Balance, part: &Balance, amount: u64) -> (r: Result<
    (Balance, Balance),
    ErrorCode,
>)
    ensures
        r == debit_outcome(*pool, *part, amount),
{
    let burned = match shares_to_burn(pool, amount) {
        Ok(burned) => burned,
        Err(e) => { return Err(e); },
    };
    if amount > pool.amount || burned > pool.shares || amount > part.amount || burned
        > part.shares {
        return Err(ErrorCode::ArithmeticOverflow);
    }
    Ok(
        (
            Balance { amount: pool.amount - amount, shares: pool.shares - burned },
            Balance { amount: part.amount - amount, shares: part.shares - burned },
        ),
    )
}

/// A pool is never divided by while it is empty: what enters an empty pool
/// is minted one share per unit, and nothing can be taken out of one.
pub proof fn lemma_empty_pool(pool: Balance, part: Balance, amount: u64)
    requires
        pool.amount == 0,
    ensures
        minted_shares(pool, amount as int) == amount,
        debit_outcome(pool, part, amount) == Err::<(Balance, Balance), ErrorCode>(
            ErrorCode::EmptyPool,
        ),
{
}

/// Crediting gives the pool and the position the same amount and the same
/// number of shares, so what the positions hold together keeps pace with
/// the pool.
pub proof fn lemma_credit_conserves(pool: Balance, part: Balance, amount: u64)
    requires
        credit_outcome(pool, part, amount) is Ok,
    ensures
        ({
            let (new_pool, new_part) = credit_outcome(pool, part, amount)->Ok_0;
            &&& new_pool.amount - pool.amount == amount
            &&& new_part.amount - part.amount == amount
            &&& new_pool.shares - pool.shares == new_part.shares - part.shares
            &&& new_part.shares - part.shares == minted_shares(pool, amount as int)
            &&& new_part.shares >= part.shares
        }),
{
    lemma_ratio_bounds(pool, amount as int);
}

/// Debiting takes from the pool and from the position the same amount and
/// the same number of shares.
pub proof fn lemma_debit_conserves(pool: Balance, part: Balance, amount: u64)
    requires
        debit_outcome(pool, part, amount) is Ok,
    ensures
        ({
            let (new_pool, new_part) = debit_outcome(pool, part, amount)->Ok_0;
            &&& pool.amount - new_pool.amount == amount
            &&& part.amount - new_part.amount == amount
            &&& pool.shares - new_pool.shares == part.shares - new_part.shares
            &&& part.shares - new_part.shares == burned_shares(pool, amount as int)
            &&& new_part.shares <= part.shares
        }),
{
    lemma_ratio_bounds(pool, amount as int);
}

/// The shares that stand for part of a pool that is not empty: none are
/// negative, the whole pool takes all the shares, and less than the whole
/// pool leaves at least one share behind.
pub proof fn lemma_ratio_bounds(pool: Balance, amount: int)
    requires
        0 <= amount,
    ensures
        0 <= minted_shares(pool, amount),
        pool.amount != 0 ==> 0 <= burned_shares(pool, amount),
        pool.amount != 0 && amount == pool.amount ==> burned_shares(pool, amount) == pool.shares,
        pool.amount != 0 && amount < pool.amount && pool.shares > 0 ==> burned_shares(pool, amount)
            < pool.shares,
        pool.amount != 0 && amount <= pool.amount ==> burned_shares(pool, amount) <= pool.shares,
        pool.amount != 0 && pool.amount == pool.shares ==> burned_shares(pool, amount) == amount,
{
    let total = pool.amount as int;
    let shares = pool.shares as int;
    if total != 0 {
        assert(0 <= (amount * shares) / total) by (nonlinear_arith)
            requires
                0 <= amount,
                0 <= shares,
                0 < total,
        ;
        if amount <= total {
            assert((amount * shares) / total <= shares) by (nonlinear_arith)
                requires
                    0 <= amount <= total,
                    0 <= shares,
                    0 < total,
            ;
        }
        if amount == total {
            assert((total * shares) / total == shares) by (nonlinear_arith)
                requires
                    0 < total,
            ;
        }
        if amount < total && shares > 0 {
            assert((amount * shares) / total < shares) by (nonlinear_arith)
                requires
                    0 <= amount < total,
                    0 < shares,
            ;
        }
        if total == shares {
            assert((amount * total) / total == amount) by (nonlinear_arith)
                requires
                    0 < total,
            ;
        }
    }
}

/// Shares are the exact proportion rounded down: what is minted or burned
/// for an amount is worth no more than the amount at the pool's ratio, and
/// one share more would be worth more than the amount.
pub proof fn lemma_shares_round_down(pool: Balance, amount: int)
    requires
        0 <= amount,
        pool.amount != 0,
    ensures
        minted_shares(pool, amount) == burned_shares(pool, amount),
        burned_shares(pool, amount) * pool.amount <= amount * pool.shares,
        amount * pool.shares < (burned_shares(pool, amount) + 1) * pool.amount,
{
    let total = pool.amount as int;
    let product = amount * pool.shares;
    assert(0 <= product) by (nonlinear_arith)
        requires
            product == amount * pool.shares,
            0 <= amount,
            0 <= pool.shares,
    ;
    assert((product / total) * total <= product < (product / total + 1) * total)
        by (nonlinear_arith)
        requires
            0 <= product,
            0 < total,
    ;
}

/// A well-formed pool stays well formed when something is credited to it,
/// and a position that the pool covered is still covered.
pub proof fn lemma_credit_keeps_wf(pool: Balance, part: Balance, amount: u64)
    requires
        pool.wf(),
        credit_outcome(pool, part, amount) is Ok,
    ensures
        ({
            let (new_pool, new_part) = credit_outcome(pool, part, amount)->Ok_0;
            &&& new_pool.wf()
            &&& amount > 0 ==> new_pool.amount > 0
            &&& pool.covers(part) ==> new_pool.covers(new_part)
        }),
{
    lemma_ratio_bounds(pool, amount as int);
}

/// A well-formed pool stays well formed when something is debited from it:
/// its shares run out exactly when its amount does. A position that the
/// pool covered is still covered.
pub proof fn lemma_debit_keeps_wf(pool: Balance, part: Balance, amount: u64)
    requires
        pool.wf(),
        debit_outcome(pool, part, amount) is Ok,
    ensures
        ({
            let (new_pool, new_part) = debit_outcome(pool, part, amount)->Ok_0;
            &&& new_pool.wf()
            &&& pool.covers(part) ==> new_pool.covers(new_part)
        }),
{
    lemma_ratio_bounds(pool, amount as int);
}

/// While a pool and a position both hold one share per unit, crediting and
/// debiting keep it so: the shares moved are the amount moved.
pub proof fn lemma_par_is_kept(pool: Balance, part: Balance, amount: u64)
    requires
        pool.amount == pool.shares,
        part.amount == part.shares,
    ensures
        credit_outcome(pool, part, amount) matches Ok((new_pool, new_part)) ==> new_pool.amount
            == new_pool.shares && new_part.amount == new_part.shares,
        debit_outcome(pool, part, amount) matches Ok((new_pool, new_part)) ==> new_pool.amount
            == new_pool.shares && new_part.amount == new_part.shares,
{
    lemma_ratio_bounds(pool, amount as int);
}

} // verus!

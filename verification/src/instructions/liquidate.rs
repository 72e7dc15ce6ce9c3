use vstd::prelude::*;
use crate::error::ErrorCode;
use crate::health::{
    borrowed_value, check_health, debt_value, deposits_value, position_is_healthy, value_of,
    PriceUpdates,
};
use crate::oracle::price_of;
use crate::instructions::repay::{repaid, settle_debt};
use crate::instructions::withdraw::{release_collateral, withdrawn};
use crate::math::{bps_floor, bps_of, lemma_bps_floor_bounds};
use crate::state::{Bank, User};
use crate::transfer::{transfer_outcome, transfer_tokens, Direction, TokenAccount, Transfer};

verus! {

/// What a liquidation works on: the pool the seized collateral comes out
/// of and the pool the debt is repaid to, each with its treasury, the
/// position that is liquidated, the liquidator's account for each of the two
/// assets, and the prices the position is valued at.
#[derive(Clone, Copy, Debug, PartialEq, Eq)]
pub struct Liquidate {
    pub collateral_bank: Bank,
    pub collateral_bank_token_account: TokenAccount,
    pub borrowed_bank: Bank,
    pub borrowed_bank_token_account: TokenAccount,
    pub user_account: User,
    pub liquidator_collateral_token_account: TokenAccount,
    pub liquidator_borrowed_token_account: TokenAccount,
    pub price_updates: PriceUpdates,
}

/// The two transfers of a liquidation: what the liquidator pays into the
/// pool that was borrowed from, and what it receives out of the collateral
/// pool.
#[derive(Clone, Copy, Debug, PartialEq, Eq, Structural)]
pub struct Liquidation {
    pub repayment: Transfer,
    pub reward: Transfer,
}

/// The part of a debt worth `borrowed` that one liquidation repays:
/// `close_factor` basis points of it, rounded down, and never more than the
/// debt.
pub open spec fn liquidation_amount(borrowed: int, close_factor: int) -> int {
    let part = bps_floor(borrowed, close_factor);
    if part > borrowed {
        borrowed
    } else {
        part
    }
}

/// What the liquidator receives for repaying `amount`: the amount and
/// `bonus` basis points of it on top, rounded down.
pub open spec fn liquidation_reward(amount: int, bonus: int) -> int {
    amount + bps_floor(amount, bonus)
}

/// The records after a liquidation at time `now` and its two transfers, or
/// why it is refused.
///
/// A healthy position is not liquidated. Of an unhealthy one the
/// liquidation amount is repaid to the borrowed pool as by a repayment, and
/// the reward is taken out of the collateral pool as by a withdrawal, both
/// on the position's account; the risk parameters are those of the
/// collateral pool. The liquidator pays the one and receives the other.
pub open spec fn liquidate_outcome(ctx: Liquidate, now: i64) -> Result<
    (Liquidate, Liquidation),
    ErrorCode,
> {
    let params = ctx.collateral_bank;
    match position_is_healthy(
        ctx.user_account,
        ctx.price_updates,
        now,
        params.liquidation_threshold,
    ) {
        Err(e) => Err(e),
        Ok(healthy) => if healthy {
            Err(ErrorCode::NotUndercollateralized)
        } else {
            let borrowed = borrowed_value(ctx.user_account, ctx.price_updates, now)->Ok_0;
            let amount = liquidation_amount(
                borrowed as int,
                params.liquidation_close_factor as int,
            );
            let reward = liquidation_reward(amount, params.liquidation_bonus as int);
            if reward > u64::MAX {
                Err(ErrorCode::ArithmeticOverflow)
            } else {
                match repaid(ctx.borrowed_bank, ctx.user_account, amount as u64) {
                    Err(e) => Err(e),
                    Ok((borrowed_bank, user)) => match withdrawn(
                        ctx.collateral_bank,
                        user,
                        reward as u64,
                    ) {
                        Err(e) => Err(e),
                        Ok((collateral_bank, user)) => match transfer_outcome(
                            ctx.liquidator_borrowed_token_account,
                            ctx.borrowed_bank_token_account,
                            amount as u64,
                        ) {
                            Err(e) => Err(e),
                            Ok((paying, repaid_treasury)) => match transfer_outcome(
                                ctx.collateral_bank_token_account,
                                ctx.liquidator_collateral_token_account,
                                reward as u64,
                            ) {
                                Err(e) => Err(e),
                                Ok((seized_treasury, receiving)) => Ok(
                                    (
                                        Liquidate {
                                            collateral_bank,
                                            collateral_bank_token_account: seized_treasury,
                                            borrowed_bank,
                                            borrowed_bank_token_account: repaid_treasury,
                                            user_account: user,
                                            liquidator_collateral_token_account: receiving,
                                            liquidator_borrowed_token_account: paying,
                                            ..ctx
                                        },
                                        Liquidation {
                                            repayment: Transfer {
                                                asset: ctx.borrowed_bank.asset,
                                                amount: amount as u64,
                                                direction: Direction::IntoPool,
                                            },
                                            reward: Transfer {
                                                asset: ctx.collateral_bank.asset,
                                                amount: reward as u64,
                                                direction: Direction::OutOfPool,
                                            },
                                        },
                                    ),
                                ),
                            },
                        },
                    },
                }
            }
        },
    }
}

/// The part of a debt worth `borrowed` that one liquidation repays.
pub fn amount_to_liquidate(borrowed: u128, close_factor: u64) -> (r: u128)
    ensures
        r == liquidation_amount(borrowed as int, close_factor as int),
        r <= borrowed,
        bps_floor(borrowed as int, close_factor as int) <= borrowed ==> r == bps_floor(
            borrowed as int,
            close_factor as int,
        ),
{
    match bps_of(borrowed, close_factor) {
        Some(part) => if part > borrowed {
            borrowed
        } else {
            part
        },
        None => borrowed,
    }
}

/// What the liquidator receives for repaying `amount`, or `None` when that
/// does not fit in a `u64`.
pub fn reward_for(amount: u64, bonus: u64) -> (r: Option<u64>)
    ensures
        liquidation_reward(amount as int, bonus as int) <= u64::MAX ==> r == Some(
            liquidation_reward(amount as int, bonus as int) as u64,
        ),
        liquidation_reward(amount as int, bonus as int) > u64::MAX ==> r is None,
{
    proof {
        lemma_bps_floor_bounds(amount as int, bonus as int);
    }
    let extra = match bps_of(amount as u128, bonus) {
        Some(extra) => extra,
        None => { return None; },
    };
    if extra > (u64::MAX - amount) as u128 {
        None
    } else {
        Some(amount + extra as u64)
    }
}

/// Liquidates part of the user's debt, if the position is unhealthy.
///
/// On success the liquidation amount is taken off what the user owes to the
/// borrowed pool, the reward is taken out of what the user deposited in the
/// collateral pool, and the result is the two transfers that go with it.
/// Otherwise nothing changes.
pub fn process_liquidate(ctx: &mut Liquidate, now: i64) -> (r: Result<Liquidation, ErrorCode>)
    ensures
        match liquidate_outcome(*old(ctx), now) {
            Ok((next, transfers)) => *final(ctx) == next && r == Ok::<Liquidation, ErrorCode>(
                transfers,
            ),
            Err(e) => *final(ctx) == *old(ctx) && r == Err::<Liquidation, ErrorCode>(e),
        },
{
    let threshold = ctx.collateral_bank.liquidation_threshold;
    let borrowed = match debt_value(&ctx.user_account, &ctx.price_updates, now) {
        Ok(value) => value,
        Err(e) => { return Err(e); },
    };
    if borrowed == 0 {
        return Err(ErrorCode::NotUndercollateralized);
    }
    let collateral = match deposits_value(&ctx.user_account, &ctx.price_updates, now) {
        Ok(value) => value,
        Err(e) => { return Err(e); },
    };
    if check_health(collateral, borrowed, threshold) {
        return Err(ErrorCode::NotUndercollateralized);
    }
    let amount = amount_to_liquidate(borrowed, ctx.collateral_bank.liquidation_close_factor);
    proof {
        lemma_bps_floor_bounds(amount as int, ctx.collateral_bank.liquidation_bonus as int);
    }
    if amount > u64::MAX as u128 {
        return Err(ErrorCode::ArithmeticOverflow);
    }
    let amount = amount as u64;
    let reward = match reward_for(amount, ctx.collateral_bank.liquidation_bonus) {
        Some(reward) => reward,
        None => { return Err(ErrorCode::ArithmeticOverflow); },
    };
    let (borrowed_bank, user) = match settle_debt(&ctx.borrowed_bank, &ctx.user_account, amount) {
        Ok(pair) => pair,
        Err(e) => { return Err(e); },
    };
    let (collateral_bank, user) = match release_collateral(&ctx.collateral_bank, &user, reward) {
        Ok(pair) => pair,
        Err(e) => { return Err(e); },
    };
    let (paying, repaid_treasury) = match transfer_tokens(
        &ctx.liquidator_borrowed_token_account,
        &ctx.borrowed_bank_token_account,
        amount,
    ) {
        Ok(pair) => pair,
        Err(e) => { return Err(e); },
    };
    let (seized_treasury, receiving) = match transfer_tokens(
        &ctx.collateral_bank_token_account,
        &ctx.liquidator_collateral_token_account,
        reward,
    ) {
        Ok(pair) => pair,
        Err(e) => { return Err(e); },
    };
    let transfers = Liquidation {
        repayment: Transfer {
            asset: ctx.borrowed_bank.asset,
            amount,
            direction: Direction::IntoPool,
        },
        reward: Transfer {
            asset: ctx.collateral_bank.asset,
            amount: reward,
            direction: Direction::OutOfPool,
        },
    };
    ctx.collateral_bank = collateral_bank;
    ctx.collateral_bank_token_account = seized_treasury;
    ctx.borrowed_bank = borrowed_bank;
    ctx.borrowed_bank_token_account = repaid_treasury;
    ctx.user_account = user;
    ctx.liquidator_collateral_token_account = receiving;
    ctx.liquidator_borrowed_token_account = paying;
    Ok(transfers)
}

/// The liquidation amount never exceeds the value of the whole debt, and is
/// the close factor's part of that value whenever that part is no more than
/// the value, as it is for every close factor of at most one. Below a close
/// factor of one it stays below the value of the debt. This is said of the
/// value: the amount is spent as units of the borrowed asset, so at a price
/// above one a leg can be cleared by less than its value.
pub proof fn lemma_liquidation_bound(borrowed: int, close_factor: int)
    requires
        0 <= borrowed,
        0 <= close_factor,
    ensures
        0 <= liquidation_amount(borrowed, close_factor) <= borrowed,
        bps_floor(borrowed, close_factor) <= borrowed ==> liquidation_amount(
            borrowed,
            close_factor,
        ) == bps_floor(borrowed, close_factor),
        close_factor <= 10_000 ==> bps_floor(borrowed, close_factor) <= borrowed,
        close_factor == 10_000 ==> liquidation_amount(borrowed, close_factor) == borrowed,
        close_factor < 10_000 && borrowed > 0 ==> liquidation_amount(borrowed, close_factor)
            < borrowed,
{
    lemma_bps_floor_bounds(borrowed, close_factor);
}

/// Only unhealthy positions are liquidated: a liquidation is refused as
/// `NotUndercollateralized` exactly when the position is healthy, and one
/// that goes through was of an unhealthy position.
pub proof fn lemma_liquidation_gating(ctx: Liquidate, now: i64)
    ensures
        ({
            let health = position_is_healthy(
                ctx.user_account,
                ctx.price_updates,
                now,
                ctx.collateral_bank.liquidation_threshold,
            );
            &&& health == Ok::<bool, ErrorCode>(true) <==> liquidate_outcome(ctx, now) == Err::<
                (Liquidate, Liquidation),
                ErrorCode,
            >(ErrorCode::NotUndercollateralized)
            &&& liquidate_outcome(ctx, now) is Ok ==> health == Ok::<bool, ErrorCode>(false)
        }),
{
}

/// A liquidation that goes through repays the liquidation amount of the
/// debt's value, in units of the borrowed pool's asset, and leaves the
/// position owing that much less of it. The value of the debt does not
/// grow, and it shrinks whenever something is repaid at a price above zero.
pub proof fn lemma_liquidation_reduces_debt(ctx: Liquidate, now: i64)
    requires
        liquidate_outcome(ctx, now) is Ok,
    ensures
        ({
            let (next, transfers) = liquidate_outcome(ctx, now)->Ok_0;
            let asset = ctx.borrowed_bank.asset;
            let before = borrowed_value(ctx.user_account, ctx.price_updates, now);
            let after = borrowed_value(next.user_account, ctx.price_updates, now);
            &&& before is Ok
            &&& after is Ok
            &&& transfers.repayment.amount == liquidation_amount(
                before->Ok_0 as int,
                ctx.collateral_bank.liquidation_close_factor as int,
            )
            &&& next.user_account.leg(asset).borrowed.amount == ctx.user_account.leg(
                asset,
            ).borrowed.amount - transfers.repayment.amount
            &&& after->Ok_0 <= before->Ok_0
            &&& transfers.repayment.amount > 0 && price_of(ctx.price_updates.of(asset), asset, now)
                != Ok::<u64, ErrorCode>(0) ==> after->Ok_0 < before->Ok_0
        }),
{
    let (next, transfers) = liquidate_outcome(ctx, now)->Ok_0;
    let asset = ctx.borrowed_bank.asset;
    let user = ctx.user_account;
    let prices = ctx.price_updates;
    let amount = transfers.repayment.amount;
    let (borrowed_bank, mid) = repaid(ctx.borrowed_bank, user, amount)->Ok_0;
    let owed = user.leg(asset).borrowed;
    crate::shares::lemma_debit_conserves(ctx.borrowed_bank.borrows, owed, amount);
    let left = (owed.amount - amount) as u64;
    assert(next.user_account.leg(asset).borrowed.amount == left);
    lemma_value_shrinks(owed.amount, left, asset, prices, now);
    crate::health::lemma_value_bound(user.sol.borrowed.amount, crate::state::Asset::Sol, prices, now);
    crate::health::lemma_value_bound(user.usdc.borrowed.amount, crate::state::Asset::Usdc, prices, now);
    crate::health::lemma_value_bound(
        next.user_account.sol.borrowed.amount,
        crate::state::Asset::Sol,
        prices,
        now,
    );
    crate::health::lemma_value_bound(
        next.user_account.usdc.borrowed.amount,
        crate::state::Asset::Usdc,
        prices,
        now,
    );
    match asset {
        crate::state::Asset::Sol => {
            assert(next.user_account.usdc.borrowed == user.usdc.borrowed);
        },
        crate::state::Asset::Usdc => {
            assert(next.user_account.sol.borrowed == user.sol.borrowed);
        },
    }
}

/// A liquidation of an unhealthy position goes through whenever its amount
/// and reward fit in a `u64`, the position owes and holds what they take,
/// and the liquidator and the collateral treasury can pay. What is repaid
/// is then the liquidation amount of the debt's value: the close factor's
/// part of it, rounded down, wherever that is no more than the value.
pub proof fn lemma_liquidation_is_owed(ctx: Liquidate, now: i64)
    requires
        position_is_healthy(
            ctx.user_account,
            ctx.price_updates,
            now,
            ctx.collateral_bank.liquidation_threshold,
        ) == Ok::<bool, ErrorCode>(false),
    ensures
        ({
            let params = ctx.collateral_bank;
            let borrowed = borrowed_value(ctx.user_account, ctx.price_updates, now)->Ok_0;
            let amount = liquidation_amount(
                borrowed as int,
                params.liquidation_close_factor as int,
            );
            let reward = liquidation_reward(amount, params.liquidation_bonus as int);
            let settled = repaid(ctx.borrowed_bank, ctx.user_account, amount as u64);
            &&& 0 <= amount <= reward
            &&& bps_floor(borrowed as int, params.liquidation_close_factor as int) <= borrowed
                ==> amount == bps_floor(borrowed as int, params.liquidation_close_factor as int)
            &&& liquidate_outcome(ctx, now) is Ok <==> reward <= u64::MAX && settled is Ok
                && withdrawn(ctx.collateral_bank, settled->Ok_0.1, reward as u64) is Ok
                && transfer_outcome(
                ctx.liquidator_borrowed_token_account,
                ctx.borrowed_bank_token_account,
                amount as u64,
            ) is Ok && transfer_outcome(
                ctx.collateral_bank_token_account,
                ctx.liquidator_collateral_token_account,
                reward as u64,
            ) is Ok
            &&& liquidate_outcome(ctx, now) matches Ok((_, transfers)) ==> transfers.repayment.amount
                == amount && transfers.reward.amount == reward
        }),
{
    let params = ctx.collateral_bank;
    let borrowed = borrowed_value(ctx.user_account, ctx.price_updates, now)->Ok_0;
    lemma_liquidation_bound(borrowed as int, params.liquidation_close_factor as int);
    let amount = liquidation_amount(borrowed as int, params.liquidation_close_factor as int);
    lemma_bps_floor_bounds(amount, params.liquidation_bonus as int);
}

/// A liquidation keeps both pools solvent: what the liquidator pays goes
/// into the treasury of the pool whose loans shrink, and what it receives
/// comes out of the treasury of the pool whose deposits shrink.
pub proof fn lemma_liquidation_keeps_solvent(ctx: Liquidate, now: i64)
    requires
        liquidate_outcome(ctx, now) is Ok,
    ensures
        ({
            let (next, transfers) = liquidate_outcome(ctx, now)->Ok_0;
            &&& ctx.borrowed_bank.is_backed_by(ctx.borrowed_bank_token_account)
                ==> next.borrowed_bank.is_backed_by(next.borrowed_bank_token_account)
            &&& ctx.collateral_bank.is_backed_by(ctx.collateral_bank_token_account)
                ==> next.collateral_bank.is_backed_by(next.collateral_bank_token_account)
            &&& next.borrowed_bank_token_account.amount == ctx.borrowed_bank_token_account.amount
                + transfers.repayment.amount
            &&& next.liquidator_borrowed_token_account.amount
                == ctx.liquidator_borrowed_token_account.amount - transfers.repayment.amount
            &&& next.collateral_bank_token_account.amount
                == ctx.collateral_bank_token_account.amount - transfers.reward.amount
            &&& next.liquidator_collateral_token_account.amount
                == ctx.liquidator_collateral_token_account.amount + transfers.reward.amount
            &&& transfers.reward.amount == liquidation_reward(
                transfers.repayment.amount as int,
                ctx.collateral_bank.liquidation_bonus as int,
            )
            &&& next.collateral_bank.deposits.amount == ctx.collateral_bank.deposits.amount
                - transfers.reward.amount
            &&& next.borrowed_bank.borrows.amount == ctx.borrowed_bank.borrows.amount
                - transfers.repayment.amount
        }),
{
    let (next, transfers) = liquidate_outcome(ctx, now)->Ok_0;
    let amount = transfers.repayment.amount;
    let reward = transfers.reward.amount;
    let (borrowed_bank, mid) = repaid(ctx.borrowed_bank, ctx.user_account, amount)->Ok_0;
    crate::shares::lemma_debit_conserves(
        ctx.borrowed_bank.borrows,
        ctx.user_account.leg(ctx.borrowed_bank.asset).borrowed,
        amount,
    );
    crate::shares::lemma_debit_conserves(
        ctx.collateral_bank.deposits,
        mid.leg(ctx.collateral_bank.asset).deposited,
        reward,
    );
}

/// A liquidation takes from the position what it takes from the pools: the
/// leg of the collateral asset loses in deposits what the collateral pool
/// loses, the leg of the borrowed asset loses in debt what the borrowed pool
/// loses, in amounts and in shares, and nothing else of the position
/// changes. Well-formed pools stay well formed.
pub proof fn lemma_liquidation_conserves(ctx: Liquidate, now: i64)
    requires
        liquidate_outcome(ctx, now) is Ok,
    ensures
        ({
            let (next, transfers) = liquidate_outcome(ctx, now)->Ok_0;
            let seized = ctx.collateral_bank.asset;
            let owed = ctx.borrowed_bank.asset;
            let before = ctx.user_account;
            let after = next.user_account;
            &&& before.leg(seized).deposited.amount - after.leg(seized).deposited.amount
                == ctx.collateral_bank.deposits.amount - next.collateral_bank.deposits.amount
            &&& before.leg(seized).deposited.shares - after.leg(seized).deposited.shares
                == ctx.collateral_bank.deposits.shares - next.collateral_bank.deposits.shares
            &&& before.leg(owed).borrowed.amount - after.leg(owed).borrowed.amount
                == ctx.borrowed_bank.borrows.amount - next.borrowed_bank.borrows.amount
            &&& before.leg(owed).borrowed.shares - after.leg(owed).borrowed.shares
                == ctx.borrowed_bank.borrows.shares - next.borrowed_bank.borrows.shares
            &&& seized != owed ==> after.leg(seized).borrowed == before.leg(seized).borrowed
                && after.leg(owed).deposited == before.leg(owed).deposited
            &&& after.last_updated == before.last_updated
            &&& next.collateral_bank.borrows == ctx.collateral_bank.borrows
            &&& next.borrowed_bank.deposits == ctx.borrowed_bank.deposits
            &&& ctx.collateral_bank.wf() ==> next.collateral_bank.wf()
            &&& ctx.borrowed_bank.wf() ==> next.borrowed_bank.wf()
        }),
{
    let (next, transfers) = liquidate_outcome(ctx, now)->Ok_0;
    let amount = transfers.repayment.amount;
    let reward = transfers.reward.amount;
    let (borrowed_bank, mid) = repaid(ctx.borrowed_bank, ctx.user_account, amount)->Ok_0;
    let debt = ctx.user_account.leg(ctx.borrowed_bank.asset).borrowed;
    let held = mid.leg(ctx.collateral_bank.asset).deposited;
    crate::shares::lemma_debit_conserves(ctx.borrowed_bank.borrows, debt, amount);
    crate::shares::lemma_debit_conserves(ctx.collateral_bank.deposits, held, reward);
    if ctx.borrowed_bank.wf() {
        crate::shares::lemma_debit_keeps_wf(ctx.borrowed_bank.borrows, debt, amount);
    }
    if ctx.collateral_bank.wf() {
        crate::shares::lemma_debit_keeps_wf(ctx.collateral_bank.deposits, held, reward);
    }
}

/// Less of an asset is worth no more, and worth less at a price above zero.
proof fn lemma_value_shrinks(
    more: u64,
    less: u64,
    asset: crate::state::Asset,
    prices: PriceUpdates,
    now: i64,
)
    requires
        less <= more,
        value_of(more, asset, prices, now) is Ok,
    ensures
        value_of(less, asset, prices, now) is Ok,
        value_of(less, asset, prices, now)->Ok_0 <= value_of(more, asset, prices, now)->Ok_0,
        less < more && price_of(prices.of(asset), asset, now) != Ok::<u64, ErrorCode>(0)
            ==> value_of(less, asset, prices, now)->Ok_0 < value_of(
            more,
            asset,
            prices,
            now,
        )->Ok_0,
{
    if more != 0 {
        let price = price_of(prices.of(asset), asset, now)->Ok_0;
        assert(less * price <= more * price) by (nonlinear_arith)
            requires
                0 <= less <= more,
                0 <= price,
        ;
        assert(more * price <= 0xffff_ffff_ffff_ffff * 0xffff_ffff_ffff_ffff) by (nonlinear_arith)
            requires
                0 <= more <= 0xffff_ffff_ffff_ffff,
                0 <= price <= 0xffff_ffff_ffff_ffff,
        ;
        assert(0 <= less * price) by (nonlinear_arith)
            requires
                0 <= less,
                0 <= price,
        ;
        if less < more && price != 0 {
            assert(less * price < more * price) by (nonlinear_arith)
                requires
                    0 <= less < more,
                    0 < price,
            ;
        }
    }
}

} // verus!

use vstd::prelude::*;
use crate::error::ErrorCode;
use crate::health::{position_health, position_is_healthy, PriceUpdates};
use crate::shares::{burned_shares, debit, debit_outcome};
use crate::state::{Bank, Leg, User};
use crate::transfer::{transfer_outcome, transfer_tokens, Direction, TokenAccount, Transfer};

verus! {

/// What a withdrawal works on: the pool paid out of with its treasury, the
/// position of the user with the account that is paid, and the prices at
/// which what remains is valued.
#[derive(Clone, Copy, Debug, PartialEq, Eq)]
pub struct Withdraw {
    pub bank: Bank,
    pub bank_token_account: TokenAccount,
    pub user_account: User,
    pub user_token_account: TokenAccount,
    pub price_updates: PriceUpdates,
}

/// The pool and the position after `amount` of the position's deposit in
/// the pool's asset is taken out, or why that cannot be.
///
/// More than the leg holds is an `InsufficientCollateral`. The shares burned
/// are worked out from the pool's totals as they stand before the payout.
pub open spec fn withdrawn(bank: Bank, user: User, amount: u64) -> Result<(Bank, User), ErrorCode> {
    let leg = user.leg(bank.asset);
    if amount > leg.deposited.amount {
        Err(ErrorCode::InsufficientCollateral)
    } else {
        match debit_outcome(bank.deposits, leg.deposited, amount) {
            Err(e) => Err(e),
            Ok((pool, part)) => Ok(
                (
                    Bank { deposits: pool, ..bank },
                    user.with_leg(bank.asset, Leg { deposited: part, ..leg }),
                ),
            ),
        }
    }
}

/// The records after a withdrawal of `amount` at time `now`, or why it is
/// refused: what is left of the position must still cover its debt at the
/// pool's liquidation threshold. The amount moves from the treasury to the
/// user's account.
pub open spec fn withdraw_outcome(ctx: Withdraw, amount: u64, now: i64) -> Result<
    Withdraw,
    ErrorCode,
> {
    match withdrawn(ctx.bank, ctx.user_account, amount) {
        Err(e) => Err(e),
        Ok((bank, user)) => match position_is_healthy(
            user,
            ctx.price_updates,
            now,
            ctx.bank.liquidation_threshold,
        ) {
            Err(e) => Err(e),
            Ok(healthy) => if !healthy {
                Err(ErrorCode::InsufficientCollateral)
            } else {
                match transfer_outcome(ctx.bank_token_account, ctx.user_token_account, amount) {
                    Err(e) => Err(e),
                    Ok((treasury, wallet)) => Ok(
                        Withdraw {
                            bank,
                            bank_token_account: treasury,
                            user_account: user,
                            user_token_account: wallet,
                            ..ctx
                        },
                    ),
                }
            },
        },
    }
}

/// Takes `amount` out of what `user` deposited in `bank`.
pub fn release_collateral(bank: &Bank, user: &User, amount: u64) -> (r: Result<
    (Bank, User),
    ErrorCode,
>)
    ensures
        r == withdrawn(*bank, *user, amount),
{
    let leg = user.get_leg(bank.asset);
    if amount > leg.deposited.amount {
        return Err(ErrorCode::InsufficientCollateral);
    }
    let (pool, part) = match debit(&bank.deposits, &leg.deposited, amount) {
        Ok(pair) => pair,
        Err(e) => { return Err(e); },
    };
    let mut new_bank = *bank;
    new_bank.deposits = pool;
    let mut new_user = *user;
    new_user.set_leg(bank.asset, Leg { deposited: part, borrowed: leg.borrowed });
    Ok((new_bank, new_user))
}

/// Pays `amount` of the user's deposit back to the user.
///
/// On success the amount and the shares burned for it are taken from the
/// pool's deposits and from the user's, and the result is the payout that
/// goes with it. A withdrawal that would leave the user's debt uncovered is
/// refused, and so is one that the treasury cannot pay. Whenever it is
/// refused nothing changes.
pub fn process_withdraw(ctx: &mut Withdraw, amount: u64, now: i64) -> (r: Result<
    Transfer,
    ErrorCode,
>)
    requires
        amount > 0,
    ensures
        match withdraw_outcome(*old(ctx), amount, now) {
            Ok(next) => *final(ctx) == next && r == Ok::<Transfer, ErrorCode>(
                Transfer { asset: old(ctx).bank.asset, amount, direction: Direction::OutOfPool },
            ),
            Err(e) => *final(ctx) == *old(ctx) && r == Err::<Transfer, ErrorCode>(e),
        },
{
    let (bank, user) = match release_collateral(&ctx.bank, &ctx.user_account, amount) {
        Ok(pair) => pair,
        Err(e) => { return Err(e); },
    };
    match position_health(&user, &ctx.price_updates, now, ctx.bank.liquidation_threshold) {
        Ok(true) => {},
        Ok(false) => { return Err(ErrorCode::InsufficientCollateral); },
        Err(e) => { return Err(e); },
    }
    let (treasury, wallet) = match transfer_tokens(
        &ctx.bank_token_account,
        &ctx.user_token_account,
        amount,
    ) {
        Ok(pair) => pair,
        Err(e) => { return Err(e); },
    };
    ctx.bank = bank;
    ctx.bank_token_account = treasury;
    ctx.user_account = user;
    ctx.user_token_account = wallet;
    Ok(Transfer { asset: bank.asset, amount, direction: Direction::OutOfPool })
}

/// A withdrawal that is accepted takes its amount off the pool's deposits
/// and off the leg's, takes the same number of shares off both, moves the
/// amount from the treasury to the user's account, and touches nothing
/// else. What is left of the position covers its debt. A well-formed pool
/// stays well formed and a solvent one solvent.
pub proof fn lemma_withdraw_effect(ctx: Withdraw, amount: u64, now: i64)
    requires
        withdraw_outcome(ctx, amount, now) is Ok,
    ensures
        ({
            let next = withdraw_outcome(ctx, amount, now)->Ok_0;
            let asset = ctx.bank.asset;
            let before = ctx.user_account.leg(asset);
            let after = next.user_account.leg(asset);
            let burned = burned_shares(ctx.bank.deposits, amount as int);
            &&& amount <= before.deposited.amount
            &&& ctx.bank.deposits.amount != 0
            &&& next.bank.deposits.amount == ctx.bank.deposits.amount - amount
            &&& after.deposited.amount == before.deposited.amount - amount
            &&& next.bank.deposits.shares == ctx.bank.deposits.shares - burned
            &&& after.deposited.shares == before.deposited.shares - burned
            &&& next.bank_token_account.amount == ctx.bank_token_account.amount - amount
            &&& next.user_token_account.amount == ctx.user_token_account.amount + amount
            &&& after.borrowed == before.borrowed
            &&& next.bank.borrows == ctx.bank.borrows
            &&& next.user_account.last_updated == ctx.user_account.last_updated
            &&& position_is_healthy(
                next.user_account,
                ctx.price_updates,
                now,
                ctx.bank.liquidation_threshold,
            ) == Ok::<bool, ErrorCode>(true)
            &&& ctx.bank.wf() ==> next.bank.wf()
            &&& ctx.bank.is_backed_by(ctx.bank_token_account) ==> next.bank.is_backed_by(
                next.bank_token_account,
            )
        }),
{
    let held = ctx.user_account.leg(ctx.bank.asset).deposited;
    crate::shares::lemma_debit_conserves(ctx.bank.deposits, held, amount);
    if ctx.bank.wf() {
        crate::shares::lemma_debit_keeps_wf(ctx.bank.deposits, held, amount);
    }
}

/// Nothing is withdrawn beyond what the leg holds, and nothing out of an
/// empty pool.
pub proof fn lemma_withdraw_refusals(ctx: Withdraw, amount: u64, now: i64)
    ensures
        amount > ctx.user_account.leg(ctx.bank.asset).deposited.amount ==> withdraw_outcome(
            ctx,
            amount,
            now,
        ) == Err::<Withdraw, ErrorCode>(ErrorCode::InsufficientCollateral),
        amount <= ctx.user_account.leg(ctx.bank.asset).deposited.amount && ctx.bank.deposits.amount
            == 0 ==> withdraw_outcome(ctx, amount, now) == Err::<Withdraw, ErrorCode>(
            ErrorCode::EmptyPool,
        ),
{
}

} // verus!

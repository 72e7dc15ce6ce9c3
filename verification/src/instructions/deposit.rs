use vstd::prelude::*;
use crate::error::ErrorCode;
use crate::shares::{credit, credit_outcome, minted_shares};
use crate::state::{Balance, Bank, Leg, User};
use crate::transfer::{transfer_outcome, transfer_tokens, Direction, TokenAccount, Transfer};

verus! {

/// What a deposit works on: the pool that receives it with its treasury,
/// and the position of the user who makes it with the account that pays.
#[derive(Clone, Copy, Debug, PartialEq, Eq, Structural)]
pub struct Deposit {
    pub bank: Bank,
    pub bank_token_account: TokenAccount,
    pub user_account: User,
    pub user_token_account: TokenAccount,
}

/// The records after a deposit of `amount` at time `now`, or why it is
/// refused.
///
/// The first deposit into an empty pool mints one share per unit; later
/// ones mint the pool's shares in proportion, rounded down. The position is
/// stamped with `now`. The amount moves from the user's account into the
/// treasury.
pub open spec fn deposit_outcome(ctx: Deposit, amount: u64, now: i64) -> Result<
    Deposit,
    ErrorCode,
> {
    let asset = ctx.bank.asset;
    let leg = ctx.user_account.leg(asset);
    match credit_outcome(ctx.bank.deposits, leg.deposited, amount) {
        Err(e) => Err(e),
        Ok((pool, part)) => match transfer_outcome(
            ctx.user_token_account,
            ctx.bank_token_account,
            amount,
        ) {
            Err(e) => Err(e),
            Ok((wallet, treasury)) => Ok(
                Deposit {
                    bank: Bank { deposits: pool, ..ctx.bank },
                    bank_token_account: treasury,
                    user_account: User {
                        last_updated: now,
                        ..ctx.user_account.with_leg(asset, Leg { deposited: part, ..leg })
                    },
                    user_token_account: wallet,
                },
            ),
        },
    }
}

/// Deposits `amount` of the pool's asset for the user.
///
/// On success the amount and the shares minted for it are added to the
/// pool's deposits and to the user's, the position is stamped with `now`,
/// and the result is the payment that goes with it. A deposit is refused
/// with `ArithmeticOverflow` when a total would leave the `u64` range and
/// with `InsufficientBalance` when the user does not hold the amount;
/// nothing changes then.
pub fn process_deposit(ctx: &mut Deposit, amount: u64, now: i64) -> (r: Result<
    Transfer,
    ErrorCode,
>)
    requires
        amount > 0,
    ensures
        match deposit_outcome(*old(ctx), amount, now) {
            Ok(next) => *final(ctx) == next && r == Ok::<Transfer, ErrorCode>(
                Transfer { asset: old(ctx).bank.asset, amount, direction: Direction::IntoPool },
            ),
            Err(e) => *final(ctx) == *old(ctx) && r == Err::<Transfer, ErrorCode>(e),
        },
{
    let asset = ctx.bank.asset;
    let leg = ctx.user_account.get_leg(asset);
    let (pool, part) = match credit(&ctx.bank.deposits, &leg.deposited, amount) {
        Ok(pair) => pair,
        Err(e) => { return Err(e); },
    };
    let (wallet, treasury) = match transfer_tokens(
        &ctx.user_token_account,
        &ctx.bank_token_account,
        amount,
    ) {
        Ok(pair) => pair,
        Err(e) => { return Err(e); },
    };
    ctx.bank.deposits = pool;
    ctx.bank_token_account = treasury;
    ctx.user_account.set_leg(asset, Leg { deposited: part, borrowed: leg.borrowed });
    ctx.user_account.last_updated = now;
    ctx.user_token_account = wallet;
    Ok(Transfer { asset, amount, direction: Direction::IntoPool })
}

/// A deposit that is accepted adds its amount to the pool's deposits and to
/// the depositor's, gives both the same number of new shares, moves the
/// amount from the user's account into the treasury, stamps the position
/// and touches nothing else. Into an empty pool the shares minted are the
/// amount. A well-formed pool stays well formed and a solvent one solvent.
pub proof fn lemma_deposit_effect(ctx: Deposit, amount: u64, now: i64)
    requires
        deposit_outcome(ctx, amount, now) is Ok,
    ensures
        ({
            let next = deposit_outcome(ctx, amount, now)->Ok_0;
            let asset = ctx.bank.asset;
            let before = ctx.user_account.leg(asset);
            let after = next.user_account.leg(asset);
            let minted = minted_shares(ctx.bank.deposits, amount as int);
            &&& next.bank.deposits.amount == ctx.bank.deposits.amount + amount
            &&& after.deposited.amount == before.deposited.amount + amount
            &&& next.bank.deposits.shares == ctx.bank.deposits.shares + minted
            &&& after.deposited.shares == before.deposited.shares + minted
            &&& ctx.bank.deposits.amount == 0 ==> minted == amount
            &&& next.bank_token_account.amount == ctx.bank_token_account.amount + amount
            &&& next.user_token_account.amount == ctx.user_token_account.amount - amount
            &&& after.borrowed == before.borrowed
            &&& next.bank.borrows == ctx.bank.borrows
            &&& next.user_account.last_updated == now
            &&& ctx.bank.wf() ==> next.bank.wf()
            &&& ctx.bank.is_backed_by(ctx.bank_token_account) ==> next.bank.is_backed_by(
                next.bank_token_account,
            )
        }),
{
    let held = ctx.user_account.leg(ctx.bank.asset).deposited;
    crate::shares::lemma_credit_conserves(ctx.bank.deposits, held, amount);
    if ctx.bank.wf() {
        crate::shares::lemma_credit_keeps_wf(ctx.bank.deposits, held, amount);
    }
}

/// A deposit is owed to every user who holds the amount, short of totals
/// that would leave the `u64` range.
pub proof fn lemma_deposit_is_owed(ctx: Deposit, amount: u64, now: i64)
    ensures
        ({
            let held = ctx.user_account.leg(ctx.bank.asset).deposited;
            let minted = minted_shares(ctx.bank.deposits, amount as int);
            deposit_outcome(ctx, amount, now) is Ok <==> ctx.bank.deposits.amount + amount
                <= u64::MAX && ctx.bank.deposits.shares + minted <= u64::MAX && held.amount
                + amount <= u64::MAX && held.shares + minted <= u64::MAX && amount
                <= ctx.user_token_account.amount && ctx.bank_token_account.amount + amount
                <= u64::MAX
        }),
{
}

/// The first deposit into a pool that holds nothing is accepted from every
/// user who holds the amount, and mints one share per unit: the pool and the
/// depositor then both stand at the amount, in amount and in shares, and
/// agree exactly. Nothing is divided by the empty total.
pub proof fn lemma_first_deposit(ctx: Deposit, amount: u64, now: i64)
    requires
        ctx.bank.deposits == Balance::zero(),
        ctx.user_account.leg(ctx.bank.asset).deposited == Balance::zero(),
        transfer_outcome(ctx.user_token_account, ctx.bank_token_account, amount) is Ok,
    ensures
        deposit_outcome(ctx, amount, now) is Ok,
        ({
            let next = deposit_outcome(ctx, amount, now)->Ok_0;
            &&& next.bank.deposits == Balance { amount, shares: amount }
            &&& next.user_account.leg(ctx.bank.asset).deposited == Balance { amount, shares: amount }
        }),
{
}

} // verus!

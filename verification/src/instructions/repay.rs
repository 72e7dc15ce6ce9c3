use vstd::prelude::*;
use crate::error::ErrorCode;
use crate::shares::{burned_shares, debit, debit_outcome};
use crate::state::{Balance, Bank, Leg, User};
use crate::transfer::{transfer_outcome, transfer_tokens, Direction, TokenAccount, Transfer};

verus! {

/// What a repayment works on: the pool that is repaid with its treasury,
/// and the position of the user whose debt it is with the account that
/// pays.
#[derive(Clone, Copy, Debug, PartialEq, Eq, Structural)]
pub struct Repay {
    pub bank: Bank,
    pub bank_token_account: TokenAccount,
    pub user_account: User,
    pub user_token_account: TokenAccount,
}

/// The pool and the position after `amount` of the position's debt in the
/// pool's asset is paid back, or why that cannot be.
///
/// The leg is the one of the pool's asset. More than the leg owes is an
/// `OverRepay`. The shares burned are worked out from the pool's totals as
/// they stand before the payment.
pub open spec fn repaid(bank: Bank, user: User, amount: u64) -> Result<(Bank, User), ErrorCode> {
    let leg = user.leg(bank.asset);
    if amount > leg.borrowed.amount {
        Err(ErrorCode::OverRepay)
    } else {
        match debit_outcome(bank.borrows, leg.borrowed, amount) {
            Err(e) => Err(e),
            Ok((pool, part)) => Ok(
                (
                    Bank { borrows: pool, ..bank },
                    user.with_leg(bank.asset, Leg { borrowed: part, ..leg }),
                ),
            ),
        }
    }
}

/// The records after a repayment of `amount`, or why it is refused. The
/// amount moves from the user's account into the treasury.
pub open spec fn repay_outcome(ctx: Repay, amount: u64) -> Result<Repay, ErrorCode> {
    match repaid(ctx.bank, ctx.user_account, amount) {
        Err(e) => Err(e),
        Ok((bank, user)) => match transfer_outcome(
            ctx.user_token_account,
            ctx.bank_token_account,
            amount,
        ) {
            Err(e) => Err(e),
            Ok((wallet, treasury)) => Ok(
                Repay {
                    bank,
                    bank_token_account: treasury,
                    user_account: user,
                    user_token_account: wallet,
                },
            ),
        },
    }
}

/// Takes `amount` off what `user` owes to `bank`.
pub fn settle_debt(bank: &Bank, user: &User, amount: u64) -> (r: Result<(Bank, User), ErrorCode>)
    ensures
        r == repaid(*bank, *user, amount),
{
    let leg = user.get_leg(bank.asset);
    if amount > leg.borrowed.amount {
        return Err(ErrorCode::OverRepay);
    }
    let (pool, part) = match debit(&bank.borrows, &leg.borrowed, amount) {
        Ok(pair) => pair,
        Err(e) => { return Err(e); },
    };
    let mut new_bank = *bank;
    new_bank.borrows = pool;
    let mut new_user = *user;
    new_user.set_leg(bank.asset, Leg { deposited: leg.deposited, borrowed: part });
    Ok((new_bank, new_user))
}

/// Pays back `amount` of what the user borrowed from the pool.
///
/// On success the amount and the shares burned for it are taken from the
/// pool's borrows and from the user's, and the result is the payment that
/// goes with it. Otherwise nothing changes.
pub fn process_repay(ctx: &mut Repay, amount: u64) -> (r: Result<Transfer, ErrorCode>)
    requires
        amount > 0,
    ensures
        match repay_outcome(*old(ctx), amount) {
            Ok(next) => *final(ctx) == next && r == Ok::<Transfer, ErrorCode>(
                Transfer { asset: old(ctx).bank.asset, amount, direction: Direction::IntoPool },
            ),
            Err(e) => *final(ctx) == *old(ctx) && r == Err::<Transfer, ErrorCode>(e),
        },
{
    let (bank, user) = match settle_debt(&ctx.bank, &ctx.user_account, amount) {
        Ok(pair) => pair,
        Err(e) => { return Err(e); },
    };
    let (wallet, treasury) = match transfer_tokens(
        &ctx.user_token_account,
        &ctx.bank_token_account,
        amount,
    ) {
        Ok(pair) => pair,
        Err(e) => { return Err(e); },
    };
    ctx.bank = bank;
    ctx.bank_token_account = treasury;
    ctx.user_account = user;
    ctx.user_token_account = wallet;
    Ok(Transfer { asset: bank.asset, amount, direction: Direction::IntoPool })
}

/// Nobody repays more than is owed: a repayment is refused as `OverRepay`
/// exactly when it exceeds what the leg of the pool's asset owes.
pub proof fn lemma_no_over_repay(ctx: Repay, amount: u64)
    ensures
        amount > ctx.user_account.leg(ctx.bank.asset).borrowed.amount <==> repay_outcome(
            ctx,
            amount,
        ) == Err::<Repay, ErrorCode>(ErrorCode::OverRepay),
{
}

/// A repayment that is accepted takes its amount off the pool's borrows and
/// off the leg's, moves the same number of shares on both, moves the amount
/// from the user's account into the treasury, and touches nothing else. A
/// well-formed pool stays well formed and a solvent one solvent.
pub proof fn lemma_repay_effect(ctx: Repay, amount: u64)
    requires
        repay_outcome(ctx, amount) is Ok,
    ensures
        ({
            let next = repay_outcome(ctx, amount)->Ok_0;
            let asset = ctx.bank.asset;
            let before = ctx.user_account.leg(asset);
            let after = next.user_account.leg(asset);
            &&& next.bank.borrows.amount == ctx.bank.borrows.amount - amount
            &&& after.borrowed.amount == before.borrowed.amount - amount
            &&& ctx.bank.borrows.shares - next.bank.borrows.shares == before.borrowed.shares
                - after.borrowed.shares
            &&& before.borrowed.shares - after.borrowed.shares == burned_shares(
                ctx.bank.borrows,
                amount as int,
            )
            &&& next.bank_token_account.amount == ctx.bank_token_account.amount + amount
            &&& next.user_token_account.amount == ctx.user_token_account.amount - amount
            &&& after.deposited == before.deposited
            &&& next.bank.deposits == ctx.bank.deposits
            &&& next.user_account.last_updated == ctx.user_account.last_updated
            &&& ctx.bank.wf() ==> next.bank.wf()
            &&& ctx.bank.is_backed_by(ctx.bank_token_account) ==> next.bank.is_backed_by(
                next.bank_token_account,
            )
        }),
{
    let owed = ctx.user_account.leg(ctx.bank.asset).borrowed;
    crate::shares::lemma_debit_conserves(ctx.bank.borrows, owed, amount);
    if ctx.bank.wf() {
        crate::shares::lemma_debit_keeps_wf(ctx.bank.borrows, owed, amount);
    }
}

/// Repaying all that a leg owes leaves it owing nothing. Its shares are
/// gone as well when they were what the amount is worth at the pool's
/// ratio, as they are while the pool and the leg hold one share per unit.
pub proof fn lemma_full_repay_clears_leg(ctx: Repay, amount: u64)
    requires
        amount == ctx.user_account.leg(ctx.bank.asset).borrowed.amount,
        repay_outcome(ctx, amount) is Ok,
    ensures
        ({
            let owed = ctx.user_account.leg(ctx.bank.asset).borrowed;
            let after = repay_outcome(ctx, amount)->Ok_0.user_account.leg(ctx.bank.asset);
            &&& after.borrowed.amount == 0
            &&& owed.shares == burned_shares(ctx.bank.borrows, amount as int) ==> after.borrowed
                == Balance::zero()
            &&& ctx.bank.borrows.amount == ctx.bank.borrows.shares && owed.amount == owed.shares
                ==> after.borrowed == Balance::zero()
        }),
{
    let owed = ctx.user_account.leg(ctx.bank.asset).borrowed;
    crate::shares::lemma_debit_conserves(ctx.bank.borrows, owed, amount);
    crate::shares::lemma_ratio_bounds(ctx.bank.borrows, amount as int);
}

} // verus!

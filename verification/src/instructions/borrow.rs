use vstd::prelude::*;
use crate::error::ErrorCode;
use crate::health::{held_price, lemma_price_bound, price_if_held, priced, PriceUpdates};
use crate::interest::{accrued_value, calculate_accrued_interest};
use crate::math::{bps_floor, bps_of, BPS};
use crate::shares::{credit, credit_outcome, minted_shares};
use crate::state::Balance;
use crate::state::{Asset, Bank, Leg, User};
use crate::transfer::{transfer_outcome, transfer_tokens, Direction, TokenAccount, Transfer};

verus! {

/// What a loan works on: the pool lent from with its treasury, the
/// borrower's position with the account that is paid, and the prices the
/// collateral is valued at.
#[derive(Clone, Copy, Debug, PartialEq, Eq)]
pub struct Borrow {
    pub bank: Bank,
    pub bank_token_account: TokenAccount,
    pub user_account: User,
    pub user_token_account: TokenAccount,
    pub price_updates: PriceUpdates,
}

/// The SOL deposit as it counts for a loan from `ctx.bank`. For a loan of
/// USDC it is taken with the interest it has accrued since the position was
/// last updated, at the rate of the pool lent from; for a loan of SOL it is
/// taken as it stands.
pub open spec fn sol_with_interest(ctx: Borrow, now: i64) -> Result<u64, ErrorCode> {
    let user = ctx.user_account;
    match ctx.bank.asset {
        Asset::Usdc => accrued_value(
            user.sol.deposited.amount,
            ctx.bank.interest_rate,
            user.last_updated,
            now,
        ),
        Asset::Sol => Ok(user.sol.deposited.amount),
    }
}

/// The value of the collateral that counts for a loan from `ctx.bank`: the
/// SOL deposit, with interest where it counts, and the USDC deposit, each at
/// its price. The prices are read first, that of SOL before that of USDC,
/// so that a missing price is reported whatever the interest comes to.
pub open spec fn borrow_collateral(ctx: Borrow, now: i64) -> Result<u128, ErrorCode> {
    let user = ctx.user_account;
    let sol = user.sol.deposited.amount;
    let usdc = user.usdc.deposited.amount;
    match price_if_held(sol, Asset::Sol, ctx.price_updates, now) {
        Err(e) => Err(e),
        Ok(sol_price) => match price_if_held(usdc, Asset::Usdc, ctx.price_updates, now) {
            Err(e) => Err(e),
            Ok(usdc_price) => match sol_with_interest(ctx, now) {
                Err(e) => Err(e),
                Ok(grown) => Ok((grown * sol_price + usdc * usdc_price) as u128),
            },
        },
    }
}

/// The most that can be borrowed against collateral worth `collateral`:
/// `threshold` basis points of it, rounded down.
pub open spec fn borrowable_amount(collateral: int, threshold: int) -> int {
    bps_floor(collateral, threshold)
}

/// The records after a loan of `amount`, or why it is refused. The amount
/// moves from the treasury to the user's account.
pub open spec fn borrow_outcome(ctx: Borrow, amount: u64, now: i64) -> Result<Borrow, ErrorCode> {
    let asset = ctx.bank.asset;
    let leg = ctx.user_account.leg(asset);
    match borrow_collateral(ctx, now) {
        Err(e) => Err(e),
        Ok(collateral) => if amount > borrowable_amount(
            collateral as int,
            ctx.bank.liquidation_threshold as int,
        ) {
            Err(ErrorCode::OverBorrowableAmount)
        } else {
            match credit_outcome(ctx.bank.borrows, leg.borrowed, amount) {
                Err(e) => Err(e),
                Ok((pool, part)) => match transfer_outcome(
                    ctx.bank_token_account,
                    ctx.user_token_account,
                    amount,
                ) {
                    Err(e) => Err(e),
                    Ok((treasury, wallet)) => Ok(
                        Borrow {
                            bank: Bank { borrows: pool, ..ctx.bank },
                            bank_token_account: treasury,
                            user_account: ctx.user_account.with_leg(
                                asset,
                                Leg { borrowed: part, ..leg },
                            ),
                            user_token_account: wallet,
                            ..ctx
                        },
                    ),
                },
            }
        },
    }
}

/// The value of the collateral that counts for a loan from `ctx.bank`.
pub fn collateral_for_borrow(ctx: &Borrow, now: i64) -> (r: Result<u128, ErrorCode>)
    ensures
        r == borrow_collateral(*ctx, now),
{
    let user = &ctx.user_account;
    let sol = user.sol.deposited.amount;
    let usdc = user.usdc.deposited.amount;
    let sol_price = match held_price(sol, Asset::Sol, &ctx.price_updates, now) {
        Ok(price) => price,
        Err(e) => { return Err(e); },
    };
    let usdc_price = match held_price(usdc, Asset::Usdc, &ctx.price_updates, now) {
        Ok(price) => price,
        Err(e) => { return Err(e); },
    };
    let grown = match ctx.bank.asset {
        Asset::Usdc => match calculate_accrued_interest(
            sol,
            ctx.bank.interest_rate,
            user.last_updated,
            now,
        ) {
            Ok(grown) => grown,
            Err(e) => { return Err(e); },
        },
        Asset::Sol => sol,
    };
    proof {
        lemma_price_bound(sol, Asset::Sol, ctx.price_updates, now);
        lemma_price_bound(usdc, Asset::Usdc, ctx.price_updates, now);
        assert(grown * sol_price <= 0xffff_ffff_ffff_ffff * 0x7fff_ffff_ffff_ffff
            && usdc * usdc_price <= 0xffff_ffff_ffff_ffff * 0x7fff_ffff_ffff_ffff)
            by (nonlinear_arith)
            requires
                0 <= grown <= 0xffff_ffff_ffff_ffff,
                0 <= usdc <= 0xffff_ffff_ffff_ffff,
                0 <= sol_price <= 0x7fff_ffff_ffff_ffff,
                0 <= usdc_price <= 0x7fff_ffff_ffff_ffff,
        ;
    }
    Ok(priced(grown, sol_price) + priced(usdc, usdc_price))
}

/// Lends `amount` of the pool's asset to the user.
///
/// The loan is granted when the collateral can be valued and `amount` is at
/// most `borrowable_amount` of that value, short of totals that would leave
/// the `u64` range and of a treasury that cannot pay. The amount and the
/// shares minted for it are then added to the pool's borrows and to the
/// user's, and the result is the payout that goes with it. Otherwise
/// nothing changes.
pub fn process_borrow(ctx: &mut Borrow, amount: u64, now: i64) -> (r: Result<Transfer, ErrorCode>)
    requires
        amount > 0,
    ensures
        match borrow_outcome(*old(ctx), amount, now) {
            Ok(next) => *final(ctx) == next && r == Ok::<Transfer, ErrorCode>(
                Transfer { asset: old(ctx).bank.asset, amount, direction: Direction::OutOfPool },
            ),
            Err(e) => *final(ctx) == *old(ctx) && r == Err::<Transfer, ErrorCode>(e),
        },
{
    let asset = ctx.bank.asset;
    let collateral = match collateral_for_borrow(ctx, now) {
        Ok(collateral) => collateral,
        Err(e) => { return Err(e); },
    };
    match bps_of(collateral, ctx.bank.liquidation_threshold) {
        Some(borrowable) => {
            if amount as u128 > borrowable {
                return Err(ErrorCode::OverBorrowableAmount);
            }
        },
        None => {},
    }
    let leg = ctx.user_account.get_leg(asset);
    let (pool, part) = match credit(&ctx.bank.borrows, &leg.borrowed, amount) {
        Ok(pair) => pair,
        Err(e) => { return Err(e); },
    };
    let (treasury, wallet) = match transfer_tokens(
        &ctx.bank_token_account,
        &ctx.user_token_account,
        amount,
    ) {
        Ok(pair) => pair,
        Err(e) => { return Err(e); },
    };
    ctx.bank.borrows = pool;
    ctx.bank_token_account = treasury;
    ctx.user_account.set_leg(asset, Leg { deposited: leg.deposited, borrowed: part });
    ctx.user_token_account = wallet;
    Ok(Transfer { asset, amount, direction: Direction::OutOfPool })
}

/// A request is over the limit exactly when it exceeds the exact fraction
/// `collateral * threshold / BPS`; rounding the limit down loses nothing.
pub proof fn lemma_borrowable_is_exact(collateral: int, threshold: int, amount: int)
    requires
        0 <= collateral,
        0 <= threshold,
    ensures
        amount > borrowable_amount(collateral, threshold) <==> amount * BPS > collateral
            * threshold,
        0 <= borrowable_amount(collateral, threshold),
{
    let product = collateral * threshold;
    assert(0 <= product) by (nonlinear_arith)
        requires
            product == collateral * threshold,
            0 <= collateral,
            0 <= threshold,
    ;
    assert((amount > product / 10_000) <==> (amount * 10_000 > product)) by (nonlinear_arith)
        requires
            0 <= product,
    ;
    assert(0 <= product / 10_000) by (nonlinear_arith)
        requires
            0 <= product,
    ;
}

/// The collateral is valued whenever the price of each asset held is at
/// hand and the SOL deposit, with its interest, fits in a `u64`. A missing
/// price comes before anything the interest may do: it is reported even
/// where the interest could not be worked out.
pub proof fn lemma_collateral_is_owed(ctx: Borrow, now: i64)
    ensures
        ({
            let user = ctx.user_account;
            let sol_price = price_if_held(
                user.sol.deposited.amount,
                Asset::Sol,
                ctx.price_updates,
                now,
            );
            let usdc_price = price_if_held(
                user.usdc.deposited.amount,
                Asset::Usdc,
                ctx.price_updates,
                now,
            );
            &&& borrow_collateral(ctx, now) is Ok <==> sol_price is Ok && usdc_price is Ok
                && sol_with_interest(ctx, now) is Ok
            &&& sol_price matches Err(e) ==> borrow_collateral(ctx, now) == Err::<u128, ErrorCode>(e)
            &&& sol_price is Ok ==> (usdc_price matches Err(e) ==> borrow_collateral(ctx, now)
                == Err::<u128, ErrorCode>(e))
            &&& user.sol.deposited.amount == 0 && now >= user.last_updated ==> sol_with_interest(
                ctx,
                now,
            ) == Ok::<u64, ErrorCode>(0)
            &&& user.sol.deposited.amount == 0 && now >= user.last_updated ==> (usdc_price
                matches Ok(price) ==> borrow_collateral(ctx, now) == Ok::<u128, ErrorCode>(
                (user.usdc.deposited.amount * price) as u128,
            ))
        }),
{
    let user = ctx.user_account;
    crate::interest::lemma_accrued_never_loses(
        user.sol.deposited.amount,
        ctx.bank.interest_rate,
        user.last_updated,
        now,
    );
}

/// Nobody borrows more than the collateral allows: once the collateral is
/// valued, a request above `collateral * threshold / BPS` is refused as
/// `OverBorrowableAmount`, whatever else holds, and no request at or below
/// it is refused for that reason. A request of exactly the limit is granted
/// unless adding it to the books would overflow them or the treasury cannot
/// pay it.
pub proof fn lemma_no_over_borrow(ctx: Borrow, amount: u64, now: i64)
    requires
        borrow_collateral(ctx, now) is Ok,
    ensures
        ({
            let collateral = borrow_collateral(ctx, now)->Ok_0;
            let threshold = ctx.bank.liquidation_threshold;
            let owed = ctx.user_account.leg(ctx.bank.asset).borrowed;
            &&& amount * BPS > collateral * threshold <==> borrow_outcome(ctx, amount, now) == Err::<
                Borrow,
                ErrorCode,
            >(ErrorCode::OverBorrowableAmount)
            &&& amount == borrowable_amount(collateral as int, threshold as int) && credit_outcome(
                ctx.bank.borrows,
                owed,
                amount,
            ) is Ok && transfer_outcome(ctx.bank_token_account, ctx.user_token_account, amount)
                is Ok ==> borrow_outcome(ctx, amount, now) is Ok
        }),
{
    let collateral = borrow_collateral(ctx, now)->Ok_0;
    lemma_borrowable_is_exact(
        collateral as int,
        ctx.bank.liquidation_threshold as int,
        amount as int,
    );
}

/// A loan that is granted adds its amount to the pool's borrows and to the
/// borrower's, moves the same number of shares on both, moves the amount
/// from the treasury to the user's account, and touches nothing else. A
/// well-formed pool stays well formed and a solvent one solvent.
pub proof fn lemma_borrow_effect(ctx: Borrow, amount: u64, now: i64)
    requires
        borrow_outcome(ctx, amount, now) is Ok,
    ensures
        ({
            let next = borrow_outcome(ctx, amount, now)->Ok_0;
            let asset = ctx.bank.asset;
            let before = ctx.user_account.leg(asset);
            let after = next.user_account.leg(asset);
            &&& next.bank.borrows.amount == ctx.bank.borrows.amount + amount
            &&& after.borrowed.amount == before.borrowed.amount + amount
            &&& next.bank.borrows.shares == ctx.bank.borrows.shares + minted_shares(
                ctx.bank.borrows,
                amount as int,
            )
            &&& after.borrowed.shares == before.borrowed.shares + minted_shares(
                ctx.bank.borrows,
                amount as int,
            )
            &&& after.deposited == before.deposited
            &&& next.bank.deposits == ctx.bank.deposits
            &&& next.user_account.last_updated == ctx.user_account.last_updated
            &&& next.bank_token_account.amount == ctx.bank_token_account.amount - amount
            &&& next.user_token_account.amount == ctx.user_token_account.amount + amount
            &&& ctx.bank.wf() ==> next.bank.wf()
            &&& ctx.bank.is_backed_by(ctx.bank_token_account) ==> next.bank.is_backed_by(
                next.bank_token_account,
            )
        }),
{
    let owed = ctx.user_account.leg(ctx.bank.asset).borrowed;
    crate::shares::lemma_credit_conserves(ctx.bank.borrows, owed, amount);
    if ctx.bank.wf() {
        crate::shares::lemma_credit_keeps_wf(ctx.bank.borrows, owed, amount);
    }
}

/// The first loan from a pool that has lent nothing is granted whenever it
/// is within the limit and the treasury can pay it, and mints one share per
/// unit: the pool and the borrower then both stand at the amount, in
/// amount and in shares. Nothing is divided by the empty total.
pub proof fn lemma_first_loan(ctx: Borrow, amount: u64, now: i64)
    requires
        ctx.bank.borrows == Balance::zero(),
        ctx.user_account.leg(ctx.bank.asset).borrowed == Balance::zero(),
        borrow_collateral(ctx, now) is Ok,
        amount <= borrowable_amount(
            borrow_collateral(ctx, now)->Ok_0 as int,
            ctx.bank.liquidation_threshold as int,
        ),
        transfer_outcome(ctx.bank_token_account, ctx.user_token_account, amount) is Ok,
    ensures
        borrow_outcome(ctx, amount, now) is Ok,
        ({
            let next = borrow_outcome(ctx, amount, now)->Ok_0;
            &&& next.bank.borrows == Balance { amount, shares: amount }
            &&& next.user_account.leg(ctx.bank.asset).borrowed == Balance { amount, shares: amount }
        }),
{
}

} // verus!

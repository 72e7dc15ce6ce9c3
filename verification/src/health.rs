//! What a position is worth and whether its debt is covered.

use vstd::prelude::*;
use crate::error::ErrorCode;
use crate::math::{bps_floor, bps_of, BPS};
use crate::oracle::{get_price, price_of, PriceUpdate};
use crate::state::{Asset, User};

verus! {

/// The posted price updates that an operation may consult, one per asset.
#[derive(Clone, Copy, Debug, PartialEq, Eq)]
pub struct PriceUpdates {
    pub sol: PriceUpdate,
    pub usdc: PriceUpdate,
}

impl PriceUpdates {
    /// The update that is consulted for `asset`.
    pub open spec fn of(self, asset: Asset) -> PriceUpdate {
        match asset {
            Asset::Sol => self.sol,
            Asset::Usdc => self.usdc,
        }
    }

    pub fn get(&self, asset: Asset) -> (r: &PriceUpdate)
        ensures
            *r == self.of(asset),
    {
        match asset {
            Asset::Sol => &self.sol,
            Asset::Usdc => &self.usdc,
        }
    }
}

/// The price at which `amount` of `asset` is valued at time `now`. Nothing
/// is worth nothing, whatever the feed says, so the price of an asset is
/// asked for only where some of it is held, and is zero otherwise.
pub open spec fn price_if_held(amount: u64, asset: Asset, prices: PriceUpdates, now: i64) -> Result<
    u64,
    ErrorCode,
> {
    if amount == 0 {
        Ok(0)
    } else {
        price_of(prices.of(asset), asset, now)
    }
}

/// The value of `amount` of `asset` at time `now`: the amount times the
/// asset's price.
pub open spec fn value_of(amount: u64, asset: Asset, prices: PriceUpdates, now: i64) -> Result<
    u128,
    ErrorCode,
> {
    match price_if_held(amount, asset, prices, now) {
        Ok(price) => Ok((amount * price) as u128),
        Err(e) => Err(e),
    }
}

/// The value of `sol` of SOL and `usdc` of USDC together. Where both prices
/// are missing, the error is that of SOL.
pub open spec fn total_value(sol: u64, usdc: u64, prices: PriceUpdates, now: i64) -> Result<
    u128,
    ErrorCode,
> {
    match value_of(sol, Asset::Sol, prices, now) {
        Err(e) => Err(e),
        Ok(sol_value) => match value_of(usdc, Asset::Usdc, prices, now) {
            Err(e) => Err(e),
            Ok(usdc_value) => Ok((sol_value + usdc_value) as u128),
        },
    }
}

/// The value of everything `user` deposited.
pub open spec fn collateral_value(user: User, prices: PriceUpdates, now: i64) -> Result<
    u128,
    ErrorCode,
> {
    total_value(user.sol.deposited.amount, user.usdc.deposited.amount, prices, now)
}

/// The value of everything `user` owes.
pub open spec fn borrowed_value(user: User, prices: PriceUpdates, now: i64) -> Result<
    u128,
    ErrorCode,
> {
    total_value(user.sol.borrowed.amount, user.usdc.borrowed.amount, prices, now)
}

/// The health factor of a position with debt: its collateral's value, taken
/// at `threshold` basis points, over the value of what it owes, rounded down.
pub open spec fn health_factor(collateral: int, borrowed: int, threshold: int) -> int {
    (collateral * threshold) / (BPS * borrowed)
}

/// A position is healthy when it owes nothing or its health factor is at
/// least one.
pub open spec fn is_healthy(collateral: int, borrowed: int, threshold: int) -> bool {
    borrowed == 0 || health_factor(collateral, borrowed, threshold) >= 1
}

/// The health factor reaches one exactly when the collateral's value, taken
/// at the threshold and rounded down, reaches the debt.
pub proof fn lemma_health_factor(collateral: int, borrowed: int, threshold: int)
    requires
        0 <= collateral,
        0 < borrowed,
        0 <= threshold,
    ensures
        health_factor(collateral, borrowed, threshold) >= 1 <==> bps_floor(collateral, threshold)
            >= borrowed,
{
    let n = collateral * threshold;
    assert(0 <= n) by (nonlinear_arith)
        requires
            n == collateral * threshold,
            0 <= collateral,
            0 <= threshold,
    ;
    assert((n / (10_000 * borrowed) >= 1) <==> (n >= 10_000 * borrowed)) by (nonlinear_arith)
        requires
            0 <= n,
            0 < borrowed,
    ;
    assert((n / 10_000 >= borrowed) <==> (n >= 10_000 * borrowed)) by (nonlinear_arith)
        requires
            0 <= n,
            0 < borrowed,
    ;
}

/// The price at which `amount` of `asset` is valued at time `now`: zero
/// where nothing is held, the asset's price otherwise. Fails where a price
/// is needed and `get_price` gives none.
pub fn held_price(amount: u64, asset: Asset, prices: &PriceUpdates, now: i64) -> (r: Result<
    u64,
    ErrorCode,
>)
    ensures
        r == price_if_held(amount, asset, *prices, now),
{
    if amount == 0 {
        Ok(0)
    } else {
        get_price(prices.get(asset), asset, now)
    }
}

/// `amount` at `price`, which always fits.
pub fn priced(amount: u64, price: u64) -> (r: u128)
    ensures
        r == amount * price,
{
    assert(amount * price <= 0xffff_ffff_ffff_ffff * 0xffff_ffff_ffff_ffff) by (nonlinear_arith)
        requires
            0 <= amount <= 0xffff_ffff_ffff_ffff,
            0 <= price <= 0xffff_ffff_ffff_ffff,
    ;
    (amount as u128) * (price as u128)
}

/// The value of `amount` of `asset` at time `now`. Fails where a price is
/// needed and `get_price` gives none.
pub fn asset_value(amount: u64, asset: Asset, prices: &PriceUpdates, now: i64) -> (r: Result<
    u128,
    ErrorCode,
>)
    ensures
        r == value_of(amount, asset, *prices, now),
{
    match held_price(amount, asset, prices, now) {
        Ok(price) => Ok(priced(amount, price)),
        Err(e) => Err(e),
    }
}

/// The value of `sol` of SOL and `usdc` of USDC together.
pub fn assets_value(sol: u64, usdc: u64, prices: &PriceUpdates, now: i64) -> (r: Result<
    u128,
    ErrorCode,
>)
    ensures
        r == total_value(sol, usdc, *prices, now),
{
    let sol_value = match asset_value(sol, Asset::Sol, prices, now) {
        Ok(value) => value,
        Err(e) => { return Err(e); },
    };
    let usdc_value = match asset_value(usdc, Asset::Usdc, prices, now) {
        Ok(value) => value,
        Err(e) => { return Err(e); },
    };
    proof {
        lemma_value_bound(sol, Asset::Sol, *prices, now);
        lemma_value_bound(usdc, Asset::Usdc, *prices, now);
    }
    Ok(sol_value + usdc_value)
}

/// A price comes out of an `i64` and is not negative.
pub proof fn lemma_price_bound(amount: u64, asset: Asset, prices: PriceUpdates, now: i64)
    ensures
        price_if_held(amount, asset, prices, now) matches Ok(price) ==> price
            <= 0x7fff_ffff_ffff_ffff,
{
}

/// A value is the product of a `u64` amount and a price that fits in `i64`.
pub proof fn lemma_value_bound(amount: u64, asset: Asset, prices: PriceUpdates, now: i64)
    ensures
        value_of(amount, asset, prices, now) matches Ok(value) ==> value <= amount
            * 0x7fff_ffff_ffff_ffff,
{
    if amount != 0 {
        if let Ok(price) = price_of(prices.of(asset), asset, now) {
            assert(0 <= amount * price <= amount * 0x7fff_ffff_ffff_ffff) by (nonlinear_arith)
                requires
                    0 <= amount,
                    0 <= price <= 0x7fff_ffff_ffff_ffff,
            ;
            assert(amount * 0x7fff_ffff_ffff_ffff <= 0xffff_ffff_ffff_ffff * 0x7fff_ffff_ffff_ffff)
                by (nonlinear_arith)
                requires
                    0 <= amount <= 0xffff_ffff_ffff_ffff,
            ;
        }
    }
}

/// Whether debt worth `borrowed` is covered by collateral worth
/// `collateral`, of which `threshold` basis points count.
pub fn check_health(collateral: u128, borrowed: u128, threshold: u64) -> (r: bool)
    ensures
        r == is_healthy(collateral as int, borrowed as int, threshold as int),
{
    if borrowed == 0 {
        return true;
    }
    proof {
        lemma_health_factor(collateral as int, borrowed as int, threshold as int);
    }
    match bps_of(collateral, threshold) {
        Some(adjusted) => adjusted >= borrowed,
        None => true,
    }
}

/// Whether what `user` owes is covered by what `user` deposited, of which
/// `threshold` basis points count. The debt is valued first; a position
/// whose debt is worth nothing is healthy whatever it deposited, and its
/// deposits are then not valued at all.
pub open spec fn position_is_healthy(
    user: User,
    prices: PriceUpdates,
    now: i64,
    threshold: u64,
) -> Result<bool, ErrorCode> {
    match borrowed_value(user, prices, now) {
        Err(e) => Err(e),
        Ok(borrowed) => if borrowed == 0 {
            Ok(true)
        } else {
            match collateral_value(user, prices, now) {
                Err(e) => Err(e),
                Ok(collateral) => Ok(
                    is_healthy(collateral as int, borrowed as int, threshold as int),
                ),
            }
        },
    }
}

/// The value of everything `user` owes.
pub fn debt_value(user: &User, prices: &PriceUpdates, now: i64) -> (r: Result<u128, ErrorCode>)
    ensures
        r == borrowed_value(*user, *prices, now),
{
    assets_value(user.sol.borrowed.amount, user.usdc.borrowed.amount, prices, now)
}

/// The value of everything `user` deposited.
pub fn deposits_value(user: &User, prices: &PriceUpdates, now: i64) -> (r: Result<
    u128,
    ErrorCode,
>)
    ensures
        r == collateral_value(*user, *prices, now),
{
    assets_value(user.sol.deposited.amount, user.usdc.deposited.amount, prices, now)
}

/// Whether what `user` owes is covered by what `user` deposited.
pub fn position_health(user: &User, prices: &PriceUpdates, now: i64, threshold: u64) -> (r: Result<
    bool,
    ErrorCode,
>)
    ensures
        r == position_is_healthy(*user, *prices, now, threshold),
{
    let borrowed = match debt_value(user, prices, now) {
        Ok(value) => value,
        Err(e) => { return Err(e); },
    };
    if borrowed == 0 {
        return Ok(true);
    }
    match deposits_value(user, prices, now) {
        Ok(collateral) => Ok(check_health(collateral, borrowed, threshold)),
        Err(e) => Err(e),
    }
}

} // verus!

use lending::error::ErrorCode;
use lending::health::{
    asset_value, assets_value, check_health, debt_value, deposits_value, held_price,
    position_health, priced, PriceUpdates,
};
use lending::instructions::liquidate::{
    amount_to_liquidate, process_liquidate, reward_for, Liquidate, Liquidation,
};
use lending::oracle::{feed_id, PriceUpdate, VerificationLevel};
use lending::state::{Asset, Balance, Bank, User};
use lending::transfer::{Direction, TokenAccount, Transfer};

fn balance(amount: u64, shares: u64) -> Balance {
    Balance { amount, shares }
}

fn update(asset: Asset, price: i64, publish_time: i64) -> PriceUpdate {
    PriceUpdate {
        feed_id: feed_id(asset),
        verification_level: VerificationLevel::Full,
        price,
        publish_time,
    }
}

fn prices(sol: i64, usdc: i64, publish_time: i64) -> PriceUpdates {
    PriceUpdates {
        sol: update(Asset::Sol, sol, publish_time),
        usdc: update(Asset::Usdc, usdc, publish_time),
    }
}

fn position(sol_deposited: u64, usdc_borrowed: u64) -> Liquidate {
    let mut collateral_bank = Bank::new(Asset::Sol, 8_000, 500, 5_000, 0).unwrap();
    collateral_bank.deposits = balance(5000, 5000);
    let mut borrowed_bank = Bank::new(Asset::Usdc, 1, 2, 3, 0).unwrap();
    borrowed_bank.borrows = balance(2000, 2000);
    let mut user = User::new(0);
    user.sol.deposited = balance(sol_deposited, sol_deposited);
    user.usdc.borrowed = balance(usdc_borrowed, usdc_borrowed);
    Liquidate {
        collateral_bank,
        collateral_bank_token_account: tokens(5000),
        borrowed_bank,
        borrowed_bank_token_account: tokens(0),
        user_account: user,
        liquidator_collateral_token_account: tokens(0),
        liquidator_borrowed_token_account: tokens(u64::MAX),
        price_updates: prices(1, 1, 100),
    }
}

fn tokens(amount: u64) -> TokenAccount {
    TokenAccount { amount }
}

#[test]
fn values_are_amounts_times_prices() {
    let p = prices(7, 2, 100);
    assert_eq!(asset_value(100, Asset::Sol, &p, 100), Ok(700));
    assert_eq!(asset_value(100, Asset::Usdc, &p, 100), Ok(200));
    assert_eq!(asset_value(0, Asset::Sol, &p, 1_000_000), Ok(0));
    assert_eq!(asset_value(1, Asset::Sol, &p, 1_000_000), Err(ErrorCode::StalePrice));
    assert_eq!(assets_value(100, 300, &p, 100), Ok(1_300));
    let top = prices(i64::MAX, i64::MAX, 100);
    assert_eq!(
        assets_value(u64::MAX, u64::MAX, &top, 100),
        Ok(2 * (u64::MAX as u128) * (i64::MAX as u128))
    );
}

#[test]
fn each_asset_is_valued_by_its_own_update() {
    let p = prices(7, 2, 100);
    assert_eq!(*p.get(Asset::Sol), p.sol);
    assert_eq!(*p.get(Asset::Usdc), p.usdc);
    assert_eq!(p.get(Asset::Sol).price, 7);
    assert_eq!(p.get(Asset::Usdc).price, 2);
}

#[test]
fn a_price_is_asked_for_only_where_something_is_held() {
    let p = prices(7, 2, 100);
    assert_eq!(held_price(5, Asset::Sol, &p, 100), Ok(7));
    assert_eq!(held_price(5, Asset::Usdc, &p, 100), Ok(2));
    assert_eq!(held_price(0, Asset::Sol, &p, 1_000_000), Ok(0));
    assert_eq!(held_price(5, Asset::Sol, &p, 1_000_000), Err(ErrorCode::StalePrice));
    assert_eq!(priced(5, 7), 35);
    assert_eq!(priced(u64::MAX, u64::MAX), (u64::MAX as u128) * (u64::MAX as u128));
}

#[test]
fn position_values_add_up_the_legs() {
    let mut user = User::new(0);
    user.sol.deposited = balance(10, 1);
    user.usdc.deposited = balance(20, 2);
    user.sol.borrowed = balance(3, 3);
    user.usdc.borrowed = balance(4, 4);
    let p = prices(100, 1, 100);
    assert_eq!(deposits_value(&user, &p, 100), Ok(1_020));
    assert_eq!(debt_value(&user, &p, 100), Ok(304));
}

#[test]
fn health_compares_adjusted_collateral_with_debt() {
    assert!(check_health(1000, 800, 8_000));
    assert!(!check_health(1000, 801, 8_000));
    assert!(check_health(0, 0, 0));
    assert!(!check_health(1000, 1, 0));
    assert!(check_health(999, 799, 8_000));
    assert!(!check_health(999, 800, 8_000));
    assert!(check_health(u128::MAX, u128::MAX, 10_000));
    assert!(!check_health(u128::MAX - 1, u128::MAX, 10_000));
    assert!(check_health(u128::MAX, u128::MAX, u64::MAX));
}

#[test]
fn position_without_debt_is_healthy_at_any_price() {
    let mut user = User::new(0);
    user.sol.deposited = balance(10, 10);
    assert_eq!(position_health(&user, &prices(1, 1, 0), 1_000_000, 0), Ok(true));
    user.usdc.borrowed = balance(1, 1);
    assert_eq!(position_health(&user, &prices(1, 1, 0), 1_000_000, 0), Err(ErrorCode::StalePrice));
    assert_eq!(position_health(&user, &prices(1, 1, 0), 100, 0), Ok(false));
    assert_eq!(position_health(&user, &prices(1, 1, 0), 100, 1_000), Ok(true));
    assert_eq!(position_health(&user, &prices(1, 0, 0), 100, 0), Ok(true));
}

#[test]
fn liquidation_amount_is_the_close_factor_part() {
    assert_eq!(amount_to_liquidate(900, 5_000), 450);
    assert_eq!(amount_to_liquidate(901, 5_000), 450);
    assert_eq!(amount_to_liquidate(900, 10_000), 900);
    assert_eq!(amount_to_liquidate(900, 0), 0);
    assert_eq!(amount_to_liquidate(3, 3_333), 0);
}

#[test]
fn liquidation_amount_is_capped_at_the_debt() {
    assert_eq!(amount_to_liquidate(900, 10_001), 900);
    assert_eq!(amount_to_liquidate(900, u64::MAX), 900);
    assert_eq!(amount_to_liquidate(u128::MAX, 20_000), u128::MAX);
    assert_eq!(amount_to_liquidate(u128::MAX, 10_000), u128::MAX);
}

#[test]
fn reward_adds_the_bonus() {
    assert_eq!(reward_for(450, 500), Some(472));
    assert_eq!(reward_for(450, 0), Some(450));
    assert_eq!(reward_for(450, 10_000), Some(900));
    assert_eq!(reward_for(0, u64::MAX), Some(0));
    assert_eq!(reward_for(u64::MAX, 0), Some(u64::MAX));
    assert_eq!(reward_for(u64::MAX, 1), None);
    assert_eq!(reward_for(u64::MAX / 2 + 1, 10_000), None);
    assert_eq!(reward_for(2, u64::MAX), Some(2 + 3_689_348_814_741_910));
}

#[test]
fn unhealthy_position_is_liquidated() {
    let before = position(1000, 900);
    let mut ctx = before;
    assert_eq!(
        process_liquidate(&mut ctx, 150),
        Ok(Liquidation {
            repayment: Transfer { asset: Asset::Usdc, amount: 450, direction: Direction::IntoPool },
            reward: Transfer { asset: Asset::Sol, amount: 472, direction: Direction::OutOfPool },
        })
    );
    assert_eq!(ctx.user_account.usdc.borrowed, balance(450, 450));
    assert_eq!(ctx.user_account.sol.deposited, balance(528, 528));
    assert_eq!(ctx.borrowed_bank.borrows, balance(1550, 1550));
    assert_eq!(ctx.collateral_bank.deposits, balance(4528, 4528));
    assert_eq!(ctx.borrowed_bank.deposits, before.borrowed_bank.deposits);
    assert_eq!(ctx.collateral_bank.borrows, before.collateral_bank.borrows);
    assert_eq!(ctx.user_account.sol.borrowed, balance(0, 0));
    assert_eq!(ctx.user_account.usdc.deposited, balance(0, 0));
    assert!(debt_value(&ctx.user_account, &ctx.price_updates, 150).unwrap() < 900);
    assert_eq!(ctx.borrowed_bank_token_account, tokens(450));
    assert_eq!(ctx.liquidator_borrowed_token_account, tokens(u64::MAX - 450));
    assert_eq!(ctx.collateral_bank_token_account, tokens(4528));
    assert_eq!(ctx.liquidator_collateral_token_account, tokens(472));
}

#[test]
fn liquidator_must_hold_what_it_repays() {
    let mut ctx = position(1000, 900);
    ctx.liquidator_borrowed_token_account = tokens(449);
    let before = ctx;
    assert_eq!(process_liquidate(&mut ctx, 150), Err(ErrorCode::InsufficientBalance));
    assert_eq!(ctx, before);
    ctx.liquidator_borrowed_token_account = tokens(450);
    assert!(process_liquidate(&mut ctx, 150).is_ok());
    assert_eq!(ctx.liquidator_borrowed_token_account, tokens(0));
}

#[test]
fn treasury_must_hold_the_reward() {
    let mut ctx = position(1000, 900);
    ctx.collateral_bank_token_account = tokens(471);
    let before = ctx;
    assert_eq!(process_liquidate(&mut ctx, 150), Err(ErrorCode::InsufficientBalance));
    assert_eq!(ctx, before);
    ctx.collateral_bank_token_account = tokens(472);
    assert!(process_liquidate(&mut ctx, 150).is_ok());
}

#[test]
fn liquidation_can_be_repeated_while_unhealthy() {
    let mut ctx = position(1000, 900);
    assert!(process_liquidate(&mut ctx, 150).is_ok());
    assert_eq!(position_health(&ctx.user_account, &ctx.price_updates, 150, 8_000), Ok(false));
    let second = process_liquidate(&mut ctx, 150).unwrap();
    assert_eq!(second.repayment.amount, 225);
    assert_eq!(second.reward.amount, 236);
    assert_eq!(ctx.user_account.usdc.borrowed, balance(225, 225));
    assert_eq!(ctx.user_account.sol.deposited, balance(292, 292));
    assert_eq!(position_health(&ctx.user_account, &ctx.price_updates, 150, 8_000), Ok(true));
    assert_eq!(process_liquidate(&mut ctx, 150), Err(ErrorCode::NotUndercollateralized));
}

#[test]
fn healthy_position_is_not_liquidated() {
    let before = position(1000, 800);
    let mut ctx = before;
    assert_eq!(process_liquidate(&mut ctx, 150), Err(ErrorCode::NotUndercollateralized));
    assert_eq!(ctx, before);
}

#[test]
fn position_without_debt_is_not_liquidated() {
    let mut ctx = position(0, 0);
    ctx.price_updates = prices(1, 1, 0);
    assert_eq!(process_liquidate(&mut ctx, 1_000_000), Err(ErrorCode::NotUndercollateralized));
}

#[test]
fn full_close_factor_repays_the_whole_debt() {
    let mut ctx = position(1000, 900);
    ctx.collateral_bank.liquidation_close_factor = 10_000;
    let done = process_liquidate(&mut ctx, 150).unwrap();
    assert_eq!(done.repayment.amount, 900);
    assert_eq!(done.reward.amount, 945);
    assert_eq!(ctx.user_account.usdc.borrowed, balance(0, 0));
    assert_eq!(ctx.user_account.sol.deposited, balance(55, 55));
}

#[test]
fn risk_parameters_are_those_of_the_collateral_pool() {
    let mut ctx = position(1000, 900);
    ctx.borrowed_bank.liquidation_threshold = 10_000;
    ctx.borrowed_bank.liquidation_close_factor = 10_000;
    ctx.borrowed_bank.liquidation_bonus = 0;
    let done = process_liquidate(&mut ctx, 150).unwrap();
    assert_eq!(done.repayment.amount, 450);
    assert_eq!(done.reward.amount, 472);
}

#[test]
fn liquidation_needs_fresh_prices() {
    let before = position(1000, 900);
    let mut ctx = before;
    assert_eq!(process_liquidate(&mut ctx, 201), Err(ErrorCode::StalePrice));
    assert_eq!(ctx, before);
    let mut unverified = before;
    unverified.price_updates.sol.verification_level =
        VerificationLevel::Partial { num_signatures: 255 };
    assert_eq!(process_liquidate(&mut unverified, 150), Err(ErrorCode::StalePrice));
}

#[test]
fn liquidation_beyond_the_leg_is_an_over_repay() {
    let mut ctx = position(1000, 90);
    ctx.price_updates = prices(1, 100, 100);
    let before = ctx;
    assert_eq!(process_liquidate(&mut ctx, 150), Err(ErrorCode::OverRepay));
    assert_eq!(ctx, before);
}

#[test]
fn reward_beyond_the_collateral_is_refused() {
    let mut ctx = position(1000, 900);
    ctx.collateral_bank.liquidation_bonus = 13_000;
    let before = ctx;
    assert_eq!(process_liquidate(&mut ctx, 150), Err(ErrorCode::InsufficientCollateral));
    assert_eq!(ctx, before);
}

#[test]
fn reward_beyond_u64_is_refused() {
    let mut ctx = position(100_000, 90_000);
    ctx.collateral_bank.liquidation_bonus = u64::MAX;
    let before = ctx;
    assert_eq!(process_liquidate(&mut ctx, 150), Err(ErrorCode::ArithmeticOverflow));
    assert_eq!(ctx, before);
    let mut huge = position(1, u64::MAX);
    huge.price_updates.usdc.price = 3;
    huge.collateral_bank.liquidation_close_factor = 10_000;
    assert_eq!(process_liquidate(&mut huge, 150), Err(ErrorCode::ArithmeticOverflow));
}

#[test]
fn liquidation_against_an_empty_pool_is_refused() {
    let mut ctx = position(1000, 900);
    ctx.borrowed_bank.borrows = balance(0, 0);
    assert_eq!(process_liquidate(&mut ctx, 150), Err(ErrorCode::EmptyPool));
    let mut other = position(1000, 900);
    other.collateral_bank.deposits = balance(0, 0);
    let before = other;
    assert_eq!(process_liquidate(&mut other, 150), Err(ErrorCode::EmptyPool));
    assert_eq!(other, before);
}

#[test]
fn close_factor_of_zero_moves_nothing() {
    let mut ctx = position(1000, 900);
    ctx.collateral_bank.liquidation_close_factor = 0;
    let before = ctx;
    let done = process_liquidate(&mut ctx, 150).unwrap();
    assert_eq!(done.repayment.amount, 0);
    assert_eq!(done.reward.amount, 0);
    assert_eq!(ctx, before);
}

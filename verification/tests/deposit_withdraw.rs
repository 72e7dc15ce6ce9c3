use lending::error::ErrorCode;
use lending::health::PriceUpdates;
use lending::instructions::deposit::{process_deposit, Deposit};
use lending::instructions::withdraw::{process_withdraw, release_collateral, Withdraw};
use lending::oracle::{feed_id, PriceUpdate, VerificationLevel};
use lending::state::{Asset, Balance, Bank, Leg, User};
use lending::transfer::{transfer_tokens, Direction, TokenAccount, Transfer};

fn balance(amount: u64, shares: u64) -> Balance {
    Balance { amount, shares }
}

fn tokens(amount: u64) -> TokenAccount {
    TokenAccount { amount }
}

fn deposit_ctx(bank: Bank, user_account: User) -> Deposit {
    Deposit {
        bank,
        bank_token_account: tokens(bank.deposits.amount - bank.borrows.amount),
        user_account,
        user_token_account: tokens(1_000_000),
    }
}

fn withdraw_ctx(bank: Bank, user_account: User, price_updates: PriceUpdates) -> Withdraw {
    Withdraw {
        bank,
        bank_token_account: tokens(bank.deposits.amount - bank.borrows.amount),
        user_account,
        user_token_account: tokens(0),
        price_updates,
    }
}

fn bank(asset: Asset) -> Bank {
    Bank::new(asset, 8_000, 500, 5_000, 0).unwrap()
}

fn update(asset: Asset, price: i64, publish_time: i64) -> PriceUpdate {
    PriceUpdate {
        feed_id: feed_id(asset),
        verification_level: VerificationLevel::Full,
        price,
        publish_time,
    }
}

fn prices(sol: i64, usdc: i64, publish_time: i64) -> PriceUpdates {
    PriceUpdates {
        sol: update(Asset::Sol, sol, publish_time),
        usdc: update(Asset::Usdc, usdc, publish_time),
    }
}

#[test]
fn new_records_are_empty() {
    let pool = bank(Asset::Usdc);
    assert_eq!(pool.asset, Asset::Usdc);
    assert_eq!(pool.deposits, balance(0, 0));
    assert_eq!(pool.borrows, balance(0, 0));
    assert_eq!(pool.liquidation_threshold, 8_000);
    assert_eq!(pool.liquidation_bonus, 500);
    assert_eq!(pool.liquidation_close_factor, 5_000);
    assert!(pool.is_wf());
    assert_eq!(Balance::empty(), balance(0, 0));
    let user = User::new(42);
    assert_eq!(user.last_updated, 42);
    assert_eq!(user.sol, Leg { deposited: balance(0, 0), borrowed: balance(0, 0) });
    assert_eq!(user.usdc, user.sol);
    assert_eq!(user.get_leg(Asset::Sol), user.sol);
}

#[test]
fn fractions_above_one_make_no_pool() {
    assert_eq!(Bank::new(Asset::Sol, 10_001, 0, 0, 0), None);
    assert_eq!(Bank::new(Asset::Sol, 0, 0, 10_001, 0), None);
    assert!(Bank::new(Asset::Sol, 10_000, u64::MAX, 10_000, u64::MAX).is_some());
    let mut pool = bank(Asset::Sol);
    pool.deposits = balance(5, 0);
    assert!(!pool.is_wf());
    pool.deposits = balance(5, 1);
    pool.borrows = balance(0, 1);
    assert!(!pool.is_wf());
}

#[test]
fn set_leg_replaces_one_leg() {
    let mut user = User::new(0);
    let leg = Leg { deposited: balance(3, 2), borrowed: balance(1, 1) };
    user.set_leg(Asset::Usdc, leg);
    assert_eq!(user.usdc, leg);
    assert_eq!(user.sol, User::new(0).sol);
    assert_eq!(user.get_leg(Asset::Usdc), leg);
}

#[test]
fn first_deposit_bootstraps_the_pool() {
    let mut ctx = deposit_ctx(bank(Asset::Sol), User::new(0));
    let transfer = process_deposit(&mut ctx, 1000, 17);
    assert_eq!(
        transfer,
        Ok(Transfer { asset: Asset::Sol, amount: 1000, direction: Direction::IntoPool })
    );
    assert_eq!(ctx.bank.deposits, balance(1000, 1000));
    assert_eq!(ctx.user_account.sol.deposited, balance(1000, 1000));
    assert_eq!(ctx.user_account.usdc.deposited, balance(0, 0));
    assert_eq!(ctx.user_account.last_updated, 17);
    assert_eq!(ctx.bank.borrows, balance(0, 0));
    assert_eq!(ctx.bank_token_account, tokens(1000));
    assert_eq!(ctx.user_token_account, tokens(999_000));
}

#[test]
fn transfer_moves_what_is_there() {
    assert_eq!(transfer_tokens(&tokens(10), &tokens(5), 10), Ok((tokens(0), tokens(15))));
    assert_eq!(transfer_tokens(&tokens(10), &tokens(5), 0), Ok((tokens(10), tokens(5))));
    assert_eq!(transfer_tokens(&tokens(10), &tokens(5), 11), Err(ErrorCode::InsufficientBalance));
    assert_eq!(
        transfer_tokens(&tokens(10), &tokens(u64::MAX - 9), 10),
        Err(ErrorCode::ArithmeticOverflow)
    );
    assert_eq!(
        transfer_tokens(&tokens(10), &tokens(u64::MAX - 10), 10),
        Ok((tokens(0), tokens(u64::MAX)))
    );
}

#[test]
fn deposit_of_more_than_the_user_holds_is_refused() {
    let mut ctx = deposit_ctx(bank(Asset::Sol), User::new(0));
    ctx.user_token_account = tokens(999);
    let before = ctx;
    assert_eq!(process_deposit(&mut ctx, 1000, 17), Err(ErrorCode::InsufficientBalance));
    assert_eq!(ctx, before);
    assert!(process_deposit(&mut ctx, 999, 17).is_ok());
    assert_eq!(ctx.user_token_account, tokens(0));
    assert_eq!(ctx.bank_token_account, tokens(999));
}

#[test]
fn second_depositor_gets_proportional_shares() {
    let mut first = deposit_ctx(bank(Asset::Usdc), User::new(0));
    process_deposit(&mut first, 1000, 1).unwrap();
    assert_eq!(first.bank.deposits, balance(1000, 1000));
    assert_eq!(first.user_account.usdc.deposited, balance(1000, 1000));
    let mut second = deposit_ctx(first.bank, User::new(0));
    process_deposit(&mut second, 500, 2).unwrap();
    assert_eq!(second.user_account.usdc.deposited, balance(500, 500));
    assert_eq!(second.bank.deposits, balance(1500, 1500));
}

#[test]
fn deposit_at_another_ratio_rounds_down() {
    let mut pool = bank(Asset::Sol);
    pool.deposits = balance(3000, 1000);
    let mut ctx = deposit_ctx(pool, User::new(0));
    process_deposit(&mut ctx, 500, 9).unwrap();
    assert_eq!(ctx.bank.deposits, balance(3500, 1166));
    assert_eq!(ctx.user_account.sol.deposited, balance(500, 166));
}

#[test]
fn deposit_overflow_changes_nothing() {
    let mut pool = bank(Asset::Sol);
    pool.deposits = balance(u64::MAX - 10, u64::MAX - 10);
    let before = deposit_ctx(pool, User::new(3));
    let mut ctx = before;
    assert_eq!(process_deposit(&mut ctx, 11, 99), Err(ErrorCode::ArithmeticOverflow));
    assert_eq!(ctx, before);
    assert!(process_deposit(&mut ctx, 10, 99).is_ok());
    assert_eq!(ctx.bank.deposits, balance(u64::MAX, u64::MAX));
}

fn funded(asset: Asset, pool: u64, held: u64) -> (Bank, User) {
    let mut b = bank(asset);
    b.deposits = balance(pool, pool);
    let mut u = User::new(0);
    u.set_leg(asset, Leg { deposited: balance(held, held), borrowed: balance(0, 0) });
    (b, u)
}

#[test]
fn withdraw_without_debt_needs_no_price() {
    let (b, u) = funded(Asset::Sol, 5000, 1000);
    let stale = prices(1, 1, 0);
    let mut ctx = withdraw_ctx(b, u, stale);
    let transfer = process_withdraw(&mut ctx, 400, 1_000_000);
    assert_eq!(
        transfer,
        Ok(Transfer { asset: Asset::Sol, amount: 400, direction: Direction::OutOfPool })
    );
    assert_eq!(ctx.bank.deposits, balance(4600, 4600));
    assert_eq!(ctx.user_account.sol.deposited, balance(600, 600));
    assert_eq!(ctx.user_account.last_updated, 0);
    assert_eq!(ctx.bank_token_account, tokens(4600));
    assert_eq!(ctx.user_token_account, tokens(400));
}

#[test]
fn withdraw_of_more_than_the_treasury_holds_is_refused() {
    let (b, u) = funded(Asset::Sol, 5000, 1000);
    let mut ctx = withdraw_ctx(b, u, prices(1, 1, 0));
    ctx.bank_token_account = tokens(399);
    let before = ctx;
    assert_eq!(process_withdraw(&mut ctx, 400, 5), Err(ErrorCode::InsufficientBalance));
    assert_eq!(ctx, before);
    assert!(process_withdraw(&mut ctx, 399, 5).is_ok());
    assert_eq!(ctx.bank_token_account, tokens(0));
}

#[test]
fn withdraw_everything_empties_the_leg() {
    let (b, u) = funded(Asset::Usdc, 1000, 1000);
    let mut ctx = withdraw_ctx(b, u, prices(1, 1, 0));
    process_withdraw(&mut ctx, 1000, 5).unwrap();
    assert_eq!(ctx.bank.deposits, balance(0, 0));
    assert_eq!(ctx.user_account.usdc.deposited, balance(0, 0));
    assert!(ctx.bank.is_wf());
}

#[test]
fn withdraw_more_than_deposited_is_refused() {
    let (b, u) = funded(Asset::Sol, 5000, 1000);
    let before = withdraw_ctx(b, u, prices(1, 1, 0));
    let mut ctx = before;
    assert_eq!(process_withdraw(&mut ctx, 1001, 5), Err(ErrorCode::InsufficientCollateral));
    assert_eq!(ctx, before);
}

#[test]
fn withdraw_from_empty_pool_is_refused() {
    let (mut b, u) = funded(Asset::Sol, 5000, 1000);
    b.deposits = balance(0, 0);
    let before = withdraw_ctx(b, u, prices(1, 1, 0));
    let mut ctx = before;
    assert_eq!(process_withdraw(&mut ctx, 10, 5), Err(ErrorCode::EmptyPool));
    assert_eq!(ctx, before);
}

#[test]
fn withdraw_beyond_the_pool_underflows() {
    let (mut b, u) = funded(Asset::Sol, 5000, 1000);
    b.deposits = balance(5, 5);
    let mut ctx = withdraw_ctx(b, u, prices(1, 1, 0));
    assert_eq!(process_withdraw(&mut ctx, 10, 5), Err(ErrorCode::ArithmeticOverflow));
    assert_eq!(release_collateral(&b, &u, 10), Err(ErrorCode::ArithmeticOverflow));
    assert!(release_collateral(&b, &u, 5).is_ok());
}

fn indebted() -> (Bank, User) {
    let (b, mut u) = funded(Asset::Sol, 5000, 1000);
    u.usdc.borrowed = balance(400, 400);
    (b, u)
}

#[test]
fn withdraw_down_to_the_threshold_is_allowed() {
    let (b, u) = indebted();
    let mut ctx = withdraw_ctx(b, u, prices(1, 1, 950));
    assert!(process_withdraw(&mut ctx, 500, 1_000).is_ok());
    assert_eq!(ctx.user_account.sol.deposited, balance(500, 500));
    assert_eq!(ctx.user_account.usdc.borrowed, balance(400, 400));
    assert_eq!(ctx.bank.deposits, balance(4500, 4500));
}

#[test]
fn withdraw_below_the_threshold_is_refused() {
    let (b, u) = indebted();
    let before = withdraw_ctx(b, u, prices(1, 1, 950));
    let mut ctx = before;
    assert_eq!(process_withdraw(&mut ctx, 501, 1_000), Err(ErrorCode::InsufficientCollateral));
    assert_eq!(ctx, before);
}

#[test]
fn withdraw_is_judged_at_current_prices() {
    let (b, u) = indebted();
    let mut cheap = withdraw_ctx(b, u, prices(1, 2, 950));
    assert_eq!(process_withdraw(&mut cheap, 1, 1_000), Err(ErrorCode::InsufficientCollateral));
    let mut dear = withdraw_ctx(b, u, prices(10, 1, 950));
    assert!(process_withdraw(&mut dear, 950, 1_000).is_ok());
    assert_eq!(process_withdraw(&mut dear, 1, 1_000), Err(ErrorCode::InsufficientCollateral));
}

#[test]
fn withdraw_with_debt_needs_fresh_prices() {
    let (b, u) = indebted();
    let before = withdraw_ctx(b, u, prices(1, 1, 899));
    let mut ctx = before;
    assert_eq!(process_withdraw(&mut ctx, 100, 1_000), Err(ErrorCode::StalePrice));
    assert_eq!(ctx, before);
    let mut only_usdc = before;
    only_usdc.price_updates.usdc = update(Asset::Usdc, 1, 1_000);
    assert_eq!(process_withdraw(&mut only_usdc, 100, 1_000), Err(ErrorCode::StalePrice));
    let mut both = only_usdc;
    both.price_updates.sol = update(Asset::Sol, 1, 900);
    assert!(process_withdraw(&mut both, 100, 1_000).is_ok());
}

#[test]
fn withdrawing_all_collateral_with_debt_is_refused() {
    let (b, u) = indebted();
    let mut ctx = withdraw_ctx(b, u, prices(1, 1, 1_000));
    assert_eq!(process_withdraw(&mut ctx, 1000, 1_000), Err(ErrorCode::InsufficientCollateral));
}

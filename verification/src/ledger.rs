//! One pool, its treasury and all the positions in it, seen together.
//!
//! The operations work on one position at a time. This module states what
//! they keep true of the whole: whatever the users of a pool do, in whatever
//! order, their positions add up to the pool's totals, in amounts and in
//! shares, and the treasury holds what was deposited and not lent out.

use vstd::prelude::*;
use crate::health::PriceUpdates;
use crate::instructions::borrow::{borrow_outcome, Borrow};
use crate::instructions::deposit::{deposit_outcome, Deposit};
use crate::instructions::repay::{repay_outcome, Repay};
use crate::instructions::withdraw::{withdraw_outcome, Withdraw};
use crate::state::{Asset, Balance, Bank, User};
use crate::transfer::TokenAccount;

verus! {

/// One of the four numbers that a position keeps per asset.
pub enum Quantity {
    DepositedAmount,
    DepositedShares,
    BorrowedAmount,
    BorrowedShares,
}

/// The number `which` of `user`'s leg in `asset`.
pub open spec fn quantity(user: User, asset: Asset, which: Quantity) -> int {
    let leg = user.leg(asset);
    match which {
        Quantity::DepositedAmount => leg.deposited.amount as int,
        Quantity::DepositedShares => leg.deposited.shares as int,
        Quantity::BorrowedAmount => leg.borrowed.amount as int,
        Quantity::BorrowedShares => leg.borrowed.shares as int,
    }
}

/// The number `which` of a pool.
pub open spec fn pool_quantity(bank: Bank, which: Quantity) -> int {
    match which {
        Quantity::DepositedAmount => bank.deposits.amount as int,
        Quantity::DepositedShares => bank.deposits.shares as int,
        Quantity::BorrowedAmount => bank.borrows.amount as int,
        Quantity::BorrowedShares => bank.borrows.shares as int,
    }
}

/// The number `which` in `asset`, added up over all `users`.
pub open spec fn sum_over(users: Seq<User>, asset: Asset, which: Quantity) -> int
    decreases users.len(),
{
    if users.len() == 0 {
        0
    } else {
        sum_over(users.drop_last(), asset, which) + quantity(users.last(), asset, which)
    }
}

/// The positions add up to the pool: in what is deposited and in what is
/// borrowed, in amounts and in shares.
pub open spec fn conserved(bank: Bank, users: Seq<User>) -> bool {
    forall|which: Quantity| #[trigger]
        sum_over(users, bank.asset, which) == pool_quantity(bank, which)
}

/// Something a user asks of the pool. `user` is the user's place among the
/// positions, `wallet` the user's own token account as it stands then.
pub enum Step {
    Deposit { user: int, wallet: TokenAccount, amount: u64, now: i64 },
    Withdraw { user: int, wallet: TokenAccount, amount: u64, now: i64, prices: PriceUpdates },
    Borrow { user: int, wallet: TokenAccount, amount: u64, now: i64, prices: PriceUpdates },
    Repay { user: int, wallet: TokenAccount, amount: u64 },
}

impl Step {
    pub open spec fn user(self) -> int {
        match self {
            Step::Deposit { user, .. } => user,
            Step::Withdraw { user, .. } => user,
            Step::Borrow { user, .. } => user,
            Step::Repay { user, .. } => user,
        }
    }
}

/// The pool, its treasury and the one position after `step`, which are the
/// records the operation leaves behind, or the same as before where it is
/// refused.
pub open spec fn step_outcome(bank: Bank, treasury: TokenAccount, user: User, step: Step) -> (
    Bank,
    TokenAccount,
    User,
) {
    match step {
        Step::Deposit { wallet, amount, now, .. } => match deposit_outcome(
            Deposit {
                bank,
                bank_token_account: treasury,
                user_account: user,
                user_token_account: wallet,
            },
            amount,
            now,
        ) {
            Ok(next) => (next.bank, next.bank_token_account, next.user_account),
            Err(_) => (bank, treasury, user),
        },
        Step::Withdraw { wallet, amount, now, prices, .. } => match withdraw_outcome(
            Withdraw {
                bank,
                bank_token_account: treasury,
                user_account: user,
                user_token_account: wallet,
                price_updates: prices,
            },
            amount,
            now,
        ) {
            Ok(next) => (next.bank, next.bank_token_account, next.user_account),
            Err(_) => (bank, treasury, user),
        },
        Step::Borrow { wallet, amount, now, prices, .. } => match borrow_outcome(
            Borrow {
                bank,
                bank_token_account: treasury,
                user_account: user,
                user_token_account: wallet,
                price_updates: prices,
            },
            amount,
            now,
        ) {
            Ok(next) => (next.bank, next.bank_token_account, next.user_account),
            Err(_) => (bank, treasury, user),
        },
        Step::Repay { wallet, amount, .. } => match repay_outcome(
            Repay {
                bank,
                bank_token_account: treasury,
                user_account: user,
                user_token_account: wallet,
            },
            amount,
        ) {
            Ok(next) => (next.bank, next.bank_token_account, next.user_account),
            Err(_) => (bank, treasury, user),
        },
    }
}

/// The pool, its treasury and all positions after `step`. A step of a user
/// that is not among the positions does nothing.
pub open spec fn after_step(bank: Bank, treasury: TokenAccount, users: Seq<User>, step: Step) -> (
    Bank,
    TokenAccount,
    Seq<User>,
) {
    let i = step.user();
    if 0 <= i < users.len() {
        let (new_bank, new_treasury, new_user) = step_outcome(bank, treasury, users[i], step);
        (new_bank, new_treasury, users.update(i, new_user))
    } else {
        (bank, treasury, users)
    }
}

/// The pool, its treasury and all positions after `steps`, taken in order.
pub open spec fn after_steps(
    bank: Bank,
    treasury: TokenAccount,
    users: Seq<User>,
    steps: Seq<Step>,
) -> (Bank, TokenAccount, Seq<User>)
    decreases steps.len(),
{
    if steps.len() == 0 {
        (bank, treasury, users)
    } else {
        let (mid_bank, mid_treasury, mid_users) = after_steps(
            bank,
            treasury,
            users,
            steps.drop_last(),
        );
        after_step(mid_bank, mid_treasury, mid_users, steps.last())
    }
}

/// Replacing one position changes a sum by what that position changed.
pub proof fn lemma_sum_update(users: Seq<User>, i: int, user: User, asset: Asset, which: Quantity)
    requires
        0 <= i < users.len(),
    ensures
        sum_over(users.update(i, user), asset, which) == sum_over(users, asset, which) - quantity(
            users[i],
            asset,
            which,
        ) + quantity(user, asset, which),
    decreases users.len(),
{
    let updated = users.update(i, user);
    if i == users.len() - 1 {
        assert(updated.drop_last() =~= users.drop_last());
    } else {
        assert(updated.drop_last() =~= users.drop_last().update(i, user));
        lemma_sum_update(users.drop_last(), i, user, asset, which);
    }
}

/// What one step does to the pool it does to the position: each of the four
/// numbers changes by the same on both sides, the pool stays the pool of
/// its asset, a solvent pool stays solvent and a well-formed one well
/// formed.
pub proof fn lemma_step_moves_both(
    bank: Bank,
    treasury: TokenAccount,
    user: User,
    step: Step,
    which: Quantity,
)
    ensures
        ({
            let (new_bank, new_treasury, new_user) = step_outcome(bank, treasury, user, step);
            &&& new_bank.asset == bank.asset
            &&& pool_quantity(new_bank, which) - pool_quantity(bank, which) == quantity(
                new_user,
                bank.asset,
                which,
            ) - quantity(user, bank.asset, which)
            &&& bank.is_backed_by(treasury) ==> new_bank.is_backed_by(new_treasury)
            &&& bank.wf() ==> new_bank.wf()
        }),
{
    match step {
        Step::Deposit { wallet, amount, now, .. } => {
            let ctx = Deposit {
                bank,
                bank_token_account: treasury,
                user_account: user,
                user_token_account: wallet,
            };
            if deposit_outcome(ctx, amount, now) is Ok {
                crate::instructions::deposit::lemma_deposit_effect(ctx, amount, now);
            }
        },
        Step::Withdraw { wallet, amount, now, prices, .. } => {
            let ctx = Withdraw {
                bank,
                bank_token_account: treasury,
                user_account: user,
                user_token_account: wallet,
                price_updates: prices,
            };
            if withdraw_outcome(ctx, amount, now) is Ok {
                crate::instructions::withdraw::lemma_withdraw_effect(ctx, amount, now);
            }
        },
        Step::Borrow { wallet, amount, now, prices, .. } => {
            let ctx = Borrow {
                bank,
                bank_token_account: treasury,
                user_account: user,
                user_token_account: wallet,
                price_updates: prices,
            };
            if borrow_outcome(ctx, amount, now) is Ok {
                crate::instructions::borrow::lemma_borrow_effect(ctx, amount, now);
            }
        },
        Step::Repay { wallet, amount, .. } => {
            let ctx = Repay {
                bank,
                bank_token_account: treasury,
                user_account: user,
                user_token_account: wallet,
            };
            if repay_outcome(ctx, amount) is Ok {
                crate::instructions::repay::lemma_repay_effect(ctx, amount);
            }
        },
    }
}

/// One step keeps the positions adding up to the pool, a solvent pool
/// solvent and a well-formed pool well formed.
pub proof fn lemma_step_conserves(bank: Bank, treasury: TokenAccount, users: Seq<User>, step: Step)
    requires
        conserved(bank, users),
    ensures
        ({
            let (new_bank, new_treasury, new_users) = after_step(bank, treasury, users, step);
            &&& conserved(new_bank, new_users)
            &&& new_bank.asset == bank.asset
            &&& new_users.len() == users.len()
            &&& bank.is_backed_by(treasury) ==> new_bank.is_backed_by(new_treasury)
            &&& bank.wf() ==> new_bank.wf()
        }),
{
    let i = step.user();
    if 0 <= i < users.len() {
        let (new_bank, new_treasury, new_user) = step_outcome(bank, treasury, users[i], step);
        lemma_step_moves_both(bank, treasury, users[i], step, Quantity::DepositedAmount);
        assert forall|which: Quantity| #[trigger]
            sum_over(users.update(i, new_user), new_bank.asset, which) == pool_quantity(
                new_bank,
                which,
            ) by {
            lemma_step_moves_both(bank, treasury, users[i], step, which);
            lemma_sum_update(users, i, new_user, bank.asset, which);
            assert(sum_over(users, bank.asset, which) == pool_quantity(bank, which));
        }
    }
}

/// Share conservation and solvency: whatever the users of a pool deposit,
/// withdraw, borrow and repay, in whatever order and whether granted or
/// refused, the shares and the amounts of their positions add up to those
/// of the pool at every point of the sequence, a treasury that held what
/// was deposited and not lent out still does, and a well-formed pool is
/// still well formed.
pub proof fn lemma_steps_conserve(
    bank: Bank,
    treasury: TokenAccount,
    users: Seq<User>,
    steps: Seq<Step>,
)
    requires
        conserved(bank, users),
    ensures
        ({
            let (new_bank, new_treasury, new_users) = after_steps(bank, treasury, users, steps);
            &&& conserved(new_bank, new_users)
            &&& new_bank.asset == bank.asset
            &&& new_users.len() == users.len()
            &&& bank.is_backed_by(treasury) ==> new_bank.is_backed_by(new_treasury)
            &&& bank.wf() ==> new_bank.wf()
        }),
    decreases steps.len(),
{
    if steps.len() > 0 {
        lemma_steps_conserve(bank, treasury, users, steps.drop_last());
        let (mid_bank, mid_treasury, mid_users) = after_steps(
            bank,
            treasury,
            users,
            steps.drop_last(),
        );
        lemma_step_conserves(mid_bank, mid_treasury, mid_users, steps.last());
    }
}

/// A pool that nobody has used and positions that have done nothing add up.
pub proof fn lemma_fresh_ledger_is_conserved(bank: Bank, users: Seq<User>)
    requires
        bank.deposits == Balance::zero(),
        bank.borrows == Balance::zero(),
        forall|i: int, asset: Asset|
            0 <= i < users.len() ==> (#[trigger] users[i].leg(asset)).deposited == Balance::zero()
                && users[i].leg(asset).borrowed == Balance::zero(),
    ensures
        conserved(bank, users),
    decreases users.len(),
{
    if users.len() > 0 {
        lemma_fresh_ledger_is_conserved(bank, users.drop_last());
        let last = users.last();
        assert(users[users.len() - 1].leg(bank.asset).deposited == Balance::zero());
        assert forall|which: Quantity| #[trigger]
            sum_over(users, bank.asset, which) == pool_quantity(bank, which) by {
            assert(sum_over(users.drop_last(), bank.asset, which) == pool_quantity(bank, which));
        }
    } else {
        assert forall|which: Quantity| #[trigger]
            sum_over(users, bank.asset, which) == pool_quantity(bank, which) by {}
    }
}

/// While the positions add up to the pool, no position holds more than the
/// pool, neither in amount nor in shares.
pub proof fn lemma_pool_covers_each(bank: Bank, users: Seq<User>, i: int, which: Quantity)
    requires
        conserved(bank, users),
        0 <= i < users.len(),
    ensures
        quantity(users[i], bank.asset, which) <= pool_quantity(bank, which),
{
    lemma_sum_bounds(users, i, bank.asset, which);
    assert(sum_over(users, bank.asset, which) == pool_quantity(bank, which));
}

/// A sum is at least each of its terms.
proof fn lemma_sum_bounds(users: Seq<User>, i: int, asset: Asset, which: Quantity)
    requires
        0 <= i < users.len(),
    ensures
        0 <= quantity(users[i], asset, which) <= sum_over(users, asset, which),
    decreases users.len(),
{
    lemma_sum_nonnegative(users.drop_last(), asset, which);
    if i < users.len() - 1 {
        lemma_sum_bounds(users.drop_last(), i, asset, which);
    }
}

proof fn lemma_sum_nonnegative(users: Seq<User>, asset: Asset, which: Quantity)
    ensures
        0 <= sum_over(users, asset, which),
    decreases users.len(),
{
    if users.len() > 0 {
        lemma_sum_nonnegative(users.drop_last(), asset, which);
    }
}

} // verus!

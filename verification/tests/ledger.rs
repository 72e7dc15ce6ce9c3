use lending::health::PriceUpdates;
use lending::instructions::borrow::{process_borrow, Borrow};
use lending::instructions::deposit::{process_deposit, Deposit};
use lending::instructions::repay::{process_repay, Repay};
use lending::instructions::withdraw::{process_withdraw, Withdraw};
use lending::oracle::{feed_id, PriceUpdate, VerificationLevel};
use lending::state::{Asset, Bank, User};
use lending::transfer::TokenAccount;

fn prices() -> PriceUpdates {
    let update = |asset| PriceUpdate {
        feed_id: feed_id(asset),
        verification_level: VerificationLevel::Full,
        price: 3,
        publish_time: 0,
    };
    PriceUpdates { sol: update(Asset::Sol), usdc: update(Asset::Usdc) }
}

fn assert_conserved(bank: &Bank, treasury: &TokenAccount, users: &[User]) {
    assert_eq!(treasury.amount + bank.borrows.amount, bank.deposits.amount);
    let legs: Vec<_> = users.iter().map(|u| u.get_leg(bank.asset)).collect();
    assert_eq!(legs.iter().map(|l| l.deposited.amount).sum::<u64>(), bank.deposits.amount);
    assert_eq!(legs.iter().map(|l| l.deposited.shares).sum::<u64>(), bank.deposits.shares);
    assert_eq!(legs.iter().map(|l| l.borrowed.amount).sum::<u64>(), bank.borrows.amount);
    assert_eq!(legs.iter().map(|l| l.borrowed.shares).sum::<u64>(), bank.borrows.shares);
    assert!(bank.is_wf());
}

#[test]
fn positions_add_up_to_the_pool_after_every_step() {
    let mut bank = Bank::new(Asset::Sol, 8_000, 500, 5_000, 0).unwrap();
    let mut treasury = TokenAccount { amount: 0 };
    let mut users = [User::new(0), User::new(0), User::new(0)];
    let mut wallets = [TokenAccount { amount: 2_000 }; 3];
    let steps: [(usize, u8, u64); 15] = [
        (0, 0, 1000),
        (1, 0, 500),
        (2, 1, 5),
        (0, 1, 250),
        (1, 2, 1200),
        (1, 2, 1201),
        (2, 0, 7),
        (1, 3, 200),
        (0, 1, 750),
        (1, 3, 1001),
        (1, 3, 1000),
        (0, 1, 750),
        (1, 1, 500),
        (2, 1, 7),
        (2, 1, 1),
    ];
    for (who, what, amount) in steps {
        let user_account = users[who];
        let user_token_account = wallets[who];
        let bank_token_account = treasury;
        let price_updates = prices();
        let (new_bank, new_treasury, new_user, new_wallet) = match what {
            0 => {
                let mut ctx = Deposit { bank, bank_token_account, user_account, user_token_account };
                let _ = process_deposit(&mut ctx, amount, 10);
                (ctx.bank, ctx.bank_token_account, ctx.user_account, ctx.user_token_account)
            }
            1 => {
                let mut ctx = Withdraw {
                    bank,
                    bank_token_account,
                    user_account,
                    user_token_account,
                    price_updates,
                };
                let _ = process_withdraw(&mut ctx, amount, 20);
                (ctx.bank, ctx.bank_token_account, ctx.user_account, ctx.user_token_account)
            }
            2 => {
                let mut ctx = Borrow {
                    bank,
                    bank_token_account,
                    user_account,
                    user_token_account,
                    price_updates,
                };
                let _ = process_borrow(&mut ctx, amount, 20);
                (ctx.bank, ctx.bank_token_account, ctx.user_account, ctx.user_token_account)
            }
            _ => {
                let mut ctx = Repay { bank, bank_token_account, user_account, user_token_account };
                let _ = process_repay(&mut ctx, amount);
                (ctx.bank, ctx.bank_token_account, ctx.user_account, ctx.user_token_account)
            }
        };
        bank = new_bank;
        treasury = new_treasury;
        users[who] = new_user;
        wallets[who] = new_wallet;
        assert_conserved(&bank, &treasury, &users);
        assert_eq!(treasury.amount + wallets.iter().map(|w| w.amount).sum::<u64>(), 6_000);
    }
    assert_eq!(bank.deposits.amount, 0);
    assert_eq!(bank.borrows.amount, 0);
    assert_eq!(treasury.amount, 0);
    assert_eq!(wallets, [TokenAccount { amount: 2_000 }; 3]);
}

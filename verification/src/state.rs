//! The records of the ledger: pools, positions, and the amount-and-shares
//! pairs they are made of.

use vstd::prelude::*;
use crate::math::BPS;
use crate::transfer::TokenAccount;

verus! {

/// The two assets of the protocol.
#[derive(Clone, Copy, Debug, PartialEq, Eq, Structural)]
pub enum Asset {
    Sol,
    Usdc,
}

/// An amount of an asset, in minor units, and the shares that stand for it.
///
/// A pool holds one balance for everything deposited and one for everything
/// borrowed; a position holds the same pair for its own part of each.
#[derive(Clone, Copy, Debug, PartialEq, Eq, Structural)]
pub struct Balance {
    pub amount: u64,
    pub shares: u64,
}

impl Balance {
    /// The balance of nothing.
    pub open spec fn zero() -> Balance {
        Balance { amount: 0, shares: 0 }
    }

    /// Shares exist exactly when there is an amount for them to stand for.
    pub open spec fn wf(self) -> bool {
        self.amount == 0 <==> self.shares == 0
    }

    /// `part` is no larger than `self`, in amount and in shares.
    pub open spec fn covers(self, part: Balance) -> bool {
        part.amount <= self.amount && part.shares <= self.shares
    }

    pub fn empty() -> (r: Balance)
        ensures
            r == Balance::zero(),
    {
        Balance { amount: 0, shares: 0 }
    }
}

/// The pool of one asset: what all users together deposited and borrowed,
/// and the risk parameters that apply to it.
#[derive(Clone, Copy, Debug, PartialEq, Eq, Structural)]
pub struct Bank {
    /// The asset this pool holds.
    pub asset: Asset,
    /// Everything deposited into the pool.
    pub deposits: Balance,
    /// Everything lent out of the pool.
    pub borrows: Balance,
    /// Part of a collateral's value that counts against debt, in basis points.
    pub liquidation_threshold: u64,
    /// Reward of a liquidator on top of what it repaid, in basis points.
    pub liquidation_bonus: u64,
    /// Largest part of a debt that one liquidation repays, in basis points.
    pub liquidation_close_factor: u64,
    /// Growth rate of deposits per second, in units of `10^-18`.
    pub interest_rate: u64,
}

impl Bank {
    /// Both balances are well formed and the two fractions that must not
    /// exceed one do not.
    pub open spec fn wf(self) -> bool {
        &&& self.deposits.wf()
        &&& self.borrows.wf()
        &&& self.liquidation_threshold <= BPS
        &&& self.liquidation_close_factor <= BPS
    }

    /// The pool is solvent with `treasury` as its token account: what was
    /// deposited and not lent out is there.
    pub open spec fn is_backed_by(self, treasury: TokenAccount) -> bool {
        treasury.amount + self.borrows.amount == self.deposits.amount
    }

    /// A pool of `asset` that nobody has used yet.
    pub fn new(
        asset: Asset,
        liquidation_threshold: u64,
        liquidation_bonus: u64,
        liquidation_close_factor: u64,
        interest_rate: u64,
    ) -> (r: Option<Bank>)
        ensures
            r is Some <==> liquidation_threshold <= BPS && liquidation_close_factor <= BPS,
            r is Some ==> r->0 == (Bank {
                asset,
                deposits: Balance::zero(),
                borrows: Balance::zero(),
                liquidation_threshold,
                liquidation_bonus,
                liquidation_close_factor,
                interest_rate,
            }) && r->0.wf(),
    {
        if liquidation_threshold <= BPS && liquidation_close_factor <= BPS {
            Some(
                Bank {
                    asset,
                    deposits: Balance::empty(),
                    borrows: Balance::empty(),
                    liquidation_threshold,
                    liquidation_bonus,
                    liquidation_close_factor,
                    interest_rate,
                },
            )
        } else {
            None
        }
    }

    /// Whether the record satisfies `wf`.
    pub fn is_wf(&self) -> (r: bool)
        ensures
            r == self.wf(),
    {
        (self.deposits.amount == 0) == (self.deposits.shares == 0) && (self.borrows.amount == 0)
            == (self.borrows.shares == 0) && self.liquidation_threshold <= BPS
            && self.liquidation_close_factor <= BPS
    }
}

/// A position's part of one pool.
#[derive(Clone, Copy, Debug, PartialEq, Eq, Structural)]
pub struct Leg {
    pub deposited: Balance,
    pub borrowed: Balance,
}

/// The position of one user: a leg per asset, and when interest was last
/// accounted for.
#[derive(Clone, Copy, Debug, PartialEq, Eq, Structural)]
pub struct User {
    pub sol: Leg,
    pub usdc: Leg,
    /// Unix time, in seconds, of the last deposit.
    pub last_updated: i64,
}

impl User {
    /// The leg held in `asset`.
    pub open spec fn leg(self, asset: Asset) -> Leg {
        match asset {
            Asset::Sol => self.sol,
            Asset::Usdc => self.usdc,
        }
    }

    /// The position with its `asset` leg replaced by `leg`.
    pub open spec fn with_leg(self, asset: Asset, leg: Leg) -> User {
        match asset {
            Asset::Sol => User { sol: leg, ..self },
            Asset::Usdc => User { usdc: leg, ..self },
        }
    }

    /// The position of a user who has done nothing yet.
    pub fn new(now: i64) -> (r: User)
        ensures
            r.sol == (Leg { deposited: Balance::zero(), borrowed: Balance::zero() }),
            r.usdc == r.sol,
            r.last_updated == now,
    {
        let leg = Leg { deposited: Balance::empty(), borrowed: Balance::empty() };
        User { sol: leg, usdc: leg, last_updated: now }
    }

    pub fn get_leg(&self, asset: Asset) -> (r: Leg)
        ensures
            r == self.leg(asset),
    {
        match asset {
            Asset::Sol => self.sol,
            Asset::Usdc => self.usdc,
        }
    }

    pub fn set_leg(&mut self, asset: Asset, leg: Leg)
        ensures
            *final(self) == old(self).with_leg(asset, leg),
    {
        match asset {
            Asset::Sol => { self.sol = leg; },
            Asset::Usdc => { self.usdc = leg; },
        }
    }
}

} // verus!

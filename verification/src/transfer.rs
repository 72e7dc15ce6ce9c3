//! Token accounts and the movement of tokens between them.
//!
//! The ledger does not move tokens itself. It works out what a transfer
//! will do to the balances it is told of, refuses operations whose transfer
//! could not go through, and hands the transfer to the caller, who has to
//! carry it out together with storing the new records: both, or neither.

use vstd::prelude::*;
use crate::error::ErrorCode;
use crate::state::Asset;

verus! {

/// What the ledger reads of a token account: the amount it holds.
#[derive(Clone, Copy, Debug, PartialEq, Eq, Structural)]
pub struct TokenAccount {
    pub amount: u64,
}

/// Which way tokens move, seen from the pool.
#[derive(Clone, Copy, Debug, PartialEq, Eq, Structural)]
pub enum Direction {
    /// From the party that asked for the operation into the pool's treasury.
    IntoPool,
    /// From the pool's treasury to the party that asked for the operation.
    OutOfPool,
}

/// A movement of tokens that goes with a change of the ledger.
#[derive(Clone, Copy, Debug, PartialEq, Eq, Structural)]
pub struct Transfer {
    pub asset: Asset,
    pub amount: u64,
    pub direction: Direction,
}

/// The two accounts after `amount` has moved from `from` to `to`, or why it
/// cannot: `from` holds too little, or `to` would hold more than a `u64`.
pub open spec fn transfer_outcome(from: TokenAccount, to: TokenAccount, amount: u64) -> Result<
    (TokenAccount, TokenAccount),
    ErrorCode,
> {
    if amount > from.amount {
        Err(ErrorCode::InsufficientBalance)
    } else if to.amount + amount > u64::MAX {
        Err(ErrorCode::ArithmeticOverflow)
    } else {
        Ok(
            (
                TokenAccount { amount: (from.amount - amount) as u64 },
                TokenAccount { amount: (to.amount + amount) as u64 },
            ),
        )
    }
}

/// Works out what moving `amount` from `from` to `to` does to both.
pub fn transfer_tokens(from: &TokenAccount, to: &TokenAccount, amount: u64) -> (r: Result<
    (TokenAccount, TokenAccount),
    ErrorCode,
>)
    ensures
        r == transfer_outcome(*from, *to, amount),
{
    if amount > from.amount {
        return Err(ErrorCode::InsufficientBalance);
    }
    match to.amount.checked_add(amount) {
        Some(sum) => Ok((TokenAccount { amount: from.amount - amount }, TokenAccount { amount: sum })),
        None => Err(ErrorCode::ArithmeticOverflow),
    }
}

/// A transfer creates and destroys nothing: what leaves one account arrives
/// in the other.
pub proof fn lemma_transfer_conserves(from: TokenAccount, to: TokenAccount, amount: u64)
    requires
        transfer_outcome(from, to, amount) is Ok,
    ensures
        ({
            let (new_from, new_to) = transfer_outcome(from, to, amount)->Ok_0;
            &&& new_from.amount == from.amount - amount
            &&& new_to.amount == to.amount + amount
            &&& new_from.amount + new_to.amount == from.amount + to.amount
        }),
{
}

} // verus!

use vstd::prelude::*;

verus! {

/// Why an operation was refused. A refused operation changes nothing.
#[derive(Clone, Copy, Debug, PartialEq, Eq, Structural)]
pub enum ErrorCode {
    /// The position does not hold enough collateral for the request.
    InsufficientCollateral,
    /// The requested loan exceeds what the collateral allows.
    OverBorrowableAmount,
    /// The repayment exceeds what is owed on that asset.
    OverRepay,
    /// The position is healthy and cannot be liquidated.
    NotUndercollateralized,
    /// A share ratio was needed of a pool whose total is zero.
    EmptyPool,
    /// No fresh, fully verified price for the asset was supplied.
    StalePrice,
    /// A quantity left the range of the integer type that holds it.
    ArithmeticOverflow,
    /// The account that has to pay does not hold the amount.
    InsufficientBalance,
}

} // verus!

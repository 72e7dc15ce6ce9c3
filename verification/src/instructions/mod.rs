//! The operations of the ledger. Each one takes the records it works on,
//! validates the request, and either replaces the records by their new
//! values and says which transfer goes with them, or leaves everything as
//! it was and says why.

pub mod borrow;
pub mod deposit;
pub mod liquidate;
pub mod repay;
pub mod withdraw;

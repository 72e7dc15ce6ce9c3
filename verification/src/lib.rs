//! A collateralised lending ledger over two assets.
//!
//! Users deposit SOL or USDC into per-asset pools, borrow against the value
//! of what they deposited, repay, withdraw, and can be liquidated once their
//! debt outgrows their risk-adjusted collateral. This crate is the accounting
//! and risk engine: share bookkeeping, collateral valuation from oracle
//! prices, interest accrual, the health factor and the liquidation amounts.
//! Moving tokens is left to the caller: every operation hands back the
//! transfer that has to accompany the new ledger state.

pub mod error;
pub mod health;
pub mod instructions;
pub mod interest;
pub mod ledger;
pub mod math;
pub mod oracle;
pub mod shares;
pub mod state;
pub mod transfer;

//! A shared lending pool ledger.
//!
//! Lenders deposit into a common pool, borrowers draw principal against the
//! pool's liquidity, and repayments return to the pool. Every operation is a
//! transition on one [`ledger::Pool`] value; the transitions are stated over
//! the mathematical model in [`model`] and implemented in [`contract`].

pub mod account;
pub mod account_map;
pub mod arith;
pub mod error;
pub mod ledger;
pub mod sums;
pub mod model;
pub mod contract;
pub mod laws;
pub mod history;

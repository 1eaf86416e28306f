//! A personal ledger: a running balance kept together with the history of
//! the additions and withdrawals that produced it.
//!
//! Amounts are held in minor currency units (cents) as signed integers, so
//! that the balance is exactly the signed sum of the recorded amounts.
pub mod ledger;
pub mod config;
pub mod store;
pub mod paths;

//! A verified replay engine for a log of client payment transactions.
//!
//! The library models client accounts with fixed-point decimal balances,
//! applies deposits, withdrawals, disputes, resolutions and chargebacks in
//! log order, and proves the bookkeeping rules that the engine maintains:
//! every balance satisfies `total == available + held`, and a locked
//! account never changes again.

pub mod laws;
pub mod processor;
pub mod render;
pub mod store;
pub mod types;

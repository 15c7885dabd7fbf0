//! A verified payments ledger.
//!
//! The crate replays an ordered stream of transaction records (deposit,
//! withdrawal, dispute, resolve, chargeback) into per-client account
//! balances, enforcing the dispute lifecycle and the balance invariant
//! `total == available + held`.
//!
//! Monetary amounts are exact fixed-point decimals with four fractional
//! digits, represented as signed 64-bit integers counting units of 1/10000.

pub mod client;
pub mod errors;
pub mod ledger;
pub mod transaction;
pub mod utils;

pub use utils::format_decimal;

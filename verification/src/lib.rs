//! Payout-balance snapshot pipeline: extracts loosely-shaped balance payloads
//! from two payout services, normalizes them into truncated USD cent amounts,
//! and aggregates per-source outcomes into a time-bucketed snapshot that
//! tolerates partial failure of either source.

pub mod decimal;
pub mod error;
pub mod jsonval;
pub mod platform;
pub mod snapshot;

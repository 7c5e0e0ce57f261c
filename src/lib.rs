//! A peer-to-peer micro-lending and savings engine: bearer-token
//! authentication, a reputation-gated loan ceiling, the loan lifecycle
//! (pending, approved, repaid), savings goals whose balances always equal
//! their recorded deposits, and an append-only platform ledger.
//!
//! Money is held in cents, identities as 128-bit values, times as Unix
//! seconds supplied by the caller.

pub mod error;
pub mod ids;
pub mod token;
pub mod credentials;
pub mod model;
pub mod trust;
pub mod platform;
pub mod accounts;
pub mod ledger;
pub mod services;
pub mod loans;
pub mod savings;
pub mod i18n;
pub mod chain;

//! Postly: short text posts kept in sequentially numbered ledger accounts,
//! indexed by a per-owner counter account.

pub mod address;
pub mod append;
pub mod decimal;
pub mod error;
pub mod laws;
pub mod ledger;
pub mod listing;
pub mod program;
pub mod record;
pub mod seed;
pub mod store;

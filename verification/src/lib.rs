//! Payment session lifecycle and webhook reconciliation over a verified ledger.

pub mod amount;
pub mod checkout;
pub mod dtos;
pub mod error;
pub mod ledger;
pub mod models;
pub mod reconcile;
pub mod webhook;

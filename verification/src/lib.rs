//! Lending rules for a small library service: a stock ledger per book, a loan
//! registry per account, the two-step borrow and return sagas that keep both
//! consistent, and token revocation through a per-account version counter.

pub mod auth;
pub mod constants;
pub mod database;
pub mod errors;
pub mod handlers;
pub mod laws;
pub mod lending;
pub mod models;
pub mod oid;
pub mod rules;

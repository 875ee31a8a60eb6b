//! A single-writer payments ledger: transactions stream in one at a time and
//! are folded into per-client accounts, including the dispute, resolve and
//! chargeback lifecycle over earlier deposits.

pub mod account;
pub mod decimal;
pub mod money;
pub mod processor;
pub mod records;

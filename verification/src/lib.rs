//! A ledger engine that replays deposits, withdrawals, disputes, resolves and
//! chargebacks against per-client accounts, with exact fixed-point balances.

pub mod account;
pub mod amount;
pub mod decimal;
pub mod high_precision_decimal;
pub mod high_precision_decimal_option;
pub mod holds;
pub mod ledger;
pub mod service;
pub mod transaction;

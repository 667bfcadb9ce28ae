//! A small ledger engine: fixed accounts with credit limits, an append-only
//! binary transaction log per account, and a dispatcher that enforces the
//! overdraft rule on every request.
pub mod bytes;
pub mod le;
pub mod record;
pub mod codec;
pub mod text;
pub mod log_store;
pub mod ledger;

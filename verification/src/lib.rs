//! Replays client transactions into per-client account balances.
pub mod model;
pub mod amount;
pub mod error;
pub mod parser;
pub mod store;
pub mod ledger;
pub mod engine;
pub mod invariants;

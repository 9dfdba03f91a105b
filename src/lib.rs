//! Ledger replay engine: per-client account state machines with dispute
//! handling, a ledger that routes events to accounts, and the sharding
//! rules that let many ledgers run side by side.
pub mod amount;
pub mod balance;
pub mod clients;
pub mod error;
pub mod ids;
pub mod laws;
pub mod parse;
pub mod pipeline;
pub mod replay;
pub mod text;
pub mod transaction;

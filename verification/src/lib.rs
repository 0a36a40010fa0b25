//! A small transaction-evaluation pipeline: transactions arrive over a queue,
//! are durably recorded, scored for fraud risk, and the score is recorded.
//!
//! The core is the per-transaction lifecycle state machine, the record-store
//! capability that persistence goes through, and the dispatcher that drives
//! each message through persistence and scoring in order.

pub mod command_bus;
pub mod decimal;
pub mod dispatcher;
pub mod fraud_scorer;
pub mod in_memory;
pub mod process_transaction;
pub mod record_table;
pub mod repository;
mod rng;
pub mod scoring;
pub mod state_machine;
pub mod transaction;

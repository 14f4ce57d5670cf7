//! Transactional-outbox delivery: the drain cycle that forwards pending
//! outbox rows to a message broker and records each outcome, together with
//! the message model and an in-memory message store.

pub mod models;
pub mod outbox;
pub mod store;

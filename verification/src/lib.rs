//! An event-sourced bank-account engine.
//!
//! State is never stored directly: only the ordered sequence of immutable
//! events that produced it. Current state is derived on demand by replaying
//! that sequence through a pure state machine. The engine enforces
//! single-writer consistency per aggregate through optimistic concurrency,
//! and folds the same event stream into idempotent read-model projections.
//!
//! Money amounts are carried in minor currency units (`u64`).

pub mod aggregate;
pub mod codec;
pub mod commands;
pub mod events;
pub mod queries;
pub mod repository;
pub mod store;

//! Idempotent newsletter publishing with a durable delivery queue.
//!
//! The heart of the crate is [`store::Store`], a verified model of the
//! relational state that coordinates publishing: the idempotency table that
//! deduplicates publish requests per `(user, key)`, the newsletter issues
//! themselves, and the row-based delivery queue that background workers drain
//! with claim-and-delete semantics. Every transition on the store carries a
//! contract, and the crate-level guarantees (idempotent replay, atomic
//! fan-out, at-most-once claiming, snapshot fan-out) are proved in [`laws`].

pub mod authentication;
pub mod configuration;
pub mod delivery;
pub mod domain;
pub mod html;
pub mod idempotency;
pub mod laws;
pub mod login;
pub mod newsletters;
pub mod publisher;
pub mod response;
pub mod store;
pub mod subscriptions;
pub mod subscriptions_confirm;

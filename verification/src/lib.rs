//! Moderation enforcement engine.
//!
//! The engine resolves punishment targets from free-form text, checks that the
//! issuer outranks every target, keeps a catalog of punishment policies,
//! converts relative durations into absolute expiry instants, records an
//! append-only audit trail of confirmed actions, and partitions per-target
//! dispatch outcomes into an ordered report.
//!
//! All external effects (the chat platform's access-control calls, rank
//! lookups, the persistent store, clock reads) happen outside the engine:
//! callers hand in plain values and receive plain values back.

pub mod audit;
pub mod auth;
pub mod builders;
pub mod catalog;
pub mod dispatch;
pub mod duration;
pub mod engine;
pub mod errors;
pub mod headers;
pub mod models;
pub mod pager;
pub mod render;
pub mod resolver;

//! Verified core of a clipboard history manager.
//!
//! The library captures clipboard payload snapshots into normalized entries,
//! keeps them in a deduplicated, queryable store ordered newest-first,
//! enforces a retention policy that never removes favorite or pinned entries,
//! and publishes domain events for every change.  All persistence to disk,
//! the platform clipboard listener and the concurrency plumbing live in the
//! surrounding (unverified) application layer; this crate holds the logic and
//! its proofs.
#![verifier::loop_isolation(false)]

pub mod capture;
pub mod events;
pub mod export;
pub mod hash;
pub mod json;
pub mod model;
pub mod numfmt;
pub mod settings;
pub mod store;
pub mod sys;
pub mod core_api;

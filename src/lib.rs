//! Streaming statistics for topic-tagged publish/subscribe messages.
//!
//! - [`stats`]: the pure per-topic accumulator and its laws.
//! - [`registry`]: statistics of every topic, with a one-step upsert.
//! - [`spawn_stats`]: process-wide counters, the handling of one message, and
//!   the state machine that drives ingestion and reconnection.
//! - [`reconnect`]: the bounded retry policy.
//! - [`clock`]: instants read from the wall clock, never going backwards.
//! - [`config`]: connection settings.

pub mod clock;
pub mod config;
pub mod reconnect;
pub mod registry;
pub mod spawn_stats;
pub mod stats;

//! Real-time request telemetry core for a reusable web-service scaffold.
//!
//! The crate maintains running totals per status code and per endpoint,
//! per-second aggregates for response latency, in-flight connections and
//! process memory in fixed-capacity ring buffers, and the pure decision
//! logic behind the capture hook, the aggregator worker, the query surface
//! and the live-feed state machine.  The asynchronous shell (channels,
//! locks, timers, HTTP) lives outside and hands this crate plain values.

pub mod app;
pub mod assets;
pub mod auth;
pub mod config;
pub mod health;
pub mod stats;
pub mod utility;

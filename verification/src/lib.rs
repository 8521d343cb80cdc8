//! A telemetry-forwarding agent's core: it decodes externally submitted
//! telemetry envelopes, samples host performance counters, and runs the
//! live-metrics subscription protocol — a slow discovery ping while nobody
//! watches, a fast metrics post while someone does. Every decision and
//! every byte of the wire bodies is built here under contract; the thin
//! shell around it only moves what this crate prepares.

pub mod config;
pub mod decimal;
pub mod envelope;
pub mod json;
pub mod performance;
pub mod quickpulse;
pub mod split;

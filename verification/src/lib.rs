//! Verified core of a lending-market telemetry ingester.
//!
//! The crate tracks a blockchain's head, keeps an ordered queue of blocks to
//! process behind a reorg-aware checkpoint, and turns raw on-chain call
//! results into per-reserve records.  Everything here is ordinary computation
//! on plain values; the surrounding process (websocket listener, JSON-RPC
//! transport, checkpoint file and CSV sink) lives outside and feeds these
//! functions.

pub mod checkpoint;
pub mod config;
pub mod coordinator;
pub mod listener;
pub mod metrics;
pub mod numeric;
pub mod processor;
pub mod reserve;
pub mod throttle;

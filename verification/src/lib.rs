//! Verified core of the Arbitrum reth node's live-feed bookkeeping: the bounded
//! per-sequence frame timing table, the per-block ingress retention window, the
//! latency samples derived when a block becomes canonical, the pending block
//! environment derived from a parent header, and the executed-block push payload.

pub mod time;
pub mod tables;
pub mod samples;
pub mod tracker;
pub mod laws;
pub mod pending_env;
pub mod push;

//! Crash-recoverable aggregation of the unspent outputs of one tracked script
//! pattern over a stream of blocks.
//!
//! - `block`: the blocks, transactions and outputs that are scanned.
//! - `store`: the delta store of unspent tracked outputs, on a sled tree.
//! - `scan`: the block scanner and its model.
//! - `checkpoint`: the per-block checkpoint row.
//! - `pipeline`: the process role's state, its per-block step and the resume planner.
//! - `fetch`: the fetch role's decisions around the one-block handoff.
//! - `laws`: what holds of whole runs: resume, tallies, store size, heights, backpressure.
//! - `outcome`: which worker ending the pipeline reports.
//! - `address`, `query`: address types, table names and query defaults.

pub mod address;
pub mod block;
pub mod checkpoint;
pub mod error;
pub mod fetch;
pub mod laws;
pub mod outcome;
pub mod pipeline;
pub mod query;
pub mod scan;
pub mod store;

//! Metrics over recorded workflow runs and runner snapshots: the data
//! shapes, the idempotent history store, and the rolling-window aggregation.

pub mod models;
pub mod store;

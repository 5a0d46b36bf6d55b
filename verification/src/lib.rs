//! Verified core of a manager for GitHub Actions self-hosted runners.
//!
//! The library models the identity of a registration target (a repository or
//! an organization), the on-disk inventory of runner instances, the command
//! plans that drive the OS service backends, the lifecycle decisions for
//! adding, removing and importing runners, and the metrics aggregation over
//! recorded workflow runs and runner snapshots.  All I/O (network, processes,
//! the filesystem) stays outside; the library computes decisions and plans
//! from plain values and proves its contracts.

pub mod config;
pub mod display;
pub mod github;
pub mod lifecycle;
pub mod metrics;
pub mod runner;
pub mod service;
pub mod strutil;

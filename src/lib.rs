//! Core logic of a desktop companion: record aggregation for display,
//! progress tracking for installer subprocesses, and the decisions of a
//! single-shot loopback ingestion bridge.

pub mod aggregate;
pub mod bridge;
pub mod grouping;
pub mod install;
pub mod progress;
pub mod records;

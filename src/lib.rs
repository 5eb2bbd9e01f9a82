//! Benchmark harness library: a replayable byte source for workloads, the
//! per-iteration metric records, the empirical distribution engine that
//! compares a run against its baseline, and the pure decisions of the
//! harness around them (workload commands, report layout).
pub mod command;
pub mod distribution;
pub mod metrics;
pub mod random;
pub mod report;

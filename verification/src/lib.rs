//! A two-queue task scheduler: workload drawing, ready queues, the dispatch
//! policy, per-worker accounting and the end-of-run report.
//!
//! Clocks, threads, files and floating point live outside this library; it
//! takes what they produce as plain values and decides everything else.
pub mod dispatch_laws;
pub mod dispatcher;
pub mod document;
pub mod experiment;
pub mod metrics;
pub mod monitor;
pub mod proc_stat;
pub mod queue_laws;
pub mod queues;
pub mod report;
pub mod sorting;
pub mod task;
pub mod text;
pub mod time;
pub mod worker;
pub mod workload;
pub mod workload_laws;

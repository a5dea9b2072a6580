//! Verified core of a DAG scheduler for Slurm and local jobs.
//!
//! The library holds the scheduling decisions: how node statuses are
//! derived from their parents, how jobs are queued, retried and held back,
//! how Slurm answers are read, and the bookkeeping of paths and caches.
//! File system, process and terminal work stays with the caller.

pub mod text;
pub mod pattern;
pub mod schemas;
pub mod status;
pub mod nodes;
pub mod context;
pub mod submission;
pub mod dag_setup;
pub mod settings;
pub mod blocking;
pub mod visitors;
pub mod workdirs;
pub mod polling;
pub mod nonblocking;
pub mod kill;
pub mod breakpoint;
pub mod summary;
pub mod state;
pub mod cache;
pub mod describe;
pub mod viz;
pub mod run_task;
pub mod commands;
pub mod sscheduler;
pub mod laws;

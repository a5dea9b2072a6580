//! The Slurm scheduler of string-keyed node maps: its node model, the
//! status rules, its command line, the layout of its working directory and
//! the jobs to cancel.

pub mod model;
pub mod status_management;
pub mod updates;
pub mod graph;
pub mod limiters;
pub mod caching;
pub mod input_data;
pub mod submission;
pub mod summary;
pub mod parser;
pub mod state;
pub mod checkpoint;
pub mod stop_simulation;
pub mod scheduler;
pub mod backend;

//! Library for inspecting the status of a cluster job-management system.
//!
//! The library parses the whitespace-delimited tabular output of the two
//! external status commands into typed records, keeps the most recent
//! combined snapshot in a shared store that readers and one writer access
//! atomically, and renders a snapshot as an HTML report.

pub mod configuration;
pub mod numbers;
pub mod sinfo_util;
pub mod slurm_status;
pub mod squeue_util;
pub mod text;

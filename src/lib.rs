//! A small supervisor for container workloads: configuration checking, the
//! per-process lifecycle state machine, the restart policy and the text shown
//! to operators.

pub mod error;
pub mod text;
pub mod config;
pub mod env;
pub mod process;
pub mod laws;
pub mod logging;
pub mod status;

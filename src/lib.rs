//! Batching and bounded concurrent scheduling for running a command over
//! tokens read from input: tokens are grouped into batches, each batch is
//! appended to a base command, at most a given number of invocations run at
//! once, and their outcomes are folded into one exit status.

pub mod batch;
pub mod config;
pub mod scheduler;
pub mod status;
pub mod template;

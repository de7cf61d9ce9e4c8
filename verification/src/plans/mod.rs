//! Plans: what the binder makes of statements, and what the executor runs.

pub mod task;
pub mod physical;

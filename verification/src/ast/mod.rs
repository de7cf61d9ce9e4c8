//! Statements as the parser hands them on.

pub mod connection;
pub mod task;
pub mod copy;

//! Pipelines: the processors of a query, stage after stage, and how the
//! plans of joins are laid out as pipelines.

pub mod graph;
pub mod layout;
pub mod builder;
pub mod on_finished;
pub mod accumulate;

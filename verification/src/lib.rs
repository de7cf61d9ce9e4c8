//! Verified core of a query engine's join execution: the shared hash table,
//! probing under every join type, spilling by key partition, runtime filters,
//! range joins and the barriers that order the workers, together with the
//! planning and session helpers that surround them.

pub mod join;
pub mod users;
pub mod arrow;
pub mod base;
pub mod params;
pub mod profile;
pub mod ast;
pub mod udf;
pub mod plans;
pub mod binder;
pub mod tasks;
pub mod cli;
pub mod pipeline;
pub mod cluster;
pub mod bitmap;
pub mod session;
pub mod parser;
pub mod interpreters;

//! Hash join: rows, the hash table, probing, spilling and coordination.

pub mod row;
pub mod spec;
pub mod hash_table;
pub mod visited;
pub mod probe;
pub mod lemmas;
pub mod barrier;
pub mod state;
pub mod spill;
pub mod spill_format;
pub mod laws;
pub mod transparency;
pub mod runtime_filter;
pub mod range_join;

//! Reading columns: how stored values become values in memory.

pub mod int96;
pub mod deserialize;

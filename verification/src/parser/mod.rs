//! Parsing: from the tokens of a statement to the statement.

pub mod token;
pub mod copy;

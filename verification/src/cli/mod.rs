//! The command line client: what it decides between reading its input and
//! talking to the server.

pub mod query;

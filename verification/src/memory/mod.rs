//! Where a running program keeps its variables.

pub mod environment;
pub mod handler;

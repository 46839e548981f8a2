//! Event types for agent communication.

pub mod schema;
pub mod error;
pub mod reader;

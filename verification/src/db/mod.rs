//! Materialized views of the event log.


pub mod models;
pub mod state;
pub mod indexer;
pub mod persistence;

//! ASTROLABE artifact toolkit: deduplication, envelopes and processors.

pub mod scan;
pub mod processor;
pub mod dedup;
pub mod envelope;
pub mod arxiv;
pub mod xpost;
pub mod web;
pub mod pdf;
pub mod atom;
pub mod registry;
pub mod validity;
pub mod ingest;

//! Errors of reading and writing the event log.

use vstd::prelude::*;

verus! {

/// Errors that can occur while reading or writing the event log.
#[derive(Debug)]
pub enum EventError {
    /// An I/O error of the file operations.
    Io(std::io::Error),
    /// A JSON encoding or decoding error.
    Serialization(serde_json::Error),
    /// The log (or an event in it) was not found.
    NotFound(String),
    /// A line of the log is not an event.
    InvalidFormat { line: usize, message: String },
}

} // verus!

//! Progress of the event log indexer.

use vstd::prelude::*;
use crate::events::schema::Timestamp;

verus! {

/// Tracks how far the indexer has got through the event log.
#[derive(Debug)]
pub struct IndexerState {
    pub last_event_id: Option<String>,
    pub last_timestamp: Option<Timestamp>,
    pub events_processed: u64,
}

impl Default for IndexerState {
    /// No event processed yet.
    fn default() -> (s: Self)
        ensures
            s.last_event_id is None,
            s.last_timestamp is None,
            s.events_processed == 0,
    {
        IndexerState { last_event_id: None, last_timestamp: None, events_processed: 0 }
    }
}

} // verus!

//! Records of the materialized views, derived by replaying events.

use vstd::prelude::*;
use crate::text::copy_strings;
use crate::events::schema::{
    AgentStatus, DecisionOption, ExpectedResponse, MessageIntent, Priority, ProvenanceLevel,
    Timestamp,
};

verus! {

/// The status of a conversation thread.
#[derive(Debug, Clone, Copy, PartialEq, Eq, Structural)]
pub enum ThreadStatus {
    Active,
    Paused,
    Resolved,
    Archived,
}

/// The approval status of a recorded decision.
#[derive(Debug, Clone, Copy, PartialEq, Eq, Structural)]
pub enum DecisionStatus {
    Pending,
    Approved,
    Rejected,
    Superseded,
}

/// The kind of record an annotation refers to.
#[derive(Debug, Clone, Copy, PartialEq, Eq, Structural)]
pub enum AnnotationTarget {
    Thread,
    Decision,
    Message,
}

/// A conversation thread between agents.
#[derive(Debug)]
pub struct Thread {
    pub id: String,
    pub subject: String,
    pub participants: Vec<String>,
    pub created_at: Timestamp,
    pub updated_at: Timestamp,
    pub message_count: u32,
    pub status: ThreadStatus,
}

/// A message within a thread.
#[derive(Debug)]
pub struct Message {
    pub id: String,
    pub thread_id: String,
    pub from: String,
    pub to: String,
    pub subject: String,
    pub content: String,
    pub priority: Priority,
    pub intent: MessageIntent,
    pub expected_response: ExpectedResponse,
    pub require_ack: bool,
    pub created_at: Timestamp,
    pub read_by: Vec<String>,
    pub claimed_source_model: Option<String>,
    pub claimed_source_runtime: Option<String>,
    pub claimed_source_mode: Option<String>,
    pub verified_source_model: Option<String>,
    pub verified_source_runtime: Option<String>,
    pub verified_source_mode: Option<String>,
    pub source_worktree: Option<String>,
    pub source_session_id: Option<String>,
    pub provenance_level: ProvenanceLevel,
    pub provenance_issuer: Option<String>,
}

/// A recorded decision.
#[derive(Debug)]
pub struct Decision {
    pub id: String,
    pub thread_id: Option<String>,
    pub title: String,
    pub context: String,
    pub options: Vec<DecisionOption>,
    pub chosen: usize,
    pub rationale: String,
    pub status: DecisionStatus,
    pub created_at: Timestamp,
    pub recorded_by: String,
}

/// A shared artifact.
#[derive(Debug)]
pub struct Artifact {
    pub id: String,
    pub path: String,
    pub description: String,
    pub checksum: String,
    pub shared_by: String,
    pub shared_at: Timestamp,
    pub thread_id: Option<String>,
    pub source_url: Option<String>,
    pub fetch_timestamp: Option<Timestamp>,
    pub content_hash_sha256: Option<String>,
    pub processor_version: Option<String>,
}

/// The latest known state of an agent.
#[derive(Debug)]
pub struct Agent {
    pub id: String,
    pub display_name: String,
    pub status: AgentStatus,
    pub last_seen: Timestamp,
    pub current_task: Option<String>,
}

/// An operator's note on a thread, decision or message.
#[derive(Debug)]
pub struct Annotation {
    pub id: String,
    pub target_type: AnnotationTarget,
    pub target_id: String,
    pub content: String,
    pub created_at: Timestamp,
}

/// Two decision options say the same thing.
pub open spec fn same_option(a: DecisionOption, b: DecisionOption) -> bool {
    &&& a.description@ == b.description@
    &&& a.pros.deep_view() == b.pros.deep_view()
    &&& a.cons.deep_view() == b.cons.deep_view()
}

/// Two lists of decision options say the same thing, option by option.
pub open spec fn same_options(a: Seq<DecisionOption>, b: Seq<DecisionOption>) -> bool {
    &&& a.len() == b.len()
    &&& forall|i: int| 0 <= i < a.len() ==> same_option(#[trigger] a[i], b[i])
}

/// A copy of an optional string.
pub fn copy_opt_string(o: &Option<String>) -> (r: Option<String>)
    ensures
        r.deep_view() == o.deep_view(),
{
    match o {
        Some(s) => Some(s.clone()),
        None => None,
    }
}

/// A copy of a list of decision options.
pub fn copy_options(v: &Vec<DecisionOption>) -> (r: Vec<DecisionOption>)
    ensures
        same_options(r@, v@),
{
    let mut r: Vec<DecisionOption> = Vec::new();
    let n = v.len();
    let mut i: usize = 0;
    while i < n
        invariant
            n == v@.len(),
            i <= n,
            r@.len() == i,
            forall|j: int| 0 <= j < i ==> same_option(#[trigger] r@[j], v@[j]),
        decreases n - i,
    {
        let o = &v[i];
        r.push(DecisionOption {
            description: o.description.clone(),
            pros: copy_strings(&o.pros),
            cons: copy_strings(&o.cons),
        });
        i = i + 1;
    }
    r
}

} // verus!

//! Event schema: the envelope shared by all events, its payload variants
//! and the supporting enums.

use vstd::prelude::*;

verus! {

/// A point in time in UTC: whole seconds since the Unix epoch and the
/// nanoseconds within that second.
#[derive(Debug, Clone, Copy, PartialEq, Eq, Structural)]
pub struct Timestamp {
    pub secs: i64,
    pub nanos: u32,
}

/// Priority levels for messages and tasks.
#[derive(Debug, Clone, Copy, PartialEq, Eq, Structural)]
pub enum Priority {
    Low,
    Normal,
    High,
    Critical,
}

impl Default for Priority {
    /// `Normal` is the default priority.
    fn default() -> (p: Self)
        ensures
            p == Priority::Normal,
    {
        Priority::Normal
    }
}

/// Status of a task in its lifecycle.
#[derive(Debug, Clone, Copy, PartialEq, Eq, Structural)]
pub enum TaskStatus {
    Assigned,
    InProgress,
    Blocked,
    Ready,
    Completed,
    Cancelled,
}

impl Default for TaskStatus {
    /// A task starts out `Assigned`.
    fn default() -> (s: Self)
        ensures
            s == TaskStatus::Assigned,
    {
        TaskStatus::Assigned
    }
}

/// Intent behind a message: how the recipient should treat it.
#[derive(Debug, Clone, Copy, PartialEq, Eq, Structural)]
pub enum MessageIntent {
    Discuss,
    Request,
    Inform,
}

impl Default for MessageIntent {
    /// Messages are informational unless marked otherwise.
    fn default() -> (i: Self)
        ensures
            i == MessageIntent::Inform,
    {
        MessageIntent::Inform
    }
}

/// What the sender expects the receiver to do next.
#[derive(Debug, Clone, Copy, PartialEq, Eq, Structural)]
pub enum ExpectedResponse {
    Reply,
    Ack,
    Comply,
    /// No response expected (serialized as `none`).
    NoResponse,
    Standby,
}

impl Default for ExpectedResponse {
    /// No response is expected unless stated.
    fn default() -> (e: Self)
        ensures
            e == ExpectedResponse::NoResponse,
    {
        ExpectedResponse::NoResponse
    }
}

/// Whether an expected response is the default one (then it is left out
/// of the serialized form).
pub fn is_default_expected_response(er: &ExpectedResponse) -> (b: bool)
    ensures
        b == (*er == ExpectedResponse::NoResponse),
{
    match er {
        ExpectedResponse::NoResponse => true,
        _ => false,
    }
}

/// Whether a flag is false (then it is left out of the serialized form).
pub fn is_false(b: &bool) -> (r: bool)
    ensures
        r == !*b,
{
    !*b
}

/// How much of a message's stated origin has been checked.
#[derive(Debug, Clone, Copy, PartialEq, Eq, Structural)]
pub enum ProvenanceLevel {
    Legacy,
    Claimed,
    Verified,
    Attested,
}

impl Default for ProvenanceLevel {
    /// Events without provenance information are legacy events.
    fn default() -> (l: Self)
        ensures
            l == ProvenanceLevel::Legacy,
    {
        ProvenanceLevel::Legacy
    }
}

/// Availability and working state of an agent.
#[derive(Debug, Clone, Copy, PartialEq, Eq, Structural)]
pub enum AgentStatus {
    Available,
    Working,
    Blocked,
    Offline,
}

/// The type of an event.
#[derive(Debug, Clone, Copy, PartialEq, Eq, Structural)]
pub enum EventType {
    MessageSent,
    MessageReceived,
    ArtifactShared,
    DecisionRecorded,
    TaskAssigned,
    TaskCompleted,
    StatusChanged,
}

/// The snake_case name of an event type.
pub open spec fn event_type_name(t: EventType) -> Seq<char> {
    match t {
        EventType::MessageSent => "message_sent"@,
        EventType::MessageReceived => "message_received"@,
        EventType::ArtifactShared => "artifact_shared"@,
        EventType::DecisionRecorded => "decision_recorded"@,
        EventType::TaskAssigned => "task_assigned"@,
        EventType::TaskCompleted => "task_completed"@,
        EventType::StatusChanged => "status_changed"@,
    }
}

impl EventType {
    /// The snake_case name, as it appears in the event log.
    pub fn as_str(&self) -> (s: &'static str)
        ensures
            s@ == event_type_name(*self),
    {
        match self {
            EventType::MessageSent => "message_sent",
            EventType::MessageReceived => "message_received",
            EventType::ArtifactShared => "artifact_shared",
            EventType::DecisionRecorded => "decision_recorded",
            EventType::TaskAssigned => "task_assigned",
            EventType::TaskCompleted => "task_completed",
            EventType::StatusChanged => "status_changed",
        }
    }

    /// The name as an owned string.
    pub fn to_string(&self) -> (s: String)
        ensures
            s@ == event_type_name(*self),
    {
        String::from_str(self.as_str())
    }
}

/// Data for message events.
#[derive(Debug, Clone)]
pub struct MessageEvent {
    pub from: String,
    pub to: String,
    pub subject: String,
    pub content: String,
    pub thread_id: Option<String>,
    pub priority: Priority,
    pub intent: MessageIntent,
    pub expected_response: ExpectedResponse,
    pub require_ack: bool,
    pub claimed_source_model: Option<String>,
    pub claimed_source_runtime: Option<String>,
    pub claimed_source_mode: Option<String>,
    pub verified_source_model: Option<String>,
    pub verified_source_runtime: Option<String>,
    pub verified_source_mode: Option<String>,
    pub source_worktree: Option<String>,
    pub source_session_id: Option<String>,
    pub provenance_level: ProvenanceLevel,
    pub provenance_issuer: Option<String>,
}

/// Data for artifact sharing events.
#[derive(Debug, Clone)]
pub struct ArtifactEvent {
    pub path: String,
    pub description: String,
    pub checksum: String,
    pub source_url: Option<String>,
    pub fetch_timestamp: Option<Timestamp>,
    pub content_hash_sha256: Option<String>,
    pub processor_version: Option<String>,
}

/// One option that was considered for a decision.
#[derive(Debug, Clone)]
pub struct DecisionOption {
    pub description: String,
    pub pros: Vec<String>,
    pub cons: Vec<String>,
}

/// Data for decision recording events.
#[derive(Debug, Clone)]
pub struct DecisionEvent {
    pub title: String,
    pub context: String,
    pub options: Vec<DecisionOption>,
    pub chosen: usize,
    pub rationale: String,
}

/// Data for task assignment and completion events.
#[derive(Debug, Clone)]
pub struct TaskEvent {
    pub task_id: String,
    pub title: String,
    pub assigned_to: String,
    pub assigned_by: String,
    pub status: TaskStatus,
}

/// Data for agent status change events.
#[derive(Debug, Clone)]
pub struct StatusEvent {
    pub agent_id: String,
    pub previous: AgentStatus,
    pub current: AgentStatus,
    pub reason: Option<String>,
}

/// The event-specific data.
#[derive(Debug, Clone)]
pub enum EventPayload {
    Message(MessageEvent),
    Artifact(ArtifactEvent),
    Decision(DecisionEvent),
    Task(TaskEvent),
    Status(StatusEvent),
}

/// The envelope shared by all events.
#[derive(Debug, Clone)]
pub struct EventEnvelope {
    /// The event's UUID v7, in its hyphenated text form.
    pub id: String,
    pub timestamp: Timestamp,
    pub event_type: EventType,
    pub agent_id: String,
    pub payload: EventPayload,
}

} // verus!

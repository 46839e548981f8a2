use ming_qiao::db::indexer::Indexer;
use ming_qiao::db::models::{DecisionStatus, ThreadStatus};
use ming_qiao::events::schema::{
    AgentStatus, ArtifactEvent, DecisionEvent, DecisionOption, EventEnvelope, EventPayload, EventType,
    ExpectedResponse, MessageEvent, MessageIntent, Priority, ProvenanceLevel, StatusEvent, TaskEvent, TaskStatus,
    Timestamp,
};

fn new_id() -> String {
    uuid::Uuid::now_v7().to_string()
}

fn now() -> Timestamp {
    Timestamp { secs: 1_767_225_600, nanos: 0 }
}

fn message(from: &str, to: &str, subject: &str, content: &str) -> MessageEvent {
    MessageEvent {
        from: from.to_string(),
        to: to.to_string(),
        subject: subject.to_string(),
        content: content.to_string(),
        thread_id: None,
        priority: Priority::Normal,
        intent: MessageIntent::Inform,
        expected_response: ExpectedResponse::NoResponse,
        require_ack: false,
        claimed_source_model: None,
        claimed_source_runtime: None,
        claimed_source_mode: None,
        verified_source_model: None,
        verified_source_runtime: None,
        verified_source_mode: None,
        source_worktree: None,
        source_session_id: None,
        provenance_level: ProvenanceLevel::default(),
        provenance_issuer: None,
    }
}

fn message_event(id: &str, agent: &str, m: MessageEvent) -> EventEnvelope {
    EventEnvelope {
        id: id.to_string(),
        timestamp: now(),
        event_type: EventType::MessageSent,
        agent_id: agent.to_string(),
        payload: EventPayload::Message(m),
    }
}

fn artifact(path: &str, description: &str, checksum: &str) -> ArtifactEvent {
    ArtifactEvent {
        path: path.to_string(),
        description: description.to_string(),
        checksum: checksum.to_string(),
        source_url: None,
        fetch_timestamp: None,
        content_hash_sha256: None,
        processor_version: None,
    }
}

fn artifact_event(id: &str, agent: &str, a: ArtifactEvent) -> EventEnvelope {
    EventEnvelope {
        id: id.to_string(),
        timestamp: now(),
        event_type: EventType::ArtifactShared,
        agent_id: agent.to_string(),
        payload: EventPayload::Artifact(a),
    }
}

#[test]
fn test_indexer_new_empty() {
    let indexer = Indexer::new();
    assert!(indexer.get_thread("test").is_none());
    assert!(indexer.get_messages_for_thread("test").is_empty());
    assert_eq!(indexer.events_processed(), 0);
}

#[test]
fn test_indexer_process_message_event() {
    let event_id = new_id();
    let event = message_event(&event_id, "aleph", message("aleph", "thales", "Test Subject", "Test message"));

    let mut indexer = Indexer::new();
    indexer.process_event(&event).unwrap();

    let thread = indexer.get_thread(&event_id);
    assert!(thread.is_some());
    let thread = thread.unwrap();
    assert_eq!(thread.id, event_id);
    assert_eq!(thread.subject, "Test Subject");
    assert_eq!(thread.status, ThreadStatus::Active);
    assert_eq!(thread.message_count, 1);
    assert!(thread.participants.contains(&"aleph".to_string()));
    assert!(thread.participants.contains(&"thales".to_string()));

    let messages = indexer.get_messages_for_thread(&event_id);
    assert_eq!(messages.len(), 1);
    assert_eq!(messages[0].id, event_id);
    assert_eq!(messages[0].from, "aleph");

    let aleph = indexer.get_agent("aleph");
    assert!(aleph.is_some());
    assert_eq!(aleph.unwrap().status, AgentStatus::Available);
}

#[test]
fn test_indexer_process_artifact_event() {
    let event_id = new_id();
    let event = artifact_event(&event_id, "luban", artifact("/files/design.pdf", "Architecture diagram", "abc123"));

    let mut indexer = Indexer::new();
    indexer.process_event(&event).unwrap();

    let artifacts = indexer.get_artifacts();
    assert_eq!(artifacts.len(), 1);
    assert_eq!(artifacts[0].id, event_id);
    assert_eq!(artifacts[0].path, "/files/design.pdf");
    assert_eq!(artifacts[0].description, "Architecture diagram");
    assert_eq!(artifacts[0].shared_by, "luban");
}

#[test]
fn test_indexer_process_decision_event() {
    let event_id = new_id();
    let event = EventEnvelope {
        id: event_id.clone(),
        timestamp: now(),
        event_type: EventType::DecisionRecorded,
        agent_id: "thales".to_string(),
        payload: EventPayload::Decision(DecisionEvent {
            title: "Use Rust for implementation".to_string(),
            context: "Performance and safety requirements".to_string(),
            options: vec![DecisionOption {
                description: "Rust".to_string(),
                pros: vec!["Performance".to_string()],
                cons: vec!["Learning curve".to_string()],
            }],
            chosen: 0,
            rationale: "Best choice for performance".to_string(),
        }),
    };

    let mut indexer = Indexer::new();
    indexer.process_event(&event).unwrap();

    let decisions = indexer.get_decisions();
    assert_eq!(decisions.len(), 1);
    assert_eq!(decisions[0].id, event_id);
    assert_eq!(decisions[0].title, "Use Rust for implementation");
    assert_eq!(decisions[0].options.len(), 1);
    assert_eq!(decisions[0].chosen, 0);
    assert_eq!(decisions[0].status, DecisionStatus::Pending);
    assert_eq!(decisions[0].recorded_by, "thales");
}

#[test]
fn test_indexer_process_multiple_events() {
    let event1_id = new_id();
    let event2_id = new_id();
    let events = vec![
        message_event(&event1_id, "aleph", message("aleph", "luban", "Thread 1", "First message")),
        artifact_event(&event2_id, "aleph", artifact("/files/doc.txt", "A document", "xyz789")),
    ];

    let mut indexer = Indexer::new();
    for event in &events {
        indexer.process_event(event).unwrap();
    }

    assert_eq!(indexer.events_processed(), 2);
    assert!(indexer.get_thread(&event1_id).is_some());
    assert_eq!(indexer.get_artifacts().len(), 1);
}

#[test]
fn test_indexer_query_messages_for_agent() {
    let events = vec![
        message_event(&new_id(), "aleph", message("aleph", "luban", "Test", "Message from Aleph")),
        message_event(&new_id(), "thales", message("thales", "luban", "Test", "Message from Thales")),
        message_event(&new_id(), "aleph", message("aleph", "thales", "Test", "Another message from Aleph")),
    ];

    let mut indexer = Indexer::new();
    for event in &events {
        indexer.process_event(event).unwrap();
    }

    assert_eq!(indexer.get_messages_for_agent("aleph").len(), 2);
    assert_eq!(indexer.get_messages_for_agent("thales").len(), 1);
    assert_eq!(indexer.get_messages_for_agent("luban").len(), 0);
}

#[test]
fn test_indexer_process_task_assigned() {
    let event = EventEnvelope {
        id: new_id(),
        timestamp: now(),
        event_type: EventType::TaskAssigned,
        agent_id: "aleph".to_string(),
        payload: EventPayload::Task(TaskEvent {
            task_id: "task-001".to_string(),
            title: "Build database indexer".to_string(),
            assigned_to: "luban".to_string(),
            assigned_by: "aleph".to_string(),
            status: TaskStatus::Assigned,
        }),
    };

    let mut indexer = Indexer::new();
    indexer.process_event(&event).unwrap();

    let agent = indexer.get_agent("luban");
    assert!(agent.is_some());
    assert_eq!(agent.unwrap().current_task, Some("Build database indexer".to_string()));
}

#[test]
fn test_indexer_process_status_changed() {
    let event = EventEnvelope {
        id: new_id(),
        timestamp: now(),
        event_type: EventType::StatusChanged,
        agent_id: "luban".to_string(),
        payload: EventPayload::Status(StatusEvent {
            agent_id: "luban".to_string(),
            previous: AgentStatus::Available,
            current: AgentStatus::Working,
            reason: Some("Working on indexer".to_string()),
        }),
    };

    let mut indexer = Indexer::new();
    indexer.process_event(&event).unwrap();

    let agent = indexer.get_agent("luban");
    assert!(agent.is_some());
    assert_eq!(agent.unwrap().status, AgentStatus::Working);
}

#[test]
fn test_indexer_get_all_threads() {
    let events = vec![
        message_event(&new_id(), "aleph", message("aleph", "luban", "Thread 1", "Message 1")),
        message_event(&new_id(), "thales", message("thales", "aleph", "Thread 2", "Message 2")),
    ];

    let mut indexer = Indexer::new();
    for event in &events {
        indexer.process_event(event).unwrap();
    }

    assert_eq!(indexer.get_all_threads().len(), 2);
}

#[test]
fn test_indexer_get_message() {
    let msg_id = new_id();
    let event = message_event(&msg_id, "aleph", message("aleph", "luban", "Test", "Hello"));

    let mut indexer = Indexer::new();
    indexer.process_event(&event).unwrap();

    let m = indexer.get_message(&msg_id);
    assert!(m.is_some());
    assert_eq!(m.unwrap().content, "Hello");
    assert!(indexer.get_message("nonexistent").is_none());
}

#[test]
fn test_indexer_get_decision() {
    let dec_id = new_id();
    let event = EventEnvelope {
        id: dec_id.clone(),
        timestamp: now(),
        event_type: EventType::DecisionRecorded,
        agent_id: "aleph".to_string(),
        payload: EventPayload::Decision(DecisionEvent {
            title: "Use Rust".to_string(),
            context: "Language choice".to_string(),
            options: vec![],
            chosen: 0,
            rationale: "Best choice for performance".to_string(),
        }),
    };

    let mut indexer = Indexer::new();
    indexer.process_event(&event).unwrap();

    let decision = indexer.get_decision(&dec_id);
    assert!(decision.is_some());
    assert_eq!(decision.unwrap().title, "Use Rust");
    assert!(indexer.get_decision("nonexistent").is_none());
}

#[test]
fn test_indexer_get_artifact() {
    let art_id = new_id();
    let event = artifact_event(&art_id, "aleph", artifact("/doc.txt", "A document", "abc123"));

    let mut indexer = Indexer::new();
    indexer.process_event(&event).unwrap();

    let a = indexer.get_artifact(&art_id);
    assert!(a.is_some());
    assert_eq!(a.unwrap().path, "/doc.txt");
    assert!(indexer.get_artifact("nonexistent").is_none());
}

#[test]
fn test_indexer_dedup() {
    let event_id = new_id();
    let event = message_event(&event_id, "aleph", message("aleph", "thales", "Dedup Test", "Should only count once"));

    let mut indexer = Indexer::new();
    indexer.process_event(&event).unwrap();
    indexer.process_event(&event).unwrap();

    assert_eq!(indexer.events_processed(), 1);
    let thread = indexer.get_thread(&event_id).unwrap();
    assert_eq!(thread.message_count, 1);
}

#[test]
fn test_indexer_get_all_artifacts() {
    let events = vec![
        artifact_event(&new_id(), "aleph", artifact("/doc1.txt", "Document 1", "abc123")),
        artifact_event(&new_id(), "luban", artifact("/doc2.txt", "Document 2", "def456")),
    ];

    let mut indexer = Indexer::new();
    for event in &events {
        indexer.process_event(event).unwrap();
    }

    assert_eq!(indexer.get_all_artifacts().len(), 2);
}

#[test]
fn test_indexer_get_messages_to_agent_includes_council_broadcast() {
    let mut indexer = Indexer::new();
    let e1 = message_event(&new_id(), "thales", message("thales", "aleph", "Direct", "For you"));
    let e2 = message_event(&new_id(), "luban", message("luban", "all", "All broadcast", "Everyone"));
    let e3 = message_event(&new_id(), "laozi-jung", message("laozi-jung", "council", "Council broadcast", "Observation"));
    let e4 = message_event(&new_id(), "thales", message("thales", "luban", "Not for aleph", "Private"));

    for event in &[&e1, &e2, &e3, &e4] {
        indexer.process_event(event).unwrap();
    }

    let aleph_inbox = indexer.get_messages_to_agent("aleph");
    assert_eq!(aleph_inbox.len(), 3, "aleph should see direct + all + council");

    let subjects: Vec<&str> = aleph_inbox.iter().map(|m| m.subject.as_str()).collect();
    assert!(subjects.contains(&"Direct"));
    assert!(subjects.contains(&"All broadcast"));
    assert!(subjects.contains(&"Council broadcast"));
}

#[test]
fn test_indexer_propagates_provenance_fields() {
    let event_id = new_id();
    let mut m = message("luban", "aleph", "Provenance propagation test", "All provenance fields should propagate");
    m.claimed_source_model = Some("opus-4-6".to_string());
    m.claimed_source_runtime = Some("cli".to_string());
    m.claimed_source_mode = Some("interactive".to_string());
    m.verified_source_model = Some("opus-4-6".to_string());
    m.verified_source_runtime = Some("cli".to_string());
    m.verified_source_mode = Some("interactive".to_string());
    m.source_worktree = Some("/Users/proteus/astralmaris/ming-qiao/luban".to_string());
    m.source_session_id = Some("session-abc-123".to_string());
    m.provenance_level = ProvenanceLevel::Verified;
    m.provenance_issuer = Some("ming-qiao-auth".to_string());
    let event = message_event(&event_id, "luban", m);

    let mut indexer = Indexer::new();
    indexer.process_event(&event).unwrap();

    let message = indexer.get_message(&event_id).unwrap();
    assert_eq!(message.claimed_source_model, Some("opus-4-6".to_string()));
    assert_eq!(message.claimed_source_runtime, Some("cli".to_string()));
    assert_eq!(message.claimed_source_mode, Some("interactive".to_string()));
    assert_eq!(message.verified_source_model, Some("opus-4-6".to_string()));
    assert_eq!(message.verified_source_runtime, Some("cli".to_string()));
    assert_eq!(message.verified_source_mode, Some("interactive".to_string()));
    assert_eq!(message.source_worktree, Some("/Users/proteus/astralmaris/ming-qiao/luban".to_string()));
    assert_eq!(message.source_session_id, Some("session-abc-123".to_string()));
    assert_eq!(message.provenance_level, ProvenanceLevel::Verified);
    assert_eq!(message.provenance_issuer, Some("ming-qiao-auth".to_string()));
}

#[test]
fn test_indexer_legacy_event_gets_default_provenance() {
    let event_id = new_id();
    let event = message_event(&event_id, "aleph", message("aleph", "luban", "Legacy event", "No provenance fields set"));

    let mut indexer = Indexer::new();
    indexer.process_event(&event).unwrap();

    let message = indexer.get_message(&event_id).unwrap();
    assert_eq!(message.claimed_source_model, None);
    assert_eq!(message.claimed_source_runtime, None);
    assert_eq!(message.claimed_source_mode, None);
    assert_eq!(message.verified_source_model, None);
    assert_eq!(message.verified_source_runtime, None);
    assert_eq!(message.verified_source_mode, None);
    assert_eq!(message.source_worktree, None);
    assert_eq!(message.source_session_id, None);
    assert_eq!(message.provenance_level, ProvenanceLevel::Legacy);
    assert_eq!(message.provenance_issuer, None);
}

#[test]
fn test_indexer_claimed_only_provenance() {
    let event_id = new_id();
    let mut m = message("mataya", "council", "Claimed-only provenance", "Only claimed fields set, verified are None");
    m.claimed_source_model = Some("kimi-k2".to_string());
    m.claimed_source_runtime = Some("kimi".to_string());
    m.claimed_source_mode = Some("headless".to_string());
    m.source_session_id = Some("kimi-session-42".to_string());
    m.provenance_level = ProvenanceLevel::Claimed;
    let event = message_event(&event_id, "mataya", m);

    let mut indexer = Indexer::new();
    indexer.process_event(&event).unwrap();

    let message = indexer.get_message(&event_id).unwrap();
    assert_eq!(message.claimed_source_model, Some("kimi-k2".to_string()));
    assert_eq!(message.claimed_source_runtime, Some("kimi".to_string()));
    assert_eq!(message.claimed_source_mode, Some("headless".to_string()));
    assert_eq!(message.verified_source_model, None);
    assert_eq!(message.verified_source_runtime, None);
    assert_eq!(message.verified_source_mode, None);
    assert_eq!(message.provenance_level, ProvenanceLevel::Claimed);
    assert_eq!(message.provenance_issuer, None);
    assert_eq!(message.source_session_id, Some("kimi-session-42".to_string()));
}

#[test]
fn test_indexer_propagates_artifact_content_provenance() {
    let fetch_ts = Timestamp { secs: 1_767_225_000, nanos: 5 };
    let mut a = artifact("/papers/transformer.pdf", "Transformer paper", "sha256:abc");
    a.source_url = Some("https://arxiv.org/abs/1706.03762".to_string());
    a.fetch_timestamp = Some(fetch_ts);
    a.content_hash_sha256 = Some("deadbeef".to_string());
    a.processor_version = Some("arxiv-ingest-v0.3.0".to_string());
    let event = artifact_event(&new_id(), "luban", a);

    let mut indexer = Indexer::new();
    indexer.process_event(&event).unwrap();

    let artifacts = indexer.get_artifacts();
    assert_eq!(artifacts.len(), 1);
    let art = artifacts[0];
    assert_eq!(art.source_url.as_deref(), Some("https://arxiv.org/abs/1706.03762"));
    assert_eq!(art.fetch_timestamp, Some(fetch_ts));
    assert_eq!(art.content_hash_sha256.as_deref(), Some("deadbeef"));
    assert_eq!(art.processor_version.as_deref(), Some("arxiv-ingest-v0.3.0"));
}

#[test]
fn test_indexer_legacy_artifact_gets_none_provenance() {
    let event = artifact_event(&new_id(), "aleph", artifact("/old/doc.txt", "Legacy doc", "abc"));

    let mut indexer = Indexer::new();
    indexer.process_event(&event).unwrap();

    let artifacts = indexer.get_artifacts();
    assert_eq!(artifacts.len(), 1);
    let art = artifacts[0];
    assert!(art.source_url.is_none());
    assert!(art.fetch_timestamp.is_none());
    assert!(art.content_hash_sha256.is_none());
    assert!(art.processor_version.is_none());
}

#[test]
fn reply_in_thread_extends_it() {
    let first = new_id();
    let mut indexer = Indexer::new();
    indexer.process_event(&message_event(&first, "aleph", message("aleph", "luban", "Topic", "One"))).unwrap();
    let mut reply = message("luban", "thales", "Re: Topic", "Two");
    reply.thread_id = Some(first.clone());
    indexer.process_event(&message_event(&new_id(), "luban", reply)).unwrap();

    let thread = indexer.get_thread(&first).unwrap();
    assert_eq!(thread.message_count, 2);
    assert_eq!(thread.participants.len(), 3);
    assert_eq!(indexer.get_messages_for_thread(&first).len(), 2);
    assert_eq!(indexer.get_all_threads().len(), 1);
}

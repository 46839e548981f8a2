use ming_qiao::events::error::EventError;
use ming_qiao::events::reader::{positions_after, EventReader, TailCursor};
use ming_qiao::events::schema::{
    is_default_expected_response, is_false, EventType, ExpectedResponse, MessageIntent, Priority, TaskStatus,
};

fn ids() -> Vec<String> {
    vec![
        "018f0000-0000-7000-8000-000000000001".to_string(),
        "018f0000-0000-7000-8000-000000000002".to_string(),
        "018f0000-0000-7000-8000-000000000003".to_string(),
    ]
}

#[test]
fn test_event_reader_open_nonexistent() {
    let reader = EventReader::open("/nonexistent/path/events.jsonl");
    assert!(reader.is_err());
}

#[test]
fn event_reader_open_nonexistent_message() {
    match EventReader::open("/nonexistent/path/events.jsonl") {
        Err(EventError::NotFound(m)) => assert_eq!(m, "Event log not found: /nonexistent/path/events.jsonl"),
        _ => panic!("expected NotFound"),
    }
}

#[test]
fn test_event_reader_exists() {
    let reader = EventReader::open("/").unwrap();
    assert!(reader.file_exists());
    assert_eq!(reader.path(), "/");
}

#[test]
fn event_reader_open_checked() {
    assert!(EventReader::open_checked("log.jsonl", true).is_ok());
    assert!(EventReader::open_checked("log.jsonl", false).is_err());
}

#[test]
fn test_event_reader_after() {
    let event_ids = ids();
    let after = positions_after(&event_ids, &event_ids[0]);
    assert_eq!(after.len(), 2);
    assert_eq!(event_ids[after[0]], event_ids[1]);
    assert_eq!(event_ids[after[1]], event_ids[2]);
}

#[test]
fn test_event_reader_after_nonexistent_id() {
    let event_ids = ids();
    let after = positions_after(&event_ids, "01234567-89ab-cdef-ffffffffffff");
    assert_eq!(after.len(), 0);
}

#[test]
fn after_last_event_yields_nothing() {
    let event_ids = ids();
    assert!(positions_after(&event_ids, &event_ids[2]).is_empty());
}

#[test]
fn after_uses_first_occurrence() {
    let v = vec!["a".to_string(), "b".to_string(), "a".to_string(), "c".to_string()];
    assert_eq!(positions_after(&v, "a"), vec![1, 2, 3]);
}

#[test]
fn tail_cursor_steps() {
    let mut c = TailCursor::new("b");
    assert!(!c.take_event("a"));
    assert!(!c.take_event("b"));
    assert!(c.take_event("c"));
    assert!(c.take_event("b"));
}

#[test]
fn test_default_priority() {
    let priority = Priority::default();
    assert_eq!(priority, Priority::Normal);
}

#[test]
fn test_default_task_status() {
    let status = TaskStatus::default();
    assert_eq!(status, TaskStatus::Assigned);
}

#[test]
fn test_default_message_intent() {
    let intent = MessageIntent::default();
    assert_eq!(intent, MessageIntent::Inform);
}

#[test]
fn default_expected_response_is_none() {
    assert_eq!(ExpectedResponse::default(), ExpectedResponse::NoResponse);
    assert!(is_default_expected_response(&ExpectedResponse::NoResponse));
    assert!(!is_default_expected_response(&ExpectedResponse::Reply));
    assert!(is_false(&false));
    assert!(!is_false(&true));
}

#[test]
fn event_type_names() {
    assert_eq!(EventType::MessageSent.as_str(), "message_sent");
    assert_eq!(EventType::DecisionRecorded.to_string(), "decision_recorded");
}

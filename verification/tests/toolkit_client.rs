use ming_qiao::astrolabe::ingest::{sse_data_payload, tool_outcome};
use ming_qiao::fleet::colloquium::{AstrolabeBriefing, BriefingFact, BriefingNode};
use ming_qiao::fleet::metrics::transport_type;
use ming_qiao::fleet::observer::CooldownTracker;

#[test]
fn sse_payload_is_first_data_line() {
    let body = "event: message\ndata: {\"a\":1}\ndata: {\"b\":2}\n";
    assert_eq!(sse_data_payload(body), Some("{\"a\":1}".to_string()));
}

#[test]
fn sse_payload_handles_crlf_and_absence() {
    assert_eq!(sse_data_payload("id: 1\r\ndata: x\r\n"), Some("x".to_string()));
    assert_eq!(sse_data_payload("event: ping\n\n"), None);
    assert_eq!(sse_data_payload("data:{}\n"), None);
    assert_eq!(sse_data_payload(""), None);
}

#[test]
fn tool_outcome_defaults() {
    assert_eq!(tool_outcome(None, None), (false, "{}".to_string()));
    assert_eq!(tool_outcome(Some(true), Some("{\"x\":1}".to_string())), (true, "{\"x\":1}".to_string()));
    assert_eq!(tool_outcome(Some(false), None), (false, "{}".to_string()));
}

#[test]
fn transport_of_runtimes() {
    assert_eq!(transport_type("opencode"), "stdio");
    assert_eq!(transport_type("kimi"), "stdio");
    assert_eq!(transport_type("codex"), "stdio");
    assert_eq!(transport_type("gemini"), "stdio");
    assert_eq!(transport_type("manual"), "streamable-http");
    assert_eq!(transport_type(""), "streamable-http");
}

#[test]
fn backoff_level_counts_increases() {
    let mut t = CooldownTracker::new(60);
    assert_eq!(t.backoff_level("aleph"), 0);
    t.increase_backoff("aleph");
    t.increase_backoff("aleph");
    assert_eq!(t.backoff_level("aleph"), 2);
    assert_eq!(t.backoff_level("thales"), 0);
    t.reset_backoff("aleph");
    assert_eq!(t.backoff_level("aleph"), 0);
}

#[test]
fn briefing_full_text_joins_lines() {
    let b = AstrolabeBriefing {
        nodes: vec![BriefingNode { name: Some("NATS".to_string()), summary: Some("bus".to_string()) }],
        facts: vec![BriefingFact { fact: Some("old".to_string()), is_invalid: Some(true) }],
        raw_query: "nats".to_string(),
        available: true,
        error: String::new(),
    };
    assert_eq!(
        b.full_text(),
        "### Relevant Entities\n- **NATS**: bus\n### Relevant Facts\n- old [SUPERSEDED]"
    );
    assert_eq!(b.to_text(8000), b.full_text());
}

use ming_qiao::events::schema::Timestamp;
use ming_qiao::fleet::avatar::{
    after_session, handoff_context, is_auth_rejection, is_op_ref, messaging_base_url, next_launch, opencode_model,
    resolve_placeholder, runtime_launch, validate_config, ConfigHandoff, LaunchStep,
};
use ming_qiao::fleet::colloquium::{select_voices, should_dispatch};
use ming_qiao::fleet::comms::{
    ends_composition, inbox_lines, new_messages_notice, parse_command, parse_usize, record_new_ids, split_command,
    str_get, thread_lines, InboxMessage, ReplCommand,
};
use ming_qiao::fleet::cve_sources::{
    advisory_matches, alert_tag, distinct_titles, first_chars, first_cve_alias, hn_item_url, hn_search_url,
    is_nats_notice, neocloud_alert_level, parse_rustsec_feed, rustsec_from_events, status_page_state,
};
use ming_qiao::astrolabe::atom::XmlEvent;
use ming_qiao::fleet::handover::{
    agent_ready, already_loaded, daemon_line, handoff_issues, handover_warning, handover_warning_subject,
    is_confirmation, is_readiness_ack, missing_core, observer_status, parse_choice, progress_line,
    readiness_dashboard, HandoffFile, ObserverStatus,
};
use ming_qiao::fleet::metrics::{
    active_agents, initialize_result, result_lines, summary_line, tools_list_result, FleetRoster, TestResult,
};
use ming_qiao::fleet::observer_log::{
    count_fleet, extract_field, extract_iso_timestamp, format_ago, handoff_agent, last_active, parse_observer_line,
    parse_observer_log, service_status, strip_ansi, wake_event_name, wake_stats, WakeEvent,
};
use ming_qiao::fleet::oracle::{
    arxiv_query_urls, captains_log_episode, content_hash, log_entry_due, paper_authors, paper_episode,
    papers_from_events, parse_arxiv_papers, seed_docs, should_ingest, thread_episode, thread_transcript, thread_wanted, url_encode,
    versioned_id, ArxivPaper,
};
use ming_qiao::fleet::orchestrator::{
    classify_agent, is_fleet_agent, is_task_intent, liveness_probe, notification_script, orchestrate,
    waiting_for_human, Action, AgentInfo, AgentState, Liveness, ESCALATION_COOLDOWN_NS,
};

fn strings(v: &[&str]) -> Vec<String> {
    v.iter().map(|s| s.to_string()).collect()
}

fn pair(a: &str, b: &str) -> (String, String) {
    (a.to_string(), b.to_string())
}

// ---------------------------------------------------------------- orchestrator

#[test]
fn agent_states_from_polls() {
    assert_eq!(classify_agent(true, false, true, Some(0)), AgentState::Skip);
    assert_eq!(classify_agent(false, false, true, Some(0)), AgentState::Dead);
    assert_eq!(classify_agent(false, true, true, Some(0)), AgentState::Waiting);
    assert_eq!(classify_agent(false, true, false, Some(299)), AgentState::Working);
    assert_eq!(classify_agent(false, true, false, Some(300)), AgentState::Idle);
    assert_eq!(classify_agent(false, true, false, Some(899)), AgentState::Idle);
    assert_eq!(classify_agent(false, true, false, Some(900)), AgentState::Stuck);
    assert_eq!(classify_agent(false, true, false, None), AgentState::Stuck);
    assert_eq!(AgentState::Waiting.as_str(), "WAITING");
}

#[test]
fn runtime_probes() {
    assert!(matches!(liveness_probe("manual"), Liveness::Assumed));
    assert!(matches!(liveness_probe("kimi"), Liveness::Process("Kimi Code")));
    assert!(matches!(liveness_probe("opencode"), Liveness::Process("opencode-ai")));
    assert!(matches!(liveness_probe("codex"), Liveness::Process("codex")));
    assert!(matches!(liveness_probe("other"), Liveness::Unknown));
}

#[test]
fn waiting_and_tasks() {
    let msgs = vec![pair("luban", "inform"), pair("aleph", "request")];
    assert!(waiting_for_human(&msgs, "aleph"));
    assert!(!waiting_for_human(&msgs, "luban"));
    assert!(is_task_intent("request"));
    assert!(is_task_intent("discuss"));
    assert!(!is_task_intent("inform"));
    assert!(!is_fleet_agent("_server"));
    assert!(!is_fleet_agent("council-chamber"));
    assert!(is_fleet_agent("ogma"));
}

#[test]
fn escalation_banner_is_quoted() {
    assert_eq!(
        notification_script("aleph", "say \"hi\" \\ now"),
        "display notification \"aleph\" with title \"Fleet: say \\\"hi\\\" \\\\ now\""
    );
}

#[test]
fn orchestrator_escalates_with_cooldown() {
    let mut info = AgentInfo::new();
    match orchestrate(&mut info, AgentState::Stuck, 0, 1_000, None) {
        Action::Escalate(r) => assert_eq!(r, "Unresponsive for >15min"),
        _ => panic!("expected an escalation"),
    }
    assert_eq!(info.last_escalation, Some(1_000));
    assert!(matches!(orchestrate(&mut info, AgentState::Stuck, 0, 1_000 + ESCALATION_COOLDOWN_NS, None), Action::Nothing));
    assert!(matches!(orchestrate(&mut info, AgentState::Stuck, 0, 1_001 + ESCALATION_COOLDOWN_NS, None), Action::Escalate(_)));
    match orchestrate(&mut info, AgentState::Dead, 0, 0, None) {
        Action::Escalate(r) => assert_eq!(r, "Session dead \u{2014} manual restart needed"),
        _ => panic!("expected an escalation"),
    }
}

#[test]
fn orchestrator_waiting_and_dispatch() {
    let mut info = AgentInfo::new();
    let sec: u64 = 1_000_000_000;
    assert!(matches!(orchestrate(&mut info, AgentState::Waiting, 10 * sec, 0, None), Action::Nothing));
    assert_eq!(info.waiting_since, Some(10 * sec));
    assert!(matches!(orchestrate(&mut info, AgentState::Waiting, 1810 * sec, 0, None), Action::Nothing));
    match orchestrate(&mut info, AgentState::Waiting, 1811 * sec, 5, None) {
        Action::Escalate(r) => assert_eq!(r, "Waiting for Proteus input for 30+ minutes"),
        _ => panic!("expected an escalation"),
    }
    match orchestrate(&mut info, AgentState::Idle, 0, 0, Some(pair("thales", "Review"))) {
        Action::Dispatch { from, subject } => {
            assert_eq!(from, "thales");
            assert_eq!(subject, "Review");
        },
        _ => panic!("expected a dispatch"),
    }
    assert_eq!(info.task, Some("Review".to_string()));
    assert_eq!(info.waiting_since, None);
    assert!(matches!(orchestrate(&mut info, AgentState::Working, 0, 0, None), Action::Nothing));
    assert_eq!(info.task, Some("Review".to_string()));
    orchestrate(&mut info, AgentState::Idle, 0, 0, None);
    assert_eq!(info.task, None);
}

// -------------------------------------------------------------------- handover

#[test]
fn warning_text() {
    let w = handover_warning(120);
    assert!(w.starts_with("DAILY WATCH HANDOVER \u{2014} Merlin morning initialization.\n\nFleet restart is imminent."));
    assert!(w.contains("Timeout: you have 120 seconds before forced restart."));
    assert!(w.ends_with("\u{2014} daily-handover (Merlin-operated)"));
    assert_eq!(handover_warning_subject(), "DAILY HANDOVER \u{2014} Commit work and submit handoff");
}

#[test]
fn readiness_rules() {
    let b = Timestamp { secs: 1_000, nanos: 500 };
    assert!(is_readiness_ack("ready!"));
    assert!(is_readiness_ack("handoff done"));
    assert!(!is_readiness_ack("working on it"));
    assert!(agent_ready("luban", Some(1_001), b, &vec![]));
    assert!(!agent_ready("luban", Some(1_000), b, &vec![]));
    assert!(agent_ready("luban", None, b, &vec![pair("luban", "Ack")]));
    assert!(!agent_ready("luban", None, b, &vec![pair("ogma", "READY")]));
}

#[test]
fn dashboard_lines() {
    let roster = FleetRoster { core: strings(&["aleph", "luban"]), optional: strings(&["hypatia-adjutant"]) };
    let lines = readiness_dashboard(&roster, &strings(&["luban"]));
    assert_eq!(lines[2], "  Daily Watch Handover \u{2014} Readiness");
    assert_eq!(lines[5], "  Core agents:");
    assert_eq!(lines[6], "    [!] aleph              MISSING");
    assert_eq!(lines[7], "    [+] luban              READY");
    assert_eq!(lines[9], "  Optional agents:");
    assert_eq!(lines[10], "    [~] hypatia-adjutant   SKIPPED");
    assert_eq!(lines[12], "  Core: 1/2 ready");
    assert_eq!(lines.len(), 14);
    assert_eq!(missing_core(&roster, &strings(&["luban"])), strings(&["aleph"]));
    assert_eq!(missing_core(&active_agents(), &vec![]).len(), 7);
}

#[test]
fn prompts_and_progress() {
    assert_eq!(parse_choice("  Recheck\n"), 'r');
    assert_eq!(parse_choice("S"), 's');
    assert_eq!(parse_choice("c"), 'c');
    assert_eq!(parse_choice("x"), 'q');
    assert_eq!(parse_choice(""), 'q');
    assert!(is_confirmation(" Y\n"));
    assert!(!is_confirmation("yes"));
    assert_eq!(progress_line(3, 8, 7), "\r  3/8 ready (  7s remaining)");
}

#[test]
fn handoff_file_warnings() {
    let b = Timestamp { secs: 1_000, nanos: 0 };
    assert_eq!(handoff_issues("aleph", &HandoffFile::Missing, b), strings(&["  [!] aleph: no handoff file"]));
    assert_eq!(
        handoff_issues("aleph", &HandoffFile::InvalidJson("bad".to_string()), b),
        strings(&["  [!] aleph: invalid JSON \u{2014} bad"])
    );
    let f = HandoffFile::Parsed { keys: strings(&["agent", "schema_version", "next_actions"]), epoch: Some(999) };
    assert_eq!(
        handoff_issues("aleph", &f, b),
        strings(&[
            "  [!] aleph: missing fields: session_date, last_updated_epoch, state_summary",
            "  [~] aleph: handoff file is stale (pre-broadcast)",
        ])
    );
    let all = strings(&["schema_version", "agent", "session_date", "last_updated_epoch", "state_summary", "next_actions"]);
    assert!(handoff_issues("aleph", &HandoffFile::Parsed { keys: all, epoch: Some(1_000) }, b).is_empty());
}

#[test]
fn observer_health() {
    assert_eq!(observer_status(false, "\"PID\" = 1;", None), ObserverStatus::Stopped);
    assert_eq!(observer_status(true, "no pid", None), ObserverStatus::Stopped);
    assert_eq!(observer_status(true, "\"PID\" = 1;", None), ObserverStatus::Running);
    assert_eq!(observer_status(true, "\"PID\" = 1;", Some(301_000_000_000)), ObserverStatus::Hung);
    assert!(already_loaded("Bootstrap failed: 37: Operation already in progress"));
    assert!(!already_loaded("5: Input/output error"));
    assert_eq!(daemon_line("com.x", true), "    [+] com.x RUNNING");
    assert_eq!(daemon_line("com.x", false), "    [!] com.x STOPPED");
}

// ---------------------------------------------------------------------- oracle

#[test]
fn journal_hash_and_ingest() {
    let h = content_hash("a", "b");
    assert_eq!(h.len(), 16);
    assert_eq!(h, "0eab8a0a3380abf4");
    assert!(should_ingest(&h, &vec![], false));
    assert!(!should_ingest(&h, &vec![h.clone()], false));
    assert!(should_ingest(&h, &vec![h.clone()], true));
    assert_eq!(seed_docs().len(), 4);
    assert_eq!(seed_docs()[2].1, "council:oracle");
}

#[test]
fn paper_episodes() {
    let p = ArxivPaper {
        arxiv_id: "2401.12345".to_string(),
        title: "T".to_string(),
        authors: "A, B".to_string(),
        abstract_text: "X".to_string(),
    };
    let (name, body, source) = paper_episode(&p);
    assert_eq!(name, "[arXiv:2401.12345] T");
    assert_eq!(body, "Title: T\nAuthors: A, B\nArXiv ID: 2401.12345\n\nAbstract:\nX");
    assert_eq!(source, "arxiv:2401.12345");
    assert_eq!(paper_authors(&strings(&["a", "b"])), "a, b");
    assert_eq!(paper_authors(&strings(&["a", "b", "c", "d", "e", "f"])), "a, b, c, d, e et al. (6 authors)");
}

#[test]
fn arxiv_ids_and_queries() {
    assert_eq!(versioned_id("http://arxiv.org/abs/2401.12345v2"), Some("2401.12345v2".to_string()));
    assert_eq!(versioned_id("see 2401.1234 and 2402.55555"), Some("2401.1234".to_string()));
    assert_eq!(versioned_id("2401.12345vx"), Some("2401.12345".to_string()));
    assert_eq!(versioned_id("none"), None);
    assert_eq!(url_encode("a,b c~"), "a%2Cb%20c~");
    let ids: Vec<String> = (0..21).map(|i| format!("2401.{:05}", i)).collect();
    let urls = arxiv_query_urls(&ids);
    assert_eq!(urls.len(), 2);
    assert!(urls[0].ends_with("&max_results=20"));
    assert_eq!(urls[1], "https://export.arxiv.org/api/query?id_list=2401.00020&max_results=1");
    assert!(arxiv_query_urls(&vec![]).is_empty());
}

#[test]
fn arxiv_feed_papers() {
    let xml = "<feed><entry><id>http://arxiv.org/abs/2401.12345v1</id><title>A  Title\n here</title>\
               <summary> Sum\n mary </summary><author><name> Ann </name></author><author><name>Bob</name></author>\
               </entry><entry><title>No id</title></entry></feed>";
    let papers = parse_arxiv_papers(xml);
    assert_eq!(papers.len(), 1);
    assert_eq!(papers[0].arxiv_id, "2401.12345v1");
    assert_eq!(papers[0].title, "A Title here");
    assert_eq!(papers[0].abstract_text, "Sum mary");
    assert_eq!(papers[0].authors, "Ann, Bob");
}

#[test]
fn refresh_rules() {
    assert!(log_entry_due(5, None));
    assert!(!log_entry_due(5, Some(5)));
    let (name, source) = captains_log_episode("2026-01-01.md.md");
    assert_eq!(name, "Captain's Log: 2026-01-01");
    assert_eq!(source, "captains-log:2026-01-01.md.md");
    assert!(thread_wanted("t1", &vec![], "security review"));
    assert!(!thread_wanted("t1", &strings(&["t1"]), "security review"));
    assert!(!thread_wanted("", &vec![], "security review"));
    assert!(!thread_wanted("t2", &vec![], "lunch plans"));
    let msgs = vec![pair("aleph", "one"), pair("luban", "two")];
    assert_eq!(thread_transcript("gate", &msgs), "# Thread: gate\n\n## aleph\none\n\n## luban\ntwo\n\n");
    let (n, s) = thread_episode("Gate", "t9");
    assert_eq!(n, "Thread: Gate");
    assert_eq!(s, "thread:t9");
}

// ------------------------------------------------------------------ cve sources

#[test]
fn status_pages_and_alerts() {
    assert_eq!(status_page_state("All Systems Operational"), "operational");
    assert_eq!(status_page_state("Major Outage in EU"), "major-outage");
    assert_eq!(status_page_state("Degraded performance"), "degraded");
    assert_eq!(status_page_state("minor issue"), "partial-outage");
    assert_eq!(status_page_state("Scheduled Maintenance"), "maintenance");
    assert_eq!(status_page_state("hello"), "check-manually");
    assert_eq!(neocloud_alert_level("operational", 0, 0, true), "clear");
    assert_eq!(neocloud_alert_level("degraded", 0, 0, false), "warning");
    assert_eq!(neocloud_alert_level("operational", 1, 0, true), "alert");
    assert_eq!(alert_tag("alert"), " *** ALERT ***");
    assert_eq!(alert_tag("warning"), " * WARNING *");
    assert_eq!(alert_tag("clear"), "");
}

#[test]
fn hacker_news_helpers() {
    assert_eq!(
        hn_search_url("vast.ai", "breach", 1700000000),
        "https://hn.algolia.com/api/v1/search_by_date?query=vast.ai%20breach&tags=story&numericFilters=created_at_i>1700000000"
    );
    assert_eq!(hn_item_url("42"), "https://news.ycombinator.com/item?id=42");
    assert_eq!(first_chars("2026-01-02T03:04:05.000Z", 16), "2026-01-02T03:04");
    assert_eq!(first_chars("short", 16), "short");
    assert_eq!(distinct_titles(&strings(&["a", "b", "a", "c"])), vec![0, 1, 3]);
}

#[test]
fn advisories_and_aliases() {
    assert!(advisory_matches(false, &strings(&["VastAI"]), "", "vastai"));
    assert!(advisory_matches(false, &vec![], "Flaw in VASTAI sdk", "vastai"));
    assert!(!advisory_matches(true, &strings(&["vastai"]), "", "vastai"));
    assert!(!advisory_matches(false, &strings(&["other"]), "nothing", "vastai"));
    assert!(is_nats_notice("https://github.com/NATS-io/nats-server", ""));
    assert!(is_nats_notice("", "A NATS bug"));
    assert!(!is_nats_notice("", "other"));
    assert_eq!(first_cve_alias(&strings(&["GHSA-1", "CVE-2024-1", "CVE-2"])), Some("CVE-2024-1".to_string()));
    assert_eq!(first_cve_alias(&strings(&["GHSA-1"])), None);
}

#[test]
fn rustsec_feed() {
    let xml = "<rss><channel><item><title> Old </title><pubDate>Mon, 01 Jan 2001 00:00:00 +0000</pubDate></item>\
               <item><title>New</title><link> https://x </link><pubDate>Mon, 01 Jan 2035 00:00:00 +0000</pubDate>\
               <description>&lt;p&gt;Bad &lt;b&gt;bug&lt;/b&gt;&lt;/p&gt;</description></item>\
               <item><title>Undated</title></item><item><link>no title</link></item></channel></rss>";
    let start = Timestamp { secs: 1_700_000_000, nanos: 0 };
    let entries = parse_rustsec_feed(xml, start);
    assert_eq!(entries.len(), 2);
    assert_eq!(entries[0].title, "New");
    assert_eq!(entries[0].link, "https://x");
    assert_eq!(entries[0].summary, "Bad bug");
    assert_eq!(entries[1].title, "Undated");
}

// ----------------------------------------------------------------- observer log

#[test]
fn observer_log_lines() {
    assert_eq!(strip_ansi("\x1b[32mINFO\x1b[0m x \x1b[1;31"), "INFO x \x1b[1;31");
    assert_eq!(extract_field("a agent=\"\" agent=\"luban\" x", "agent"), Some("luban".to_string()));
    assert_eq!(extract_field("agent=luban", "agent"), None);
    assert!(extract_iso_timestamp("at 2026-03-01T10:20:30.123456Z done").is_some());
    assert_eq!(extract_iso_timestamp("at 2026-03-01T10:20:30Z"), None);
    let line = "\x1b[2m2026-03-01T10:20:30.5Z\x1b[0m INFO council_observer: woke successfully agent=\"luban\"";
    let e = parse_observer_line(line).unwrap();
    assert_eq!(e.agent, "luban");
    assert_eq!(e.event, WakeEvent::Wake);
    assert!(e.success);
    let line2 = "2026-03-01T10:21:00.0Z observer: luban has unread messages, tier 2 agent=\"luban\"";
    let e2 = parse_observer_line(line2).unwrap();
    assert_eq!(e2.event, WakeEvent::PendingWake);
    assert_eq!(e2.tier, Some(2));
    assert!(parse_observer_line("woke successfully but no agent 2026-03-01T10:20:30.5Z").is_none());
    assert_eq!(wake_event_name(WakeEvent::WakeFailed), "wake_failed");
}

#[test]
fn observer_log_stats() {
    let log = "2026-03-01T10:00:00.0Z observer woke successfully agent=\"luban\"\n\
               2026-03-01T10:05:00.0Z observer failed to wake agent=\"luban\"\n\
               2026-03-01T10:06:00.0Z other woke successfully agent=\"luban\"\n\
               2026-03-01T10:07:00.0Z observer no cmux workspace found agent=\"ogma\"\n";
    let entries = parse_observer_log(log);
    assert_eq!(entries.len(), 3);
    assert_eq!(wake_stats(&entries, "luban"), (1, 2));
    assert_eq!(wake_stats(&entries, "ogma"), (0, 1));
    assert_eq!(last_active(&entries, "luban"), entries[1].timestamp.into());
    assert_eq!(last_active(&entries, "aleph"), None);
}

#[test]
fn metrics_helpers() {
    assert_eq!(service_status("ok"), "healthy");
    assert_eq!(service_status("error"), "down");
    assert_eq!(service_status("weird"), "weird");
    assert_eq!(handoff_agent("last-handoff-luban.json"), Some("luban".to_string()));
    assert_eq!(handoff_agent("last-handoff-last-handoff-x.json.json"), Some("x".to_string()));
    assert_eq!(handoff_agent("handoff-luban.json"), None);
    assert_eq!(format_ago(30), "just now");
    assert_eq!(format_ago(-100), "just now");
    assert_eq!(format_ago(600), "10m ago");
    assert_eq!(format_ago(7200), "2h ago");
    assert_eq!(format_ago(200_000), "2d ago");
    assert_eq!(count_fleet(&vec![(true, 0), (false, 0), (false, 3), (true, 2)]), (2, 1, 1));
}

#[test]
fn harness_results() {
    let (r, sid) = initialize_result(true, "200 OK", 5, None, Some("abc".to_string()), None);
    assert!(r.passed);
    assert_eq!(r.message, "session=abc");
    assert_eq!(sid, Some("abc".to_string()));
    let (r, sid) = initialize_result(true, "200 OK", 5, None, None, Some("xyz".to_string()));
    assert_eq!(r.message, "session=xyz (from body)");
    assert_eq!(sid, Some("xyz".to_string()));
    let (r, _) = initialize_result(false, "500 Internal Server Error", 5, None, None, None);
    assert_eq!(r.message, "Status 500 Internal Server Error");
    let (r, sid) = initialize_result(true, "200 OK", 5, Some("boom".to_string()), Some("abc".to_string()), None);
    assert_eq!(r.message, "Error: boom");
    assert_eq!(sid, None);
    let (r, _) = initialize_result(true, "200 OK", 5, None, None, None);
    assert_eq!(r.message, "No session ID in header or body");
    assert_eq!(tools_list_result(true, "200", 1, Some(12)).message, "12 tools available");
    assert!(!tools_list_result(true, "200", 1, None).passed);
    let lines = result_lines(&TestResult::fail("x", 7, "bad"), false);
    assert_eq!(lines, strings(&["\x1b[31mFAIL\x1b[0m 7ms \u{2014} x", "    bad"]));
    assert_eq!(result_lines(&TestResult::pass("x", 7, "ok"), false).len(), 1);
    let (s, failed) = summary_line(&vec![TestResult::pass("a", 1, ""), TestResult::fail("b", 1, "")]);
    assert_eq!(s, "Results: 1/2 passed");
    assert!(failed);
}

// ---------------------------------------------------------------------- avatar

#[test]
fn avatar_configuration() {
    assert_eq!(validate_config("", "m", "kimi", 1), Err("identity.agent_id is required".to_string()));
    assert_eq!(validate_config("a", "", "kimi", 1), Err("model.primary is required".to_string()));
    assert_eq!(validate_config("a", "m", "", 1), Err("runtime.type is required".to_string()));
    assert_eq!(validate_config("a", "m", "kimi", 0), Err("At least one MCP server is required".to_string()));
    assert_eq!(validate_config("a", "m", "kimi", 2), Ok(()));
    assert!(is_op_ref("op://vault/item"));
    assert!(!is_op_ref("plain"));
    assert_eq!(
        resolve_placeholder("{identity.agent_id}-{model.primary}@{runtime.type}", "meridian", "m1", "p", "kimi"),
        "meridian-m1@kimi"
    );
    let servers = vec![pair("other", "http://a/mcp"), pair("ming-qiao", "http://host:7777/mcp")];
    assert_eq!(messaging_base_url(&servers), "http://host:7777");
    assert_eq!(messaging_base_url(&vec![]), "http://localhost:7777");
    assert!(matches!(runtime_launch("kimi"), Some(("/opt/homebrew/bin/kimi", ConfigHandoff::Env("KIMI_MCP_CONFIG")))));
    assert!(matches!(runtime_launch("gemini"), Some(("/opt/homebrew/bin/gemini", ConfigHandoff::Flag))));
    assert!(runtime_launch("unknown").is_none());
    assert_eq!(
        handoff_context(&None, &strings(&["a", "b"])),
        "Previous session summary: (no summary)\nNext actions: a, b"
    );
    assert_eq!(opencode_model("jikimi"), "ollama/qwen3:8b");
    assert_eq!(opencode_model("luban"), "glm-5");
    assert!(is_auth_rejection("OAuth refresh HTTP 401"));
    assert!(!is_auth_rejection("timeout"));
}

#[test]
fn avatar_restart_policy() {
    assert_eq!(next_launch(0, 5, 10), LaunchStep::Launch { wait_secs: 0 });
    assert_eq!(next_launch(1, 5, 10), LaunchStep::Launch { wait_secs: 20 });
    assert_eq!(next_launch(4, 5, 10), LaunchStep::Launch { wait_secs: 160 });
    assert_eq!(next_launch(5, 5, 10), LaunchStep::GiveUp);
    assert_eq!(next_launch(6, 9, 10), LaunchStep::Launch { wait_secs: 160 });
    assert_eq!(after_session(3, Some(301_000_000_000)), 0);
    assert_eq!(after_session(3, Some(10)), 4);
    assert_eq!(after_session(3, None), 4);
}

// ----------------------------------------------------------------------- comms

#[test]
fn console_commands() {
    assert_eq!(split_command("send luban hello there"), strings(&["send", "luban", "hello there"]));
    assert_eq!(split_command("read  5"), strings(&["read", "", "5"]));
    assert_eq!(parse_usize("+42"), Some(42));
    assert_eq!(parse_usize("007"), Some(7));
    assert_eq!(parse_usize(""), None);
    assert_eq!(parse_usize("+"), None);
    assert_eq!(parse_usize("-1"), None);
    assert_eq!(parse_usize("99999999999999999999999"), None);
    assert!(matches!(parse_command("   "), ReplCommand::Nothing));
    assert!(matches!(parse_command("QUIT"), ReplCommand::Quit));
    assert!(matches!(parse_command("read 2"), ReplCommand::Read(1)));
    assert!(matches!(parse_command("re 0"), ReplCommand::InvalidNumber));
    assert!(matches!(parse_command("r"), ReplCommand::Usage(_)));
    match parse_command("s luban Hello world") {
        ReplCommand::Send { to, subject } => {
            assert_eq!(to, "luban");
            assert_eq!(subject, "Hello world");
        },
        _ => panic!("expected send"),
    }
    match parse_command("Frob x") {
        ReplCommand::Unknown(c) => assert_eq!(c, "frob"),
        _ => panic!("expected unknown"),
    }
    assert!(ends_composition("  . "));
    assert!(!ends_composition(".."));
}

fn message(from: &str, subject: &str, created: &str) -> InboxMessage {
    InboxMessage {
        id: Some(format!("id-{}", subject)),
        from: Some(from.to_string()),
        subject: Some(subject.to_string()),
        content: Some("line one\nline two".to_string()),
        intent: None,
        thread_id: None,
        created_at: Some(created.to_string()),
    }
}

#[test]
fn console_display() {
    assert_eq!(str_get("2026-01-02T03:04:05Z", 11, 16), Some("03:04".to_string()));
    assert_eq!(str_get("short", 11, 16), None);
    assert_eq!(str_get("a\u{e9}b", 2, 3), None);
    assert_eq!(inbox_lines(&vec![]), strings(&["  (empty)"]));
    let msgs = vec![message("aleph", "Plan", "2026-01-02T03:04:05Z")];
    let lines = inbox_lines(&msgs);
    assert_eq!(lines[0], "  #    FROM           INTENT     SUBJECT");
    assert_eq!(lines[1], format!("  {}", "-".repeat(70)));
    assert_eq!(lines[2], "  1    aleph          ?          Plan [03:04]");
    let t = thread_lines(&Some("Plan".to_string()), &msgs);
    assert_eq!(t[1], "  Thread: Plan");
    assert_eq!(t[4], "  [2026-01-02T03:04:05] aleph :");
    assert_eq!(t[5], "    line one");
    assert_eq!(t[6], "    line two");
    assert_eq!(t.len(), 8);
}

#[test]
fn console_new_messages() {
    let mut seen = strings(&["a"]);
    let ids = vec![Some("a".to_string()), Some("b".to_string()), None, Some("b".to_string()), Some("c".to_string())];
    assert_eq!(record_new_ids(&mut seen, &ids), 2);
    assert_eq!(seen, strings(&["a", "b", "c"]));
    assert_eq!(
        new_messages_notice(2, "luban", "Hi"),
        "\n  ** 2 new message(s) \u{2014} latest from luban re: Hi **\n"
    );
}

// ------------------------------------------------------------------ colloquium

#[test]
fn voice_selection_and_dispatch() {
    let all = select_voices(true, &None, false).unwrap();
    let ids: Vec<&str> = all.iter().map(|(a, _)| a.as_str()).collect();
    assert_eq!(ids, vec!["aleph", "luban", "laozi-jung", "mataya", "ogma"]);
    assert!(all.iter().all(|(_, autonomous)| *autonomous));
    let authored = select_voices(true, &None, true).unwrap();
    assert_eq!(authored.len(), 7);
    assert_eq!(authored[1], ("thales".to_string(), false));
    let some = select_voices(false, &Some(strings(&["ogma", "nobody", "merlin"])), false).unwrap();
    assert_eq!(some, vec![("ogma".to_string(), true), ("merlin".to_string(), false)]);
    assert!(select_voices(false, &None, false).is_none());
    assert!(should_dispatch("aleph", "council", "the colloquium \u{2014} memory", "", "t1"));
    assert!(should_dispatch("aleph", "luban", "x", "colloquium", "t1"));
    assert!(!should_dispatch("colloquium-daemon", "council", "colloquium - x", "", "t1"));
    assert!(!should_dispatch("aleph", "council", "colloquium - x", "", ""));
}

fn start(n: &str) -> XmlEvent {
    XmlEvent::Start(n.to_string())
}

fn end(n: &str) -> XmlEvent {
    XmlEvent::End(n.to_string())
}

fn text(t: &str) -> XmlEvent {
    XmlEvent::Text(t.to_string())
}

#[test]
fn papers_from_feed_events() {
    let events = vec![
        start("feed"),
        start("entry"),
        start("id"),
        text("http://arxiv.org/abs/2401.12345v2"),
        end("id"),
        start("title"),
        text("A  Title"),
        end("title"),
        start("name"),
        text(" Ann "),
        end("name"),
        end("entry"),
        start("entry"),
        start("title"),
        text("No id"),
        end("title"),
        end("entry"),
        XmlEvent::Eof,
        start("entry"),
    ];
    let papers = papers_from_events(&events);
    assert_eq!(papers.len(), 1);
    assert_eq!(papers[0].arxiv_id, "2401.12345v2");
    assert_eq!(papers[0].title, "A Title");
    assert_eq!(papers[0].authors, "Ann");
    assert_eq!(papers[0].abstract_text, "");
    let cut = vec![start("entry"), start("id"), text("2401.12345"), XmlEvent::Error("bad".to_string())];
    assert_eq!(papers_from_events(&cut).len(), 0);
}

#[test]
fn rustsec_from_feed_events() {
    let mut events = vec![start("rss")];
    for k in 0..60 {
        events.push(start("item"));
        events.push(start("title"));
        events.push(text(&format!("Advisory {}", k)));
        events.push(end("title"));
        events.push(end("item"));
    }
    events.push(XmlEvent::Eof);
    let start_ts = Timestamp { secs: 1_700_000_000, nanos: 0 };
    let entries = rustsec_from_events(&events, start_ts);
    assert_eq!(entries.len(), 50);
    assert_eq!(entries[0].title, "Advisory 0");
    assert_eq!(entries[49].title, "Advisory 49");
    assert_eq!(entries[0].link, "");
}

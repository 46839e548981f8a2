use ming_qiao::fleet::colloquium::{
    detect_commitment, extract_tags, extract_tags_from_subject, is_colloquium_subject, provenance_label, should_post,
    voice_perspective, voice_prompt, voice_tags, AstrolabeBriefing, BriefingFact, BriefingNode,
};
use ming_qiao::fleet::cve::{allow_by_policy, matches_stack_keywords, normalize_whitespace, trim_text};
use ming_qiao::fleet::metrics::{
    active_agents, all_agents, extract_tier_from_label, format_duration, status_emoji, TestResult,
};
use ming_qiao::fleet::observer::{
    fleet_roster, graceful_heal_message, looks_busy, observe_unread, stale_alert_content, stale_alert_subject,
    terminal_surface_of, tier_label, wake_message, CooldownTracker, HealPhase, ObserverStep, StaleSessionTracker,
    WakeTier, WorkspaceCache,
};
use ming_qiao::fleet::wake::{is_wakeable, wake_decision, wake_ports, wake_text, ManifestAgent, WakeTracker};

fn strings(v: &[&str]) -> Vec<String> {
    v.iter().map(|s| s.to_string()).collect()
}

#[test]
fn cooldown_doubles_and_caps() {
    let mut t = CooldownTracker::new(60);
    assert_eq!(t.cooldown_for("aleph"), 60);
    t.increase_backoff("aleph");
    assert_eq!(t.cooldown_for("aleph"), 120);
    t.increase_backoff("aleph");
    assert_eq!(t.cooldown_for("aleph"), 240);
    t.increase_backoff("aleph");
    t.increase_backoff("aleph");
    assert_eq!(t.cooldown_for("aleph"), 900);
    for _ in 0..10 {
        t.increase_backoff("aleph");
    }
    assert_eq!(t.cooldown_for("aleph"), 900);
    t.reset_backoff("aleph");
    assert_eq!(t.cooldown_for("aleph"), 60);
    assert_eq!(t.cooldown_for("thales"), 60);
}

#[test]
fn cooling_down_after_wake() {
    let mut t = CooldownTracker::new(60);
    assert!(!t.is_cooling_down_at("aleph", 0));
    t.mark_woken_at("aleph", 1_000_000_000);
    assert!(t.is_cooling_down_at("aleph", 30_000_000_000));
    assert!(!t.is_cooling_down_at("aleph", 62_000_000_000));
    assert!(!t.is_cooling_down_at("thales", 30_000_000_000));
}

#[test]
fn stale_phases_escalate() {
    let mut s = StaleSessionTracker::new();
    for _ in 0..4 {
        assert_eq!(s.record_unread("luban"), HealPhase::Healthy);
    }
    assert_eq!(s.record_unread("luban"), HealPhase::GracefulPending);
    assert_eq!(s.record_unread("luban"), HealPhase::GracefulPending);
    assert_eq!(s.record_unread("luban"), HealPhase::ForceHealed);
    assert_eq!(s.consecutive_count("luban"), 7);
    s.record_clear("luban");
    assert_eq!(s.consecutive_count("luban"), 0);
}

#[test]
fn observer_wakes_then_suppresses() {
    let mut c = CooldownTracker::new(60);
    let mut s = StaleSessionTracker::new();
    for _ in 0..4 {
        assert_eq!(observe_unread(&mut c, &mut s, "ogma", 2, 0), ObserverStep::Wake);
    }
    assert_eq!(observe_unread(&mut c, &mut s, "ogma", 2, 0), ObserverStep::Suppressed { alert: true });
    assert_eq!(observe_unread(&mut c, &mut s, "ogma", 2, 0), ObserverStep::Suppressed { alert: false });
    assert_eq!(observe_unread(&mut c, &mut s, "ogma", 2, 0), ObserverStep::Suppressed { alert: true });
    assert_eq!(s.consecutive_count("ogma"), 0);
    assert_eq!(c.cooldown_for("ogma"), 480);
    assert_eq!(observe_unread(&mut c, &mut s, "ogma", 0, 0), ObserverStep::Cleared);
    assert_eq!(c.cooldown_for("ogma"), 60);
}

#[test]
fn roster_and_labels() {
    let r = fleet_roster();
    assert_eq!(r.len(), 7);
    assert_eq!(r[0], ("aleph", WakeTier::TextInject));
    assert_eq!(r[6].0, "mataya");
    assert_eq!(tier_label(WakeTier::AgentApi), "tier 1 (AgentAPI)");
    assert_eq!(tier_label(WakeTier::BareEnter), "tier 2 (bare enter)");
    assert_eq!(tier_label(WakeTier::TextInject), "tier 3 (text inject)");
    assert_eq!(wake_message(), "You have new messages. Call check_messages to read and respond.");
}

#[test]
fn busy_screens() {
    assert!(looks_busy("working \u{280b} please wait"));
    assert!(looks_busy("Thinking..."));
    assert!(looks_busy("progress \u{25b0}\u{25b0}\u{25b1}"));
    assert!(!looks_busy("> idle prompt"));
    assert!(!looks_busy("\u{25b0} alone"));
}

#[test]
fn heal_and_alert_texts() {
    let m = graceful_heal_message("luban");
    assert!(m.starts_with("OBSERVER AUTO-HEAL: Your MCP session appears broken (luban has had unread"));
    assert!(m.contains("'am-fleet handoff luban'"));
    assert_eq!(stale_alert_subject("luban"), "am.observer.stale-session \u{2014} luban");
    let c = stale_alert_content("luban", 3, 5);
    assert!(c.starts_with("STALE SESSION ALERT: **luban** has had 3 unread message(s) for 5 consecutive poll cycles (~5 minutes)"));
    assert!(c.ends_with("\u{2014} council-observer (automated)"));
}

#[test]
fn workspace_cache_keeps_last_listing() {
    let mut cache = WorkspaceCache::new();
    assert_eq!(cache.get("aleph"), None);
    cache.refresh_from(vec![
        ("aleph".to_string(), "workspace:1".to_string()),
        ("luban".to_string(), "workspace:2".to_string()),
        ("aleph".to_string(), "workspace:3".to_string()),
    ]);
    assert_eq!(cache.get("aleph"), Some("workspace:3".to_string()));
    assert_eq!(cache.get("luban"), Some("workspace:2".to_string()));
    assert_eq!(cache.get("ogma"), None);
    cache.refresh_from(vec![]);
    assert_eq!(cache.get("aleph"), None);
}

#[test]
fn terminal_surface_parsing() {
    let out = "pane:1\n  * surface:7 terminal (selected)\n  surface:8 browser\n";
    assert_eq!(terminal_surface_of(out), Some("surface:7".to_string()));
    assert_eq!(terminal_surface_of("no surfaces here\n"), None);
    assert_eq!(terminal_surface_of(""), None);
}

#[test]
fn wake_intents_and_text() {
    assert!(is_wakeable("Request"));
    assert!(is_wakeable("discuss"));
    assert!(!is_wakeable("Inform"));
    assert!(!is_wakeable("REQUEST"));
    assert_eq!(
        wake_text("aleph", "Deploy plan"),
        "You have a new message from aleph: Deploy plan. Call check_messages to read and respond."
    );
}

#[test]
fn wake_ports_and_decision() {
    let agents = vec![
        ManifestAgent { name: "aleph".to_string(), wake_port: Some(7001), skip_session_launch: None },
        ManifestAgent { name: "luban".to_string(), wake_port: Some(7002), skip_session_launch: Some(true) },
        ManifestAgent { name: "ogma".to_string(), wake_port: None, skip_session_launch: Some(false) },
        ManifestAgent { name: "thales".to_string(), wake_port: Some(7004), skip_session_launch: Some(false) },
    ];
    let ports = wake_ports(&agents);
    assert_eq!(ports.get("aleph"), Some(&7001));
    assert_eq!(ports.get("luban"), None);
    assert_eq!(ports.get("ogma"), None);
    assert_eq!(ports.get("thales"), Some(&7004));

    let mut t = WakeTracker::new();
    assert_eq!(wake_decision(&mut t, &ports, "aleph", "Inform", 0), None);
    assert_eq!(wake_decision(&mut t, &ports, "aleph", "Request", 0), Some(7001));
    assert_eq!(wake_decision(&mut t, &ports, "aleph", "Request", 10_000_000_000), None);
    assert_eq!(wake_decision(&mut t, &ports, "aleph", "Discuss", 31_000_000_000), Some(7001));
    assert_eq!(wake_decision(&mut t, &ports, "luban", "Request", 0), None);
}

#[test]
fn colloquium_subjects() {
    assert!(is_colloquium_subject("The inaugural colloquium on memory"));
    assert!(!is_colloquium_subject("Inaugural Colloquium on memory"));
    assert!(is_colloquium_subject("The colloquium \u{2014} agents"));
    assert!(is_colloquium_subject("colloquium - round two"));
    assert!(!is_colloquium_subject("weekly sync"));
}

#[test]
fn subject_tags() {
    assert_eq!(
        extract_tags_from_subject("Colloquium: Memory (Architecture) for all the agents, now!"),
        strings(&["colloquium", "memory", "architecture", "agents", "now"])
    );
    assert_eq!(extract_tags_from_subject("a b c"), Vec::<String>::new());
}

#[test]
fn text_tags() {
    assert_eq!(
        extract_tags("Should these Agents share agents memory, beyond THERE scope? scope? (scope)"),
        strings(&["should", "these", "agents", "share", "agents", "memory", "beyond", "there"])
    );
    assert_eq!(extract_tags("tiny words only"), strings(&["words"]));
}

#[test]
fn commitments() {
    assert!(detect_commitment("Sure, I will deploy it tomorrow."));
    assert!(detect_commitment("LET ME HANDLE the rollout"));
    assert!(!detect_commitment("We could consider this later."));
}

#[test]
fn briefing_text() {
    let b = AstrolabeBriefing {
        nodes: vec![BriefingNode { name: Some("NATS".to_string()), summary: Some("message bus".to_string()) }],
        facts: vec![
            BriefingFact { fact: Some("uses jetstream".to_string()), is_invalid: None },
            BriefingFact { fact: Some("old fact".to_string()), is_invalid: Some(true) },
        ],
        raw_query: String::new(),
        available: true,
        error: String::new(),
    };
    assert_eq!(
        b.to_text(1000),
        "### Relevant Entities\n- **NATS**: message bus\n### Relevant Facts\n- uses jetstream\n- old fact [SUPERSEDED]"
    );
    assert_eq!(b.to_text(24), "### Relevant Entities...");
    let off = AstrolabeBriefing { nodes: vec![], facts: vec![], raw_query: String::new(), available: false, error: String::new() };
    assert_eq!(off.to_text(100), "");
}

#[test]
fn voices() {
    assert!(voice_perspective("ogma").starts_with("Security architect"));
    let p = voice_prompt("", "Adopt NATS", &vec![], "Be brief");
    assert!(p.starts_with("## Proposal\n\nAdopt NATS"));
    assert_eq!(voice_tags(&strings(&["x"]), Some("Adopt streaming")), strings(&["x"]));
    assert_eq!(voice_tags(&vec![], Some("Adopt streaming")), strings(&["adopt", "streaming"]));
    assert!(voice_tags(&vec![], None).is_empty());
    assert!(should_post(true, true, false));
    assert!(!should_post(true, true, true));
    assert!(!should_post(true, false, false));
    assert_eq!(provenance_label(true), "autonomous");
    assert_eq!(provenance_label(false), "authored");
}

#[test]
fn cve_text_rules() {
    assert_eq!(normalize_whitespace("  a \n\t b   c "), "a b c");
    assert_eq!(trim_text("  abc   def  ", 100), "abc def");
    assert_eq!(trim_text("abcdefghij", 6), "abc...");
    assert_eq!(
        matches_stack_keywords("A flaw in Docker and the Rust NATS client; see Model Context Protocol"),
        strings(&["rust", "nats", "docker", "mcp"])
    );
    assert_eq!(matches_stack_keywords("trusted rusty spirex"), Vec::<String>::new());
}

#[test]
fn cve_policy() {
    let none: Vec<String> = vec![];
    assert!(allow_by_policy("CRITICAL", &none, &none, ""));
    assert!(allow_by_policy("HIGH", &none, &none, ""));
    assert!(!allow_by_policy("MEDIUM", &none, &none, ""));
    assert!(allow_by_policy("MEDIUM", &strings(&["rust"]), &none, ""));
    assert!(allow_by_policy("LOW", &none, &strings(&["nats-server"]), "Bug in NATS-Server 2.10"));
    assert!(!allow_by_policy("LOW", &none, &strings(&[""]), "anything"));
    assert!(!allow_by_policy("UNKNOWN", &strings(&["rust"]), &none, ""));
}

#[test]
fn metrics_rules() {
    assert_eq!(extract_tier_from_label("woke luban via tier 2 (bare enter)"), Some(2));
    assert_eq!(extract_tier_from_label("tier 1 and tier 3"), Some(1));
    assert_eq!(extract_tier_from_label("no tier"), None);
    assert_eq!(format_duration(59), "0m");
    assert_eq!(format_duration(3_700), "1h 1m");
    assert_eq!(format_duration(86_400), "24h 0m");
    assert_eq!(format_duration(90_000), "1d 1h");
    assert_eq!(status_emoji(true, 0), "\u{2705}");
    assert_eq!(status_emoji(false, 3), "\u{26a0}\u{fe0f}");
    assert_eq!(status_emoji(false, 0), "\u{1f534}");
    let roster = active_agents();
    let all = all_agents(&roster);
    assert_eq!(all.len(), 8);
    assert_eq!(all[7], "hypatia-adjutant");
    let p = TestResult::pass("health", 12, "ok");
    assert!(p.passed);
    let f = TestResult::fail("auth", 3, "denied");
    assert!(!f.passed);
    assert_eq!(f.message, "denied");
}

#[test]
fn detect_commitment_word_boundaries_are_unicode() {
    assert!(!detect_commitment("caf\u{e9}I will deploy it"));
    assert!(detect_commitment("caf\u{e9} I will deploy it"));
}

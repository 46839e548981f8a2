use ming_qiao::fleet::cve_sources::RustsecEntry;
use ming_qiao::fleet::sweep::{FindingRow, FindingTable};
use ming_qiao::fleet::sweep_report::{
    critical_alert, provider_alert, report_lines, summary_message, AdvisoryNotice, HnMentionLine, ProviderAdvisory,
    ProviderStatus,
};
use ming_qiao::fleet::voice::{is_voice_commitment, voice_reply, voice_should_answer};

fn row<'a>(rows: &'a [FindingRow], id: &str) -> &'a FindingRow {
    rows.iter().find(|r| r.id == id).unwrap()
}

#[test]
fn nvd_merge_keeps_first_values_and_adds_keywords() {
    let mut t = FindingTable::new();
    t.merge_nvd("CVE-1", "A rust bug", Some("2024-01-01".to_string()), None, Some(98), "", "rust");
    t.merge_nvd("CVE-1", "Other text about docker", Some("2024-02-02".to_string()), Some("2024-03-03".to_string()), Some(50), "MEDIUM", "docker");
    let rows = t.rows();
    assert_eq!(rows.len(), 1);
    let r = &rows[0];
    assert_eq!(r.description, "A rust bug");
    assert_eq!(r.published.as_deref(), Some("2024-01-01"));
    assert_eq!(r.last_modified.as_deref(), Some("2024-03-03"));
    assert_eq!(r.score, Some(98));
    assert_eq!(r.severity, "CRITICAL");
    assert_eq!(r.keywords, vec!["docker".to_string(), "rust".to_string()]);
    assert_eq!(r.sources, vec!["NVD".to_string()]);
}

#[test]
fn nvd_severity_named_by_record_wins() {
    let mut t = FindingTable::new();
    t.merge_nvd("CVE-2", "", None, None, Some(75), "MEDIUM", "nats");
    assert_eq!(t.rows()[0].severity, "MEDIUM");
}

#[test]
fn enrichment_targets_take_empty_descriptions_in_order() {
    let mut t = FindingTable::new();
    t.merge_nvd("CVE-A", "", None, None, None, "", "rust");
    t.merge_nvd("CVE-B", "has text", None, None, None, "", "rust");
    t.merge_nvd("CVE-C", "", None, None, None, "", "rust");
    t.merge_nvd("CVE-D", "", None, None, None, "", "rust");
    assert_eq!(t.enrichment_targets(2), vec!["CVE-A".to_string(), "CVE-C".to_string()]);
    assert_eq!(t.enrichment_targets(10), vec!["CVE-A".to_string(), "CVE-C".to_string(), "CVE-D".to_string()]);
    t.merge_mitre("CVE-A", "Found at MITRE");
    t.merge_mitre("CVE-C", "");
    t.merge_mitre("CVE-Z", "Unknown id");
    let rows = t.rows();
    assert_eq!(rows.len(), 4);
    assert_eq!(row(rows, "CVE-A").description, "Found at MITRE");
    assert_eq!(row(rows, "CVE-A").sources, vec!["MITRE".to_string(), "NVD".to_string()]);
    assert_eq!(row(rows, "CVE-C").description, "");
}

#[test]
fn kev_ghsa_osv_and_settle() {
    let mut t = FindingTable::new();
    t.merge_nvd("CVE-1", "x", None, None, None, "", "rust");
    t.mark_kev("CVE-1", "2024-05-01");
    t.mark_kev("CVE-9", "2024-05-01");
    t.merge_ghsa("CVE-2", "GHSA summary", Some(72), "mentions nats here");
    t.merge_osv("CVE-3", "a docker issue");
    t.settle();
    let rows = t.rows();
    assert_eq!(rows.len(), 3);
    let r1 = row(rows, "CVE-1");
    assert!(r1.kev);
    assert_eq!(r1.kev_due_date, "2024-05-01");
    assert_eq!(r1.sources, vec!["CISA-KEV".to_string(), "NVD".to_string()]);
    assert_eq!(r1.severity, "UNKNOWN");
    let r2 = row(rows, "CVE-2");
    assert_eq!(r2.severity, "HIGH");
    assert_eq!(r2.keywords, vec!["nats".to_string()]);
    let r3 = row(rows, "CVE-3");
    assert_eq!(r3.description, "a docker issue");
    assert_eq!(r3.keywords, vec!["docker".to_string()]);
    assert_eq!(r3.sources, vec!["OSV".to_string()]);
}

#[test]
fn report_filters_and_orders() {
    let mut t = FindingTable::new();
    t.merge_nvd("CVE-L", "low thing", None, None, Some(20), "", "nats");
    t.merge_nvd("CVE-H2", "high b", None, None, Some(75), "", "nats");
    t.merge_nvd("CVE-C", "critical", None, None, Some(95), "", "nats");
    t.merge_nvd("CVE-H1", "high a", None, None, Some(80), "", "nats");
    t.merge_nvd("CVE-H0", "high c", None, None, Some(80), "", "nats");
    t.settle();
    let report = t.into_report(&vec![]);
    let ids: Vec<&str> = report.iter().map(|r| r.id.as_str()).collect();
    assert_eq!(ids, vec!["CVE-C", "CVE-H0", "CVE-H1", "CVE-H2"]);
}

fn finding(id: &str, sev: &str, score: Option<u64>, kev: bool, desc: &str) -> FindingRow {
    FindingRow {
        id: id.to_string(),
        description: desc.to_string(),
        published: None,
        last_modified: None,
        score,
        severity: sev.to_string(),
        keywords: vec!["rust".to_string()],
        sources: vec!["NVD".to_string()],
        kev,
        kev_due_date: String::new(),
    }
}

#[test]
fn report_lines_and_messages() {
    let findings = vec![
        finding("CVE-1", "CRITICAL", Some(98), true, "Bad   bug"),
        finding("CVE-2", "MEDIUM", None, false, "meh"),
    ];
    let rustsec = vec![RustsecEntry {
        title: "RUSTSEC-1".to_string(),
        link: "https://r".to_string(),
        published: "today".to_string(),
        summary: String::new(),
    }];
    let notices = vec![AdvisoryNotice { id: "GHSA-1".to_string(), summary: "nats".to_string(), url: String::new() }];
    let providers = vec![ProviderStatus {
        name: "Vast.ai".to_string(),
        slug: "vastai".to_string(),
        active: true,
        status: "degraded".to_string(),
        alert_level: "alert".to_string(),
        hn_mentions: vec![HnMentionLine {
            title: "Breach".to_string(),
            url: "https://hn".to_string(),
            created_at: "2024-01-01T00:00".to_string(),
            matched_term: "breach".to_string(),
        }],
        advisories: vec![ProviderAdvisory {
            id: "GHSA-9".to_string(),
            summary: "sdk".to_string(),
            url: "https://g".to_string(),
            severity: "high".to_string(),
        }],
    }];
    let lines = report_lines(
        "2024-01-02",
        "gen",
        "s",
        "e",
        &vec!["rust".to_string(), "nats".to_string()],
        "v1",
        "d1",
        &findings,
        &rustsec,
        &notices,
        &providers,
    );
    let expected: Vec<&str> = vec![
        "# Daily Security Intel - 2024-01-02",
        "",
        "- Generated: gen",
        "- Window: s to e",
        "- NVD keywords: rust, nats",
        "- KEV catalog: v1 (d1)",
        "- Findings after policy filter: 2",
        "- Critical: 1 | High: 0 | Medium: 1",
        "",
        "## Critical Findings",
        "",
        "| ID | Severity | CVSS | KEV | Keywords | Summary |",
        "|---|---|---:|---|---|---|",
        "| CVE-1 | CRITICAL | 9.8 | yes | rust | Bad bug |",
        "",
        "## Medium Findings (Stack-Matched)",
        "",
        "| ID | Severity | CVSS | KEV | Keywords | Summary |",
        "|---|---|---:|---|---|---|",
        "| CVE-2 | MEDIUM | - | no | rust | meh |",
        "",
        "## RustSec (Last 24h)",
        "",
        "- RUSTSEC-1 (today)",
        "  Link: https://r",
        "",
        "## NATS Advisory Channel",
        "",
        "- GHSA-1: nats",
        "",
        "## Neocloud Provider Status",
        "",
        "- **Vast.ai** **[ACTIVE]**: degraded *** ALERT ***",
        "  - HN: [Breach](https://hn) (breach, 2024-01-01T00:00)",
        "  - GHSA: GHSA-9 (high): sdk",
        "    Link: https://g",
        "",
    ];
    assert_eq!(lines, expected);
    let (subject, body) = summary_message("2024-01-02", &findings, "/r.md");
    assert_eq!(subject, "Daily Security Intel - 2024-01-02");
    assert_eq!(
        body,
        "Daily sweep complete (2024-01-02).\nWindow: last 24h.\nFindings: total=2, critical=1, high=0, medium=1.\nTop items:\n- CVE-1 (CRITICAL, cvss=9.8)\n- CVE-2 (MEDIUM, cvss=-)\nReport: /r.md"
    );
    let (s2, b2) = critical_alert("2024-01-02", &findings, "/r.md").unwrap();
    assert_eq!(s2, "CRITICAL Security Intel Alert - 2024-01-02");
    assert_eq!(b2, "Critical vulnerabilities detected in daily security intel sweep.\n- CVE-1 (cvss=9.8, kev=yes)\nReport: /r.md");
    let medium_only = vec![finding("CVE-2", "MEDIUM", None, false, "meh")];
    assert!(critical_alert("d", &medium_only, "p").is_none());
    let (s3, b3) = provider_alert("2024-01-02", &providers, "/r.md").unwrap();
    assert_eq!(s3, "ALERT: Vast.ai incident signal - 2024-01-02");
    assert_eq!(
        b3,
        "Vast.ai breach/incident signal detected in daily sweep (2024-01-02).\nStatus page: degraded\n- HN: Breach (breach)\n- GHSA: GHSA-9: sdk\nReport: /r.md"
    );
}

#[test]
fn voice_answers_colloquium_threads_only() {
    assert!(voice_should_answer("ogma", "luban", "t-1", "Re: COLLOQUIUM on tools"));
    assert!(!voice_should_answer("ogma", "ogma", "t-1", "colloquium"));
    assert!(!voice_should_answer("ogma", "luban", "", "colloquium"));
    assert!(!voice_should_answer("ogma", "luban", "t-1", "standup"));
}

#[test]
fn voice_holds_commitments() {
    assert!(is_voice_commitment("Fine. I will deploy it."));
    assert!(is_voice_commitment("I'll   do it tonight"));
    assert!(!is_voice_commitment("I'll note that for later."));
    assert!(!is_voice_commitment("I'll  check the logs"));
    assert!(is_voice_commitment("I'll check. Then I'll build it."));
    assert!(is_voice_commitment("let me FIX it"));
    assert!(!is_voice_commitment("I willingly agree"));
    assert_eq!(voice_reply("ogma", "qwen3:8b", ""), None);
    assert_eq!(voice_reply("ogma", "qwen3:8b", "[PASS]"), None);
    assert_eq!(voice_reply("ogma", "qwen3:8b", "I commit to it"), None);
    assert_eq!(
        voice_reply("ogma", "qwen3:8b", "An observation."),
        Some("An observation.\n\n--- *ogma [autonomous voice | qwen3:8b]* ---".to_string())
    );
}

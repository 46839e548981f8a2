//! The daily security intel report of the CVE sweep and the messages it
//! sends: the markdown lines and the bodies of the summary and alerts.

use vstd::prelude::*;
use crate::fleet::cve::{normalized, trim_text};
use crate::fleet::cve_sources::RustsecEntry;
use crate::fleet::sweep::FindingRow;
use crate::text::{decimal_spec, decimal_u64, join, join_spec, str_eq, truncatable, truncated};

verus! {

/// A GHSA advisory listed in an advisory channel of the report.
pub struct AdvisoryNotice {
    pub id: String,
    pub summary: String,
    pub url: String,
}

/// A Hacker News story that mentions a provider.
pub struct HnMentionLine {
    pub title: String,
    pub url: String,
    pub created_at: String,
    pub matched_term: String,
}

/// A GHSA advisory about a provider's packages.
pub struct ProviderAdvisory {
    pub id: String,
    pub summary: String,
    pub url: String,
    pub severity: String,
}

/// What the sweep found about a GPU cloud provider.
pub struct ProviderStatus {
    pub name: String,
    pub slug: String,
    pub active: bool,
    pub status: String,
    pub alert_level: String,
    pub hn_mentions: Vec<HnMentionLine>,
    pub advisories: Vec<ProviderAdvisory>,
}

/// The lines of `parts`, one part after the other.
pub open spec fn concat_lines(parts: Seq<Seq<Seq<char>>>) -> Seq<Seq<char>>
    decreases parts.len(),
{
    if parts.len() == 0 {
        Seq::empty()
    } else {
        concat_lines(parts.drop_last()) + parts.last()
    }
}

/// A score in tenths as the report writes it: `-` without one, else with
/// one decimal.
pub open spec fn score_text(s: Option<u64>) -> Seq<char> {
    match s {
        None => "-"@,
        Some(t) => decimal_spec((t / 10) as nat) + "."@ + decimal_spec((t % 10) as nat),
    }
}

/// A score in tenths as the report writes it (`score_text`).
pub fn score_string(s: Option<u64>) -> (r: String)
    ensures
        r@ == score_text(s),
{
    match s {
        None => String::from_str("-"),
        Some(t) => {
            let mut r = decimal_u64(t / 10);
            r.append(".");
            let f = decimal_u64(t % 10);
            r.append(f.as_str());
            r
        },
    }
}

/// `yes` or `no`.
pub open spec fn yes_no(b: bool) -> Seq<char> {
    if b { "yes"@ } else { "no"@ }
}

/// The keywords column: `-` when there are none.
pub open spec fn keywords_text(k: Seq<Seq<char>>) -> Seq<char> {
    if k.len() == 0 { "-"@ } else { join_spec(k, ", "@) }
}

/// The table line of a finding; the summary is the description with its
/// white space normalized, cut to 180 bytes.
pub open spec fn finding_line(r: FindingRow) -> Seq<char> {
    "| "@ + r.id@ + " | "@ + r.severity@ + " | "@ + score_text(r.score) + " | "@ + yes_no(r.kev) + " | "@
        + keywords_text(r.keywords.deep_view()) + " | "@ + truncated(normalized(r.description@), 180) + " |"@
}

/// The first `limit` of `rows` (all when fewer).
pub open spec fn first_n<A>(rows: Seq<A>, limit: int) -> Seq<A> {
    if rows.len() > limit { rows.take(limit) } else { rows }
}

/// The findings of `f` with severity `sev`, in order.
pub open spec fn of_severity(f: Seq<FindingRow>, sev: Seq<char>) -> Seq<FindingRow> {
    f.filter(|r: FindingRow| r.severity@ == sev)
}

/// A table section: none without rows; else its title, the column heads,
/// a line per row for the first `limit` rows, and a blank line.
pub open spec fn table_lines(title: Seq<char>, rows: Seq<FindingRow>, limit: int) -> Seq<Seq<char>> {
    if rows.len() == 0 {
        Seq::empty()
    } else {
        seq!["## "@ + title, ""@, "| ID | Severity | CVSS | KEV | Keywords | Summary |"@, "|---|---|---:|---|---|---|"@]
            + first_n(rows, limit).map_values(|r: FindingRow| finding_line(r)) + seq![""@]
    }
}

/// Every row of a table section can have its summary cut to 180 bytes.
pub open spec fn cuttable(rows: Seq<FindingRow>, limit: int) -> bool {
    forall|j: int| 0 <= j < rows.len() && j < limit ==> truncatable(normalized(#[trigger] rows[j].description@), 180)
}

fn push_line(lines: &mut Vec<String>, s: String)
    ensures
        final(lines).deep_view() == old(lines).deep_view().push(s@),
{
    lines.push(s);
    assert(lines.deep_view() =~= old(lines).deep_view().push(s@));
}

fn push_str(lines: &mut Vec<String>, s: &str)
    ensures
        final(lines).deep_view() == old(lines).deep_view().push(s@),
{
    push_line(lines, String::from_str(s));
}

/// The table line of a finding (`finding_line`).
fn finding_line_exec(r: &FindingRow) -> (s: String)
    requires
        truncatable(normalized(r.description@), 180),
    ensures
        s@ == finding_line(*r),
{
    let mut s = String::from_str("| ");
    s.append(r.id.as_str());
    s.append(" | ");
    s.append(r.severity.as_str());
    s.append(" | ");
    let sc = score_string(r.score);
    s.append(sc.as_str());
    s.append(" | ");
    s.append(if r.kev { "yes" } else { "no" });
    s.append(" | ");
    if r.keywords.len() == 0 {
        s.append("-");
    } else {
        let k = join(&r.keywords, ", ");
        s.append(k.as_str());
    }
    s.append(" | ");
    let t = trim_text(r.description.as_str(), 180);
    s.append(t.as_str());
    s.append(" |");
    proof {
        reveal_strlit("yes");
        reveal_strlit("no");
        reveal_strlit("-");
    }
    s
}

/// Appends the table section of the findings of `findings` with severity
/// `sev` (`table_lines`).
fn append_table(lines: &mut Vec<String>, title: &str, findings: &Vec<FindingRow>, sev: &str, limit: usize)
    requires
        cuttable(of_severity(findings@, sev@), limit as int),
    ensures
        final(lines).deep_view() == old(lines).deep_view() + table_lines(title@, of_severity(findings@, sev@), limit as int),
{
    let ghost p = |r: FindingRow| r.severity@ == sev@;
    let ghost all = of_severity(findings@, sev@);
    let ghost start = lines.deep_view();
    let mut rows: Vec<String> = Vec::new();
    let mut count: usize = 0;
    let mut i: usize = 0;
    while i < findings.len()
        invariant
            p == (|r: FindingRow| r.severity@ == sev@),
            all == findings@.filter(p),
            cuttable(all, limit as int),
            i <= findings@.len(),
            count == findings@.take(i as int).filter(p).len(),
            rows.deep_view() == first_n(findings@.take(i as int).filter(p), limit as int).map_values(
                |r: FindingRow| finding_line(r),
            ),
        decreases findings@.len() - i,
    {
        let ghost fi = findings@.take(i as int).filter(p);
        proof {
            reveal(Seq::filter);
            assert(findings@.take(i + 1).drop_last() =~= findings@.take(i as int));
            assert(findings@.take(i + 1).last() == findings@[i as int]);
            lemma_filter_prefix_rows(findings@, p, i as int);
        }
        if str_eq(findings[i].severity.as_str(), sev) {
            assert(findings@.take(i + 1).filter(p) == fi.push(findings@[i as int]));
            if count < limit {
                proof {
                    lemma_filter_prefix_rows(findings@, p, i + 1);
                    assert(findings@.take(i + 1).filter(p)[count as int] == findings@[i as int]);
                }
                assert(all[count as int] == findings@[i as int]);
                let line = finding_line_exec(&findings[i]);
                push_line(&mut rows, line);
                assert(first_n(fi.push(findings@[i as int]), limit as int) =~= first_n(fi, limit as int).push(
                    findings@[i as int],
                ));
            } else {
                assert(first_n(fi.push(findings@[i as int]), limit as int) =~= first_n(fi, limit as int));
            }
            count = count + 1;
        } else {
            assert(findings@.take(i + 1).filter(p) == fi);
        }
        assert(rows.deep_view() =~= first_n(findings@.take(i + 1).filter(p), limit as int).map_values(
            |r: FindingRow| finding_line(r),
        ));
        i = i + 1;
    }
    assert(findings@.take(i as int) =~= findings@);
    if count > 0 {
        let mut head = String::from_str("## ");
        head.append(title);
        push_line(lines, head);
        push_str(lines, "");
        push_str(lines, "| ID | Severity | CVSS | KEV | Keywords | Summary |");
        push_str(lines, "|---|---|---:|---|---|---|");
        let ghost mid = lines.deep_view();
        let mut k: usize = 0;
        while k < rows.len()
            invariant
                k <= rows@.len(),
                lines.deep_view() == mid + rows.deep_view().take(k as int),
            decreases rows@.len() - k,
        {
            push_line(lines, rows[k].clone());
            assert(lines.deep_view() =~= mid + rows.deep_view().take(k + 1));
            k = k + 1;
        }
        push_str(lines, "");
        assert(rows.deep_view().take(k as int) =~= rows.deep_view());
        assert(lines.deep_view() =~= start + table_lines(title@, all, limit as int));
    } else {
        assert(lines.deep_view() =~= start + table_lines(title@, all, limit as int));
    }
}

/// How many findings of `findings` have severity `sev`.
pub fn count_severity(findings: &Vec<FindingRow>, sev: &str) -> (n: usize)
    ensures
        n == of_severity(findings@, sev@).len(),
{
    let ghost p = |r: FindingRow| r.severity@ == sev@;
    let mut n: usize = 0;
    let mut i: usize = 0;
    while i < findings.len()
        invariant
            p == (|r: FindingRow| r.severity@ == sev@),
            i <= findings@.len(),
            n == findings@.take(i as int).filter(p).len(),
            n <= i,
        decreases findings@.len() - i,
    {
        proof {
            reveal(Seq::filter);
            assert(findings@.take(i + 1).drop_last() =~= findings@.take(i as int));
            assert(findings@.take(i + 1).last() == findings@[i as int]);
        }
        if str_eq(findings[i].severity.as_str(), sev) {
            n = n + 1;
        }
        i = i + 1;
    }
    assert(findings@.take(i as int) =~= findings@);
    n
}

/// The head of the report: the day, when it was made, the window, the
/// keywords searched, the KEV catalog, and the counts of findings.
pub open spec fn header_lines(
    day: Seq<char>,
    generated: Seq<char>,
    window_start: Seq<char>,
    window_end: Seq<char>,
    keywords: Seq<Seq<char>>,
    kev_version: Seq<char>,
    kev_date: Seq<char>,
    f: Seq<FindingRow>,
) -> Seq<Seq<char>> {
    seq![
        "# Daily Security Intel - "@ + day,
        ""@,
        "- Generated: "@ + generated,
        "- Window: "@ + window_start + " to "@ + window_end,
        "- NVD keywords: "@ + join_spec(keywords, ", "@),
        "- KEV catalog: "@ + kev_version + " ("@ + kev_date + ")"@,
        "- Findings after policy filter: "@ + decimal_spec(f.len()),
        "- Critical: "@ + decimal_spec(of_severity(f, "CRITICAL"@).len()) + " | High: "@ + decimal_spec(
            of_severity(f, "HIGH"@).len(),
        ) + " | Medium: "@ + decimal_spec(of_severity(f, "MEDIUM"@).len()),
        ""@,
    ]
}

/// The lines of a RustSec advisory: title and date, and its link when it has one.
pub open spec fn rustsec_item_lines(e: RustsecEntry) -> Seq<Seq<char>> {
    seq!["- "@ + e.title@ + " ("@ + e.published@ + ")"@] + if e.link@.len() > 0 {
        seq!["  Link: "@ + e.link@]
    } else {
        Seq::empty()
    }
}

/// The RustSec section: none without advisories; else the first 20.
pub open spec fn rustsec_lines(items: Seq<RustsecEntry>) -> Seq<Seq<char>> {
    if items.len() == 0 {
        Seq::empty()
    } else {
        seq!["## RustSec (Last 24h)"@, ""@] + concat_lines(first_n(items, 20).map_values(|e: RustsecEntry| rustsec_item_lines(e)))
            + seq![""@]
    }
}

/// The lines of a notice: id and summary, and its link when it has one.
pub open spec fn notice_item_lines(n: AdvisoryNotice) -> Seq<Seq<char>> {
    seq!["- "@ + n.id@ + ": "@ + n.summary@] + if n.url@.len() > 0 {
        seq!["  Link: "@ + n.url@]
    } else {
        Seq::empty()
    }
}

/// The NATS advisory channel: none without notices; else the first 15.
pub open spec fn notice_lines(items: Seq<AdvisoryNotice>) -> Seq<Seq<char>> {
    if items.len() == 0 {
        Seq::empty()
    } else {
        seq!["## NATS Advisory Channel"@, ""@] + concat_lines(first_n(items, 15).map_values(|n: AdvisoryNotice| notice_item_lines(n)))
            + seq![""@]
    }
}

/// How an alert level is flagged.
pub open spec fn alert_flag(level: Seq<char>) -> Seq<char> {
    if level == "alert"@ {
        " *** ALERT ***"@
    } else if level == "warning"@ {
        " * WARNING *"@
    } else {
        ""@
    }
}

/// The line of a story that mentions a provider.
pub open spec fn hn_line(h: HnMentionLine) -> Seq<char> {
    "  - HN: ["@ + h.title@ + "]("@ + h.url@ + ") ("@ + h.matched_term@ + ", "@ + h.created_at@ + ")"@
}

/// The lines of an advisory about a provider: id, severity and summary,
/// and its link when it has one.
pub open spec fn provider_advisory_lines(a: ProviderAdvisory) -> Seq<Seq<char>> {
    seq!["  - GHSA: "@ + a.id@ + " ("@ + a.severity@ + "): "@ + a.summary@] + if a.url@.len() > 0 {
        seq!["    Link: "@ + a.url@]
    } else {
        Seq::empty()
    }
}

/// The lines of a provider: name, whether it is in use, status and alert
/// flag; then its stories and its advisories.
pub open spec fn provider_lines(p: ProviderStatus) -> Seq<Seq<char>> {
    seq!["- **"@ + p.name@ + "**"@ + (if p.active { " **[ACTIVE]**"@ } else { ""@ }) + ": "@ + p.status@ + alert_flag(
        p.alert_level@,
    )] + p.hn_mentions@.map_values(|h: HnMentionLine| hn_line(h)) + concat_lines(
        p.advisories@.map_values(|a: ProviderAdvisory| provider_advisory_lines(a)),
    )
}

/// The provider section: its title and every provider's lines.
pub open spec fn provider_section(ps: Seq<ProviderStatus>) -> Seq<Seq<char>> {
    seq!["## Neocloud Provider Status"@, ""@] + concat_lines(ps.map_values(|p: ProviderStatus| provider_lines(p))) + seq![
        ""@,
    ]
}

/// The report: head, the critical (first 50), high (first 70) and medium
/// (first 80) tables, the RustSec, NATS and provider sections.
pub open spec fn report_spec(
    day: Seq<char>,
    generated: Seq<char>,
    window_start: Seq<char>,
    window_end: Seq<char>,
    keywords: Seq<Seq<char>>,
    kev_version: Seq<char>,
    kev_date: Seq<char>,
    f: Seq<FindingRow>,
    rustsec: Seq<RustsecEntry>,
    notices: Seq<AdvisoryNotice>,
    providers: Seq<ProviderStatus>,
) -> Seq<Seq<char>> {
    header_lines(day, generated, window_start, window_end, keywords, kev_version, kev_date, f) + table_lines(
        "Critical Findings"@,
        of_severity(f, "CRITICAL"@),
        50,
    ) + table_lines("High Findings"@, of_severity(f, "HIGH"@), 70) + table_lines(
        "Medium Findings (Stack-Matched)"@,
        of_severity(f, "MEDIUM"@),
        80,
    ) + rustsec_lines(rustsec) + notice_lines(notices) + provider_section(providers)
}

/// The summaries of the findings in the tables can be cut to 180 bytes.
pub open spec fn report_cuttable(f: Seq<FindingRow>) -> bool {
    &&& cuttable(of_severity(f, "CRITICAL"@), 50)
    &&& cuttable(of_severity(f, "HIGH"@), 70)
    &&& cuttable(of_severity(f, "MEDIUM"@), 80)
}

fn append_lines(lines: &mut Vec<String>, more: Vec<String>)
    ensures
        final(lines).deep_view() == old(lines).deep_view() + more.deep_view(),
{
    let ghost start = lines.deep_view();
    let mut k: usize = 0;
    while k < more.len()
        invariant
            k <= more@.len(),
            lines.deep_view() == start + more.deep_view().take(k as int),
        decreases more@.len() - k,
    {
        push_line(lines, more[k].clone());
        assert(lines.deep_view() =~= start + more.deep_view().take(k + 1));
        k = k + 1;
    }
    assert(more.deep_view().take(k as int) =~= more.deep_view());
}

fn rustsec_item_exec(e: &RustsecEntry) -> (r: Vec<String>)
    ensures
        r.deep_view() == rustsec_item_lines(*e),
{
    let mut r: Vec<String> = Vec::new();
    let mut a = String::from_str("- ");
    a.append(e.title.as_str());
    a.append(" (");
    a.append(e.published.as_str());
    a.append(")");
    push_line(&mut r, a);
    if !e.link.as_str().is_empty() {
        let mut b = String::from_str("  Link: ");
        b.append(e.link.as_str());
        push_line(&mut r, b);
    }
    assert(r.deep_view() =~= rustsec_item_lines(*e));
    r
}

fn notice_item_exec(n: &AdvisoryNotice) -> (r: Vec<String>)
    ensures
        r.deep_view() == notice_item_lines(*n),
{
    let mut r: Vec<String> = Vec::new();
    let mut a = String::from_str("- ");
    a.append(n.id.as_str());
    a.append(": ");
    a.append(n.summary.as_str());
    push_line(&mut r, a);
    if !n.url.as_str().is_empty() {
        let mut b = String::from_str("  Link: ");
        b.append(n.url.as_str());
        push_line(&mut r, b);
    }
    assert(r.deep_view() =~= notice_item_lines(*n));
    r
}

fn provider_advisory_exec(a: &ProviderAdvisory) -> (r: Vec<String>)
    ensures
        r.deep_view() == provider_advisory_lines(*a),
{
    let mut r: Vec<String> = Vec::new();
    let mut l = String::from_str("  - GHSA: ");
    l.append(a.id.as_str());
    l.append(" (");
    l.append(a.severity.as_str());
    l.append("): ");
    l.append(a.summary.as_str());
    push_line(&mut r, l);
    if !a.url.as_str().is_empty() {
        let mut b = String::from_str("    Link: ");
        b.append(a.url.as_str());
        push_line(&mut r, b);
    }
    assert(r.deep_view() =~= provider_advisory_lines(*a));
    r
}

fn provider_exec(p: &ProviderStatus) -> (r: Vec<String>)
    ensures
        r.deep_view() == provider_lines(*p),
{
    let mut r: Vec<String> = Vec::new();
    let mut l = String::from_str("- **");
    l.append(p.name.as_str());
    l.append("**");
    if p.active {
        l.append(" **[ACTIVE]**");
    }
    l.append(": ");
    l.append(p.status.as_str());
    let flag = if str_eq(p.alert_level.as_str(), "alert") {
        " *** ALERT ***"
    } else if str_eq(p.alert_level.as_str(), "warning") {
        " * WARNING *"
    } else {
        ""
    };
    l.append(flag);
    proof {
        reveal_strlit("");
    }
    assert(l@ =~= "- **"@ + p.name@ + "**"@ + (if p.active { " **[ACTIVE]**"@ } else { ""@ }) + ": "@ + p.status@
        + alert_flag(p.alert_level@));
    push_line(&mut r, l);
    let ghost head = r.deep_view();
    let mut i: usize = 0;
    while i < p.hn_mentions.len()
        invariant
            i <= p.hn_mentions@.len(),
            r.deep_view() == head + p.hn_mentions@.take(i as int).map_values(|h: HnMentionLine| hn_line(h)),
        decreases p.hn_mentions@.len() - i,
    {
        let h = &p.hn_mentions[i];
        let mut t = String::from_str("  - HN: [");
        t.append(h.title.as_str());
        t.append("](");
        t.append(h.url.as_str());
        t.append(") (");
        t.append(h.matched_term.as_str());
        t.append(", ");
        t.append(h.created_at.as_str());
        t.append(")");
        push_line(&mut r, t);
        assert(p.hn_mentions@.take(i + 1).map_values(|h: HnMentionLine| hn_line(h)) =~= p.hn_mentions@.take(
            i as int,
        ).map_values(|h: HnMentionLine| hn_line(h)).push(hn_line(p.hn_mentions@[i as int])));
        assert(r.deep_view() =~= head + p.hn_mentions@.take(i + 1).map_values(|h: HnMentionLine| hn_line(h)));
        i = i + 1;
    }
    assert(p.hn_mentions@.take(i as int) =~= p.hn_mentions@);
    let ghost mid = r.deep_view();
    let mut j: usize = 0;
    while j < p.advisories.len()
        invariant
            j <= p.advisories@.len(),
            r.deep_view() == mid + concat_lines(
                p.advisories@.take(j as int).map_values(|a: ProviderAdvisory| provider_advisory_lines(a)),
            ),
        decreases p.advisories@.len() - j,
    {
        let more = provider_advisory_exec(&p.advisories[j]);
        append_lines(&mut r, more);
        assert(p.advisories@.take(j + 1).map_values(|a: ProviderAdvisory| provider_advisory_lines(a)).drop_last()
            =~= p.advisories@.take(j as int).map_values(|a: ProviderAdvisory| provider_advisory_lines(a)));
        assert(r.deep_view() =~= mid + concat_lines(
            p.advisories@.take(j + 1).map_values(|a: ProviderAdvisory| provider_advisory_lines(a)),
        ));
        j = j + 1;
    }
    assert(p.advisories@.take(j as int) =~= p.advisories@);
    assert(r.deep_view() =~= provider_lines(*p));
    r
}

fn header_exec(
    day: &str,
    generated: &str,
    window_start: &str,
    window_end: &str,
    keywords: &Vec<String>,
    kev_version: &str,
    kev_date: &str,
    findings: &Vec<FindingRow>,
) -> (lines: Vec<String>)
    ensures
        lines.deep_view() == header_lines(day@, generated@, window_start@, window_end@, keywords.deep_view(), kev_version@, kev_date@, findings@),
{
    let mut lines: Vec<String> = Vec::new();
    let mut a = String::from_str("# Daily Security Intel - ");
    a.append(day);
    push_line(&mut lines, a);
    push_str(&mut lines, "");
    let mut b = String::from_str("- Generated: ");
    b.append(generated);
    push_line(&mut lines, b);
    let mut c = String::from_str("- Window: ");
    c.append(window_start);
    c.append(" to ");
    c.append(window_end);
    push_line(&mut lines, c);
    let mut d = String::from_str("- NVD keywords: ");
    let kw = join(keywords, ", ");
    d.append(kw.as_str());
    push_line(&mut lines, d);
    let mut e = String::from_str("- KEV catalog: ");
    e.append(kev_version);
    e.append(" (");
    e.append(kev_date);
    e.append(")");
    push_line(&mut lines, e);
    let mut f = String::from_str("- Findings after policy filter: ");
    let total = decimal_u64(findings.len() as u64);
    f.append(total.as_str());
    push_line(&mut lines, f);
    let mut g = String::from_str("- Critical: ");
    let nc = decimal_u64(count_severity(findings, "CRITICAL") as u64);
    g.append(nc.as_str());
    g.append(" | High: ");
    let nh = decimal_u64(count_severity(findings, "HIGH") as u64);
    g.append(nh.as_str());
    g.append(" | Medium: ");
    let nm = decimal_u64(count_severity(findings, "MEDIUM") as u64);
    g.append(nm.as_str());
    push_line(&mut lines, g);
    push_str(&mut lines, "");
    assert(lines.deep_view() =~= header_lines(day@, generated@, window_start@, window_end@, keywords.deep_view(), kev_version@, kev_date@, findings@));
    lines
}

fn rustsec_exec(rustsec: &Vec<RustsecEntry>) -> (lines: Vec<String>)
    ensures
        lines.deep_view() == rustsec_lines(rustsec@),
{
    let mut lines: Vec<String> = Vec::new();
    if rustsec.len() > 0 {
        push_str(&mut lines, "## RustSec (Last 24h)");
        push_str(&mut lines, "");
        let ghost s0 = lines.deep_view();
        let mut i: usize = 0;
        while i < rustsec.len() && i < 20
            invariant
                i <= rustsec@.len(),
                i <= 20,
                lines.deep_view() == s0 + concat_lines(rustsec@.take(i as int).map_values(|e: RustsecEntry| rustsec_item_lines(e))),
            decreases rustsec@.len() - i,
        {
            let more = rustsec_item_exec(&rustsec[i]);
            append_lines(&mut lines, more);
            assert(rustsec@.take(i + 1).map_values(|e: RustsecEntry| rustsec_item_lines(e)).drop_last() =~= rustsec@.take(
                i as int,
            ).map_values(|e: RustsecEntry| rustsec_item_lines(e)));
            assert(lines.deep_view() =~= s0 + concat_lines(rustsec@.take(i + 1).map_values(|e: RustsecEntry| rustsec_item_lines(e))));
            i = i + 1;
        }
        assert(rustsec@.take(i as int) =~= first_n(rustsec@, 20));
        push_str(&mut lines, "");
    }
    assert(lines.deep_view() =~= rustsec_lines(rustsec@));
    lines
}

fn notices_exec(notices: &Vec<AdvisoryNotice>) -> (lines: Vec<String>)
    ensures
        lines.deep_view() == notice_lines(notices@),
{
    let mut lines: Vec<String> = Vec::new();
    if notices.len() > 0 {
        push_str(&mut lines, "## NATS Advisory Channel");
        push_str(&mut lines, "");
        let ghost s0 = lines.deep_view();
        let mut i: usize = 0;
        while i < notices.len() && i < 15
            invariant
                i <= notices@.len(),
                i <= 15,
                lines.deep_view() == s0 + concat_lines(notices@.take(i as int).map_values(|n: AdvisoryNotice| notice_item_lines(n))),
            decreases notices@.len() - i,
        {
            let more = notice_item_exec(&notices[i]);
            append_lines(&mut lines, more);
            assert(notices@.take(i + 1).map_values(|n: AdvisoryNotice| notice_item_lines(n)).drop_last() =~= notices@.take(
                i as int,
            ).map_values(|n: AdvisoryNotice| notice_item_lines(n)));
            assert(lines.deep_view() =~= s0 + concat_lines(notices@.take(i + 1).map_values(|n: AdvisoryNotice| notice_item_lines(n))));
            i = i + 1;
        }
        assert(notices@.take(i as int) =~= first_n(notices@, 15));
        push_str(&mut lines, "");
    }
    assert(lines.deep_view() =~= notice_lines(notices@));
    lines
}

fn providers_exec(providers: &Vec<ProviderStatus>) -> (lines: Vec<String>)
    ensures
        lines.deep_view() == provider_section(providers@),
{
    let mut lines: Vec<String> = Vec::new();
    push_str(&mut lines, "## Neocloud Provider Status");
    push_str(&mut lines, "");
    let ghost s0 = lines.deep_view();
    let mut i: usize = 0;
    while i < providers.len()
        invariant
            i <= providers@.len(),
            lines.deep_view() == s0 + concat_lines(providers@.take(i as int).map_values(|p: ProviderStatus| provider_lines(p))),
        decreases providers@.len() - i,
    {
        let more = provider_exec(&providers[i]);
        append_lines(&mut lines, more);
        assert(providers@.take(i + 1).map_values(|p: ProviderStatus| provider_lines(p)).drop_last() =~= providers@.take(
            i as int,
        ).map_values(|p: ProviderStatus| provider_lines(p)));
        assert(lines.deep_view() =~= s0 + concat_lines(providers@.take(i + 1).map_values(|p: ProviderStatus| provider_lines(p))));
        i = i + 1;
    }
    assert(providers@.take(i as int) =~= providers@);
    push_str(&mut lines, "");
    assert(lines.deep_view() =~= provider_section(providers@));
    lines
}

/// The lines of the daily report (`report_spec`).
pub fn report_lines(
    day: &str,
    generated: &str,
    window_start: &str,
    window_end: &str,
    keywords: &Vec<String>,
    kev_version: &str,
    kev_date: &str,
    findings: &Vec<FindingRow>,
    rustsec: &Vec<RustsecEntry>,
    notices: &Vec<AdvisoryNotice>,
    providers: &Vec<ProviderStatus>,
) -> (r: Vec<String>)
    requires
        report_cuttable(findings@),
    ensures
        r.deep_view() == report_spec(
            day@,
            generated@,
            window_start@,
            window_end@,
            keywords.deep_view(),
            kev_version@,
            kev_date@,
            findings@,
            rustsec@,
            notices@,
            providers@,
        ),
{
    let mut lines = header_exec(day, generated, window_start, window_end, keywords, kev_version, kev_date, findings);
    append_table(&mut lines, "Critical Findings", findings, "CRITICAL", 50);
    append_table(&mut lines, "High Findings", findings, "HIGH", 70);
    append_table(&mut lines, "Medium Findings (Stack-Matched)", findings, "MEDIUM", 80);
    append_lines(&mut lines, rustsec_exec(rustsec));
    append_lines(&mut lines, notices_exec(notices));
    append_lines(&mut lines, providers_exec(providers));
    lines
}

/// A line of the top findings in the summary message.
pub open spec fn top_line(r: FindingRow) -> Seq<char> {
    "- "@ + r.id@ + " ("@ + r.severity@ + ", cvss="@ + score_text(r.score) + ")"@
}

/// The body of the daily summary message: counts, the first five
/// findings, and the report's path.
pub open spec fn summary_body(day: Seq<char>, f: Seq<FindingRow>, path: Seq<char>) -> Seq<char> {
    "Daily sweep complete ("@ + day + ").\nWindow: last 24h.\nFindings: total="@ + decimal_spec(f.len()) + ", critical="@
        + decimal_spec(of_severity(f, "CRITICAL"@).len()) + ", high="@ + decimal_spec(of_severity(f, "HIGH"@).len())
        + ", medium="@ + decimal_spec(of_severity(f, "MEDIUM"@).len()) + ".\nTop items:\n"@ + join_spec(
        first_n(f, 5).map_values(|r: FindingRow| top_line(r)),
        "\n"@,
    ) + "\nReport: "@ + path
}

/// The daily summary message: its subject and body (`summary_body`).
pub fn summary_message(day: &str, findings: &Vec<FindingRow>, report_path: &str) -> (r: (String, String))
    ensures
        r.0@ == "Daily Security Intel - "@ + day@,
        r.1@ == summary_body(day@, findings@, report_path@),
{
    let mut subject = String::from_str("Daily Security Intel - ");
    subject.append(day);
    let mut top: Vec<String> = Vec::new();
    let mut i: usize = 0;
    while i < findings.len() && i < 5
        invariant
            i <= findings@.len(),
            i <= 5,
            top.deep_view() == findings@.take(i as int).map_values(|r: FindingRow| top_line(r)),
        decreases findings@.len() - i,
    {
        let r = &findings[i];
        let mut t = String::from_str("- ");
        t.append(r.id.as_str());
        t.append(" (");
        t.append(r.severity.as_str());
        t.append(", cvss=");
        let sc = score_string(r.score);
        t.append(sc.as_str());
        t.append(")");
        push_line(&mut top, t);
        assert(top.deep_view() =~= findings@.take(i + 1).map_values(|r: FindingRow| top_line(r)));
        i = i + 1;
    }
    assert(findings@.take(i as int) =~= first_n(findings@, 5));
    let mut body = String::from_str("Daily sweep complete (");
    body.append(day);
    body.append(").\nWindow: last 24h.\nFindings: total=");
    let n = decimal_u64(findings.len() as u64);
    body.append(n.as_str());
    body.append(", critical=");
    let nc = decimal_u64(count_severity(findings, "CRITICAL") as u64);
    body.append(nc.as_str());
    body.append(", high=");
    let nh = decimal_u64(count_severity(findings, "HIGH") as u64);
    body.append(nh.as_str());
    body.append(", medium=");
    let nm = decimal_u64(count_severity(findings, "MEDIUM") as u64);
    body.append(nm.as_str());
    body.append(".\nTop items:\n");
    let j = join(&top, "\n");
    body.append(j.as_str());
    body.append("\nReport: ");
    body.append(report_path);
    assert(body@ =~= summary_body(day@, findings@, report_path@));
    (subject, body)
}

/// A line of the critical alert.
pub open spec fn critical_line(r: FindingRow) -> Seq<char> {
    "- "@ + r.id@ + " (cvss="@ + score_text(r.score) + ", kev="@ + yes_no(r.kev) + ")"@
}

/// The body of the critical alert: the first ten critical findings and the
/// report's path.
pub open spec fn critical_body(f: Seq<FindingRow>, path: Seq<char>) -> Seq<char> {
    "Critical vulnerabilities detected in daily security intel sweep.\n"@ + join_spec(
        first_n(of_severity(f, "CRITICAL"@), 10).map_values(|r: FindingRow| critical_line(r)),
        "\n"@,
    ) + "\nReport: "@ + path
}

/// The critical alert, when some finding is critical: subject and body
/// (`critical_body`).
pub fn critical_alert(day: &str, findings: &Vec<FindingRow>, report_path: &str) -> (r: Option<(String, String)>)
    ensures
        match r {
            None => of_severity(findings@, "CRITICAL"@).len() == 0,
            Some(m) => of_severity(findings@, "CRITICAL"@).len() > 0 && m.0@ == "CRITICAL Security Intel Alert - "@ + day@
                && m.1@ == critical_body(findings@, report_path@),
        },
{
    let ghost p = |r: FindingRow| r.severity@ == "CRITICAL"@;
    let ghost all = of_severity(findings@, "CRITICAL"@);
    let mut items: Vec<String> = Vec::new();
    let mut count: usize = 0;
    let mut i: usize = 0;
    while i < findings.len()
        invariant
            p == (|r: FindingRow| r.severity@ == "CRITICAL"@),
            all == findings@.filter(p),
            i <= findings@.len(),
            count == findings@.take(i as int).filter(p).len(),
            items.deep_view() == first_n(findings@.take(i as int).filter(p), 10).map_values(|r: FindingRow| critical_line(r)),
        decreases findings@.len() - i,
    {
        let ghost fi = findings@.take(i as int).filter(p);
        proof {
            reveal(Seq::filter);
            assert(findings@.take(i + 1).drop_last() =~= findings@.take(i as int));
            assert(findings@.take(i + 1).last() == findings@[i as int]);
        }
        if str_eq(findings[i].severity.as_str(), "CRITICAL") {
            assert(findings@.take(i + 1).filter(p) == fi.push(findings@[i as int]));
            if count < 10 {
                let r = &findings[i];
                let mut t = String::from_str("- ");
                t.append(r.id.as_str());
                t.append(" (cvss=");
                let sc = score_string(r.score);
                t.append(sc.as_str());
                t.append(", kev=");
                t.append(if r.kev { "yes" } else { "no" });
                t.append(")");
                proof {
                    reveal_strlit("yes");
                    reveal_strlit("no");
                }
                push_line(&mut items, t);
                assert(first_n(fi.push(findings@[i as int]), 10) =~= first_n(fi, 10).push(findings@[i as int]));
            } else {
                assert(first_n(fi.push(findings@[i as int]), 10) =~= first_n(fi, 10));
            }
            count = count + 1;
        } else {
            assert(findings@.take(i + 1).filter(p) == fi);
        }
        assert(items.deep_view() =~= first_n(findings@.take(i + 1).filter(p), 10).map_values(|r: FindingRow| critical_line(r)));
        i = i + 1;
    }
    assert(findings@.take(i as int) =~= findings@);
    if count == 0 {
        return None;
    }
    let mut subject = String::from_str("CRITICAL Security Intel Alert - ");
    subject.append(day);
    let mut body = String::from_str("Critical vulnerabilities detected in daily security intel sweep.\n");
    let j = join(&items, "\n");
    body.append(j.as_str());
    body.append("\nReport: ");
    body.append(report_path);
    assert(body@ =~= critical_body(findings@, report_path@));
    Some((subject, body))
}

/// The position of the first provider flagged for the incident alert
/// (`vastai` at level `alert`), or `ps.len()` when none is.
pub open spec fn alert_provider_pos(ps: Seq<ProviderStatus>) -> int
    decreases ps.len(),
{
    if ps.len() == 0 {
        0
    } else if ps[0].slug@ == "vastai"@ && ps[0].alert_level@ == "alert"@ {
        0
    } else {
        1 + alert_provider_pos(ps.drop_first())
    }
}

/// The lines of the incident alert about provider `p`.
pub open spec fn provider_alert_parts(day: Seq<char>, p: ProviderStatus, path: Seq<char>) -> Seq<Seq<char>> {
    seq!["Vast.ai breach/incident signal detected in daily sweep ("@ + day + ")."@, "Status page: "@ + p.status@]
        + first_n(p.hn_mentions@, 5).map_values(|h: HnMentionLine| "- HN: "@ + h.title@ + " ("@ + h.matched_term@ + ")"@)
        + first_n(p.advisories@, 5).map_values(|a: ProviderAdvisory| "- GHSA: "@ + a.id@ + ": "@ + a.summary@) + seq![
        "Report: "@ + path,
    ]
}

/// The incident alert, when a provider is flagged (`alert_provider_pos`):
/// subject and body, the lines of `provider_alert_parts` joined.
pub fn provider_alert(day: &str, providers: &Vec<ProviderStatus>, report_path: &str) -> (r: Option<(String, String)>)
    ensures
        match r {
            None => alert_provider_pos(providers@) >= providers@.len(),
            Some(m) => {
                let k = alert_provider_pos(providers@);
                &&& 0 <= k < providers@.len()
                &&& m.0@ == "ALERT: Vast.ai incident signal - "@ + day@
                &&& m.1@ == join_spec(provider_alert_parts(day@, providers@[k], report_path@), "\n"@)
            },
        },
{
    let mut k: usize = 0;
    assert(providers@.skip(0) =~= providers@);
    while k < providers.len()
        invariant
            k <= providers@.len(),
            alert_provider_pos(providers@) == k + alert_provider_pos(providers@.skip(k as int)),
        decreases providers@.len() - k,
    {
        let p = &providers[k];
        assert(providers@.skip(k as int)[0] == providers@[k as int]);
        if str_eq(p.slug.as_str(), "vastai") && str_eq(p.alert_level.as_str(), "alert") {
            let mut parts: Vec<String> = Vec::new();
            let mut a = String::from_str("Vast.ai breach/incident signal detected in daily sweep (");
            a.append(day);
            a.append(").");
            push_line(&mut parts, a);
            let mut b = String::from_str("Status page: ");
            b.append(p.status.as_str());
            push_line(&mut parts, b);
            let ghost s0 = parts.deep_view();
            let mut i: usize = 0;
            while i < p.hn_mentions.len() && i < 5
                invariant
                    i <= p.hn_mentions@.len(),
                    i <= 5,
                    parts.deep_view() == s0 + p.hn_mentions@.take(i as int).map_values(|h: HnMentionLine| "- HN: "@ + h.title@
                        + " ("@ + h.matched_term@ + ")"@),
                decreases p.hn_mentions@.len() - i,
            {
                let h = &p.hn_mentions[i];
                let mut t = String::from_str("- HN: ");
                t.append(h.title.as_str());
                t.append(" (");
                t.append(h.matched_term.as_str());
                t.append(")");
                push_line(&mut parts, t);
                assert(parts.deep_view() =~= s0 + p.hn_mentions@.take(i + 1).map_values(|h: HnMentionLine| "- HN: "@
                    + h.title@ + " ("@ + h.matched_term@ + ")"@));
                i = i + 1;
            }
            assert(p.hn_mentions@.take(i as int) =~= first_n(p.hn_mentions@, 5));
            let ghost s1 = parts.deep_view();
            let mut j: usize = 0;
            while j < p.advisories.len() && j < 5
                invariant
                    j <= p.advisories@.len(),
                    j <= 5,
                    parts.deep_view() == s1 + p.advisories@.take(j as int).map_values(|a: ProviderAdvisory| "- GHSA: "@ + a.id@
                        + ": "@ + a.summary@),
                decreases p.advisories@.len() - j,
            {
                let adv = &p.advisories[j];
                let mut t = String::from_str("- GHSA: ");
                t.append(adv.id.as_str());
                t.append(": ");
                t.append(adv.summary.as_str());
                push_line(&mut parts, t);
                assert(parts.deep_view() =~= s1 + p.advisories@.take(j + 1).map_values(|a: ProviderAdvisory| "- GHSA: "@
                    + a.id@ + ": "@ + a.summary@));
                j = j + 1;
            }
            assert(p.advisories@.take(j as int) =~= first_n(p.advisories@, 5));
            let mut c = String::from_str("Report: ");
            c.append(report_path);
            push_line(&mut parts, c);
            assert(parts.deep_view() =~= provider_alert_parts(day@, providers@[k as int], report_path@));
            let mut subject = String::from_str("ALERT: Vast.ai incident signal - ");
            subject.append(day);
            let body = join(&parts, "\n");
            return Some((subject, body));
        }
        assert(providers@.skip(k as int).drop_first() =~= providers@.skip(k + 1));
        k = k + 1;
    }
    None
}

/// How a table section is laid out: nothing without rows; else a title
/// line `## <title>`, a blank line, the column heads `ID`, `Severity`,
/// `CVSS`, `KEV`, `Keywords`, `Summary`, the rule, one line per row for the
/// first `limit` rows in order, and a blank line. A score is written in
/// tenths with one decimal (`-` without one); the KEV column says yes or no.
pub proof fn lemma_table_layout(title: Seq<char>, rows: Seq<FindingRow>, limit: int, t: u64)
    requires
        limit >= 0,
    ensures
        rows.len() == 0 ==> table_lines(title, rows, limit).len() == 0,
        rows.len() > 0 ==> {
            let n = if rows.len() > limit { limit } else { rows.len() as int };
            let l = table_lines(title, rows, limit);
            &&& l.len() == n + 5
            &&& l[0] == "## "@ + title
            &&& l[1] == ""@
            &&& l[2] == "| ID | Severity | CVSS | KEV | Keywords | Summary |"@
            &&& l[3] == "|---|---|---:|---|---|---|"@
            &&& forall|j: int| 0 <= j < n ==> l[4 + j] == finding_line(#[trigger] rows[j])
            &&& l[n + 4] == ""@
        },
        score_text(None) == "-"@,
        score_text(Some(t)) == decimal_spec((t / 10) as nat) + "."@ + decimal_spec((t % 10) as nat),
        yes_no(true) == "yes"@ && yes_no(false) == "no"@,
{
    if rows.len() > 0 {
        let n = if rows.len() > limit { limit } else { rows.len() as int };
        let l = table_lines(title, rows, limit);
        assert(first_n(rows, limit).len() == n);
        assert forall|j: int| 0 <= j < n implies l[4 + j] == finding_line(#[trigger] rows[j]) by {
            assert(first_n(rows, limit)[j] == rows[j]);
        }
    }
}

/// The report's sections, in order: the head; the critical findings (at
/// most 50), the high ones (at most 70) and the medium ones (at most 80),
/// each in the report's order; the RustSec advisories (at most 20), the
/// NATS notices (at most 15), and the providers.
pub proof fn lemma_report_layout(
    day: Seq<char>,
    generated: Seq<char>,
    window_start: Seq<char>,
    window_end: Seq<char>,
    keywords: Seq<Seq<char>>,
    kev_version: Seq<char>,
    kev_date: Seq<char>,
    f: Seq<FindingRow>,
    rustsec: Seq<RustsecEntry>,
    notices: Seq<AdvisoryNotice>,
    providers: Seq<ProviderStatus>,
)
    ensures
        report_spec(day, generated, window_start, window_end, keywords, kev_version, kev_date, f, rustsec, notices, providers)
            == header_lines(day, generated, window_start, window_end, keywords, kev_version, kev_date, f)
            + table_lines("Critical Findings"@, f.filter(|r: FindingRow| r.severity@ == "CRITICAL"@), 50)
            + table_lines("High Findings"@, f.filter(|r: FindingRow| r.severity@ == "HIGH"@), 70)
            + table_lines("Medium Findings (Stack-Matched)"@, f.filter(|r: FindingRow| r.severity@ == "MEDIUM"@), 80)
            + rustsec_lines(rustsec) + notice_lines(notices) + provider_section(providers),
        rustsec.len() > 0 ==> rustsec_lines(rustsec) == seq!["## RustSec (Last 24h)"@, ""@] + concat_lines(
            (if rustsec.len() > 20 { rustsec.take(20) } else { rustsec }).map_values(|e: RustsecEntry| rustsec_item_lines(e)),
        ) + seq![""@],
        notices.len() > 0 ==> notice_lines(notices) == seq!["## NATS Advisory Channel"@, ""@] + concat_lines(
            (if notices.len() > 15 { notices.take(15) } else { notices }).map_values(|n: AdvisoryNotice| notice_item_lines(n)),
        ) + seq![""@],
        header_lines(day, generated, window_start, window_end, keywords, kev_version, kev_date, f)[0] == "# Daily Security Intel - "@
            + day,
        header_lines(day, generated, window_start, window_end, keywords, kev_version, kev_date, f)[6]
            == "- Findings after policy filter: "@ + decimal_spec(f.len()),
{
    assert(of_severity(f, "CRITICAL"@) == f.filter(|r: FindingRow| r.severity@ == "CRITICAL"@));
}


/// The messages: the daily summary counts all, critical, high and medium
/// findings and lists the first five findings; the critical alert lists
/// the first ten critical findings with score and KEV mark; the incident
/// alert gives the provider's status, its first five stories and first five
/// advisories; each ends with the report's path.
pub proof fn lemma_message_layout(day: Seq<char>, f: Seq<FindingRow>, path: Seq<char>, p: ProviderStatus, r: FindingRow)
    ensures
        summary_body(day, f, path) == "Daily sweep complete ("@ + day + ").\nWindow: last 24h.\nFindings: total="@
            + decimal_spec(f.len()) + ", critical="@ + decimal_spec(f.filter(|x: FindingRow| x.severity@ == "CRITICAL"@).len())
            + ", high="@ + decimal_spec(f.filter(|x: FindingRow| x.severity@ == "HIGH"@).len()) + ", medium="@
            + decimal_spec(f.filter(|x: FindingRow| x.severity@ == "MEDIUM"@).len()) + ".\nTop items:\n"@ + join_spec(
            (if f.len() > 5 { f.take(5) } else { f }).map_values(|x: FindingRow| top_line(x)),
            "\n"@,
        ) + "\nReport: "@ + path,
        top_line(r) == "- "@ + r.id@ + " ("@ + r.severity@ + ", cvss="@ + score_text(r.score) + ")"@,
        critical_line(r) == "- "@ + r.id@ + " (cvss="@ + score_text(r.score) + ", kev="@ + yes_no(r.kev) + ")"@,
        critical_body(f, path) == "Critical vulnerabilities detected in daily security intel sweep.\n"@ + join_spec(
            ({
                let c = f.filter(|x: FindingRow| x.severity@ == "CRITICAL"@);
                if c.len() > 10 { c.take(10) } else { c }
            }).map_values(|x: FindingRow| critical_line(x)),
            "\n"@,
        ) + "\nReport: "@ + path,
        provider_alert_parts(day, p, path) == seq![
            "Vast.ai breach/incident signal detected in daily sweep ("@ + day + ")."@,
            "Status page: "@ + p.status@,
        ] + (if p.hn_mentions@.len() > 5 { p.hn_mentions@.take(5) } else { p.hn_mentions@ }).map_values(
            |h: HnMentionLine| "- HN: "@ + h.title@ + " ("@ + h.matched_term@ + ")"@,
        ) + (if p.advisories@.len() > 5 { p.advisories@.take(5) } else { p.advisories@ }).map_values(
            |a: ProviderAdvisory| "- GHSA: "@ + a.id@ + ": "@ + a.summary@,
        ) + seq!["Report: "@ + path],
{
}


proof fn lemma_filter_prefix_rows(s: Seq<FindingRow>, p: spec_fn(FindingRow) -> bool, i: int)
    requires
        0 <= i <= s.len(),
    ensures
        s.take(i).filter(p).len() <= s.filter(p).len(),
        forall|j: int| 0 <= j < s.take(i).filter(p).len() ==> #[trigger] s.filter(p)[j] == s.take(i).filter(p)[j],
    decreases s.len() - i,
{
    reveal(Seq::filter);
    if i < s.len() {
        lemma_filter_prefix_rows(s, p, i + 1);
        assert(s.take(i + 1).drop_last() =~= s.take(i));
    } else {
        assert(s.take(i) =~= s);
    }
}

} // verus!

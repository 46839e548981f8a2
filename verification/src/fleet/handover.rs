//! The daily watch handover's decisions: the warning sent to the fleet,
//! which agents count as ready, the readiness dashboard, the checks of the
//! handoff files, and the observer's health.

use vstd::prelude::*;
use crate::events::schema::Timestamp;
use crate::fleet::metrics::FleetRoster;
use crate::text::{
    contains_spec, contains_str, decimal_spec, decimal_u64, has_string, join, join_spec, lowercase_spec, pad_left,
    pad_left_spec, pad_right, pad_right_spec, str_eq, to_chars, to_lowercase, to_uppercase, trim, trim_spec,
    uppercase_spec,
};

verus! {

/// The subject of the handover warning.
pub open spec fn warning_subject() -> Seq<char> {
    "DAILY HANDOVER \u{2014} Commit work and submit handoff"@
}

/// The handover warning, giving the agents `timeout` seconds.
pub open spec fn warning_text(timeout: nat) -> Seq<char> {
    "DAILY WATCH HANDOVER \u{2014} Merlin morning initialization.\n\nFleet restart is imminent. Please:\n1. Commit any in-progress work.\n2. Update your memory files.\n3. Write your handoff payload via 'am-fleet handoff <your-agent-id>'.\n4. Reply to this message with 'READY' when complete.\n\nTimeout: you have "@
        + decimal_spec(timeout) + " seconds before forced restart.\n\n\u{2014} daily-handover (Merlin-operated)"@
}

/// The subject of the handover warning.
pub fn handover_warning_subject() -> (r: &'static str)
    ensures
        r@ == warning_subject(),
{
    "DAILY HANDOVER \u{2014} Commit work and submit handoff"
}

/// The handover warning sent to each agent.
pub fn handover_warning(timeout: u64) -> (r: String)
    ensures
        r@ == warning_text(timeout as nat),
{
    let mut r = String::from_str(
        "DAILY WATCH HANDOVER \u{2014} Merlin morning initialization.\n\nFleet restart is imminent. Please:\n1. Commit any in-progress work.\n2. Update your memory files.\n3. Write your handoff payload via 'am-fleet handoff <your-agent-id>'.\n4. Reply to this message with 'READY' when complete.\n\nTimeout: you have ",
    );
    let t = decimal_u64(timeout);
    r.append(t.as_str());
    r.append(" seconds before forced restart.\n\n\u{2014} daily-handover (Merlin-operated)");
    r
}

/// Whether a UTC date-time exists `secs` seconds from the Unix epoch.
pub uninterp spec fn utc_seconds_valid(secs: i64) -> bool;

/// `DateTime::<Utc>::from_timestamp(secs, 0)`: whether it gives a date-time
/// (chrono's calendar is finite, so far-off seconds give none).
#[verifier::external_body]
fn utc_seconds_in_range(secs: i64) -> (b: bool)
    ensures
        b == utc_seconds_valid(secs),
{
    chrono::DateTime::from_timestamp(secs, 0).is_some()
}

/// A handoff written at `epoch` (whole seconds) came after `broadcast`.
pub open spec fn written_after(epoch: i64, broadcast: Timestamp) -> bool {
    utc_seconds_valid(epoch) && epoch > broadcast.secs
}

/// A handoff written at `epoch` (whole seconds) came before `broadcast`.
pub open spec fn written_before(epoch: i64, broadcast: Timestamp) -> bool {
    utc_seconds_valid(epoch) && (epoch < broadcast.secs || (epoch == broadcast.secs && broadcast.nanos > 0))
}

/// A reply acknowledges the handover when, upper-cased, it says READY, ACK
/// or HANDOFF.
pub open spec fn acknowledges(content: Seq<char>) -> bool {
    let u = uppercase_spec(content);
    contains_spec(u, "READY"@) || contains_spec(u, "ACK"@) || contains_spec(u, "HANDOFF"@)
}

/// Whether a reply acknowledges the handover (see `acknowledges`).
pub fn is_readiness_ack(content: &str) -> (b: bool)
    ensures
        b == acknowledges(content@),
{
    let u = to_uppercase(content);
    contains_str(u.as_str(), "READY") || contains_str(u.as_str(), "ACK") || contains_str(u.as_str(), "HANDOFF")
}

/// An agent is ready when its handoff file was updated after the broadcast
/// (`handoff_epoch`, when the file gives one), or when one of the unread
/// messages (sender, content) of the handover's sender is an
/// acknowledgement from it.
pub open spec fn agent_is_ready(
    agent: Seq<char>,
    handoff_epoch: Option<i64>,
    broadcast: Timestamp,
    inbox: Seq<(String, String)>,
) -> bool {
    ||| handoff_epoch matches Some(e) && written_after(e, broadcast)
    ||| exists|i: int| 0 <= i < inbox.len() && (#[trigger] inbox[i]).0@ == agent && acknowledges(inbox[i].1@)
}

/// Whether `agent` is ready (see `agent_is_ready`).
pub fn agent_ready(agent: &str, handoff_epoch: Option<i64>, broadcast: Timestamp, inbox: &Vec<(String, String)>) -> (b: bool)
    ensures
        b == agent_is_ready(agent@, handoff_epoch, broadcast, inbox@),
{
    match handoff_epoch {
        Some(e) => {
            if utc_seconds_in_range(e) && e > broadcast.secs {
                return true;
            }
        },
        None => {},
    }
    let mut i: usize = 0;
    while i < inbox.len()
        invariant
            i <= inbox@.len(),
            !(handoff_epoch matches Some(e) && written_after(e, broadcast)),
            forall|j: int| 0 <= j < i ==> !((#[trigger] inbox@[j]).0@ == agent@ && acknowledges(inbox@[j].1@)),
        decreases inbox@.len() - i,
    {
        if str_eq(inbox[i].0.as_str(), agent) && is_readiness_ack(inbox[i].1.as_str()) {
            return true;
        }
        i = i + 1;
    }
    false
}

/// A core agent's line on the dashboard.
pub open spec fn core_line(agent: Seq<char>, ready: bool) -> Seq<char> {
    if ready {
        "    [+] "@ + pad_right_spec(agent, 18) + " READY"@
    } else {
        "    [!] "@ + pad_right_spec(agent, 18) + " MISSING"@
    }
}

/// An optional agent's line on the dashboard.
pub open spec fn optional_line(agent: Seq<char>, ready: bool) -> Seq<char> {
    if ready {
        "    [+] "@ + pad_right_spec(agent, 18) + " READY"@
    } else {
        "    [~] "@ + pad_right_spec(agent, 18) + " SKIPPED"@
    }
}

/// The number of `agents` that are `ready`.
pub open spec fn ready_count(agents: Seq<Seq<char>>, ready: Seq<Seq<char>>) -> nat
    decreases agents.len(),
{
    if agents.len() == 0 {
        0
    } else {
        ready_count(agents.drop_last(), ready) + if ready.contains(agents.last()) { 1nat } else { 0nat }
    }
}

/// The readiness dashboard, line by line.
pub open spec fn dashboard_spec(core: Seq<Seq<char>>, optional: Seq<Seq<char>>, ready: Seq<Seq<char>>) -> Seq<Seq<char>> {
    let rule = "\u{2550}\u{2550}\u{2550}\u{2550}\u{2550}\u{2550}\u{2550}\u{2550}\u{2550}\u{2550}\u{2550}\u{2550}\u{2550}\u{2550}\u{2550}\u{2550}\u{2550}\u{2550}\u{2550}\u{2550}\u{2550}\u{2550}\u{2550}\u{2550}\u{2550}\u{2550}\u{2550}\u{2550}\u{2550}\u{2550}\u{2550}\u{2550}\u{2550}\u{2550}\u{2550}\u{2550}\u{2550}\u{2550}\u{2550}\u{2550}"@;
    let head = seq![Seq::empty(), rule, "  Daily Watch Handover \u{2014} Readiness"@, rule, Seq::empty(), "  Core agents:"@];
    let core_lines = core.map_values(|a: Seq<char>| core_line(a, ready.contains(a)));
    let opt_lines = if optional.len() == 0 {
        Seq::empty()
    } else {
        seq![Seq::empty(), "  Optional agents:"@] + optional.map_values(|a: Seq<char>| optional_line(a, ready.contains(a)))
    };
    let tail = seq![
        Seq::empty(),
        "  Core: "@ + decimal_spec(ready_count(core, ready)) + "/"@ + decimal_spec(core.len()) + " ready"@,
        Seq::empty(),
    ];
    head + core_lines + opt_lines + tail
}

fn dashboard_line(agent: &str, ready: bool, core: bool) -> (r: String)
    ensures
        r@ == if core { core_line(agent@, ready) } else { optional_line(agent@, ready) },
{
    let mark = if ready {
        "    [+] "
    } else if core {
        "    [!] "
    } else {
        "    [~] "
    };
    let mut r = String::from_str(mark);
    let name = pad_right(agent, 18);
    r.append(name.as_str());
    if ready {
        r.append(" READY");
    } else if core {
        r.append(" MISSING");
    } else {
        r.append(" SKIPPED");
    }
    r
}

fn agent_lines(agents: &Vec<String>, ready: &Vec<String>, core: bool) -> (r: (Vec<String>, usize))
    ensures
        r.0.deep_view() == agents.deep_view().map_values(
            |a: Seq<char>| if core { core_line(a, ready.deep_view().contains(a)) } else { optional_line(a, ready.deep_view().contains(a)) },
        ),
        r.1 == ready_count(agents.deep_view(), ready.deep_view()),
{
    let ghost s = agents.deep_view();
    let ghost rd = ready.deep_view();
    let ghost f = |a: Seq<char>| if core { core_line(a, rd.contains(a)) } else { optional_line(a, rd.contains(a)) };
    let mut out: Vec<String> = Vec::new();
    let mut count: usize = 0;
    let mut i: usize = 0;
    while i < agents.len()
        invariant
            s == agents.deep_view(),
            rd == ready.deep_view(),
            f == (|a: Seq<char>| if core { core_line(a, rd.contains(a)) } else { optional_line(a, rd.contains(a)) }),
            i <= s.len(),
            out.deep_view() == s.take(i as int).map_values(f),
            count == ready_count(s.take(i as int), rd),
            count <= i,
        decreases s.len() - i,
    {
        let a = agents[i].as_str();
        assert(s[i as int] == a@);
        let is_ready = has_string(ready, a);
        let line = dashboard_line(a, is_ready, core);
        let ghost before = out.deep_view();
        out.push(line);
        assert(s.take(i as int + 1).drop_last() =~= s.take(i as int));
        assert(s.take(i as int + 1).map_values(f) =~= s.take(i as int).map_values(f).push(f(a@)));
        assert(out.deep_view() =~= before.push(f(a@)));
        if is_ready {
            count = count + 1;
        }
        i = i + 1;
    }
    assert(s.take(i as int) =~= s);
    (out, count)
}

/// The readiness dashboard, line by line (see `dashboard_spec`); `ready`
/// holds the agents found ready.
pub fn readiness_dashboard(roster: &FleetRoster, ready: &Vec<String>) -> (r: Vec<String>)
    ensures
        r.deep_view() == dashboard_spec(roster.core.deep_view(), roster.optional.deep_view(), ready.deep_view()),
{
    let rule = "\u{2550}\u{2550}\u{2550}\u{2550}\u{2550}\u{2550}\u{2550}\u{2550}\u{2550}\u{2550}\u{2550}\u{2550}\u{2550}\u{2550}\u{2550}\u{2550}\u{2550}\u{2550}\u{2550}\u{2550}\u{2550}\u{2550}\u{2550}\u{2550}\u{2550}\u{2550}\u{2550}\u{2550}\u{2550}\u{2550}\u{2550}\u{2550}\u{2550}\u{2550}\u{2550}\u{2550}\u{2550}\u{2550}\u{2550}\u{2550}";
    let mut lines: Vec<String> = Vec::new();
    lines.push(String::new());
    lines.push(String::from_str(rule));
    lines.push(String::from_str("  Daily Watch Handover \u{2014} Readiness"));
    lines.push(String::from_str(rule));
    lines.push(String::new());
    lines.push(String::from_str("  Core agents:"));
    let ghost head = lines.deep_view();
    assert(head =~= seq![Seq::<char>::empty(), rule@, "  Daily Watch Handover \u{2014} Readiness"@, rule@, Seq::<char>::empty(), "  Core agents:"@]);
    let (core_lines, core_ready) = agent_lines(&roster.core, ready, true);
    let mut core_lines = core_lines;
    lines.append(&mut core_lines);
    let ghost with_core = lines.deep_view();
    assert(with_core =~= head + agent_lines_view(roster.core.deep_view(), ready.deep_view(), true));
    if roster.optional.len() > 0 {
        let ghost b0 = lines.deep_view();
        lines.push(String::new());
        lines.push(String::from_str("  Optional agents:"));
        let (opt_lines, _) = agent_lines(&roster.optional, ready, false);
        let ghost ol = opt_lines.deep_view();
        let mut opt_lines = opt_lines;
        lines.append(&mut opt_lines);
        assert(lines.deep_view() =~= b0 + seq![Seq::<char>::empty(), "  Optional agents:"@] + ol);
    }
    let ghost with_opt = lines.deep_view();
    lines.push(String::new());
    let mut total = String::from_str("  Core: ");
    let c = decimal_u64(core_ready as u64);
    total.append(c.as_str());
    total.append("/");
    let n = decimal_u64(roster.core.len() as u64);
    total.append(n.as_str());
    total.append(" ready");
    lines.push(total);
    lines.push(String::new());
    let ghost tail_line = total@;
    assert(lines.deep_view() =~= with_opt + seq![Seq::<char>::empty(), tail_line, Seq::<char>::empty()]);
    assert(tail_line =~= "  Core: "@ + decimal_spec(ready_count(roster.core.deep_view(), ready.deep_view())) + "/"@ + decimal_spec(roster.core.deep_view().len()) + " ready"@);
    proof {
        let rd = ready.deep_view();
        let opt = roster.optional.deep_view();
        let opt_part: Seq<Seq<char>> = if opt.len() == 0 {
            Seq::empty()
        } else {
            seq![Seq::empty(), "  Optional agents:"@] + opt.map_values(|a: Seq<char>| optional_line(a, rd.contains(a)))
        };
        assert(with_opt =~= with_core + opt_part);
        assert(agent_lines_view(roster.core.deep_view(), rd, true) =~= roster.core.deep_view().map_values(
            |a: Seq<char>| core_line(a, rd.contains(a)),
        ));
        assert(lines.deep_view() =~= dashboard_spec(roster.core.deep_view(), opt, rd));
    }
    lines
}

/// The lines of `agents` on the dashboard (core or optional).
pub open spec fn agent_lines_view(agents: Seq<Seq<char>>, ready: Seq<Seq<char>>, core: bool) -> Seq<Seq<char>> {
    agents.map_values(
        |a: Seq<char>| if core { core_line(a, ready.contains(a)) } else { optional_line(a, ready.contains(a)) },
    )
}

/// The core agents not found ready, in roster order.
pub open spec fn missing_core_spec(core: Seq<Seq<char>>, ready: Seq<Seq<char>>) -> Seq<Seq<char>> {
    core.filter(|a: Seq<char>| !ready.contains(a))
}

/// The core agents not found ready.
pub fn missing_core(roster: &FleetRoster, ready: &Vec<String>) -> (r: Vec<String>)
    ensures
        r.deep_view() == missing_core_spec(roster.core.deep_view(), ready.deep_view()),
{
    let ghost s = roster.core.deep_view();
    let ghost rd = ready.deep_view();
    let ghost p = |a: Seq<char>| !rd.contains(a);
    let mut out: Vec<String> = Vec::new();
    let mut i: usize = 0;
    while i < roster.core.len()
        invariant
            s == roster.core.deep_view(),
            rd == ready.deep_view(),
            p == (|a: Seq<char>| !rd.contains(a)),
            i <= s.len(),
            out.deep_view() == s.take(i as int).filter(p),
        decreases s.len() - i,
    {
        let a = roster.core[i].as_str();
        assert(s[i as int] == a@);
        assert(s.take(i as int + 1) =~= s.take(i as int).push(a@));
        proof {
            s.take(i as int).lemma_filter_push(a@, p);
        }
        if !has_string(ready, a) {
            let ghost before = out.deep_view();
            out.push(String::from_str(a));
            assert(out.deep_view() =~= before.push(a@));
        }
        i = i + 1;
    }
    assert(s.take(i as int) =~= s);
    out
}

/// The line showing the readiness count while waiting.
pub fn progress_line(ready: usize, total: usize, remaining_secs: u64) -> (r: String)
    ensures
        r@ == "\r  "@ + decimal_spec(ready as nat) + "/"@ + decimal_spec(total as nat) + " ready ("@ + pad_left_spec(
            decimal_spec(remaining_secs as nat),
            3,
        ) + "s remaining)"@,
{
    let mut r = String::from_str("\r  ");
    let a = decimal_u64(ready as u64);
    r.append(a.as_str());
    r.append("/");
    let b = decimal_u64(total as u64);
    r.append(b.as_str());
    r.append(" ready (");
    let c = decimal_u64(remaining_secs);
    let c = pad_left(c.as_str(), 3);
    r.append(c.as_str());
    r.append("s remaining)");
    r
}

/// The operator's choice at the signoff prompt: the first character of the
/// trimmed, lower-cased answer when it is `r`, `s` or `c`; `q` otherwise.
pub open spec fn choice_of(answer: Seq<char>) -> char {
    let l = lowercase_spec(trim_spec(answer));
    if l.len() > 0 && (l[0] == 'r' || l[0] == 's' || l[0] == 'c') {
        l[0]
    } else {
        'q'
    }
}

/// The operator's choice at the signoff prompt (see `choice_of`).
pub fn parse_choice(answer: &str) -> (c: char)
    ensures
        c == choice_of(answer@),
{
    let t = trim(answer);
    let l = to_lowercase(t.as_str());
    let v = to_chars(l.as_str());
    if v.len() > 0 && (v[0] == 'r' || v[0] == 's' || v[0] == 'c') {
        v[0]
    } else {
        'q'
    }
}

/// Whether the operator confirmed: the trimmed, lower-cased answer is `y`.
pub fn is_confirmation(answer: &str) -> (b: bool)
    ensures
        b == (lowercase_spec(trim_spec(answer@)) == "y"@),
{
    let t = trim(answer);
    let l = to_lowercase(t.as_str());
    str_eq(l.as_str(), "y")
}

/// The fields a handoff file must have.
pub open spec fn required_fields() -> Seq<Seq<char>> {
    seq!["schema_version"@, "agent"@, "session_date"@, "last_updated_epoch"@, "state_summary"@, "next_actions"@]
}

/// What was found of an agent's handoff file.
pub enum HandoffFile {
    /// No file.
    Missing,
    /// The file could not be read, with the error's text.
    Unreadable(String),
    /// The file is no JSON, with the error's text.
    InvalidJson(String),
    /// The JSON's top-level keys, and its `last_updated_epoch` when that is
    /// an integer.
    Parsed { keys: Vec<String>, epoch: Option<i64> },
}

/// The warnings about one agent's handoff file: that it is missing,
/// unreadable or no JSON; else the required fields it lacks (if any) and
/// whether it was written before the broadcast.
pub open spec fn handoff_issues_spec(agent: Seq<char>, file: HandoffFile, broadcast: Timestamp) -> Seq<Seq<char>> {
    match file {
        HandoffFile::Missing => seq!["  [!] "@ + agent + ": no handoff file"@],
        HandoffFile::Unreadable(e) => seq!["  [!] "@ + agent + ": unreadable \u{2014} "@ + e@],
        HandoffFile::InvalidJson(e) => seq!["  [!] "@ + agent + ": invalid JSON \u{2014} "@ + e@],
        HandoffFile::Parsed { keys, epoch } => {
            let missing = required_fields().filter(|f: Seq<char>| !keys.deep_view().contains(f));
            let a: Seq<Seq<char>> = if missing.len() > 0 {
                seq!["  [!] "@ + agent + ": missing fields: "@ + join_spec(missing, ", "@)]
            } else {
                Seq::empty()
            };
            let b: Seq<Seq<char>> = if epoch matches Some(e) && written_before(e, broadcast) {
                seq!["  [~] "@ + agent + ": handoff file is stale (pre-broadcast)"@]
            } else {
                Seq::empty()
            };
            a + b
        },
    }
}

/// The warnings about one agent's handoff file (see `handoff_issues_spec`).
pub fn handoff_issues(agent: &str, file: &HandoffFile, broadcast: Timestamp) -> (r: Vec<String>)
    ensures
        r.deep_view() == handoff_issues_spec(agent@, *file, broadcast),
{
    let mut out: Vec<String> = Vec::new();
    match file {
        HandoffFile::Missing => {
            let mut l = String::from_str("  [!] ");
            l.append(agent);
            l.append(": no handoff file");
            out.push(l);
        },
        HandoffFile::Unreadable(e) => {
            let mut l = String::from_str("  [!] ");
            l.append(agent);
            l.append(": unreadable \u{2014} ");
            l.append(e.as_str());
            out.push(l);
        },
        HandoffFile::InvalidJson(e) => {
            let mut l = String::from_str("  [!] ");
            l.append(agent);
            l.append(": invalid JSON \u{2014} ");
            l.append(e.as_str());
            out.push(l);
        },
        HandoffFile::Parsed { keys, epoch } => {
            let fields = vec!["schema_version", "agent", "session_date", "last_updated_epoch", "state_summary", "next_actions"];
            let ghost fs = fields@.map_values(|f: &str| f@);
            assert(fs =~= required_fields());
            let ghost kv = keys.deep_view();
            let ghost p = |f: Seq<char>| !kv.contains(f);
            let mut missing: Vec<String> = Vec::new();
            let mut i: usize = 0;
            while i < fields.len()
                invariant
                    fs == fields@.map_values(|f: &str| f@),
                    kv == keys.deep_view(),
                    p == (|f: Seq<char>| !kv.contains(f)),
                    i <= fs.len(),
                    missing.deep_view() == fs.take(i as int).filter(p),
                decreases fs.len() - i,
            {
                let f = fields[i];
                assert(fs[i as int] == f@);
                assert(fs.take(i as int + 1) =~= fs.take(i as int).push(f@));
                proof {
                    fs.take(i as int).lemma_filter_push(f@, p);
                }
                if !has_string(keys, f) {
                    let ghost before = missing.deep_view();
                    missing.push(String::from_str(f));
                    assert(missing.deep_view() =~= before.push(f@));
                }
                i = i + 1;
            }
            assert(fs.take(i as int) =~= fs);
            if missing.len() > 0 {
                let mut l = String::from_str("  [!] ");
                l.append(agent);
                l.append(": missing fields: ");
                let j = join(&missing, ", ");
                l.append(j.as_str());
                out.push(l);
            }
            let ghost first = out.deep_view();
            match epoch {
                Some(e) => {
                    let e = *e;
                    if utc_seconds_in_range(e) && (e < broadcast.secs || (e == broadcast.secs && broadcast.nanos > 0)) {
                        let mut l = String::from_str("  [~] ");
                        l.append(agent);
                        l.append(": handoff file is stale (pre-broadcast)");
                        out.push(l);
                    }
                },
                None => {},
            }
            proof {
                reveal_strlit("");
            }
        },
    }
    out
}

/// The health of the observer daemon.
#[derive(Debug, Clone, Copy, PartialEq, Eq, Structural)]
pub enum ObserverStatus {
    Running,
    Stopped,
    Hung,
}

/// The observer's health from its service listing: stopped when the
/// listing failed or shows no `"PID"`; hung when its log is more than five
/// minutes old (`log_age_ns`, when the log's age could be read); running
/// otherwise.
pub open spec fn observer_status_of(listed: bool, listing: Seq<char>, log_age_ns: Option<u128>) -> ObserverStatus {
    if !listed || !contains_spec(listing, "\"PID\""@) {
        ObserverStatus::Stopped
    } else if log_age_ns matches Some(a) && a > 300_000_000_000 {
        ObserverStatus::Hung
    } else {
        ObserverStatus::Running
    }
}

/// The observer's health (see `observer_status_of`).
pub fn observer_status(listed: bool, listing: &str, log_age_ns: Option<u128>) -> (s: ObserverStatus)
    ensures
        s == observer_status_of(listed, listing@, log_age_ns),
{
    if !listed || !contains_str(listing, "\"PID\"") {
        return ObserverStatus::Stopped;
    }
    match log_age_ns {
        Some(a) => {
            if a > 300_000_000_000 {
                ObserverStatus::Hung
            } else {
                ObserverStatus::Running
            }
        },
        None => ObserverStatus::Running,
    }
}

/// Whether a failed service start only found the observer already loaded.
pub fn already_loaded(stderr: &str) -> (b: bool)
    ensures
        b == (contains_spec(stderr@, "37:"@) || contains_spec(stderr@, "Already loaded"@)),
{
    contains_str(stderr, "37:") || contains_str(stderr, "Already loaded")
}

/// A daemon's line in the health report.
pub fn daemon_line(label: &str, running: bool) -> (r: String)
    ensures
        r@ == if running { "    [+] "@ + label@ + " RUNNING"@ } else { "    [!] "@ + label@ + " STOPPED"@ },
{
    let mut r = String::from_str(if running { "    [+] " } else { "    [!] " });
    r.append(label);
    r.append(if running { " RUNNING" } else { " STOPPED" });
    r
}

} // verus!

//! Small rules of the fleet tools: wake tiers in observer logs, durations
//! and status marks of the metrics report, the fleet roster, and test results.

use vstd::prelude::*;
use crate::text::{contains_spec, contains_str, copy_strings, decimal_spec, int_text, int_text_spec, str_eq};

verus! {

/// The wake tier a log line names (`tier 1`, `tier 2` or `tier 3`, first
/// match in that order), if any.
pub open spec fn tier_of_line(line: Seq<char>) -> Option<u8> {
    if contains_spec(line, "tier 1"@) {
        Some(1)
    } else if contains_spec(line, "tier 2"@) {
        Some(2)
    } else if contains_spec(line, "tier 3"@) {
        Some(3)
    } else {
        None
    }
}

/// The wake tier a log line names.
pub fn extract_tier_from_label(line: &str) -> (r: Option<u8>)
    ensures
        r == tier_of_line(line@),
{
    if contains_str(line, "tier 1") {
        Some(1)
    } else if contains_str(line, "tier 2") {
        Some(2)
    } else if contains_str(line, "tier 3") {
        Some(3)
    } else {
        None
    }
}

/// `a / b` rounded toward zero (as Rust divides integers), for `b > 0`.
pub open spec fn div_trunc(a: int, b: int) -> int {
    if a >= 0 { a / b } else { -((-a) / b) }
}

/// The remainder of `div_trunc`: it has the sign of `a`.
pub open spec fn rem_trunc(a: int, b: int) -> int {
    a - b * div_trunc(a, b)
}

/// A duration in seconds as days and hours (over a day), hours and minutes
/// (over an hour), or minutes.
pub open spec fn duration_text(seconds: int) -> Seq<char> {
    let hours = div_trunc(seconds, 3600);
    let minutes = div_trunc(rem_trunc(seconds, 3600), 60);
    if hours > 24 {
        int_text_spec(hours / 24) + "d "@ + int_text_spec(hours % 24) + "h"@
    } else if hours > 0 {
        int_text_spec(hours) + "h "@ + int_text_spec(minutes) + "m"@
    } else {
        int_text_spec(minutes) + "m"@
    }
}

/// Formats a duration in seconds.
pub fn format_duration(seconds: i64) -> (r: String)
    ensures
        r@ == duration_text(seconds as int),
{
    let hours: i64 = if seconds >= 0 {
        seconds / 3600
    } else {
        let a: u64 = ((-(seconds + 1)) as u64) + 1;
        assert(a == -seconds);
        let q: u64 = a / 3600;
        -(q as i64)
    };
    assert(hours == div_trunc(seconds as int, 3600));
    let rem: i64 = seconds - 3600 * hours;
    assert(-3600 < rem < 3600) by (nonlinear_arith)
        requires
            rem == seconds - 3600 * hours,
            hours == div_trunc(seconds as int, 3600),
    {
    }
    let minutes: i64 = if rem >= 0 {
        rem / 60
    } else {
        -((-rem) / 60)
    };
    let mut r = String::new();
    if hours > 24 {
        let d = int_text(hours / 24);
        r.append(d.as_str());
        r.append("d ");
        let h = int_text(hours % 24);
        r.append(h.as_str());
        r.append("h");
    } else if hours > 0 {
        let h = int_text(hours);
        r.append(h.as_str());
        r.append("h ");
        let m = int_text(minutes);
        r.append(m.as_str());
        r.append("m");
    } else {
        let m = int_text(minutes);
        r.append(m.as_str());
        r.append("m");
    }
    proof {
        reveal_strlit("");
    }
    r
}

/// The status mark of an agent: connected, active today, or silent.
pub fn status_emoji(connected: bool, messages_today: u32) -> (r: &'static str)
    ensures
        r@ == (if connected {
            "\u{2705}"@
        } else if messages_today > 0 {
            "\u{26a0}\u{fe0f}"@
        } else {
            "\u{1f534}"@
        }),
{
    if connected {
        "\u{2705}"
    } else if messages_today > 0 {
        "\u{26a0}\u{fe0f}"
    } else {
        "\u{1f534}"
    }
}

/// The agents of the fleet: the core ones, and the optional ones restarted
/// only with their lead.
pub struct FleetRoster {
    pub core: Vec<String>,
    pub optional: Vec<String>,
}

/// The active fleet.
pub fn active_agents() -> (r: FleetRoster)
    ensures
        r.core.deep_view() == seq!["aleph"@, "thales"@, "hypatia"@, "luban"@, "ogma"@, "mataya"@, "laozi-jung"@],
        r.optional.deep_view() == seq!["hypatia-adjutant"@],
{
    let mut core: Vec<String> = Vec::new();
    core.push(String::from_str("aleph"));
    core.push(String::from_str("thales"));
    core.push(String::from_str("hypatia"));
    core.push(String::from_str("luban"));
    core.push(String::from_str("ogma"));
    core.push(String::from_str("mataya"));
    core.push(String::from_str("laozi-jung"));
    let mut optional: Vec<String> = Vec::new();
    optional.push(String::from_str("hypatia-adjutant"));
    assert(core.deep_view() =~= seq!["aleph"@, "thales"@, "hypatia"@, "luban"@, "ogma"@, "mataya"@, "laozi-jung"@]);
    assert(optional.deep_view() =~= seq!["hypatia-adjutant"@]);
    FleetRoster { core, optional }
}

/// All agents of a roster: the core ones, then the optional ones.
pub fn all_agents(roster: &FleetRoster) -> (r: Vec<String>)
    ensures
        r.deep_view() == roster.core.deep_view() + roster.optional.deep_view(),
{
    let mut all = copy_strings(&roster.core);
    let mut i: usize = 0;
    let ghost base = all.deep_view();
    while i < roster.optional.len()
        invariant
            i <= roster.optional@.len(),
            base == roster.core.deep_view(),
            all.deep_view() == base + roster.optional.deep_view().take(i as int),
        decreases roster.optional@.len() - i,
    {
        let ghost before = all.deep_view();
        all.push(roster.optional[i].clone());
        assert(all.deep_view() =~= before.push(roster.optional@[i as int]@));
        assert(roster.optional.deep_view().take(i as int + 1) =~= roster.optional.deep_view().take(i as int).push(
            roster.optional.deep_view()[i as int],
        ));
        i = i + 1;
    }
    assert(roster.optional.deep_view().take(i as int) =~= roster.optional.deep_view());
    all
}

/// The outcome of one check of the MCP test harness.
#[derive(Debug, Clone)]
pub struct TestResult {
    pub name: String,
    pub passed: bool,
    pub duration_ms: u64,
    pub message: String,
}

impl TestResult {
    /// A passed check.
    pub fn pass(name: &str, duration_ms: u64, message: &str) -> (r: Self)
        ensures
            r.name@ == name@,
            r.passed,
            r.duration_ms == duration_ms,
            r.message@ == message@,
    {
        TestResult {
            name: String::from_str(name),
            passed: true,
            duration_ms,
            message: String::from_str(message),
        }
    }

    /// A failed check.
    pub fn fail(name: &str, duration_ms: u64, message: &str) -> (r: Self)
        ensures
            r.name@ == name@,
            !r.passed,
            r.duration_ms == duration_ms,
            r.message@ == message@,
    {
        TestResult {
            name: String::from_str(name),
            passed: false,
            duration_ms,
            message: String::from_str(message),
        }
    }
}


/// A check's result as plain values: (name, passed, message).
pub open spec fn result_view(r: TestResult) -> (Seq<char>, bool, Seq<char>) {
    (r.name@, r.passed, r.message@)
}

/// The outcome of the initialize check: failed on an unsuccessful status or
/// an error in the reply; else passed with the session id from the reply's
/// header or, failing that, from its body; failed without either. The
/// session id is kept for the next checks.
pub open spec fn initialize_outcome(
    status_ok: bool,
    status: Seq<char>,
    error: Option<Seq<char>>,
    header_session: Option<Seq<char>>,
    body_session: Option<Seq<char>>,
) -> ((Seq<char>, bool, Seq<char>), Option<Seq<char>>) {
    if !status_ok {
        (("initialize"@, false, "Status "@ + status), None)
    } else if error is Some {
        (("initialize"@, false, "Error: "@ + error->0), None)
    } else if header_session is Some {
        (("initialize"@, true, "session="@ + header_session->0), header_session)
    } else if body_session is Some {
        (("initialize"@, true, "session="@ + body_session->0 + " (from body)"@), body_session)
    } else {
        (("initialize"@, false, "No session ID in header or body"@), None)
    }
}

/// The optional text as plain values.
pub open spec fn opt_view(o: Option<String>) -> Option<Seq<char>> {
    match o {
        Some(s) => Some(s@),
        None => None,
    }
}

/// The outcome of the initialize check (see `initialize_outcome`).
pub fn initialize_result(
    status_ok: bool,
    status: &str,
    duration_ms: u64,
    error: Option<String>,
    header_session: Option<String>,
    body_session: Option<String>,
) -> (r: (TestResult, Option<String>))
    ensures
        (result_view(r.0), opt_view(r.1)) == initialize_outcome(
            status_ok,
            status@,
            opt_view(error),
            opt_view(header_session),
            opt_view(body_session),
        ),
        r.0.duration_ms == duration_ms,
{
    if !status_ok {
        let mut m = String::from_str("Status ");
        m.append(status);
        return (TestResult::fail("initialize", duration_ms, m.as_str()), None);
    }
    match error {
        Some(e) => {
            let mut m = String::from_str("Error: ");
            m.append(e.as_str());
            return (TestResult::fail("initialize", duration_ms, m.as_str()), None);
        },
        None => {},
    }
    match header_session {
        Some(sid) => {
            let mut m = String::from_str("session=");
            m.append(sid.as_str());
            (TestResult::pass("initialize", duration_ms, m.as_str()), Some(sid))
        },
        None => match body_session {
            Some(sid) => {
                let mut m = String::from_str("session=");
                m.append(sid.as_str());
                m.append(" (from body)");
                (TestResult::pass("initialize", duration_ms, m.as_str()), Some(sid))
            },
            None => (TestResult::fail("initialize", duration_ms, "No session ID in header or body"), None),
        },
    }
}

/// The outcome of the tool-list check: failed on an unsuccessful status;
/// passed with the number of tools when the reply lists tools (a list that
/// is no array counts as none); failed otherwise.
pub open spec fn tools_outcome(status_ok: bool, status: Seq<char>, tools: Option<nat>) -> (Seq<char>, bool, Seq<char>) {
    if !status_ok {
        ("tools/list"@, false, "Status "@ + status)
    } else {
        match tools {
            Some(n) => ("tools/list"@, true, decimal_spec(n) + " tools available"@),
            None => ("tools/list"@, false, "No tools in response"@),
        }
    }
}

/// The outcome of the tool-list check (see `tools_outcome`).
pub fn tools_list_result(status_ok: bool, status: &str, duration_ms: u64, tools: Option<usize>) -> (r: TestResult)
    ensures
        result_view(r) == tools_outcome(
            status_ok,
            status@,
            match tools {
                Some(n) => Some(n as nat),
                None => None,
            },
        ),
        r.duration_ms == duration_ms,
{
    if !status_ok {
        let mut m = String::from_str("Status ");
        m.append(status);
        return TestResult::fail("tools/list", duration_ms, m.as_str());
    }
    match tools {
        Some(n) => {
            let mut m = crate::text::decimal(n);
            m.append(" tools available");
            TestResult::pass("tools/list", duration_ms, m.as_str())
        },
        None => TestResult::fail("tools/list", duration_ms, "No tools in response"),
    }
}

/// The report of one check: its status in colour, time and name; then its
/// message when verbose or when it failed.
pub open spec fn result_lines_spec(r: TestResult, verbose: bool) -> Seq<Seq<char>> {
    let head = (if r.passed { "\x1b[32mPASS"@ } else { "\x1b[31mFAIL"@ }) + "\x1b[0m "@ + decimal_spec(r.duration_ms as nat)
        + "ms \u{2014} "@ + r.name@;
    if verbose || !r.passed {
        seq![head, "    "@ + r.message@]
    } else {
        seq![head]
    }
}

/// The report of one check (see `result_lines_spec`).
pub fn result_lines(r: &TestResult, verbose: bool) -> (out: Vec<String>)
    ensures
        out.deep_view() == result_lines_spec(*r, verbose),
{
    let mut head = String::from_str(if r.passed { "\x1b[32mPASS" } else { "\x1b[31mFAIL" });
    head.append("\x1b[0m ");
    let d = crate::text::decimal_u64(r.duration_ms);
    head.append(d.as_str());
    head.append("ms \u{2014} ");
    head.append(r.name.as_str());
    let mut out: Vec<String> = Vec::new();
    out.push(head);
    if verbose || !r.passed {
        let mut m = String::from_str("    ");
        m.append(r.message.as_str());
        out.push(m);
    }
    out
}

/// The number of passed checks.
pub open spec fn passed_count(rs: Seq<TestResult>) -> nat
    decreases rs.len(),
{
    if rs.len() == 0 {
        0
    } else {
        passed_count(rs.drop_last()) + if rs.last().passed { 1nat } else { 0nat }
    }
}

/// The summary of a run: passed checks out of all; the run fails when any
/// check failed.
pub fn summary_line(results: &Vec<TestResult>) -> (r: (String, bool))
    ensures
        r.0@ == "Results: "@ + decimal_spec(passed_count(results@)) + "/"@ + decimal_spec(results@.len()) + " passed"@,
        r.1 == (passed_count(results@) < results@.len()),
{
    let mut passed: usize = 0;
    let mut i: usize = 0;
    while i < results.len()
        invariant
            i <= results@.len(),
            passed == passed_count(results@.take(i as int)),
            passed <= i,
        decreases results@.len() - i,
    {
        assert(results@.take(i as int + 1).drop_last() =~= results@.take(i as int));
        if results[i].passed {
            passed = passed + 1;
        }
        i = i + 1;
    }
    assert(results@.take(i as int) =~= results@);
    let mut s = String::from_str("Results: ");
    let a = crate::text::decimal(passed);
    s.append(a.as_str());
    s.append("/");
    let b = crate::text::decimal(results.len());
    s.append(b.as_str());
    s.append(" passed");
    (s, passed < results.len())
}

/// Runtimes that reach the message server over standard input and output.
pub open spec fn stdio_runtime(runtime: Seq<char>) -> bool {
    runtime == "opencode"@ || runtime == "kimi"@ || runtime == "codex"@ || runtime == "gemini"@
}

/// How an agent's runtime reaches the message server: `stdio` for the
/// runtimes that run it as a child process, `streamable-http` otherwise.
pub fn transport_type(runtime: &str) -> (r: &'static str)
    ensures
        r@ == (if stdio_runtime(runtime@) { "stdio"@ } else { "streamable-http"@ }),
{
    if str_eq(runtime, "opencode") || str_eq(runtime, "kimi") || str_eq(runtime, "codex") || str_eq(runtime, "gemini") {
        "stdio"
    } else {
        "streamable-http"
    }
}

} // verus!

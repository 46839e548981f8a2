//! Reading the observer's log for the fleet metrics: colour codes removed,
//! the wake events picked out of its lines, and what they say of each agent.

use vstd::prelude::*;
use crate::astrolabe::scan::{class_pred, digit_char, exact_at, is_digit, lemma_run_of_bounds, lit_at, run_len, run_of, Class};
use crate::crypto::envelope::{parse_rfc3339, rfc3339_instant};
use crate::fleet::metrics::{div_trunc, extract_tier_from_label, tier_of_line};
use crate::text::{
    contains_spec, contains_str, int_text, int_text_spec, lines, lines_spec, starts_with_str, str_eq, string_of, to_chars,
};

verus! {

/// `s` from `i` on without its colour codes (ESC, `[`, digits and `;`, `m`).
pub open spec fn strip_ansi_from(s: Seq<char>, i: int) -> Seq<char>
    decreases s.len() - i,
{
    if i < 0 || i >= s.len() {
        Seq::empty()
    } else {
        let r = run_of(s, i + 2, class_pred(Class::AnsiParam));
        proof {
            lemma_run_of_bounds(s, i + 2, class_pred(Class::AnsiParam));
        }
        if s[i] == '\x1b' && i + 1 < s.len() && s[i + 1] == '[' && i + 2 + r < s.len() && s[i + 2 + r] == 'm' {
            strip_ansi_from(s, i + 3 + r)
        } else {
            seq![s[i]] + strip_ansi_from(s, i + 1)
        }
    }
}

/// `s` without its colour codes.
pub fn strip_ansi(s: &str) -> (r: String)
    ensures
        r@ == strip_ansi_from(s@, 0),
{
    let v = to_chars(s);
    let len = v.len();
    let mut out: Vec<char> = Vec::new();
    let mut i: usize = 0;
    while i < len
        invariant
            len == v@.len(),
            v@ == s@,
            i <= len,
            out@ + strip_ansi_from(v@, i as int) == strip_ansi_from(v@, 0),
        decreases len - i,
    {
        let mut skip: usize = 0;
        if v[i] == '\x1b' && len - i > 2 && v[i + 1] == '[' {
            let r = run_len(&v, i + 2, Class::AnsiParam);
            if r < len - i - 2 && v[i + 2 + r] == 'm' {
                skip = 3 + r;
            }
        }
        proof {
            let r = run_of(v@, i + 2, class_pred(Class::AnsiParam));
            if i + 2 >= len {
                assert(r == 0);
            }
        }
        if skip > 0 {
            i = i + skip;
        } else {
            let ghost before = out@;
            out.push(v[i]);
            assert(out@ =~= before + seq![v@[i as int]]);
            i = i + 1;
        }
    }
    assert(strip_ansi_from(v@, i as int) =~= Seq::<char>::empty());
    assert(out@ =~= strip_ansi_from(v@, 0));
    string_of(&out, 0, out.len())
}

/// `s` at `i` has the shape of `template`, whose `0`s stand for any digit.
pub open spec fn fits_template(s: Seq<char>, i: int, template: Seq<char>) -> bool {
    &&& 0 <= i
    &&& i + template.len() <= s.len()
    &&& forall|k: int| 0 <= k < template.len() ==> if template[k] == '0' {
        is_digit(#[trigger] s[i + k])
    } else {
        s[i + k] == template[k]
    }
}

/// The length of the UTC timestamp (`YYYY-MM-DDThh:mm:ss.` digits `Z`) at
/// `i` of `s`, or 0 when there is none.
pub open spec fn iso_len_at(s: Seq<char>, i: int) -> int {
    if fits_template(s, i, "0000-00-00T00:00:00."@) {
        let r = run_of(s, i + 20, class_pred(Class::Digit));
        if r > 0 && i + 20 + r < s.len() && s[i + 20 + r] == 'Z' {
            21 + r
        } else {
            0
        }
    } else {
        0
    }
}

/// `i` is the first position of a UTC timestamp in `s`.
pub open spec fn first_iso_at(s: Seq<char>, i: int) -> bool {
    0 <= i && iso_len_at(s, i) > 0 && forall|j: int| 0 <= j < i ==> #[trigger] iso_len_at(s, j) == 0
}

/// The first UTC timestamp written in `s`, if any.
pub open spec fn iso_text_spec(s: Seq<char>) -> Option<Seq<char>> {
    if exists|i: int| first_iso_at(s, i) {
        let i = choose|i: int| first_iso_at(s, i);
        Some(s.subrange(i, i + iso_len_at(s, i)))
    } else {
        None
    }
}

/// The instant of the first UTC timestamp of a line, when there is one and
/// it is a valid date and time.
pub open spec fn line_instant(s: Seq<char>) -> Option<(i64, u32)> {
    match iso_text_spec(s) {
        Some(t) => rfc3339_instant(t),
        None => None,
    }
}

fn fits_template_exec(v: &Vec<char>, i: usize, template: &str) -> (b: bool)
    ensures
        b == fits_template(v@, i as int, template@),
{
    let t = to_chars(template);
    let vlen = v.len();
    if i > vlen || vlen - i < t.len() {
        return false;
    }
    let mut k: usize = 0;
    while k < t.len()
        invariant
            t@ == template@,
            vlen == v@.len(),
            i + t@.len() <= vlen,
            k <= t@.len(),
            forall|m: int| 0 <= m < k ==> if t@[m] == '0' { is_digit(#[trigger] v@[i + m]) } else { v@[i + m] == t@[m] },
        decreases t@.len() - k,
    {
        let c = v[i + k];
        let ok = if t[k] == '0' {
            digit_char(c)
        } else {
            c == t[k]
        };
        if !ok {
            return false;
        }
        k = k + 1;
    }
    true
}

fn iso_len_at_exec(v: &Vec<char>, i: usize) -> (n: usize)
    ensures
        n == iso_len_at(v@, i as int),
{
    proof {
        reveal_strlit("0000-00-00T00:00:00.");
    }
    let vlen = v.len();
    if !fits_template_exec(v, i, "0000-00-00T00:00:00.") {
        return 0;
    }
    assert(i + 20 <= vlen);
    let r = run_len(v, i + 20, Class::Digit);
    if r > 0 && r < v.len() - i - 20 && v[i + 20 + r] == 'Z' {
        21 + r
    } else {
        0
    }
}

/// The instant of the first UTC timestamp of a line (see `line_instant`).
pub fn extract_iso_timestamp(line: &str) -> (r: Option<(i64, u32)>)
    ensures
        r == line_instant(line@),
{
    let v = to_chars(line);
    let mut i: usize = 0;
    while i < v.len()
        invariant
            v@ == line@,
            i <= v@.len(),
            forall|j: int| 0 <= j < i ==> #[trigger] iso_len_at(v@, j) == 0,
        decreases v@.len() - i,
    {
        let n = iso_len_at_exec(&v, i);
        if n > 0 {
            proof {
                assert(first_iso_at(v@, i as int));
                let c = choose|c: int| first_iso_at(v@, c);
                if c < i {
                    assert(iso_len_at(v@, c) == 0);
                } else if c > i {
                    assert(iso_len_at(v@, i as int) == 0);
                }
            }
            let t = string_of(&v, i, i + n);
            return parse_rfc3339(t.as_str());
        }
        i = i + 1;
    }
    proof {
        assert forall|c: int| !first_iso_at(v@, c) by {
            if 0 <= c && iso_len_at(v@, c) > 0 {
                assert(c + 20 <= v@.len());
            }
        }
    }
    None
}

/// The length of the value of `field="value"` (a non-empty value without
/// quotes) at `i` of `s`, or 0 when there is none.
pub open spec fn field_len_at(s: Seq<char>, field: Seq<char>, i: int) -> int {
    let p = field + "=\""@;
    if lit_at(s, p, i) {
        let r = run_of(s, i + p.len(), class_pred(Class::NotQuote));
        if r > 0 && i + p.len() + r < s.len() {
            r
        } else {
            0
        }
    } else {
        0
    }
}

/// `i` is the first position of `field="value"` in `s`.
pub open spec fn first_field_at(s: Seq<char>, field: Seq<char>, i: int) -> bool {
    0 <= i && field_len_at(s, field, i) > 0 && forall|j: int| 0 <= j < i ==> #[trigger] field_len_at(s, field, j) == 0
}

/// The value of the first `field="value"` in `s`.
pub open spec fn field_value_spec(s: Seq<char>, field: Seq<char>) -> Option<Seq<char>> {
    if exists|i: int| first_field_at(s, field, i) {
        let i = choose|i: int| first_field_at(s, field, i);
        let start = i + field.len() + 2;
        Some(s.subrange(start, start + field_len_at(s, field, i)))
    } else {
        None
    }
}

/// The value of the first `field="value"` in `line` (see `field_value_spec`).
pub fn extract_field(line: &str, field: &str) -> (r: Option<String>)
    ensures
        match r {
            Some(x) => field_value_spec(line@, field@) == Some(x@),
            None => field_value_spec(line@, field@) is None,
        },
{
    let v = to_chars(line);
    let mut pat = String::from_str(field);
    pat.append("=\"");
    let pv = to_chars(pat.as_str());
    let plen = pv.len();
    proof {
        reveal_strlit("=\"");
    }
    let mut i: usize = 0;
    while i < v.len()
        invariant
            v@ == line@,
            pv@ == field@ + "=\""@,
            pat@ == field@ + "=\""@,
            plen == pv@.len(),
            plen == field@.len() + 2,
            i <= v@.len(),
            forall|j: int| 0 <= j < i ==> #[trigger] field_len_at(v@, field@, j) == 0,
        decreases v@.len() - i,
    {
        let mut n: usize = 0;
        if plen <= v.len() - i && exact_at(&v, i, pat.as_str()) {
            let r = run_len(&v, i + plen, Class::NotQuote);
            if r > 0 && r < v.len() - i - plen {
                n = r;
            }
        }
        proof {
            if !(plen <= v@.len() - i) {
                assert(!lit_at(v@, pv@, i as int));
            }
        }
        assert(n as int == field_len_at(v@, field@, i as int));
        if n > 0 {
            proof {
                assert(first_field_at(v@, field@, i as int));
                let c = choose|c: int| first_field_at(v@, field@, c);
                if c < i {
                    assert(field_len_at(v@, field@, c) == 0);
                } else if c > i {
                    assert(field_len_at(v@, field@, i as int) == 0);
                }
            }
            return Some(string_of(&v, i + plen, i + plen + n));
        }
        i = i + 1;
    }
    proof {
        assert forall|c: int| !first_field_at(v@, field@, c) by {
            if 0 <= c && field_len_at(v@, field@, c) > 0 {
                assert(c + field@.len() + 2 <= v@.len());
            }
        }
    }
    None
}

/// The kind of an observer event.
#[derive(Debug, Clone, Copy, PartialEq, Eq, Structural)]
pub enum WakeEvent {
    /// The agent was woken.
    Wake,
    /// The agent has unread messages and is to be woken.
    PendingWake,
    /// Waking the agent failed.
    WakeFailed,
}

/// The name of an event kind in the metrics.
pub fn wake_event_name(e: WakeEvent) -> (r: &'static str)
    ensures
        r@ == match e {
            WakeEvent::Wake => "wake"@,
            WakeEvent::PendingWake => "pending_wake"@,
            WakeEvent::WakeFailed => "wake_failed"@,
        },
{
    match e {
        WakeEvent::Wake => "wake",
        WakeEvent::PendingWake => "pending_wake",
        WakeEvent::WakeFailed => "wake_failed",
    }
}

/// An event read from the observer's log.
#[derive(Debug)]
pub struct ObserverEntry {
    pub timestamp: (i64, u32),
    pub agent: String,
    pub event: WakeEvent,
    pub success: bool,
    pub tier: Option<u8>,
}

/// The event a log line records, as (instant, agent, kind, success, tier):
/// with its colour codes removed, a line that says `woke successfully`, `has
/// unread messages`, or `no cmux workspace found` / `failed to wake` (the
/// first of these that it says) records an event when it has a valid UTC
/// timestamp and an `agent="..."` field.
pub open spec fn observer_event_of(line: Seq<char>) -> Option<((i64, u32), Seq<char>, WakeEvent, bool, Option<u8>)> {
    let l = strip_ansi_from(line, 0);
    let kind: Option<(WakeEvent, bool, Option<u8>)> = if contains_spec(l, "woke successfully"@) {
        Some((WakeEvent::Wake, true, None))
    } else if contains_spec(l, "has unread messages"@) {
        Some((WakeEvent::PendingWake, false, tier_of_line(l)))
    } else if contains_spec(l, "no cmux workspace found"@) || contains_spec(l, "failed to wake"@) {
        Some((WakeEvent::WakeFailed, false, None))
    } else {
        None
    };
    match kind {
        None => None,
        Some((e, ok, tier)) => match (line_instant(l), field_value_spec(l, "agent"@)) {
            (Some(t), Some(a)) => Some((t, a, e, ok, tier)),
            _ => None,
        },
    }
}

/// An entry as plain values.
pub open spec fn entry_view(e: ObserverEntry) -> ((i64, u32), Seq<char>, WakeEvent, bool, Option<u8>) {
    (e.timestamp, e.agent@, e.event, e.success, e.tier)
}

/// The event a log line records (see `observer_event_of`).
pub fn parse_observer_line(line: &str) -> (r: Option<ObserverEntry>)
    ensures
        match r {
            Some(e) => observer_event_of(line@) == Some(entry_view(e)),
            None => observer_event_of(line@) is None,
        },
{
    let l = strip_ansi(line);
    let ls = l.as_str();
    let (event, success, tier) = if contains_str(ls, "woke successfully") {
        (WakeEvent::Wake, true, None)
    } else if contains_str(ls, "has unread messages") {
        (WakeEvent::PendingWake, false, extract_tier_from_label(ls))
    } else if contains_str(ls, "no cmux workspace found") || contains_str(ls, "failed to wake") {
        (WakeEvent::WakeFailed, false, None)
    } else {
        return None;
    };
    let timestamp = match extract_iso_timestamp(ls) {
        Some(t) => t,
        None => {
            return None;
        },
    };
    let agent = match extract_field(ls, "agent") {
        Some(a) => a,
        None => {
            return None;
        },
    };
    Some(ObserverEntry { timestamp, agent, event, success, tier })
}

/// The events of the observer's log: those of its lines that mention the
/// observer.
pub open spec fn log_events(lines: Seq<Seq<char>>) -> Seq<((i64, u32), Seq<char>, WakeEvent, bool, Option<u8>)>
    decreases lines.len(),
{
    if lines.len() == 0 {
        Seq::empty()
    } else {
        let rest = log_events(lines.drop_last());
        let l = lines.last();
        if contains_spec(l, "observer"@) || contains_spec(l, "council_observer"@) {
            match observer_event_of(l) {
                Some(e) => rest.push(e),
                None => rest,
            }
        } else {
            rest
        }
    }
}

/// The events of the observer's log `content` (see `log_events`).
pub fn parse_observer_log(content: &str) -> (r: Vec<ObserverEntry>)
    ensures
        r@.map_values(|e: ObserverEntry| entry_view(e)) == log_events(lines_spec(content@)),
{
    let ls = lines(content);
    let ghost all = ls.deep_view();
    let mut out: Vec<ObserverEntry> = Vec::new();
    let mut i: usize = 0;
    while i < ls.len()
        invariant
            all == ls.deep_view(),
            all == lines_spec(content@),
            i <= all.len(),
            out@.map_values(|e: ObserverEntry| entry_view(e)) == log_events(all.take(i as int)),
        decreases all.len() - i,
    {
        let l = ls[i].as_str();
        assert(all[i as int] == l@);
        assert(all.take(i as int + 1).drop_last() =~= all.take(i as int));
        if contains_str(l, "observer") || contains_str(l, "council_observer") {
            match parse_observer_line(l) {
                Some(e) => {
                    let ghost before = out@.map_values(|e: ObserverEntry| entry_view(e));
                    out.push(e);
                    assert(out@.map_values(|e: ObserverEntry| entry_view(e)) =~= before.push(entry_view(e)));
                },
                None => {},
            }
        }
        i = i + 1;
    }
    assert(all.take(i as int) =~= all);
    out
}

/// The wakes of `agent` among `events`: how many succeeded and how many
/// were tried (wakes and failed wakes).
pub open spec fn wake_counts(events: Seq<((i64, u32), Seq<char>, WakeEvent, bool, Option<u8>)>, agent: Seq<char>) -> (nat, nat)
    decreases events.len(),
{
    if events.len() == 0 {
        (0, 0)
    } else {
        let (s, t) = wake_counts(events.drop_last(), agent);
        let e = events.last();
        if e.1 == agent && (e.2 == WakeEvent::Wake || e.2 == WakeEvent::WakeFailed) {
            (if e.3 { s + 1 } else { s }, t + 1)
        } else {
            (s, t)
        }
    }
}

proof fn lemma_wake_counts_bounded(events: Seq<((i64, u32), Seq<char>, WakeEvent, bool, Option<u8>)>, agent: Seq<char>)
    ensures
        wake_counts(events, agent).0 <= wake_counts(events, agent).1 <= events.len(),
    decreases events.len(),
{
    if events.len() > 0 {
        lemma_wake_counts_bounded(events.drop_last(), agent);
    }
}

/// The wakes of `agent` in the log: (succeeded, tried).
pub fn wake_stats(entries: &Vec<ObserverEntry>, agent: &str) -> (r: (usize, usize))
    ensures
        (r.0 as nat, r.1 as nat) == wake_counts(entries@.map_values(|e: ObserverEntry| entry_view(e)), agent@),
{
    let ghost evs = entries@.map_values(|e: ObserverEntry| entry_view(e));
    let mut ok: usize = 0;
    let mut tried: usize = 0;
    let mut i: usize = 0;
    while i < entries.len()
        invariant
            evs == entries@.map_values(|e: ObserverEntry| entry_view(e)),
            i <= entries@.len(),
            (ok as nat, tried as nat) == wake_counts(evs.take(i as int), agent@),
        decreases entries@.len() - i,
    {
        proof {
            assert(evs.take(i as int + 1).drop_last() =~= evs.take(i as int));
            lemma_wake_counts_bounded(evs.take(i as int), agent@);
        }
        let e = &entries[i];
        if str_eq(e.agent.as_str(), agent) && (e.event == WakeEvent::Wake || e.event == WakeEvent::WakeFailed) {
            if e.success {
                ok = ok + 1;
            }
            tried = tried + 1;
        }
        i = i + 1;
    }
    assert(evs.take(i as int) =~= evs);
    (ok, tried)
}

/// The instant of the last event of `agent`, if any.
pub open spec fn last_event_of(events: Seq<((i64, u32), Seq<char>, WakeEvent, bool, Option<u8>)>, agent: Seq<char>) -> Option<(i64, u32)>
    decreases events.len(),
{
    if events.len() == 0 {
        None
    } else if events.last().1 == agent {
        Some(events.last().0)
    } else {
        last_event_of(events.drop_last(), agent)
    }
}

/// The instant of the last event of `agent` in the log.
pub fn last_active(entries: &Vec<ObserverEntry>, agent: &str) -> (r: Option<(i64, u32)>)
    ensures
        r == last_event_of(entries@.map_values(|e: ObserverEntry| entry_view(e)), agent@),
{
    let ghost evs = entries@.map_values(|e: ObserverEntry| entry_view(e));
    let mut i: usize = entries.len();
    assert(evs.take(i as int) =~= evs);
    while i > 0
        invariant
            evs == entries@.map_values(|e: ObserverEntry| entry_view(e)),
            i <= entries@.len(),
            last_event_of(evs, agent@) == last_event_of(evs.take(i as int), agent@),
        decreases i,
    {
        assert(evs.take(i as int).drop_last() =~= evs.take(i - 1));
        if str_eq(entries[i - 1].agent.as_str(), agent) {
            return Some(entries[i - 1].timestamp);
        }
        i = i - 1;
    }
    None
}

/// The status a health check reports, as the metrics name it.
pub fn service_status(check_status: &str) -> (r: String)
    ensures
        r@ == if check_status@ == "ok"@ {
            "healthy"@
        } else if check_status@ == "degraded"@ {
            "degraded"@
        } else if check_status@ == "error"@ {
            "down"@
        } else {
            check_status@
        },
{
    if str_eq(check_status, "ok") {
        String::from_str("healthy")
    } else if str_eq(check_status, "degraded") {
        String::from_str("degraded")
    } else if str_eq(check_status, "error") {
        String::from_str("down")
    } else {
        String::from_str(check_status)
    }
}

/// `s` without every leading `p`.
pub open spec fn strip_leading(s: Seq<char>, p: Seq<char>) -> Seq<char>
    decreases s.len(),
{
    if p.len() > 0 && s.len() >= p.len() && s.take(p.len() as int) == p {
        strip_leading(s.skip(p.len() as int), p)
    } else {
        s
    }
}

/// `s` without every trailing `p`.
pub open spec fn strip_trailing(s: Seq<char>, p: Seq<char>) -> Seq<char>
    decreases s.len(),
{
    if p.len() > 0 && s.len() >= p.len() && s.skip(s.len() - p.len()) == p {
        strip_trailing(s.take(s.len() - p.len()), p)
    } else {
        s
    }
}

/// The agent a handoff file is named after: `last-handoff-<agent>.json`,
/// with every leading `last-handoff-` and trailing `.json` removed.
pub open spec fn handoff_agent_spec(name: Seq<char>) -> Option<Seq<char>> {
    if name.len() >= 13 && name.take(13) == "last-handoff-"@ && name.len() >= 5 && name.skip(name.len() - 5) == ".json"@ {
        Some(strip_trailing(strip_leading(name, "last-handoff-"@), ".json"@))
    } else {
        None
    }
}

fn strip_leading_exec(v: &Vec<char>, p: &Vec<char>) -> (r: usize)
    requires
        p@.len() > 0,
    ensures
        r <= v@.len(),
        strip_leading(v@, p@) == v@.skip(r as int),
{
    let mut i: usize = 0;
    assert(v@.skip(0) =~= v@);
    while p.len() <= v.len() - i && crate::astrolabe::scan::lit_at_exec(v, p, i)
        invariant
            p@.len() > 0,
            i <= v@.len(),
            strip_leading(v@.skip(i as int), p@) == strip_leading(v@, p@),
        decreases v@.len() - i,
    {
        let ghost w = v@.skip(i as int);
        assert forall|k: int| 0 <= k < p@.len() implies w.take(p@.len() as int)[k] == p@[k] by {
            assert(v@[i + k] == p@[k]);
        }
        assert(w.take(p@.len() as int) =~= p@);
        assert(w.skip(p@.len() as int) =~= v@.skip(i + p@.len()));
        i = i + p.len();
    }
    proof {
        let w = v@.skip(i as int);
        if w.len() >= p@.len() && w.take(p@.len() as int) == p@ {
            assert(lit_at(v@, p@, i as int)) by {
                assert forall|k: int| 0 <= k < p@.len() implies v@[i + k] == p@[k] by {
                    assert(w.take(p@.len() as int)[k] == w[k]);
                }
            }
        }
    }
    i
}

fn strip_trailing_exec(v: &Vec<char>, from: usize, p: &Vec<char>) -> (r: usize)
    requires
        p@.len() > 0,
        from <= v@.len(),
    ensures
        from <= r <= v@.len(),
        strip_trailing(v@.subrange(from as int, v@.len() as int), p@) == v@.subrange(from as int, r as int),
{
    let mut end: usize = v.len();
    while end - from >= p.len() && crate::astrolabe::scan::lit_at_exec(v, p, end - p.len())
        invariant
            p@.len() > 0,
            from <= end <= v@.len(),
            strip_trailing(v@.subrange(from as int, end as int), p@) == strip_trailing(
                v@.subrange(from as int, v@.len() as int),
                p@,
            ),
        decreases end,
    {
        let ghost w = v@.subrange(from as int, end as int);
        let ghost st = (end - p@.len()) as int;
        assert forall|k: int| 0 <= k < p@.len() implies w.skip(w.len() - p@.len())[k] == p@[k] by {
            assert(v@[st + k] == p@[k]);
        }
        assert(w.skip(w.len() - p@.len()) =~= p@);
        assert(w.take(w.len() - p@.len()) =~= v@.subrange(from as int, end - p@.len()));
        end = end - p.len();
    }
    proof {
        let w = v@.subrange(from as int, end as int);
        if w.len() >= p@.len() && w.skip(w.len() - p@.len()) == p@ {
            assert(lit_at(v@, p@, end - p@.len())) by {
                assert forall|k: int| 0 <= k < p@.len() implies v@[end - p@.len() + k] == p@[k] by {
                    assert(w.skip(w.len() - p@.len())[k] == w[w.len() - p@.len() + k]);
                }
            }
        }
    }
    end
}

/// The agent a handoff file is named after (see `handoff_agent_spec`).
pub fn handoff_agent(name: &str) -> (r: Option<String>)
    ensures
        match r {
            Some(a) => handoff_agent_spec(name@) == Some(a@),
            None => handoff_agent_spec(name@) is None,
        },
{
    proof {
        reveal_strlit("last-handoff-");
        reveal_strlit(".json");
    }
    let v = to_chars(name);
    let pre = to_chars("last-handoff-");
    let suf = to_chars(".json");
    let starts = v.len() >= 13 && crate::astrolabe::scan::lit_at_exec(&v, &pre, 0);
    let ends = v.len() >= 5 && crate::astrolabe::scan::lit_at_exec(&v, &suf, v.len() - 5);
    proof {
        if v@.len() >= 13 {
            if lit_at(v@, pre@, 0) {
                assert forall|k: int| 0 <= k < 13 implies v@.take(13)[k] == pre@[k] by {
                    assert(v@[0 + k] == pre@[k]);
                }
                assert(v@.take(13) =~= pre@);
            } else if v@.take(13) == pre@ {
                assert forall|k: int| 0 <= k < 13 implies v@[k] == pre@[k] by {
                    assert(v@.take(13)[k] == v@[k]);
                }
            }
        }
        if v@.len() >= 5 {
            if lit_at(v@, suf@, v@.len() - 5) {
                let st = v@.len() - 5;
                assert forall|k: int| 0 <= k < 5 implies v@.skip(st)[k] == suf@[k] by {
                    assert(v@[st + k] == suf@[k]);
                }
                assert(v@.skip(v@.len() - 5) =~= suf@);
            } else if v@.skip(v@.len() - 5) == suf@ {
                assert forall|k: int| 0 <= k < 5 implies v@[v@.len() - 5 + k] == suf@[k] by {
                    assert(v@.skip(v@.len() - 5)[k] == v@[v@.len() - 5 + k]);
                }
            }
        }
    }
    if !(starts && ends) {
        return None;
    }
    let a = strip_leading_exec(&v, &pre);
    let b = strip_trailing_exec(&v, a, &suf);
    assert(v@.subrange(a as int, v@.len() as int) =~= v@.skip(a as int));
    Some(string_of(&v, a, b))
}

/// How long ago something was, given the seconds since: just now (under a
/// minute), whole minutes (under an hour), hours (under a day), or days.
pub open spec fn ago_text(secs: int) -> Seq<char> {
    let minutes = div_trunc(secs, 60);
    let hours = div_trunc(secs, 3600);
    if minutes < 1 {
        "just now"@
    } else if minutes < 60 {
        int_text_spec(minutes) + "m ago"@
    } else if hours < 24 {
        int_text_spec(hours) + "h ago"@
    } else {
        int_text_spec(div_trunc(secs, 86400)) + "d ago"@
    }
}

/// How long ago something was (see `ago_text`).
pub fn format_ago(secs: i64) -> (r: String)
    ensures
        r@ == ago_text(secs as int),
{
    if secs < 60 {
        return String::from_str("just now");
    }
    let minutes = secs / 60;
    let hours = secs / 3600;
    if minutes < 60 {
        let mut r = int_text(minutes);
        r.append("m ago");
        r
    } else if hours < 24 {
        let mut r = int_text(hours);
        r.append("h ago");
        r
    } else {
        let mut r = int_text(secs / 86400);
        r.append("d ago");
        r
    }
}

/// The fleet's totals from each agent's (connected, wake attempts): those
/// connected, those dormant (never tried), those in error (tried, not
/// connected).
pub open spec fn fleet_totals(agents: Seq<(bool, u32)>) -> (nat, nat, nat)
    decreases agents.len(),
{
    if agents.len() == 0 {
        (0, 0, 0)
    } else {
        let (a, d, e) = fleet_totals(agents.drop_last());
        let x = agents.last();
        if x.0 {
            (a + 1, d, e)
        } else if x.1 == 0 {
            (a, d + 1, e)
        } else {
            (a, d, e + 1)
        }
    }
}

proof fn lemma_fleet_totals_bounded(agents: Seq<(bool, u32)>)
    ensures
        fleet_totals(agents).0 + fleet_totals(agents).1 + fleet_totals(agents).2 == agents.len(),
    decreases agents.len(),
{
    if agents.len() > 0 {
        lemma_fleet_totals_bounded(agents.drop_last());
    }
}

/// The fleet's totals (see `fleet_totals`): (active, dormant, error).
pub fn count_fleet(agents: &Vec<(bool, u32)>) -> (r: (usize, usize, usize))
    ensures
        (r.0 as nat, r.1 as nat, r.2 as nat) == fleet_totals(agents@),
{
    let mut a: usize = 0;
    let mut d: usize = 0;
    let mut e: usize = 0;
    let mut i: usize = 0;
    while i < agents.len()
        invariant
            i <= agents@.len(),
            (a as nat, d as nat, e as nat) == fleet_totals(agents@.take(i as int)),
        decreases agents@.len() - i,
    {
        proof {
            assert(agents@.take(i as int + 1).drop_last() =~= agents@.take(i as int));
            lemma_fleet_totals_bounded(agents@.take(i as int));
        }
        let x = agents[i];
        if x.0 {
            a = a + 1;
        } else if x.1 == 0 {
            d = d + 1;
        } else {
            e = e + 1;
        }
        i = i + 1;
    }
    assert(agents@.take(i as int) =~= agents@);
    (a, d, e)
}

} // verus!

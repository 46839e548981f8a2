//! The CVE sweep's reading of its sources: the neocloud providers' status
//! pages, Hacker News and GitHub advisories, the RustSec feed, and OSV
//! records.

use vstd::prelude::*;
use crate::astrolabe::atom::{next_xml_event, trim_xml_text, xml_events, xml_reader, XmlEvent};
use crate::astrolabe::scan::ascii_lower;
use crate::astrolabe::web::{strip_tags, strip_tags_from};
use crate::db::persistence::{first_of_each, latest_per_agent};
use crate::events::schema::Timestamp;
use crate::fleet::oracle::{percent_encoded, url_encode};
use crate::text::{
    contains_spec, contains_str, int_text, int_text_spec, lowercase_spec, starts_with_str, str_eq, string_of, to_chars,
    to_lowercase, trim, trim_spec,
};
use vstd::utf8::encode_utf8;

verus! {

/// The state a status page (lower-cased) reports: the first phrase it holds
/// among those of each state, in this order.
pub open spec fn status_state_of(lower: Seq<char>) -> Seq<char> {
    if contains_spec(lower, "all systems operational"@) || contains_spec(lower, "all services are online"@) {
        "operational"@
    } else if contains_spec(lower, "major outage"@) || contains_spec(lower, "service disruption"@) {
        "major-outage"@
    } else if contains_spec(lower, "degraded"@) {
        "degraded"@
    } else if contains_spec(lower, "partial outage"@) || contains_spec(lower, "minor"@) {
        "partial-outage"@
    } else if contains_spec(lower, "maintenance"@) {
        "maintenance"@
    } else {
        "check-manually"@
    }
}

/// The state a status page reports (see `status_state_of`), of its
/// lower-case form.
pub fn status_page_state(page: &str) -> (r: &'static str)
    ensures
        r@ == status_state_of(lowercase_spec(page@)),
{
    let lower = to_lowercase(page);
    let l = lower.as_str();
    if contains_str(l, "all systems operational") || contains_str(l, "all services are online") {
        "operational"
    } else if contains_str(l, "major outage") || contains_str(l, "service disruption") {
        "major-outage"
    } else if contains_str(l, "degraded") {
        "degraded"
    } else if contains_str(l, "partial outage") || contains_str(l, "minor") {
        "partial-outage"
    } else if contains_str(l, "maintenance") {
        "maintenance"
    } else {
        "check-manually"
    }
}

/// A provider's alert level: a warning when its status page shows a major
/// outage or degradation, or any Hacker News or advisory hit was found; an
/// alert when that holds of a provider in active use; clear otherwise.
pub open spec fn alert_level_of(status: Seq<char>, hn_hits: nat, ghsa_hits: nat, active: bool) -> Seq<char> {
    let warning = status == "major-outage"@ || status == "degraded"@ || hn_hits > 0 || ghsa_hits > 0;
    if warning && active {
        "alert"@
    } else if warning {
        "warning"@
    } else {
        "clear"@
    }
}

/// A provider's alert level (see `alert_level_of`).
pub fn neocloud_alert_level(status: &str, hn_hits: usize, ghsa_hits: usize, active: bool) -> (r: &'static str)
    ensures
        r@ == alert_level_of(status@, hn_hits as nat, ghsa_hits as nat, active),
{
    let warning = str_eq(status, "major-outage") || str_eq(status, "degraded") || hn_hits > 0 || ghsa_hits > 0;
    if warning && active {
        "alert"
    } else if warning {
        "warning"
    } else {
        "clear"
    }
}

/// How an alert level is flagged in the report.
pub fn alert_tag(level: &str) -> (r: &'static str)
    ensures
        r@ == if level@ == "alert"@ {
            " *** ALERT ***"@
        } else if level@ == "warning"@ {
            " * WARNING *"@
        } else {
            ""@
        },
{
    if str_eq(level, "alert") {
        " *** ALERT ***"
    } else if str_eq(level, "warning") {
        " * WARNING *"
    } else {
        ""
    }
}

/// The Hacker News search for stories of the last day (`cutoff`, Unix
/// seconds) about `keyword` and `term`.
pub open spec fn hn_search_url_spec(keyword: Seq<char>, term: Seq<char>, cutoff: i64) -> Seq<char> {
    "https://hn.algolia.com/api/v1/search_by_date?query="@ + percent_encoded(encode_utf8(keyword + " "@ + term))
        + "&tags=story&numericFilters=created_at_i>"@ + int_text_spec(cutoff as int)
}

/// The Hacker News search for `keyword` and `term` since `cutoff`.
pub fn hn_search_url(keyword: &str, term: &str, cutoff: i64) -> (r: String)
    ensures
        r@ == hn_search_url_spec(keyword@, term@, cutoff),
{
    let mut q = String::from_str(keyword);
    q.append(" ");
    q.append(term);
    let enc = url_encode(q.as_str());
    let mut r = String::from_str("https://hn.algolia.com/api/v1/search_by_date?query=");
    r.append(enc.as_str());
    r.append("&tags=story&numericFilters=created_at_i>");
    let c = int_text(cutoff);
    r.append(c.as_str());
    r
}

/// The page of a Hacker News item.
pub fn hn_item_url(object_id: &str) -> (r: String)
    ensures
        r@ == "https://news.ycombinator.com/item?id="@ + object_id@,
{
    let mut r = String::from_str("https://news.ycombinator.com/item?id=");
    r.append(object_id);
    r
}

/// The first `n` characters of `s` (all of it when shorter).
pub fn first_chars(s: &str, n: usize) -> (r: String)
    ensures
        r@ == if s@.len() <= n { s@ } else { s@.take(n as int) },
{
    let v = to_chars(s);
    if v.len() <= n {
        string_of(&v, 0, v.len())
    } else {
        string_of(&v, 0, n)
    }
}

/// The positions of the first of each title (later repeats are dropped).
pub fn distinct_titles(titles: &Vec<String>) -> (r: Vec<usize>)
    ensures
        r@.map_values(|i: usize| i as int) == first_of_each(titles.deep_view()),
{
    latest_per_agent(titles)
}

/// `a` and `b` are equal but for ASCII case.
pub open spec fn same_ignoring_ascii_case(a: Seq<char>, b: Seq<char>) -> bool {
    a.len() == b.len() && forall|i: int| 0 <= i < a.len() ==> ascii_lower(#[trigger] a[i]) == ascii_lower(b[i])
}

fn ascii_lower_exec(c: char) -> (r: char)
    ensures
        r == ascii_lower(c),
{
    if 'A' <= c && c <= 'Z' {
        ((c as u8) + 32) as char
    } else {
        c
    }
}

fn eq_ignore_ascii_case(a: &str, b: &str) -> (r: bool)
    ensures
        r == same_ignoring_ascii_case(a@, b@),
{
    let x = to_chars(a);
    let y = to_chars(b);
    if x.len() != y.len() {
        return false;
    }
    let mut i: usize = 0;
    while i < x.len()
        invariant
            x@ == a@,
            y@ == b@,
            x@.len() == y@.len(),
            i <= x@.len(),
            forall|j: int| 0 <= j < i ==> ascii_lower(#[trigger] x@[j]) == ascii_lower(y@[j]),
        decreases x@.len() - i,
    {
        if ascii_lower_exec(x[i]) != ascii_lower_exec(y[i]) {
            return false;
        }
        i = i + 1;
    }
    true
}

/// An advisory concerns a provider's package when it is not withdrawn and
/// one of its vulnerable packages has the package's name (ASCII case
/// ignored), or its summary (lower-cased) names the package (lower-cased).
pub open spec fn advisory_concerns(withdrawn: bool, names: Seq<Seq<char>>, summary: Seq<char>, package: Seq<char>) -> bool {
    &&& !withdrawn
    &&& (exists|i: int| 0 <= i < names.len() && same_ignoring_ascii_case(#[trigger] names[i], package)) || contains_spec(
        lowercase_spec(summary),
        lowercase_spec(package),
    )
}

/// Whether an advisory concerns a provider's package (see `advisory_concerns`).
pub fn advisory_matches(withdrawn: bool, package_names: &Vec<String>, summary: &str, package: &str) -> (b: bool)
    ensures
        b == advisory_concerns(withdrawn, package_names.deep_view(), summary@, package@),
{
    if withdrawn {
        return false;
    }
    let ghost names = package_names.deep_view();
    let mut i: usize = 0;
    while i < package_names.len()
        invariant
            names == package_names.deep_view(),
            !withdrawn,
            i <= names.len(),
            forall|j: int| 0 <= j < i ==> !same_ignoring_ascii_case(#[trigger] names[j], package@),
        decreases names.len() - i,
    {
        assert(names[i as int] == package_names@[i as int]@);
        if eq_ignore_ascii_case(package_names[i].as_str(), package) {
            return true;
        }
        i = i + 1;
    }
    let s = to_lowercase(summary);
    let p = to_lowercase(package);
    contains_str(s.as_str(), p.as_str())
}

/// An advisory goes to the NATS channel when its source location
/// (lower-cased) is the NATS server's repository or its text (lower-cased)
/// mentions NATS.
pub fn is_nats_notice(source_location: &str, text: &str) -> (b: bool)
    ensures
        b == (contains_spec(lowercase_spec(source_location@), "github.com/nats-io/nats-server"@) || contains_spec(
            lowercase_spec(text@),
            "nats"@,
        )),
{
    let s = to_lowercase(source_location);
    let t = to_lowercase(text);
    contains_str(s.as_str(), "github.com/nats-io/nats-server") || contains_str(t.as_str(), "nats")
}

/// The first alias of an OSV record that is a CVE id.
pub open spec fn first_cve_alias_spec(aliases: Seq<Seq<char>>) -> Option<Seq<char>>
    decreases aliases.len(),
{
    if aliases.len() == 0 {
        None
    } else if aliases[0].len() >= 4 && aliases[0].take(4) == "CVE-"@ {
        Some(aliases[0])
    } else {
        first_cve_alias_spec(aliases.drop_first())
    }
}

/// The first alias of an OSV record that is a CVE id (see `first_cve_alias_spec`).
pub fn first_cve_alias(aliases: &Vec<String>) -> (r: Option<String>)
    ensures
        match r {
            Some(a) => first_cve_alias_spec(aliases.deep_view()) == Some(a@),
            None => first_cve_alias_spec(aliases.deep_view()) is None,
        },
{
    let ghost s = aliases.deep_view();
    assert(s.skip(0) =~= s);
    let mut i: usize = 0;
    while i < aliases.len()
        invariant
            s == aliases.deep_view(),
            i <= s.len(),
            first_cve_alias_spec(s.skip(i as int)) == first_cve_alias_spec(s),
        decreases s.len() - i,
    {
        assert(s.skip(i as int)[0] == aliases@[i as int]@);
        assert(s.skip(i as int).drop_first() =~= s.skip(i + 1));
        proof {
            reveal_strlit("CVE-");
        }
        if starts_with_str(aliases[i].as_str(), "CVE-") {
            return Some(aliases[i].clone());
        }
        i = i + 1;
    }
    assert(s.skip(i as int) =~= Seq::<Seq<char>>::empty());
    None
}

/// The instant an RFC 2822 date gives, as whole seconds since the epoch and
/// nanoseconds, when the text is such a date.
pub uninterp spec fn rfc2822_instant(text: Seq<char>) -> Option<(i64, u32)>;

/// `DateTime::parse_from_rfc2822`: the instant of the date, when `text` is
/// an RFC 2822 date.
#[verifier::external_body]
fn parse_rfc2822(text: &str) -> (r: Option<(i64, u32)>)
    ensures
        r == rfc2822_instant(text@),
{
    chrono::DateTime::parse_from_rfc2822(text).ok().map(|d| (d.timestamp(), d.timestamp_subsec_nanos()))
}

/// An item is recent when its date is empty, is no RFC 2822 date, or is not
/// before `start`.
pub open spec fn recent(published: Seq<char>, start: Timestamp) -> bool {
    published.len() == 0 || match rfc2822_instant(published) {
        None => true,
        Some((s, n)) => s > start.secs || (s == start.secs && n >= start.nanos),
    }
}

/// A RustSec advisory as the report lists it.
#[derive(Debug, Clone)]
pub struct RustsecEntry {
    pub title: String,
    pub link: String,
    pub published: String,
    pub summary: String,
}

/// The state of reading the RustSec feed.
pub struct FeedState {
    pub in_item: bool,
    pub tag: Seq<char>,
    pub title: Seq<char>,
    pub link: Seq<char>,
    pub published: Seq<char>,
    pub description: Seq<char>,
    pub entries: Seq<(Seq<char>, Seq<char>, Seq<char>, Seq<char>)>,
}

/// The state before the first event.
pub open spec fn feed_start() -> FeedState {
    FeedState {
        in_item: false,
        tag: Seq::empty(),
        title: Seq::empty(),
        link: Seq::empty(),
        published: Seq::empty(),
        description: Seq::empty(),
        entries: Seq::empty(),
    }
}

/// What one event does to the state, and whether reading goes on: an `item`
/// start opens a fresh item; inside an item, start tags name the current
/// element, whose text adds to the title, link, date or description; an
/// `item` end keeps an item that has a title and is recent (see `recent`),
/// trimmed, with its description's tags stripped. The end of the document
/// and errors stop the reading.
pub open spec fn feed_step(st: FeedState, ev: XmlEvent, start: Timestamp) -> (FeedState, bool) {
    match ev {
        XmlEvent::Start(n) => {
            let fresh = if n@ == "item"@ {
                FeedState {
                    in_item: true,
                    title: Seq::empty(),
                    link: Seq::empty(),
                    published: Seq::empty(),
                    description: Seq::empty(),
                    ..st
                }
            } else {
                st
            };
            (if fresh.in_item { FeedState { tag: n@, ..fresh } } else { fresh }, true)
        },
        XmlEvent::Text(x) => {
            if !st.in_item {
                (st, true)
            } else if st.tag == "title"@ {
                (FeedState { title: st.title + x@, ..st }, true)
            } else if st.tag == "link"@ {
                (FeedState { link: st.link + x@, ..st }, true)
            } else if st.tag == "pubDate"@ {
                (FeedState { published: st.published + x@, ..st }, true)
            } else if st.tag == "description"@ {
                (FeedState { description: st.description + x@, ..st }, true)
            } else {
                (st, true)
            }
        },
        XmlEvent::End(n) => {
            if n@ == "item"@ && st.in_item {
                let entries = if st.title.len() > 0 && recent(st.published, start) {
                    st.entries.push(
                        (
                            trim_spec(st.title),
                            trim_spec(st.link),
                            trim_spec(st.published),
                            trim_spec(strip_tags_from(st.description, 0)),
                        ),
                    )
                } else {
                    st.entries
                };
                (FeedState { in_item: false, entries, ..st }, true)
            } else {
                (st, true)
            }
        },
        XmlEvent::Eof => (st, false),
        XmlEvent::Error(_) => (st, false),
        _ => (st, true),
    }
}

/// The state after the events `evs`, when each of them lets reading go on.
pub open spec fn feed_prefix(evs: Seq<XmlEvent>, start: Timestamp) -> Option<FeedState>
    decreases evs.len(),
{
    if evs.len() == 0 {
        Some(feed_start())
    } else {
        match feed_prefix(evs.drop_last(), start) {
            Some(s) => {
                let (s2, go) = feed_step(s, evs.last(), start);
                if go {
                    Some(s2)
                } else {
                    None
                }
            },
            None => None,
        }
    }
}

/// The items read from the events `evs[i..]`, from the state `st`, in
/// order until one stops the reading (running out of events stops it too).
pub open spec fn feed_run(evs: Seq<XmlEvent>, i: int, st: FeedState, start: Timestamp) -> Seq<(Seq<char>, Seq<char>, Seq<char>, Seq<char>)>
    decreases evs.len() - i,
{
    if i < 0 || i >= evs.len() {
        st.entries
    } else {
        let (s2, go) = feed_step(st, evs[i], start);
        if go {
            feed_run(evs, i + 1, s2, start)
        } else {
            s2.entries
        }
    }
}

proof fn lemma_feed_prefix(evs: Seq<XmlEvent>, k: int, s: FeedState, start: Timestamp)
    requires
        0 <= k <= evs.len(),
        feed_prefix(evs.take(k), start) == Some(s),
    ensures
        feed_run(evs, 0, feed_start(), start) == feed_run(evs, k, s, start),
    decreases k,
{
    if k > 0 {
        assert(evs.take(k).drop_last() =~= evs.take(k - 1));
        assert(evs.take(k).last() == evs[k - 1]);
        let sp = feed_prefix(evs.take(k - 1), start).unwrap();
        lemma_feed_prefix(evs, k - 1, sp, start);
    }
}

/// The first `MAX_RUSTSEC_ENTRIES` of `all`.
pub open spec fn first_entries(all: Seq<(Seq<char>, Seq<char>, Seq<char>, Seq<char>)>) -> Seq<(Seq<char>, Seq<char>, Seq<char>, Seq<char>)> {
    if all.len() > MAX_RUSTSEC_ENTRIES {
        all.take(MAX_RUSTSEC_ENTRIES as int)
    } else {
        all
    }
}

/// The entries as plain values.
pub open spec fn entries_view(e: Seq<RustsecEntry>) -> Seq<(Seq<char>, Seq<char>, Seq<char>, Seq<char>)> {
    e.map_values(|x: RustsecEntry| (x.title@, x.link@, x.published@, x.summary@))
}

struct FeedReader {
    in_item: bool,
    tag: String,
    title: String,
    link: String,
    published: String,
    description: String,
    entries: Vec<RustsecEntry>,
}

impl FeedReader {
    closed spec fn view_state(&self) -> FeedState {
        FeedState {
            in_item: self.in_item,
            tag: self.tag@,
            title: self.title@,
            link: self.link@,
            published: self.published@,
            description: self.description@,
            entries: entries_view(self.entries@),
        }
    }

    fn new() -> (r: Self)
        ensures
            r.view_state() == feed_start(),
    {
        let r = FeedReader {
            in_item: false,
            tag: String::new(),
            title: String::new(),
            link: String::new(),
            published: String::new(),
            description: String::new(),
            entries: Vec::new(),
        };
        assert(r.view_state().entries =~= Seq::empty());
        r
    }

    fn step(&mut self, ev: &XmlEvent, start: Timestamp) -> (go: bool)
        ensures
            final(self).view_state() == feed_step(old(self).view_state(), *ev, start).0,
            go == feed_step(old(self).view_state(), *ev, start).1,
    {
        let ghost st = self.view_state();
        match ev {
            XmlEvent::Start(n) => {
                if str_eq(n.as_str(), "item") {
                    self.in_item = true;
                    self.title = String::new();
                    self.link = String::new();
                    self.published = String::new();
                    self.description = String::new();
                }
                if self.in_item {
                    self.tag = n.clone();
                }
                true
            },
            XmlEvent::Text(x) => {
                if !self.in_item {
                } else if str_eq(self.tag.as_str(), "title") {
                    self.title.append(x.as_str());
                } else if str_eq(self.tag.as_str(), "link") {
                    self.link.append(x.as_str());
                } else if str_eq(self.tag.as_str(), "pubDate") {
                    self.published.append(x.as_str());
                } else if str_eq(self.tag.as_str(), "description") {
                    self.description.append(x.as_str());
                }
                true
            },
            XmlEvent::End(n) => {
                if str_eq(n.as_str(), "item") && self.in_item {
                    self.in_item = false;
                    if !self.title.as_str().is_empty() {
                        let keep = if self.published.as_str().is_empty() {
                            true
                        } else {
                            match parse_rfc2822(self.published.as_str()) {
                                None => true,
                                Some((s, n)) => s > start.secs || (s == start.secs && n >= start.nanos),
                            }
                        };
                        if keep {
                            let dv = to_chars(self.description.as_str());
                            let stripped = strip_tags(&dv);
                            let clean = string_of(&stripped, 0, stripped.len());
                            assert(clean@ =~= stripped@);
                            let e = RustsecEntry {
                                title: trim(self.title.as_str()),
                                link: trim(self.link.as_str()),
                                published: trim(self.published.as_str()),
                                summary: trim(clean.as_str()),
                            };
                            let ghost before = self.entries@;
                            self.entries.push(e);
                            assert(entries_view(self.entries@) =~= entries_view(before).push(
                                (
                                    trim_spec(st.title),
                                    trim_spec(st.link),
                                    trim_spec(st.published),
                                    trim_spec(strip_tags_from(st.description, 0)),
                                ),
                            ));
                        }
                    }
                }
                true
            },
            XmlEvent::Eof => false,
            XmlEvent::Error(_) => false,
            _ => true,
        }
    }
}

/// At most this many RustSec advisories are listed.
pub const MAX_RUSTSEC_ENTRIES: usize = 50;

/// Reads the recent advisories from the events of the RustSec feed, in
/// order, until one stops the reading (see `feed_step`): the first
/// `MAX_RUSTSEC_ENTRIES` of them.
pub fn rustsec_from_events(events: &Vec<XmlEvent>, start: Timestamp) -> (r: Vec<RustsecEntry>)
    ensures
        entries_view(r@) == first_entries(feed_run(events@, 0, feed_start(), start)),
{
    let mut rd = FeedReader::new();
    let mut i: usize = 0;
    assert(events@.take(0) =~= Seq::<XmlEvent>::empty());
    while i < events.len()
        invariant
            i <= events@.len(),
            feed_prefix(events@.take(i as int), start) == Some(rd.view_state()),
        decreases events@.len() - i,
    {
        let ghost before = rd.view_state();
        proof {
            assert(events@.take(i + 1).drop_last() =~= events@.take(i as int));
            assert(events@.take(i + 1).last() == events@[i as int]);
            lemma_feed_prefix(events@, i as int, before, start);
        }
        let go = rd.step(&events[i], start);
        if !go {
            return first_of_feed(rd.entries);
        }
        i = i + 1;
    }
    proof {
        assert(events@.take(i as int) =~= events@);
        lemma_feed_prefix(events@, i as int, rd.view_state(), start);
    }
    first_of_feed(rd.entries)
}

/// The first `MAX_RUSTSEC_ENTRIES` of `entries`.
fn first_of_feed(entries: Vec<RustsecEntry>) -> (r: Vec<RustsecEntry>)
    ensures
        entries_view(r@) == first_entries(entries_view(entries@)),
{
    let mut entries = entries;
    let ghost all = entries@;
    entries.truncate(MAX_RUSTSEC_ENTRIES);
    assert(entries_view(entries@) =~= first_entries(entries_view(all)));
    entries
}

/// Reads the recent advisories of the RustSec feed (see `feed_step`; the
/// reader trims character data and drops the blank ones; at most one event
/// per character and the end are read): the first `MAX_RUSTSEC_ENTRIES` of them.
pub fn parse_rustsec_feed(xml: &str, start: Timestamp) -> (r: Vec<RustsecEntry>)
    ensures
        entries_view(r@) == first_entries(feed_run(xml_events(xml@, true, xml@.len() + 1), 0, feed_start(), start)),
{
    let n = xml.unicode_len();
    let ghost full = xml_events(xml@, true, xml@.len() + 1);
    let mut src = xml_reader(xml);
    trim_xml_text(&mut src);
    let mut rd = FeedReader::new();
    let mut left = n;
    assert(full.take(0) =~= Seq::<XmlEvent>::empty());
    loop
        invariant
            n == xml@.len(),
            full == xml_events(xml@, true, xml@.len() + 1),
            src.text() == xml@,
            src.trims(),
            src.read() + left == n,
            feed_prefix(full.take(src.read() as int), start) == Some(rd.view_state()),
        decreases left,
    {
        let ghost k = src.read() as int;
        let ghost before = rd.view_state();
        let ev = next_xml_event(&mut src);
        proof {
            assert(ev == full[k]);
            assert(full.take(k + 1).drop_last() =~= full.take(k));
            assert(full.take(k + 1).last() == ev);
            lemma_feed_prefix(full, k, before, start);
        }
        let go = rd.step(&ev, start);
        if !go || left == 0 {
            proof {
                if go {
                    assert(full.take(k + 1) =~= full);
                    lemma_feed_prefix(full, k + 1, rd.view_state(), start);
                }
            }
            return first_of_feed(rd.entries);
        }
        left = left - 1;
    }
}

} // verus!

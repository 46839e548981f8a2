//! The daily CVE sweep's findings: merging what each source reports about
//! a CVE into one row per id, choosing the rows to enrich, settling
//! severities, filtering by policy and ordering the report.
//!
//! CVSS scores are held as tenths (9.8 as 98): the sources give them with
//! one decimal.

use vstd::prelude::*;
use crate::fleet::cve::{allow_by_policy, allowed_by_policy, keywords_in, matches_stack_keywords};
use crate::fleet::cve_findings::{
    insert_sorted, lemma_text_lt_irreflexive, lemma_text_lt_total, lemma_text_lt_transitive, strictly_sorted,
    text_less, text_lt,
};
use crate::text::{join, join_spec, lowercase_spec, str_eq};
use vstd::seq_lib::{to_multiset_build, to_multiset_insert};

verus! {

/// A CVE as the sweep has put it together from its sources.
pub struct FindingRow {
    pub id: String,
    pub description: String,
    pub published: Option<String>,
    pub last_modified: Option<String>,
    /// CVSS base score in tenths.
    pub score: Option<u64>,
    pub severity: String,
    /// Stack keywords matched, sorted, each once.
    pub keywords: Vec<String>,
    /// Sources that reported the CVE, sorted, each once.
    pub sources: Vec<String>,
    pub kev: bool,
    pub kev_due_date: String,
}

/// A finding as plain values.
pub struct FindingView {
    pub id: Seq<char>,
    pub description: Seq<char>,
    pub published: Option<Seq<char>>,
    pub last_modified: Option<Seq<char>>,
    pub score: Option<u64>,
    pub severity: Seq<char>,
    pub keywords: Set<Seq<char>>,
    pub sources: Set<Seq<char>>,
    pub kev: bool,
    pub kev_due_date: Seq<char>,
}

/// The text of an optional string.
pub open spec fn opt_seq(o: Option<String>) -> Option<Seq<char>> {
    match o {
        Some(s) => Some(s@),
        None => None,
    }
}

/// A row as plain values.
pub open spec fn row_view(r: FindingRow) -> FindingView {
    FindingView {
        id: r.id@,
        description: r.description@,
        published: opt_seq(r.published),
        last_modified: opt_seq(r.last_modified),
        score: r.score,
        severity: r.severity@,
        keywords: r.keywords.deep_view().to_set(),
        sources: r.sources.deep_view().to_set(),
        kev: r.kev,
        kev_due_date: r.kev_due_date@,
    }
}

/// The keyword and source lists of a row are sorted sets.
pub open spec fn row_wf(r: FindingRow) -> bool {
    strictly_sorted(r.keywords.deep_view()) && strictly_sorted(r.sources.deep_view())
}

/// The severity band of a score in tenths: `UNKNOWN` without a score, then
/// `CRITICAL` from 9.0, `HIGH` from 7.0, `MEDIUM` from 4.0, else `LOW`.
pub open spec fn severity_of_score(score: Option<u64>) -> Seq<char> {
    match score {
        None => "UNKNOWN"@,
        Some(t) => if t >= 90 {
            "CRITICAL"@
        } else if t >= 70 {
            "HIGH"@
        } else if t >= 40 {
            "MEDIUM"@
        } else {
            "LOW"@
        },
    }
}

/// The severity band of a score in tenths (see `severity_of_score`).
pub fn severity_from_score(score: Option<u64>) -> (r: &'static str)
    ensures
        r@ == severity_of_score(score),
{
    match score {
        None => "UNKNOWN",
        Some(t) => if t >= 90 {
            "CRITICAL"
        } else if t >= 70 {
            "HIGH"
        } else if t >= 40 {
            "MEDIUM"
        } else {
            "LOW"
        },
    }
}

/// The CVSS bands, in tenths: no score is `UNKNOWN`; 9.0 and up
/// `CRITICAL`; 7.0 to 8.9 `HIGH`; 4.0 to 6.9 `MEDIUM`; below 4.0 `LOW`.
pub proof fn lemma_severity_bands(t: u64)
    ensures
        severity_of_score(None) == "UNKNOWN"@,
        t >= 90 ==> severity_of_score(Some(t)) == "CRITICAL"@,
        70 <= t < 90 ==> severity_of_score(Some(t)) == "HIGH"@,
        40 <= t < 70 ==> severity_of_score(Some(t)) == "MEDIUM"@,
        t < 40 ==> severity_of_score(Some(t)) == "LOW"@,
{
}


/// The row a CVE starts with before any source has said anything of it.
pub open spec fn fresh_view(id: Seq<char>) -> FindingView {
    FindingView {
        id,
        description: Seq::empty(),
        published: None,
        last_modified: None,
        score: None,
        severity: "UNKNOWN"@,
        keywords: Set::empty(),
        sources: Set::empty(),
        kev: false,
        kev_due_date: Seq::empty(),
    }
}

/// The position of the row of `id` in `rows`, or `rows.len()` when none.
pub open spec fn pos_of(rows: Seq<FindingView>, id: Seq<char>) -> int
    decreases rows.len(),
{
    if rows.len() == 0 {
        0
    } else if rows[0].id == id {
        0
    } else {
        1 + pos_of(rows.drop_first(), id)
    }
}

proof fn lemma_pos_of(rows: Seq<FindingView>, id: Seq<char>, i: int)
    requires
        0 <= i <= rows.len(),
        forall|j: int| 0 <= j < i ==> (#[trigger] rows[j]).id != id,
        i == rows.len() || rows[i].id == id,
    ensures
        pos_of(rows, id) == i,
    decreases i,
{
    if i > 0 {
        let d = rows.drop_first();
        assert forall|j: int| 0 <= j < i - 1 implies (#[trigger] d[j]).id != id by {
            assert(d[j] == rows[j + 1]);
        }
        if i < rows.len() {
            assert(d[i - 1] == rows[i]);
        }
        lemma_pos_of(d, id, i - 1);
    }
}

proof fn lemma_pos_found(rows: Seq<FindingView>, id: Seq<char>, j: int)
    requires
        0 <= j < rows.len(),
        rows[j].id == id,
    ensures
        pos_of(rows, id) <= j,
    decreases j,
{
    if j > 0 && rows[0].id != id {
        assert(rows.drop_first()[j - 1] == rows[j]);
        lemma_pos_found(rows.drop_first(), id, j - 1);
    }
}

proof fn lemma_pos_at(rows: Seq<FindingView>, id: Seq<char>)
    ensures
        0 <= pos_of(rows, id) <= rows.len(),
        pos_of(rows, id) < rows.len() ==> rows[pos_of(rows, id)].id == id,
    decreases rows.len(),
{
    if rows.len() > 0 && rows[0].id != id {
        lemma_pos_at(rows.drop_first(), id);
        let p = pos_of(rows.drop_first(), id);
        if p < rows.len() - 1 {
            assert(rows.drop_first()[p] == rows[p + 1]);
        }
    }
}

/// `rows` with a fresh row for `id` at the end when it has none.
pub open spec fn with_row(rows: Seq<FindingView>, id: Seq<char>) -> Seq<FindingView> {
    if pos_of(rows, id) < rows.len() {
        rows
    } else {
        rows.push(fresh_view(id))
    }
}

/// `rows` with the row of `id` (made fresh at the end when there is none)
/// replaced by `f` of it.
pub open spec fn updated(rows: Seq<FindingView>, id: Seq<char>, f: spec_fn(FindingView) -> FindingView) -> Seq<
    FindingView,
> {
    let w = with_row(rows, id);
    let p = pos_of(w, id);
    w.update(p, f(w[p]))
}

/// The stack keywords of a text (of its lower-case form), as a set.
pub open spec fn keyword_set(text: Seq<char>) -> Set<Seq<char>> {
    keywords_in(lowercase_spec(text)).to_set()
}

/// What an NVD record (description, publication and modification dates,
/// score and its severity, found by the stack keyword `kw`) adds to a row:
/// the description and publication date when the row has none, the
/// modification date when the record has one, the score (and its severity,
/// or the band of the score when the record names none) when the row has
/// none, the source `NVD`, the keyword and those of the description and id.
pub open spec fn nvd_merged(
    v: FindingView,
    id: Seq<char>,
    desc: Seq<char>,
    published: Option<Seq<char>>,
    last_modified: Option<Seq<char>>,
    score: Option<u64>,
    severity: Seq<char>,
    kw: Seq<char>,
) -> FindingView {
    let take = v.score is None && score is Some;
    FindingView {
        description: if v.description.len() == 0 { desc } else { v.description },
        published: if v.published is None { published } else { v.published },
        last_modified: if last_modified is Some { last_modified } else { v.last_modified },
        score: if take { score } else { v.score },
        severity: if take {
            if severity.len() == 0 { severity_of_score(score) } else { severity }
        } else {
            v.severity
        },
        keywords: v.keywords.insert(kw).union(keyword_set(desc + " "@ + id)),
        sources: v.sources.insert("NVD"@),
        ..v
    }
}

/// What a GHSA advisory (its text, its score, and the text searched for
/// keywords) adds to a row.
pub open spec fn ghsa_merged(v: FindingView, text: Seq<char>, score: Option<u64>, blob: Seq<char>) -> FindingView {
    let take = v.score is None && score is Some;
    FindingView {
        description: if v.description.len() == 0 { text } else { v.description },
        score: if take { score } else { v.score },
        severity: if take { severity_of_score(score) } else { v.severity },
        keywords: v.keywords.union(keyword_set(blob)),
        sources: v.sources.insert("GHSA"@),
        ..v
    }
}

/// What an OSV record (its summary) adds to a row.
pub open spec fn osv_merged(v: FindingView, summary: Seq<char>) -> FindingView {
    FindingView {
        description: if v.description.len() == 0 { summary } else { v.description },
        keywords: v.keywords.union(keyword_set(summary)),
        sources: v.sources.insert("OSV"@),
        ..v
    }
}

/// What the MITRE record (a description) does to a row.
pub open spec fn mitre_merged(v: FindingView, desc: Seq<char>) -> FindingView {
    FindingView { description: desc, sources: v.sources.insert("MITRE"@), ..v }
}

/// What a KEV catalog entry (its due date) does to a row.
pub open spec fn kev_merged(v: FindingView, due: Seq<char>) -> FindingView {
    FindingView { kev: true, kev_due_date: due, sources: v.sources.insert("CISA-KEV"@), ..v }
}

/// A row once every source is in: an `UNKNOWN` severity becomes the band
/// of the score, and the description's keywords are added.
pub open spec fn settled(v: FindingView) -> FindingView {
    FindingView {
        severity: if v.severity == "UNKNOWN"@ { severity_of_score(v.score) } else { v.severity },
        keywords: if v.description.len() > 0 { v.keywords.union(keyword_set(v.description)) } else { v.keywords },
        ..v
    }
}

/// Adds `k` to the sorted set `v`.
fn add_one(v: &mut Vec<String>, k: &str)
    requires
        strictly_sorted(old(v).deep_view()),
    ensures
        strictly_sorted(final(v).deep_view()),
        final(v).deep_view().to_set() == old(v).deep_view().to_set().insert(k@),
{
    insert_sorted(v, k);
    assert(v.deep_view().to_set() =~= old(v).deep_view().to_set().insert(k@));
}

/// Adds the stack keywords of `text` to the sorted set `v`.
fn add_keywords(v: &mut Vec<String>, text: &str)
    requires
        strictly_sorted(old(v).deep_view()),
    ensures
        strictly_sorted(final(v).deep_view()),
        final(v).deep_view().to_set() == old(v).deep_view().to_set().union(keyword_set(text@)),
{
    let found = matches_stack_keywords(text);
    let ghost start = v.deep_view().to_set();
    let mut i: usize = 0;
    while i < found.len()
        invariant
            found.deep_view() == keywords_in(lowercase_spec(text@)),
            i <= found@.len(),
            strictly_sorted(v.deep_view()),
            v.deep_view().to_set() == start.union(found.deep_view().take(i as int).to_set()),
        decreases found@.len() - i,
    {
        let ghost before = v.deep_view().to_set();
        add_one(v, found[i].as_str());
        proof {
            let t = found.deep_view();
            assert(t.take(i + 1) =~= t.take(i as int).push(t[i as int]));
            t.take(i as int).lemma_push_to_set_commute(t[i as int]);
            assert(v.deep_view().to_set() =~= start.union(t.take(i + 1).to_set()));
        }
        i = i + 1;
    }
    assert(found.deep_view().take(i as int) =~= found.deep_view());
}

proof fn lemma_remove_insert(s: Seq<FindingView>, i: int, x: FindingView)
    requires
        0 <= i < s.len(),
    ensures
        s.remove(i).insert(i, x) == s.update(i, x),
{
    assert(s.remove(i).insert(i, x) =~= s.update(i, x));
}

/// The rank of a severity in the report: `CRITICAL` first, then `HIGH`,
/// `MEDIUM`, `LOW`, and anything else last.
pub open spec fn severity_rank(s: Seq<char>) -> int {
    if s == "CRITICAL"@ {
        0
    } else if s == "HIGH"@ {
        1
    } else if s == "MEDIUM"@ {
        2
    } else if s == "LOW"@ {
        3
    } else {
        4
    }
}

/// The score a finding is ordered by (none counts as 0).
pub open spec fn score_key(s: Option<u64>) -> u64 {
    match s {
        Some(t) => t,
        None => 0,
    }
}

/// `a` comes before `b` in the report: by severity rank, then by score
/// (higher first), then by id.
pub open spec fn finding_lt(a: FindingView, b: FindingView) -> bool {
    ||| severity_rank(a.severity) < severity_rank(b.severity)
    ||| severity_rank(a.severity) == severity_rank(b.severity) && score_key(a.score) > score_key(b.score)
    ||| severity_rank(a.severity) == severity_rank(b.severity) && score_key(a.score) == score_key(b.score) && text_lt(
        a.id,
        b.id,
    )
}

/// The findings are in report order.
pub open spec fn report_sorted(s: Seq<FindingView>) -> bool {
    forall|i: int, j: int| 0 <= i < j < s.len() ==> finding_lt(#[trigger] s[i], #[trigger] s[j])
}

proof fn lemma_finding_lt_order(a: FindingView, b: FindingView, c: FindingView)
    ensures
        !finding_lt(a, a),
        a.id != b.id ==> finding_lt(a, b) || finding_lt(b, a),
        !(finding_lt(a, b) && finding_lt(b, a)),
        finding_lt(a, b) && finding_lt(b, c) ==> finding_lt(a, c),
{
    lemma_text_lt_irreflexive(a.id);
    lemma_text_lt_total(a.id, b.id);
    if text_lt(a.id, b.id) && text_lt(b.id, c.id) {
        lemma_text_lt_transitive(a.id, b.id, c.id);
    }
}

/// The text a finding is searched in for running services: its id, its
/// description and its keywords.
pub open spec fn searchable(r: FindingRow) -> Seq<char> {
    r.id@ + " "@ + r.description@ + " "@ + join_spec(r.keywords.deep_view(), " "@)
}

/// The report keeps the row (`allowed_by_policy`).
pub open spec fn row_allowed(r: FindingRow, services: Seq<Seq<char>>) -> bool {
    allowed_by_policy(r.severity@, r.keywords.deep_view(), services, searchable(r))
}


/// The filter of a prefix is a prefix of the filter.
proof fn lemma_filter_prefix(s: Seq<FindingView>, p: spec_fn(FindingView) -> bool, i: int)
    requires
        0 <= i <= s.len(),
    ensures
        ids_of(s.take(i).filter(p)).len() <= ids_of(s.filter(p)).len(),
        ids_of(s.filter(p)).take(ids_of(s.take(i).filter(p)).len() as int) == ids_of(s.take(i).filter(p)),
    decreases s.len() - i,
{
    reveal(Seq::filter);
    if i < s.len() {
        lemma_filter_prefix(s, p, i + 1);
        assert(s.take(i + 1).drop_last() =~= s.take(i));
        let a = ids_of(s.take(i).filter(p));
        let b = ids_of(s.take(i + 1).filter(p));
        let c = ids_of(s.filter(p));
        assert(c.take(a.len() as int) =~= b.take(a.len() as int));
        assert(b.take(a.len() as int) =~= a);
    } else {
        assert(s.take(i) =~= s);
        assert(ids_of(s.filter(p)).take(ids_of(s.filter(p)).len() as int) =~= ids_of(s.filter(p)));
    }
}

/// The rank of a severity (`severity_rank`).
fn severity_rank_of(s: &str) -> (r: u8)
    ensures
        r as int == severity_rank(s@),
{
    if str_eq(s, "CRITICAL") {
        0
    } else if str_eq(s, "HIGH") {
        1
    } else if str_eq(s, "MEDIUM") {
        2
    } else if str_eq(s, "LOW") {
        3
    } else {
        4
    }
}

/// Whether `a` comes before `b` in the report (`finding_lt`).
fn comes_before(a: &FindingRow, b: &FindingRow) -> (r: bool)
    ensures
        r == finding_lt(row_view(*a), row_view(*b)),
{
    let ra = severity_rank_of(a.severity.as_str());
    let rb = severity_rank_of(b.severity.as_str());
    if ra != rb {
        return ra < rb;
    }
    let sa = match a.score {
        Some(t) => t,
        None => 0,
    };
    let sb = match b.score {
        Some(t) => t,
        None => 0,
    };
    if sa != sb {
        return sa > sb;
    }
    text_less(a.id.as_str(), b.id.as_str())
}

/// Whether the report keeps `r` (`row_allowed`).
fn allowed(r: &FindingRow, services: &Vec<String>) -> (b: bool)
    ensures
        b == row_allowed(*r, services.deep_view()),
{
    let mut t = r.id.clone();
    t.append(" ");
    t.append(r.description.as_str());
    t.append(" ");
    let k = join(&r.keywords, " ");
    t.append(k.as_str());
    assert(t@ =~= searchable(*r));
    allow_by_policy(r.severity.as_str(), &r.keywords, services, t.as_str())
}

/// A row settled (see `settled`).
fn settle_row(row: FindingRow) -> (r: FindingRow)
    requires
        row_wf(row),
    ensures
        row_wf(r),
        row_view(r) == settled(row_view(row)),
{
    let mut row = row;
    let ghost v = row_view(row);
    if str_eq(row.severity.as_str(), "UNKNOWN") {
        row.severity = String::from_str(severity_from_score(row.score));
    }
    if !row.description.as_str().is_empty() {
        let d = row.description.clone();
        add_keywords(&mut row.keywords, d.as_str());
    }
    assert(row_view(row) =~~= settled(v));
    row
}

/// The report lists critical findings first, then high, medium, low, and
/// anything else; within a severity, higher scores first (no score counts
/// as 0); then by id.
pub proof fn lemma_report_order(a: FindingView, b: FindingView)
    ensures
        severity_rank("CRITICAL"@) == 0 && severity_rank("HIGH"@) == 1 && severity_rank("MEDIUM"@) == 2
            && severity_rank("LOW"@) == 3,
        a.severity != "CRITICAL"@ && a.severity != "HIGH"@ && a.severity != "MEDIUM"@ && a.severity != "LOW"@
            ==> severity_rank(a.severity) == 4,
        severity_rank(a.severity) < severity_rank(b.severity) ==> finding_lt(a, b),
        severity_rank(a.severity) == severity_rank(b.severity) && score_key(a.score) > score_key(b.score) ==> finding_lt(a, b),
        severity_rank(a.severity) == severity_rank(b.severity) && score_key(a.score) == score_key(b.score) ==> (finding_lt(a, b)
            <==> text_lt(a.id, b.id)),
        score_key(None) == 0,
        finding_lt(a, b) ==> severity_rank(a.severity) <= severity_rank(b.severity),
{
    reveal_strlit("CRITICAL");
    reveal_strlit("HIGH");
    reveal_strlit("MEDIUM");
    reveal_strlit("LOW");
    assert("HIGH"@.len() != "CRITICAL"@.len());
    assert("MEDIUM"@.len() != "CRITICAL"@.len() && "MEDIUM"@.len() != "HIGH"@.len());
    assert("LOW"@.len() != "CRITICAL"@.len() && "LOW"@.len() != "HIGH"@.len() && "LOW"@.len() != "MEDIUM"@.len());
}

/// What an NVD record does to a row: an empty description or a missing
/// publication date is filled from the record, and a present one kept; the
/// record's modification date replaces the row's; a row without a score
/// takes the record's score, with the record's severity or, when it names
/// none, the score's band; the row gains the source NVD, the keyword the
/// record was found by, and the keywords of its description and id; the
/// id, KEV mark and due date are kept.
pub proof fn lemma_nvd_merge(
    v: FindingView,
    id: Seq<char>,
    desc: Seq<char>,
    published: Option<Seq<char>>,
    last_modified: Option<Seq<char>>,
    score: Option<u64>,
    severity: Seq<char>,
    kw: Seq<char>,
)
    ensures
        ({
            let n = nvd_merged(v, id, desc, published, last_modified, score, severity, kw);
            &&& n.id == v.id && n.kev == v.kev && n.kev_due_date == v.kev_due_date
            &&& v.description.len() > 0 ==> n.description == v.description
            &&& v.description.len() == 0 ==> n.description == desc
            &&& v.published is Some ==> n.published == v.published
            &&& v.published is None ==> n.published == published
            &&& last_modified is Some ==> n.last_modified == last_modified
            &&& last_modified is None ==> n.last_modified == v.last_modified
            &&& v.score is Some ==> n.score == v.score && n.severity == v.severity
            &&& v.score is None && score is None ==> n.score is None && n.severity == v.severity
            &&& v.score is None && score is Some && severity.len() > 0 ==> n.score == score && n.severity == severity
            &&& v.score is None && score is Some && severity.len() == 0 ==> n.score == score && n.severity
                == severity_of_score(score)
            &&& n.sources == v.sources.insert("NVD"@)
            &&& n.keywords == v.keywords.insert(kw).union(keyword_set(desc + " "@ + id))
        }),
{
}

/// Settling a row: an `UNKNOWN` severity becomes the band of its score
/// (and stays `UNKNOWN` without one), a known severity is kept; a row with
/// a description gains that description's keywords; nothing else changes.
pub proof fn lemma_settled(v: FindingView)
    ensures
        v.severity == "UNKNOWN"@ ==> settled(v).severity == severity_of_score(v.score),
        v.severity == "UNKNOWN"@ && v.score is None ==> settled(v).severity == "UNKNOWN"@,
        v.severity != "UNKNOWN"@ ==> settled(v).severity == v.severity,
        v.description.len() > 0 ==> settled(v).keywords == v.keywords.union(keyword_set(v.description)),
        v.description.len() == 0 ==> settled(v).keywords == v.keywords,
        settled(v).id == v.id && settled(v).description == v.description && settled(v).score == v.score
            && settled(v).sources == v.sources && settled(v).kev == v.kev,
{
}

/// A KEV entry marks a known row as exploited with its due date and adds
/// the source CISA-KEV; MITRE's description replaces the row's and adds the
/// source MITRE; GHSA and OSV fill only an empty description, GHSA's score
/// only a missing one (with its band as severity), and each adds its
/// source.
pub proof fn lemma_source_merges(v: FindingView, text: Seq<char>, score: Option<u64>, blob: Seq<char>, due: Seq<char>)
    ensures
        kev_merged(v, due).kev && kev_merged(v, due).kev_due_date == due && kev_merged(v, due).sources == v.sources.insert(
            "CISA-KEV"@,
        ) && kev_merged(v, due).description == v.description,
        mitre_merged(v, text).description == text && mitre_merged(v, text).sources == v.sources.insert("MITRE"@)
            && mitre_merged(v, text).kev == v.kev,
        v.description.len() > 0 ==> ghsa_merged(v, text, score, blob).description == v.description
            && osv_merged(v, text).description == v.description,
        v.description.len() == 0 ==> ghsa_merged(v, text, score, blob).description == text && osv_merged(v, text).description
            == text,
        v.score is Some ==> ghsa_merged(v, text, score, blob).score == v.score && ghsa_merged(v, text, score, blob).severity
            == v.severity,
        v.score is None && score is Some ==> ghsa_merged(v, text, score, blob).score == score && ghsa_merged(
            v,
            text,
            score,
            blob,
        ).severity == severity_of_score(score),
        ghsa_merged(v, text, score, blob).sources == v.sources.insert("GHSA"@),
        osv_merged(v, text).sources == v.sources.insert("OSV"@),
        ghsa_merged(v, text, score, blob).keywords == v.keywords.union(keyword_set(blob)),
        osv_merged(v, text).keywords == v.keywords.union(keyword_set(text)),
{
}


/// The ids of `rows`, in order.
pub open spec fn ids_of(rows: Seq<FindingView>) -> Seq<Seq<char>> {
    rows.map_values(|v: FindingView| v.id)
}

/// The findings of the sweep, one row per CVE id, in the order the ids
/// were first reported.
pub struct FindingTable {
    rows: Vec<FindingRow>,
}

impl FindingTable {
    /// The rows.
    pub closed spec fn rows_spec(&self) -> Seq<FindingRow> {
        self.rows@
    }

    /// The rows as plain values.
    pub open spec fn view_rows(&self) -> Seq<FindingView> {
        self.rows_spec().map_values(|r: FindingRow| row_view(r))
    }

    /// Each id has one row, and each row's lists are sorted sets.
    pub open spec fn wf(&self) -> bool {
        &&& ids_of(self.view_rows()).no_duplicates()
        &&& forall|i: int| 0 <= i < self.rows_spec().len() ==> row_wf(#[trigger] self.rows_spec()[i])
    }

    /// An empty table.
    pub fn new() -> (t: Self)
        ensures
            t.wf(),
            t.view_rows() == Seq::<FindingView>::empty(),
    {
        let t = FindingTable { rows: Vec::new() };
        assert(t.view_rows() =~= Seq::<FindingView>::empty());
        t
    }

    /// The rows.
    pub fn rows(&self) -> (r: &Vec<FindingRow>)
        ensures
            r@ == self.rows_spec(),
    {
        &self.rows
    }

    /// Merges an NVD record of `id` found by the stack keyword `keyword`
    /// (see `nvd_merged`); the row is made when the id is new.
    pub fn merge_nvd(
        &mut self,
        id: &str,
        desc: &str,
        published: Option<String>,
        last_modified: Option<String>,
        score: Option<u64>,
        severity: &str,
        keyword: &str,
    )
        requires
            old(self).wf(),
        ensures
            final(self).wf(),
            final(self).view_rows() == updated(
                old(self).view_rows(),
                id@,
                |v: FindingView| nvd_merged(v, id@, desc@, opt_seq(published), opt_seq(last_modified), score, severity@, keyword@),
            ),
    {
        let ghost f = |v: FindingView| nvd_merged(v, id@, desc@, opt_seq(published), opt_seq(last_modified), score, severity@, keyword@);
        let ghost w = with_row(self.view_rows(), id@);
        let (i, mut row) = self.take_row(id);
        let ghost v = row_view(row);
        if row.description.as_str().is_empty() {
            row.description = String::from_str(desc);
        }
        if row.published.is_none() {
            row.published = published;
        }
        if last_modified.is_some() {
            row.last_modified = last_modified;
        }
        if row.score.is_none() && score.is_some() {
            row.score = score;
            row.severity = if severity.is_empty() {
                String::from_str(severity_from_score(score))
            } else {
                String::from_str(severity)
            };
        }
        add_one(&mut row.sources, "NVD");
        add_one(&mut row.keywords, keyword);
        let mut text = String::from_str(desc);
        text.append(" ");
        text.append(id);
        add_keywords(&mut row.keywords, text.as_str());
        proof {
            assert(row_view(row) =~~= f(v));
            lemma_remove_insert(w, i as int, f(v));
        }
        self.put_row(i, row);
    }

    /// Merges a GHSA advisory of `id`: `text` (its summary, else its
    /// description), its score, and `blob` searched for keywords (see
    /// `ghsa_merged`).
    pub fn merge_ghsa(&mut self, id: &str, text: &str, score: Option<u64>, blob: &str)
        requires
            old(self).wf(),
        ensures
            final(self).wf(),
            final(self).view_rows() == updated(old(self).view_rows(), id@, |v: FindingView| ghsa_merged(v, text@, score, blob@)),
    {
        let ghost f = |v: FindingView| ghsa_merged(v, text@, score, blob@);
        let ghost w = with_row(self.view_rows(), id@);
        let (i, mut row) = self.take_row(id);
        let ghost v = row_view(row);
        if row.description.as_str().is_empty() {
            row.description = String::from_str(text);
        }
        if row.score.is_none() && score.is_some() {
            row.score = score;
            row.severity = String::from_str(severity_from_score(score));
        }
        add_one(&mut row.sources, "GHSA");
        add_keywords(&mut row.keywords, blob);
        proof {
            assert(row_view(row) =~~= f(v));
            lemma_remove_insert(w, i as int, f(v));
        }
        self.put_row(i, row);
    }

    /// Merges an OSV record of `id` with its summary (see `osv_merged`).
    pub fn merge_osv(&mut self, id: &str, summary: &str)
        requires
            old(self).wf(),
        ensures
            final(self).wf(),
            final(self).view_rows() == updated(old(self).view_rows(), id@, |v: FindingView| osv_merged(v, summary@)),
    {
        let ghost f = |v: FindingView| osv_merged(v, summary@);
        let ghost w = with_row(self.view_rows(), id@);
        let (i, mut row) = self.take_row(id);
        let ghost v = row_view(row);
        if row.description.as_str().is_empty() {
            row.description = String::from_str(summary);
        }
        add_one(&mut row.sources, "OSV");
        add_keywords(&mut row.keywords, summary);
        proof {
            assert(row_view(row) =~~= f(v));
            lemma_remove_insert(w, i as int, f(v));
        }
        self.put_row(i, row);
    }

    /// Applies an update to the row of `id` when there is one; otherwise
    /// the table is unchanged.
    fn update_existing(&mut self, id: &str, desc: &str, due: &str, kev: bool)
        requires
            old(self).wf(),
        ensures
            final(self).wf(),
            pos_of(old(self).view_rows(), id@) < old(self).view_rows().len() ==> final(self).view_rows() == updated(
                old(self).view_rows(),
                id@,
                |v: FindingView| if kev { kev_merged(v, due@) } else { mitre_merged(v, desc@) },
            ),
            pos_of(old(self).view_rows(), id@) >= old(self).view_rows().len() ==> final(self).view_rows() == old(self).view_rows(),
    {
        let p = self.position(id);
        if p == self.rows.len() {
            return;
        }
        let ghost f = |v: FindingView| if kev { kev_merged(v, due@) } else { mitre_merged(v, desc@) };
        let ghost w = with_row(self.view_rows(), id@);
        let (i, mut row) = self.take_row(id);
        let ghost v = row_view(row);
        if kev {
            row.kev = true;
            row.kev_due_date = String::from_str(due);
            add_one(&mut row.sources, "CISA-KEV");
        } else {
            row.description = String::from_str(desc);
            add_one(&mut row.sources, "MITRE");
        }
        proof {
            assert(row_view(row) =~~= f(v));
            lemma_remove_insert(w, i as int, f(v));
        }
        self.put_row(i, row);
    }

    /// Sets the description MITRE gives for `id`, when it gives one and the
    /// id has a row (see `mitre_merged`); otherwise nothing changes.
    pub fn merge_mitre(&mut self, id: &str, desc: &str)
        requires
            old(self).wf(),
        ensures
            final(self).wf(),
            final(self).view_rows() == if desc@.len() > 0 && pos_of(old(self).view_rows(), id@) < old(self).view_rows().len() {
                updated(old(self).view_rows(), id@, |v: FindingView| mitre_merged(v, desc@))
            } else {
                old(self).view_rows()
            },
    {
        if desc.is_empty() {
            return;
        }
        self.update_existing(id, desc, "", false);
        assert((|v: FindingView| if false { kev_merged(v, ""@) } else { mitre_merged(v, desc@) }) =~= (|v: FindingView|
            mitre_merged(v, desc@)));
    }

    /// Marks `id` as known exploited (CISA KEV), with its due date, when it
    /// has a row (see `kev_merged`); otherwise nothing changes.
    pub fn mark_kev(&mut self, id: &str, due: &str)
        requires
            old(self).wf(),
        ensures
            final(self).wf(),
            final(self).view_rows() == if pos_of(old(self).view_rows(), id@) < old(self).view_rows().len() {
                updated(old(self).view_rows(), id@, |v: FindingView| kev_merged(v, due@))
            } else {
                old(self).view_rows()
            },
    {
        self.update_existing(id, "", due, true);
        assert((|v: FindingView| if true { kev_merged(v, due@) } else { mitre_merged(v, ""@) }) =~= (|v: FindingView|
            kev_merged(v, due@)));
    }

    /// The ids, in table order, of the first `budget` rows that have no
    /// description: the ones to ask MITRE about.
    pub fn enrichment_targets(&self, budget: usize) -> (r: Vec<String>)
        ensures
            r.deep_view() == {
                let all = ids_of(self.view_rows().filter(|v: FindingView| v.description.len() == 0));
                if all.len() > budget { all.take(budget as int) } else { all }
            },
    {
        let ghost p = |v: FindingView| v.description.len() == 0;
        let ghost vr = self.view_rows();
        let mut r: Vec<String> = Vec::new();
        let mut i: usize = 0;
        while i < self.rows.len() && r.len() < budget
            invariant
                vr == self.view_rows(),
                p == (|v: FindingView| v.description.len() == 0),
                vr.len() == self.rows@.len(),
                i <= vr.len(),
                r.len() <= budget,
                r.deep_view() == ids_of(vr.take(i as int).filter(p)),
            decreases vr.len() - i,
        {
            proof {
                reveal(Seq::filter);
                assert(vr.take(i + 1).drop_last() =~= vr.take(i as int));
                assert(vr.take(i + 1).last() == vr[i as int]);
            }
            let ghost fi = vr.take(i as int).filter(p);
            let ghost x = vr[i as int];
            assert(x == row_view(self.rows@[i as int]));
            assert(vr.take(i + 1).filter(p) == if p(x) { fi.push(x) } else { fi });
            let ghost before = r.deep_view();
            assert(before == ids_of(fi));
            if self.rows[i].description.as_str().is_empty() {
                assert(p(x));
                let c = self.rows[i].id.clone();
                assert(c@ == x.id);
                r.push(c);
                assert(r.deep_view() =~= before.push(x.id));
                assert(ids_of(fi.push(x)) =~= ids_of(fi).push(x.id));
            } else {
                assert(!p(x));
            }
            assert(r.deep_view() =~= ids_of(vr.take(i + 1).filter(p)));
            i = i + 1;
        }
        proof {
            let all = ids_of(vr.filter(p));
            lemma_filter_prefix(vr, p, i as int);
            if i == vr.len() {
                assert(vr.take(i as int) =~= vr);
            }
            if r.len() == budget && all.len() > budget {
                assert(r.deep_view() =~= all.take(budget as int));
            } else if r.len() == budget {
                assert(all.len() >= r.deep_view().len());
                if i < vr.len() {
                    assert(r.deep_view() =~= all) by {
                        assert(all.take(r.deep_view().len() as int) =~= r.deep_view());
                    }
                }
            }
        }
        r
    }

    /// Settles every row once all sources are in (see `settled`).
    pub fn settle(&mut self)
        requires
            old(self).wf(),
        ensures
            final(self).wf(),
            final(self).view_rows() == old(self).view_rows().map_values(|v: FindingView| settled(v)),
    {
        let mut rest: Vec<FindingRow> = Vec::new();
        std::mem::swap(&mut rest, &mut self.rows);
        let ghost orig = rest@;
        let ghost ov = orig.map_values(|r: FindingRow| row_view(r));
        let mut out: Vec<FindingRow> = Vec::new();
        while rest.len() > 0
            invariant
                out@.len() + rest@.len() == orig.len(),
                rest@ == orig.skip(out@.len() as int),
                ov == orig.map_values(|r: FindingRow| row_view(r)),
                forall|i: int| 0 <= i < orig.len() ==> row_wf(#[trigger] orig[i]),
                forall|j: int| 0 <= j < out@.len() ==> row_wf(#[trigger] out@[j]) && row_view(out@[j]) == settled(ov[j]),
            decreases rest@.len(),
        {
            let k = out.len();
            assert(rest@[0] == orig[k as int]);
            let row = rest.remove(0);
            assert(rest@ =~= orig.skip(k + 1));
            let r = settle_row(row);
            out.push(r);
        }
        self.rows = out;
        proof {
            assert(self.view_rows() =~= ov.map_values(|v: FindingView| settled(v)));
            assert(ids_of(self.view_rows()) =~= ids_of(ov));
        }
    }

    /// The findings the report keeps (`row_allowed`, given the names of the
    /// running services), in report order (`finding_lt`).
    pub fn into_report(self, services: &Vec<String>) -> (r: Vec<FindingRow>)
        requires
            self.wf(),
        ensures
            report_sorted(r@.map_values(|x: FindingRow| row_view(x))),
            r@.map_values(|x: FindingRow| row_view(x)).to_multiset() == self.rows_spec().filter(
                |x: FindingRow| row_allowed(x, services.deep_view()),
            ).map_values(|x: FindingRow| row_view(x)).to_multiset(),
            forall|j: int| 0 <= j < r@.len() ==> row_wf(#[trigger] r@[j]),
    {
        let ghost orig = self.rows@;
        let ghost ov = orig.map_values(|x: FindingRow| row_view(x));
        let ghost a = |x: FindingRow| row_allowed(x, services.deep_view());
        let ghost vw = |x: FindingRow| row_view(x);
        let mut rest = self.rows;
        let mut out: Vec<FindingRow> = Vec::new();
        let mut k: usize = 0;
        let total = rest.len();
        proof {
            reveal(Seq::filter);
            assert(orig.take(0).filter(a) =~= Seq::<FindingRow>::empty());
            assert(out@.map_values(vw) =~= Seq::<FindingView>::empty());
            assert(orig.take(0).filter(a).map_values(vw) =~= Seq::<FindingView>::empty());
        }
        while rest.len() > 0
            invariant
                total == orig.len(),
                k + rest@.len() == orig.len(),
                rest@ == orig.skip(k as int),
                ov == orig.map_values(vw),
                vw == (|x: FindingRow| row_view(x)),
                a == (|x: FindingRow| row_allowed(x, services.deep_view())),
                ids_of(ov).no_duplicates(),
                forall|i: int| 0 <= i < orig.len() ==> row_wf(#[trigger] orig[i]),
                forall|j: int| 0 <= j < out@.len() ==> row_wf(#[trigger] out@[j]),
                report_sorted(out@.map_values(vw)),
                out@.map_values(vw).to_multiset() == orig.take(k as int).filter(a).map_values(vw).to_multiset(),
                forall|j: int| 0 <= j < out@.len() ==> ids_of(ov.take(k as int)).contains(#[trigger] out@[j].id@),
            decreases rest@.len(),
        {
            assert(rest@[0] == orig[k as int]);
            let row = rest.remove(0);
            assert(rest@ =~= orig.skip(k + 1));
            let ghost x = row_view(row);
            proof {
                reveal(Seq::filter);
                assert(orig.take(k + 1).drop_last() =~= orig.take(k as int));
                assert(orig.take(k + 1).last() == orig[k as int]);
                assert(ov[k as int] == x);
                assert forall|j: int| 0 <= j < out@.len() implies out@[j].id@ != x.id by {
                    let ids = ids_of(ov);
                    assert(ids_of(ov.take(k as int)) =~= ids.take(k as int));
                    if out@[j].id@ == x.id {
                        let t = choose|t: int| 0 <= t < k && ids.take(k as int)[t] == out@[j].id@;
                        assert(ids[t] == ids[k as int]);
                    }
                }
                assert(ids_of(ov.take(k as int)).len() == k);
                assert forall|j: int| 0 <= j < out@.len() implies ids_of(ov.take(k + 1)).contains(#[trigger] out@[j].id@) by {
                    let t = choose|t: int| 0 <= t < k && ids_of(ov.take(k as int))[t] == out@[j].id@;
                    assert(ids_of(ov.take(k + 1))[t] == out@[j].id@);
                }
                assert(ids_of(ov.take(k + 1))[k as int] == x.id);
            }
            if allowed(&row, services) {
                let ghost before = out@.map_values(vw);
                let mut p: usize = 0;
                while p < out.len() && !comes_before(&row, &out[p])
                    invariant
                        p <= out@.len(),
                        before == out@.map_values(vw),
                        vw == (|x: FindingRow| row_view(x)),
                        x == row_view(row),
                        forall|j: int| 0 <= j < p ==> finding_lt(before[j], x),
                        forall|j: int| 0 <= j < out@.len() ==> out@[j].id@ != x.id,
                    decreases out@.len() - p,
                {
                    proof {
                        lemma_finding_lt_order(before[p as int], x, x);
                        lemma_finding_lt_order(x, before[p as int], x);
                    }
                    p = p + 1;
                }
                let ghost before_rows = out@;
                out.insert(p, row);
                proof {
                    let now_v = out@.map_values(vw);
                    assert(now_v =~= before.insert(p as int, x));
                    to_multiset_insert(before, p as int, x);
                    assert(orig.take(k + 1).filter(a) =~= orig.take(k as int).filter(a).push(orig[k as int]));
                    assert(orig.take(k + 1).filter(a).map_values(vw) =~= orig.take(k as int).filter(a).map_values(vw).push(x));
                    to_multiset_build(orig.take(k as int).filter(a).map_values(vw), x);
                    if p < before.len() {
                        assert(finding_lt(x, before[p as int]));
                    }
                    assert forall|i: int, j: int| 0 <= i < j < now_v.len() implies finding_lt(
                        #[trigger] now_v[i],
                        #[trigger] now_v[j],
                    ) by {
                        if i < p && j == p {
                        } else if i < p && j > p {
                            assert(now_v[j] == before[j - 1]);
                            assert(now_v[i] == before[i]);
                        } else if i == p {
                            assert(now_v[j] == before[j - 1]);
                            if j - 1 > p {
                                assert(finding_lt(before[p as int], before[j - 1]));
                                lemma_finding_lt_order(x, before[p as int], before[j - 1]);
                            }
                        } else if j < p {
                            assert(now_v[i] == before[i]);
                            assert(now_v[j] == before[j]);
                        } else {
                            assert(now_v[i] == before[i - 1]);
                            assert(now_v[j] == before[j - 1]);
                        }
                    }
                    assert forall|j: int| 0 <= j < out@.len() implies ids_of(ov.take(k + 1)).contains(
                        #[trigger] out@[j].id@,
                    ) by {
                        if j < p {
                            assert(out@[j] == before_rows[j]);
                        } else if j > p {
                            assert(out@[j] == before_rows[j - 1]);
                        }
                    }
                    assert forall|j: int| 0 <= j < out@.len() implies row_wf(#[trigger] out@[j]) by {
                        if j < p {
                            assert(out@[j] == before_rows[j]);
                        } else if j > p {
                            assert(out@[j] == before_rows[j - 1]);
                        }
                    }
                }
            } else {
                proof {
                    assert(orig.take(k + 1).filter(a) =~= orig.take(k as int).filter(a));
                }
            }
            k = k + 1;
        }
        proof {
            assert(orig.take(k as int) =~= orig);
        }
        out
    }

    /// The position of the row of `id` (`pos_of`).
    fn position(&self, id: &str) -> (i: usize)
        ensures
            i == pos_of(self.view_rows(), id@),
            i <= self.rows_spec().len(),
    {
        let ghost v = self.view_rows();
        let mut i: usize = 0;
        while i < self.rows.len()
            invariant
                v == self.view_rows(),
                v.len() == self.rows@.len(),
                i <= v.len(),
                forall|j: int| 0 <= j < i ==> (#[trigger] v[j]).id != id@,
            decreases self.rows@.len() - i,
        {
            if str_eq(self.rows[i].id.as_str(), id) {
                assert(v[i as int].id == id@);
                proof { lemma_pos_of(v, id@, i as int); }
                return i;
            }
            i = i + 1;
        }
        proof { lemma_pos_of(v, id@, i as int); }
        i
    }

    /// Takes out the row of `id` (a fresh one when there is none): its
    /// position, and the row.
    fn take_row(&mut self, id: &str) -> (r: (usize, FindingRow))
        requires
            old(self).wf(),
        ensures
            r.0 == pos_of(with_row(old(self).view_rows(), id@), id@),
            r.0 < with_row(old(self).view_rows(), id@).len(),
            row_view(r.1) == with_row(old(self).view_rows(), id@)[r.0 as int],
            r.1.id@ == id@,
            row_wf(r.1),
            final(self).view_rows() == with_row(old(self).view_rows(), id@).remove(r.0 as int),
            forall|j: int| 0 <= j < final(self).rows_spec().len() ==> row_wf(#[trigger] final(self).rows_spec()[j]),
            ids_of(final(self).view_rows()).no_duplicates(),
            !ids_of(final(self).view_rows()).contains(id@),
    {
        let ghost v0 = self.view_rows();
        let i = self.position(id);
        if i == self.rows.len() {
            let fresh = FindingRow {
                id: String::from_str(id),
                description: String::new(),
                published: None,
                last_modified: None,
                score: None,
                severity: String::from_str("UNKNOWN"),
                keywords: Vec::new(),
                sources: Vec::new(),
                kev: false,
                kev_due_date: String::new(),
            };
            proof {
                assert(fresh.keywords.deep_view() =~= Seq::<Seq<char>>::empty());
                assert(fresh.sources.deep_view() =~= Seq::<Seq<char>>::empty());
                assert(Seq::<Seq<char>>::empty().to_set() =~= Set::<Seq<char>>::empty());
                assert(fresh.description@ =~= Seq::<char>::empty());
                assert(fresh.kev_due_date@ =~= Seq::<char>::empty());
                assert(row_view(fresh) == fresh_view(id@));
            }
            self.rows.push(fresh);
            assert(self.view_rows() =~= v0.push(fresh_view(id@)));
        }
        let ghost w = self.view_rows();
        assert(w == with_row(v0, id@));
        proof {
            if i < v0.len() {
                assert(pos_of(w, id@) == i);
            } else {
                lemma_pos_at(v0, id@);
                assert forall|j: int| 0 <= j < i implies (#[trigger] w[j]).id != id@ by {
                    if w[j].id == id@ {
                        assert(w[j] == v0[j]);
                        lemma_pos_found(v0, id@, j);
                    }
                }
                lemma_pos_of(w, id@, i as int);
            }
        }
        let row = self.rows.remove(i);
        proof {
            assert(self.view_rows() =~= w.remove(i as int));
            assert(ids_of(w).no_duplicates()) by {
                if i == v0.len() {
                    assert(ids_of(w) =~= ids_of(v0).push(id@));
                    assert(!ids_of(v0).contains(id@)) by {
                        if ids_of(v0).contains(id@) {
                            let j = choose|j: int| 0 <= j < ids_of(v0).len() && ids_of(v0)[j] == id@;
                            assert(v0[j].id == id@);
                            lemma_pos_found(v0, id@, j);
                        }
                    }
                }
            }
            assert(ids_of(self.view_rows()) =~= ids_of(w).remove(i as int));
            lemma_pos_at(w, id@);
            assert(ids_of(w)[i as int] == id@);
            assert forall|j: int| 0 <= j < ids_of(self.view_rows()).len() implies ids_of(self.view_rows())[j] != id@ by {
                if j < i {
                    assert(ids_of(w)[j] != ids_of(w)[i as int]);
                } else {
                    assert(ids_of(w)[j + 1] != ids_of(w)[i as int]);
                }
            }
            assert forall|a: int, b: int| 0 <= a < b < ids_of(self.view_rows()).len() implies ids_of(self.view_rows())[a]
                != ids_of(self.view_rows())[b] by {
                let a2 = if a < i { a } else { a + 1 };
                let b2 = if b < i { b } else { b + 1 };
                assert(ids_of(w)[a2] != ids_of(w)[b2]);
            }
        }
        (i, row)
    }

    /// Puts `row` back at position `i`.
    fn put_row(&mut self, i: usize, row: FindingRow)
        requires
            i <= old(self).rows_spec().len(),
            row_wf(row),
            forall|j: int| 0 <= j < old(self).rows_spec().len() ==> row_wf(#[trigger] old(self).rows_spec()[j]),
            ids_of(old(self).view_rows()).no_duplicates(),
            !ids_of(old(self).view_rows()).contains(row.id@),
        ensures
            final(self).wf(),
            final(self).view_rows() == old(self).view_rows().insert(i as int, row_view(row)),
    {
        let ghost v = self.view_rows();
        let ghost rid = row.id@;
        self.rows.insert(i, row);
        proof {
            assert(self.view_rows() =~= v.insert(i as int, row_view(row)));
            let ids = ids_of(self.view_rows());
            assert(ids =~= ids_of(v).insert(i as int, rid));
            assert forall|a: int, b: int| 0 <= a < b < ids.len() implies ids[a] != ids[b] by {
                if a == i {
                    assert(ids_of(v)[b - 1] != rid) by {
                        assert(ids_of(v).contains(ids_of(v)[b - 1]));
                    }
                } else if b == i {
                    assert(ids_of(v).contains(ids_of(v)[a]));
                } else {
                    let a2 = if a < i { a } else { a - 1 };
                    let b2 = if b < i { b } else { b - 1 };
                    assert(ids_of(v)[a2] != ids_of(v)[b2]);
                }
            }
        }
    }
}

} // verus!

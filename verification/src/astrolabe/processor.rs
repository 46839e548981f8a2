//! What a processor takes (a raw artifact from a collector) and what it
//! gives (a structured result), with the checks shared by all processors.

use vstd::prelude::*;
use crate::events::schema::Timestamp;
use crate::strmap::StrMap;
use crate::text::{occurs_at, starts_with_str};

verus! {

/// A metadata value of an artifact or of a processor result.
#[derive(Debug, Clone)]
pub enum MetaValue {
    Text(String),
    Number(u64),
    Flag(bool),
    TextList(Vec<String>),
    Counts(Vec<(String, i64)>),
}

/// `m` maps `key` to the text `v`.
pub open spec fn meta_text_is(m: Map<Seq<char>, MetaValue>, key: Seq<char>, v: Seq<char>) -> bool {
    m.dom().contains(key) && (m[key] matches MetaValue::Text(s) && s@ == v)
}

/// `m` maps `key` to the number `n`.
pub open spec fn meta_number_is(m: Map<Seq<char>, MetaValue>, key: Seq<char>, n: int) -> bool {
    m.dom().contains(key) && (m[key] matches MetaValue::Number(x) && x == n)
}

/// `m` maps `key` to the flag `b`.
pub open spec fn meta_flag_is(m: Map<Seq<char>, MetaValue>, key: Seq<char>, b: bool) -> bool {
    m.dom().contains(key) && (m[key] matches MetaValue::Flag(x) && x == b)
}

/// `m` maps `key` to the list of texts `v`.
pub open spec fn meta_list_is(m: Map<Seq<char>, MetaValue>, key: Seq<char>, v: Seq<Seq<char>>) -> bool {
    m.dom().contains(key) && (m[key] matches MetaValue::TextList(l) && l.deep_view() == v)
}

/// The text stored under `key` in `m`, if `m` holds a text there.
pub open spec fn meta_text_of(m: Map<Seq<char>, MetaValue>, key: Seq<char>) -> Option<Seq<char>> {
    if m.dom().contains(key) {
        match m[key] {
            MetaValue::Text(s) => Some(s@),
            _ => None,
        }
    } else {
        None
    }
}

/// The text stored under `key`, if the value there is a text.
pub fn meta_text(m: &StrMap<MetaValue>, key: &str) -> (r: Option<String>)
    requires
        m.wf(),
    ensures
        match r {
            Some(s) => meta_text_of(m@, key@) == Some(s@),
            None => meta_text_of(m@, key@) is None,
        },
{
    match m.get(key) {
        Some(MetaValue::Text(s)) => Some(s.clone()),
        _ => None,
    }
}

/// An attachment on a raw artifact.
#[derive(Debug, Clone)]
pub struct Attachment {
    pub filename: String,
    pub content_type: String,
    /// Base64-encoded attachment data.
    pub data: String,
}

/// Input to a processor: a raw artifact from a collector.
pub struct RawArtifact {
    /// Classification label (such as "arxiv_url" or "x_post").
    pub source_type: String,
    /// Email subject or equivalent.
    pub subject: String,
    /// Email body or raw content.
    pub body: String,
    /// Identifier at the source (such as a mail Message-ID).
    pub message_id: String,
    /// When the artifact was collected (ISO 8601).
    pub date: String,
    pub attachments: Vec<Attachment>,
    /// Collector-provided extra data.
    pub metadata: StrMap<MetaValue>,
}

/// A link found inside an artifact, to be processed on its own.
#[derive(Debug, Clone)]
pub struct EmbeddedLink {
    pub url: String,
    pub type_hint: String,
    pub discovered_in: String,
    pub discovered_from: String,
}

/// Output of a processor, input to the envelope builder.
pub struct ProcessorResult {
    pub title: String,
    /// Extracted and cleaned text content.
    pub content: String,
    /// Original URL or source identifier.
    pub source_url: String,
    /// The processor that produced this (such as "x-post").
    pub source_type: String,
    pub processor_version: String,
    pub domain_tags: Vec<String>,
    pub metadata: StrMap<MetaValue>,
    pub embedded_artifacts: Vec<EmbeddedLink>,
    pub fetched_at: Timestamp,
    pub processed_at: Timestamp,
}

impl ProcessorResult {
    /// The required fields (title, content, source URL) are all non-empty.
    pub open spec fn valid(&self) -> bool {
        self.title@.len() > 0 && self.content@.len() > 0 && self.source_url@.len() > 0
    }

    /// Whether the required fields are non-empty.
    pub fn is_valid(&self) -> (b: bool)
        ensures
            b == self.valid(),
    {
        !self.title.as_str().is_empty() && !self.content.as_str().is_empty()
            && !self.source_url.as_str().is_empty()
    }
}

/// Errors that can occur during artifact processing.
#[derive(Debug)]
pub enum ProcessorError {
    UnsupportedType(String),
    MissingField(String),
    ExtractionFailed(String),
    NetworkError(String),
    ParseError(String),
    Other(String),
}

impl ProcessorError {
    /// The human-readable message of the error.
    pub open spec fn message_spec(&self) -> Seq<char> {
        match self {
            ProcessorError::UnsupportedType(s) => "unsupported source type: "@ + s@,
            ProcessorError::MissingField(s) => "missing required field: "@ + s@,
            ProcessorError::ExtractionFailed(s) => "content extraction failed: "@ + s@,
            ProcessorError::NetworkError(s) => "network error: "@ + s@,
            ProcessorError::ParseError(s) => "parse error: "@ + s@,
            ProcessorError::Other(s) => s@,
        }
    }

    /// The human-readable message of the error.
    pub fn message(&self) -> (r: String)
        ensures
            r@ == self.message_spec(),
    {
        let (prefix, s) = match self {
            ProcessorError::UnsupportedType(s) => ("unsupported source type: ", s),
            ProcessorError::MissingField(s) => ("missing required field: ", s),
            ProcessorError::ExtractionFailed(s) => ("content extraction failed: ", s),
            ProcessorError::NetworkError(s) => ("network error: ", s),
            ProcessorError::ParseError(s) => ("parse error: ", s),
            ProcessorError::Other(s) => ("", s),
        };
        let mut r = String::from_str(prefix);
        r.append(s.as_str());
        proof {
            reveal_strlit("");
        }
        r
    }
}

/// The content type of `a` marks a PDF.
pub open spec fn is_pdf_spec(a: Attachment) -> bool {
    occurs_at(a.content_type@, "application/pdf"@, 0)
}

/// `i` is the first PDF attachment in `atts`.
pub open spec fn first_pdf_at(atts: Seq<Attachment>, i: int) -> bool {
    0 <= i < atts.len() && is_pdf_spec(atts[i]) && forall|j: int| 0 <= j < i ==> !is_pdf_spec(#[trigger] atts[j])
}

/// The index of the first PDF attachment in `atts`, if there is one.
pub open spec fn first_pdf_index(atts: Seq<Attachment>) -> Option<int> {
    if exists|i: int| first_pdf_at(atts, i) {
        Some(choose|i: int| first_pdf_at(atts, i))
    } else {
        None
    }
}

proof fn lemma_first_pdf_unique(atts: Seq<Attachment>, a: int, b: int)
    requires
        first_pdf_at(atts, a),
        first_pdf_at(atts, b),
    ensures
        a == b,
{
    if a < b {
        assert(!is_pdf_spec(atts[a]));
    } else if b < a {
        assert(!is_pdf_spec(atts[b]));
    }
}

/// Whether the attachment is a PDF (its content type starts with "application/pdf").
pub fn is_pdf(a: &Attachment) -> (b: bool)
    ensures
        b == is_pdf_spec(*a),
{
    starts_with_str(a.content_type.as_str(), "application/pdf")
}

/// The index of the first PDF attachment, if there is one.
pub fn first_pdf(atts: &Vec<Attachment>) -> (r: Option<usize>)
    ensures
        match r {
            Some(i) => first_pdf_at(atts@, i as int) && first_pdf_index(atts@) == Some(i as int),
            None => first_pdf_index(atts@) is None && forall|j: int| 0 <= j < atts@.len() ==> !is_pdf_spec(
                #[trigger] atts@[j],
            ),
        },
{
    let mut i: usize = 0;
    while i < atts.len()
        invariant
            i <= atts@.len(),
            forall|j: int| 0 <= j < i ==> !is_pdf_spec(#[trigger] atts@[j]),
        decreases atts@.len() - i,
    {
        if is_pdf(&atts[i]) {
            proof {
                assert(first_pdf_at(atts@, i as int));
                let c = choose|c: int| first_pdf_at(atts@, c);
                lemma_first_pdf_unique(atts@, i as int, c);
            }
            return Some(i);
        }
        i = i + 1;
    }
    proof {
        assert forall|j: int| !first_pdf_at(atts@, j) by {
            if first_pdf_at(atts@, j) {
                assert(!is_pdf_spec(atts@[j]));
            }
        }
    }
    None
}

/// `chrono::Utc::now`: the current time. Nothing is promised of the value.
#[verifier::external_body]
pub fn utc_now() -> Timestamp {
    let now = chrono::Utc::now();
    Timestamp { secs: now.timestamp(), nanos: now.timestamp_subsec_nanos() }
}

/// `a` and `b` hold the same metadata value.
pub open spec fn same_meta(a: MetaValue, b: MetaValue) -> bool {
    match (a, b) {
        (MetaValue::Text(x), MetaValue::Text(y)) => x@ == y@,
        (MetaValue::Number(x), MetaValue::Number(y)) => x == y,
        (MetaValue::Flag(x), MetaValue::Flag(y)) => x == y,
        (MetaValue::TextList(x), MetaValue::TextList(y)) => x.deep_view() == y.deep_view(),
        (MetaValue::Counts(x), MetaValue::Counts(y)) => x@.map_values(|c: (String, i64)| (c.0@, c.1)) == y@.map_values(
            |c: (String, i64)| (c.0@, c.1),
        ),
        _ => false,
    }
}

/// `a` and `b` map the same keys to the same values.
pub open spec fn same_meta_map(a: Map<Seq<char>, MetaValue>, b: Map<Seq<char>, MetaValue>) -> bool {
    a.dom() == b.dom() && forall|k: Seq<char>| #[trigger] a.dom().contains(k) ==> same_meta(a[k], b[k])
}

impl MetaValue {
    /// A copy of the value.
    pub fn copy(&self) -> (r: MetaValue)
        ensures
            same_meta(r, *self),
    {
        match self {
            MetaValue::Text(s) => MetaValue::Text(s.clone()),
            MetaValue::Number(n) => MetaValue::Number(*n),
            MetaValue::Flag(b) => MetaValue::Flag(*b),
            MetaValue::TextList(l) => MetaValue::TextList(crate::text::copy_strings(l)),
            MetaValue::Counts(c) => {
                let mut r: Vec<(String, i64)> = Vec::new();
                let mut i: usize = 0;
                while i < c.len()
                    invariant
                        i <= c@.len(),
                        r@.map_values(|x: (String, i64)| (x.0@, x.1)) == c@.take(i as int).map_values(
                            |x: (String, i64)| (x.0@, x.1),
                        ),
                    decreases c@.len() - i,
                {
                    let ghost before = r@.map_values(|x: (String, i64)| (x.0@, x.1));
                    r.push((c[i].0.clone(), c[i].1));
                    assert(r@.map_values(|x: (String, i64)| (x.0@, x.1)) =~= before.push((c@[i as int].0@, c@[i as int].1)));
                    assert(c@.take(i as int + 1).map_values(|x: (String, i64)| (x.0@, x.1)) =~= c@.take(i as int).map_values(
                        |x: (String, i64)| (x.0@, x.1),
                    ).push((c@[i as int].0@, c@[i as int].1)));
                    i = i + 1;
                }
                assert(c@.take(i as int) =~= c@);
                MetaValue::Counts(r)
            },
        }
    }
}

/// A copy of a metadata map.
pub fn copy_meta_map(m: &StrMap<MetaValue>) -> (r: StrMap<MetaValue>)
    requires
        m.wf(),
    ensures
        r.wf(),
        same_meta_map(r@, m@),
{
    proof {
        m.lemma_seqs();
    }
    let mut r: StrMap<MetaValue> = StrMap::new();
    let n = m.entry_count();
    let mut i: usize = 0;
    while i < n
        invariant
            m.wf(),
            r.wf(),
            n == m.key_seq().len(),
            i <= n,
            m.key_seq().len() == m.val_seq().len(),
            m.key_seq().no_duplicates(),
            forall|j: int| 0 <= j < m.key_seq().len() ==> m@.dom().contains(#[trigger] m.key_seq()[j]) && m@[m.key_seq()[j]]
                == m.val_seq()[j],
            r@.dom() == m.key_seq().take(i as int).to_set(),
            forall|k: Seq<char>| #[trigger] r@.dom().contains(k) ==> same_meta(r@[k], m@[k]),
        decreases n - i,
    {
        let k = m.key_at(i);
        let v = m.value_at(i).copy();
        let ghost before = r@;
        r.insert(k.as_str(), v);
        proof {
            assert(m.key_seq().take(i as int + 1) =~= m.key_seq().take(i as int).push(m.key_seq()[i as int]));
            assert(m.key_seq().take(i as int + 1).to_set() =~= m.key_seq().take(i as int).to_set().insert(
                m.key_seq()[i as int],
            )) by {
                m.key_seq().take(i as int).lemma_push_to_set_commute(m.key_seq()[i as int]);
            }
        }
        i = i + 1;
    }
    proof {
        assert(m.key_seq().take(n as int) =~= m.key_seq());
        assert forall|k: Seq<char>| m@.dom().contains(k) implies r@.dom().contains(k) by {
            let j = choose|j: int| 0 <= j < m.key_seq().len() && m.key_seq()[j] == k;
            assert(m.key_seq().contains(k));
        }
        assert(r@.dom() =~= m@.dom());
    }
    r
}

} // verus!

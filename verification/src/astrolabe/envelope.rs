//! The quarantine envelope that wraps a processor result for ingestion,
//! and the arguments of the ingestion call made from it.

use vstd::prelude::*;
use crate::astrolabe::processor::{copy_meta_map, meta_text, meta_text_of, same_meta_map, EmbeddedLink, MetaValue, ProcessorResult};
use crate::codec::{hex_encode_spec, sha256_hex, sha256_spec};
use crate::crypto::envelope::utc_now_rfc3339;
use crate::events::schema::Timestamp;
use crate::strmap::StrMap;
use crate::text::{copy_strings, join, join_spec, string_of, to_chars};
use vstd::utf8::encode_utf8;

verus! {

/// An ASTROLABE envelope: the canonical form for quarantine and ingestion.
pub struct Envelope {
    pub schema_version: String,
    pub envelope_id: String,
    pub created_at: String,
    pub enrichment_status: String,
    pub source_type: String,
    pub source_url: String,
    pub processor_version: String,
    pub content_hash_sha256: String,
    pub title: String,
    pub episode_body: String,
    pub domain_tags: Vec<String>,
    pub metadata: StrMap<MetaValue>,
    pub post_sanitization_hash: String,
    pub fetched_at: String,
    pub processed_at: String,
    pub embedded_artifacts: Vec<EmbeddedLink>,
}

/// Arguments of the knowledge graph's `add_memory` tool.
#[derive(Debug, Clone)]
pub struct IngestArgs {
    pub name: String,
    pub episode_body: String,
    pub group_id: String,
    pub source: String,
    pub source_description: String,
}

/// Errors of the ingestion client.
#[derive(Debug)]
pub enum IngestError {
    Connection(String),
    NotConnected,
    Parse(String),
    McpError(String),
}

impl IngestError {
    /// The human-readable message of the error.
    pub open spec fn message_spec(&self) -> Seq<char> {
        match self {
            IngestError::Connection(s) => "connection error: "@ + s@,
            IngestError::NotConnected => "not connected \u{2014} call connect() first"@,
            IngestError::Parse(s) => "parse error: "@ + s@,
            IngestError::McpError(s) => "MCP error: "@ + s@,
        }
    }

    /// The human-readable message of the error.
    pub fn message(&self) -> (r: String)
        ensures
            r@ == self.message_spec(),
    {
        match self {
            IngestError::Connection(s) => {
                let mut r = String::from_str("connection error: ");
                r.append(s.as_str());
                r
            },
            IngestError::NotConnected => String::from_str("not connected \u{2014} call connect() first"),
            IngestError::Parse(s) => {
                let mut r = String::from_str("parse error: ");
                r.append(s.as_str());
                r
            },
            IngestError::McpError(s) => {
                let mut r = String::from_str("MCP error: ");
                r.append(s.as_str());
                r
            },
        }
    }
}

/// The RFC 3339 text of the instant `secs` seconds and `nanos` nanoseconds
/// after the Unix epoch.
pub uninterp spec fn rfc3339_spec(secs: i64, nanos: u32) -> Seq<char>;

/// `DateTime::<Utc>::from_timestamp(secs, nanos)` then `to_rfc3339`: the
/// RFC 3339 text of the instant (empty when it is out of chrono's range).
#[verifier::external_body]
fn rfc3339(t: Timestamp) -> (r: String)
    ensures
        r@ == rfc3339_spec(t.secs, t.nanos),
{
    chrono::DateTime::from_timestamp(t.secs, t.nanos).map(|d| d.to_rfc3339()).unwrap_or_default()
}

/// The lines of the episode body of a result.
pub open spec fn episode_lines(r: ProcessorResult) -> Seq<Seq<char>> {
    let authors = match meta_text_of(r.metadata@, "authors"@) {
        Some(a) => seq!["Authors: "@ + a],
        None => Seq::empty(),
    };
    let domain = if r.domain_tags@.len() > 0 {
        seq!["\nDomain: "@ + join_spec(r.domain_tags.deep_view(), ", "@)]
    } else {
        Seq::empty()
    };
    seq!["Title: "@ + r.title@] + authors + seq!["\n"@ + r.content@] + domain
}

/// What the content hash of a result covers: source URL, title and the
/// first 500 characters of the content, separated by `|`.
pub open spec fn hash_input(r: ProcessorResult) -> Seq<char> {
    let prefix = if r.content@.len() > 500 { r.content@.take(500) } else { r.content@ };
    r.source_url@ + "|"@ + r.title@ + "|"@ + prefix
}

/// `e` is the envelope of result `r`, created at `created_at`.
pub open spec fn envelope_of(r: ProcessorResult, created_at: Seq<char>, e: Envelope) -> bool {
    let full = hex_encode_spec(sha256_spec(encode_utf8(hash_input(r))));
    &&& e.schema_version@ == "1.0.0"@
    &&& e.content_hash_sha256@ == full
    &&& full.len() == 64
    &&& e.post_sanitization_hash@ == full.take(16)
    &&& e.envelope_id@ == r.source_type@ + "-"@ + full.take(16)
    &&& e.created_at@ == created_at
    &&& e.enrichment_status@ == "quarantined"@
    &&& e.source_type@ == r.source_type@
    &&& e.source_url@ == r.source_url@
    &&& e.processor_version@ == r.processor_version@
    &&& e.title@ == r.title@
    &&& e.episode_body@ == join_spec(episode_lines(r), "\n"@)
    &&& e.domain_tags.deep_view() == r.domain_tags.deep_view()
    &&& e.metadata.wf()
    &&& same_meta_map(e.metadata@, r.metadata@)
    &&& e.fetched_at@ == rfc3339_spec(r.fetched_at.secs, r.fetched_at.nanos)
    &&& e.processed_at@ == rfc3339_spec(r.processed_at.secs, r.processed_at.nanos)
    &&& e.embedded_artifacts@.len() == r.embedded_artifacts@.len()
    &&& forall|k: int| 0 <= k < e.embedded_artifacts@.len() ==> #[trigger] e.embedded_artifacts@[k].view_tuple()
        == r.embedded_artifacts@[k].view_tuple()
}

fn copy_links(v: &Vec<EmbeddedLink>) -> (r: Vec<EmbeddedLink>)
    ensures
        r@.len() == v@.len(),
        forall|k: int| 0 <= k < r@.len() ==> #[trigger] r@[k].view_tuple() == v@[k].view_tuple(),
{
    let mut r: Vec<EmbeddedLink> = Vec::new();
    let mut i: usize = 0;
    while i < v.len()
        invariant
            i <= v@.len(),
            r@.len() == i,
            forall|k: int| 0 <= k < i ==> #[trigger] r@[k].view_tuple() == v@[k].view_tuple(),
        decreases v@.len() - i,
    {
        let l = &v[i];
        r.push(
            EmbeddedLink {
                url: l.url.clone(),
                type_hint: l.type_hint.clone(),
                discovered_in: l.discovered_in.clone(),
                discovered_from: l.discovered_from.clone(),
            },
        );
        i = i + 1;
    }
    r
}

/// Builds the envelope of a result, stamped with the creation time `created_at`.
pub fn build_envelope_at(result: &ProcessorResult, created_at: String) -> (e: Envelope)
    requires
        result.metadata.wf(),
    ensures
        envelope_of(*result, created_at@, e),
{
    let mut parts: Vec<String> = Vec::new();
    let mut l1 = String::from_str("Title: ");
    l1.append(result.title.as_str());
    parts.push(l1);
    match meta_text(&result.metadata, "authors") {
        Some(a) => {
            let mut l = String::from_str("Authors: ");
            l.append(a.as_str());
            parts.push(l);
        },
        None => {},
    }
    let mut l3 = String::from_str("\n");
    l3.append(result.content.as_str());
    parts.push(l3);
    if result.domain_tags.len() > 0 {
        let tags = join(&result.domain_tags, ", ");
        let mut l = String::from_str("\nDomain: ");
        l.append(tags.as_str());
        parts.push(l);
    }
    assert(parts.deep_view() =~= episode_lines(*result));
    let episode_body = join(&parts, "\n");
    let cv = to_chars(result.content.as_str());
    let n = if cv.len() > 500 {
        500
    } else {
        cv.len()
    };
    let prefix = string_of(&cv, 0, n);
    proof {
        if cv@.len() <= 500 {
            assert(cv@.subrange(0, n as int) =~= cv@);
        }
    }
    let mut input = result.source_url.clone();
    input.append("|");
    input.append(result.title.as_str());
    input.append("|");
    input.append(prefix.as_str());
    assert(input@ =~= hash_input(*result));
    let full = sha256_hex(input.as_str());
    let hv = to_chars(full.as_str());
    let short = string_of(&hv, 0, 16);
    assert(short@ =~= full@.take(16));
    let mut envelope_id = result.source_type.clone();
    envelope_id.append("-");
    envelope_id.append(short.as_str());
    Envelope {
        schema_version: String::from_str("1.0.0"),
        envelope_id,
        created_at,
        enrichment_status: String::from_str("quarantined"),
        source_type: result.source_type.clone(),
        source_url: result.source_url.clone(),
        processor_version: result.processor_version.clone(),
        content_hash_sha256: full,
        title: result.title.clone(),
        episode_body,
        domain_tags: copy_strings(&result.domain_tags),
        metadata: copy_meta_map(&result.metadata),
        post_sanitization_hash: short,
        fetched_at: rfc3339(result.fetched_at),
        processed_at: rfc3339(result.processed_at),
        embedded_artifacts: copy_links(&result.embedded_artifacts),
    }
}

/// Builds the envelope of a result, created now.
pub fn build_envelope(result: &ProcessorResult) -> (e: Envelope)
    requires
        result.metadata.wf(),
    ensures
        exists|created_at: Seq<char>| envelope_of(*result, created_at, e),
{
    let now = utc_now_rfc3339();
    let e = build_envelope_at(result, now);
    assert(envelope_of(*result, now@, e));
    e
}

/// The file name of an envelope in the quarantine directory.
pub fn quarantine_file_name(envelope: &Envelope) -> (r: String)
    ensures
        r@ == envelope.envelope_id@ + ".json"@,
{
    let mut r = envelope.envelope_id.clone();
    r.append(".json");
    r
}

/// Builds envelopes for results and the arguments to ingest them.
pub struct EnvelopeBuilder {
    pub quarantine_dir: String,
}

/// `a` are the ingestion arguments of envelope `e`.
pub open spec fn ingest_args_of(e: Envelope, a: IngestArgs) -> bool {
    &&& a.name@ == e.title@
    &&& a.episode_body@ == e.episode_body@
    &&& a.group_id@ == "astrolabe_main"@
    &&& a.source@ == "text"@
    &&& a.source_description@ == e.source_type@ + ":"@ + e.source_url@ + " (processor v"@ + e.processor_version@ + ")"@
}

impl EnvelopeBuilder {
    pub fn new(quarantine_dir: String) -> (b: Self)
        ensures
            b.quarantine_dir@ == quarantine_dir@,
    {
        EnvelopeBuilder { quarantine_dir }
    }

    /// The envelope of a result, created now.
    pub fn build(&self, result: &ProcessorResult) -> (e: Envelope)
        requires
            result.metadata.wf(),
        ensures
            exists|created_at: Seq<char>| envelope_of(*result, created_at, e),
    {
        build_envelope(result)
    }

    /// The arguments to ingest an envelope into the `astrolabe_main` group.
    pub fn build_ingest_args(envelope: &Envelope) -> (a: IngestArgs)
        ensures
            ingest_args_of(*envelope, a),
    {
        let mut desc = envelope.source_type.clone();
        desc.append(":");
        desc.append(envelope.source_url.as_str());
        desc.append(" (processor v");
        desc.append(envelope.processor_version.as_str());
        desc.append(")");
        IngestArgs {
            name: envelope.title.clone(),
            episode_body: envelope.episode_body.clone(),
            group_id: String::from_str("astrolabe_main"),
            source: String::from_str("text"),
            source_description: desc,
        }
    }
}

/// An envelope's content hash has 64 hex digits, its post-sanitization
/// hash is their first 16, and its id is the source type, `-`, and that
/// short hash; it starts out quarantined.
pub proof fn lemma_envelope_shape(r: ProcessorResult, created_at: Seq<char>, e: Envelope)
    requires
        envelope_of(r, created_at, e),
    ensures
        e.content_hash_sha256@.len() == 64,
        e.post_sanitization_hash@.len() == 16,
        e.post_sanitization_hash@ == e.content_hash_sha256@.take(16),
        e.envelope_id@ == e.source_type@ + "-"@ + e.post_sanitization_hash@,
        e.enrichment_status@ == "quarantined"@,
{
}

} // verus!

//! PDF attachments: the generic PDF processor and the arXiv PDF processor,
//! with the helpers they share (decoding, header check, title inference).

use vstd::prelude::*;
use crate::astrolabe::arxiv::{
    bare_id_spec, find_bare_id, format_authors, format_authors_spec, research_tags, research_tags_spec, ArxivMetadata,
};
use crate::astrolabe::processor::{
    first_pdf, first_pdf_at, first_pdf_index, is_pdf_spec, meta_flag_is, meta_list_is, meta_number_is, meta_text, meta_text_is,
    meta_text_of, Attachment, MetaValue, ProcessorError, ProcessorResult, RawArtifact,
};
use crate::codec::{hex_encode, hex_encode_spec, sha256, sha256_spec};
use crate::events::schema::Timestamp;
use crate::strmap::StrMap;
use crate::text::{
    byte_len, copy_strings, decimal, decimal_spec, join, join_spec, lowercase_spec, occurs_at, push_char, split_whitespace, starts_with_str,
    string_of, to_chars, to_lowercase, trim, trim_spec, words_spec,
};
use vstd::utf8::encode_utf8;

verus! {

/// What standard base64 decoding (with padding) gives for `s`, `None` when
/// `s` is not valid base64.
pub uninterp spec fn base64_decoded(s: Seq<char>) -> Option<Seq<u8>>;

/// `base64::engine::general_purpose::STANDARD.decode`: the decoded bytes,
/// or the text of the decoding error. The contract names the decoded bytes;
/// what the error text says is left unstated.
#[verifier::external_body]
fn base64_decode(data: &str) -> (r: Result<Vec<u8>, String>)
    ensures
        match r {
            Ok(v) => base64_decoded(data@) == Some(v@),
            Err(_) => base64_decoded(data@) is None,
        },
{
    base64::Engine::decode(&base64::engine::general_purpose::STANDARD, data).map_err(|e| e.to_string())
}

/// The bytes of attachment data: base64-decoded when the data is valid
/// base64, else the data's own UTF-8 bytes.
pub open spec fn attachment_bytes(data: Seq<char>) -> Seq<u8> {
    match base64_decoded(data) {
        Some(b) => b,
        None => encode_utf8(data),
    }
}

/// Decodes attachment data (base64, or else the raw bytes of the text).
pub fn decode_attachment_data(data: &str) -> (r: Vec<u8>)
    ensures
        r@ == attachment_bytes(data@),
{
    match base64_decode(data) {
        Ok(b) => b,
        Err(_) => {
            let bytes = data.as_bytes();
            let mut v: Vec<u8> = Vec::new();
            let mut i: usize = 0;
            while i < bytes.len()
                invariant
                    bytes@ == encode_utf8(data@),
                    i <= bytes@.len(),
                    v@ == bytes@.take(i as int),
                decreases bytes@.len() - i,
            {
                v.push(bytes[i]);
                assert(bytes@.take(i as int + 1) =~= bytes@.take(i as int).push(bytes@[i as int]));
                i = i + 1;
            }
            assert(bytes@.take(i as int) =~= bytes@);
            v
        },
    }
}

/// The start of every PDF file.
pub open spec fn pdf_magic() -> Seq<u8> {
    seq![37u8, 80u8, 68u8, 70u8, 45u8]
}

/// The text recorded for a PDF of `n` bytes (text extraction is not
/// available, so the text says so).
pub open spec fn pdf_placeholder(n: nat) -> Seq<char> {
    "[PDF detected: "@ + decimal_spec(n) + " bytes \u{2014} text extraction pending native PDF library integration]"@
}

/// The text of a PDF: an error when the bytes do not start with `%PDF-`,
/// else the placeholder for its size.
pub open spec fn pdf_text_spec(b: Seq<u8>) -> Result<Seq<char>, Seq<char>> {
    if b.len() < 5 || b.take(5) != pdf_magic() {
        Err("not a valid PDF (missing header)"@)
    } else {
        Ok(pdf_placeholder(b.len()))
    }
}

/// Extracts the text of PDF bytes (at most `max_pages` pages).
pub fn extract_pdf_text(pdf_bytes: &[u8], max_pages: usize) -> (r: Result<String, String>)
    ensures
        match r {
            Ok(t) => pdf_text_spec(pdf_bytes@) == Ok::<Seq<char>, Seq<char>>(t@) && encode_utf8(t@).len() <= 1000,
            Err(e) => pdf_text_spec(pdf_bytes@) == Err::<Seq<char>, Seq<char>>(e@),
        },
{
    let n = pdf_bytes.len();
    if n < 5 || pdf_bytes[0] != 37u8 || pdf_bytes[1] != 80u8 || pdf_bytes[2] != 68u8 || pdf_bytes[3] != 70u8
        || pdf_bytes[4] != 45u8 {
        proof {
            if n >= 5 {
                assert(pdf_bytes@.take(5)[0] == pdf_bytes@[0]);
                assert(pdf_bytes@.take(5)[1] == pdf_bytes@[1]);
                assert(pdf_bytes@.take(5)[2] == pdf_bytes@[2]);
                assert(pdf_bytes@.take(5)[3] == pdf_bytes@[3]);
                assert(pdf_bytes@.take(5)[4] == pdf_bytes@[4]);
                assert(pdf_bytes@.take(5) != pdf_magic());
            }
        }
        return Err(String::from_str("not a valid PDF (missing header)"));
    }
    assert(pdf_bytes@.take(5) =~= pdf_magic());
    let mut s = String::from_str("[PDF detected: ");
    let d = decimal(n);
    s.append(d.as_str());
    s.append(" bytes \u{2014} text extraction pending native PDF library integration]");
    proof {
        lemma_placeholder_short(n as nat);
    }
    Ok(s)
}

/// Powers of ten.
pub open spec fn pow10(k: nat) -> nat
    decreases k,
{
    if k == 0 {
        1
    } else {
        10 * pow10((k - 1) as nat)
    }
}

proof fn lemma_decimal_len(n: nat, k: nat)
    requires
        n < pow10(k),
        k >= 1,
    ensures
        decimal_spec(n).len() <= k,
    decreases k,
{
    if n >= 10 {
        assert(k >= 2) by {
            if k == 1 {
                assert(pow10(1) == 10 * pow10(0));
            }
        }
        let p = pow10((k - 1) as nat);
        assert(n / 10 < p) by (nonlinear_arith)
            requires
                n < 10 * p,
        ;
        lemma_decimal_len(n / 10, (k - 1) as nat);
    }
}

proof fn lemma_encode_len(s: Seq<char>)
    ensures
        encode_utf8(s).len() <= 4 * s.len(),
    decreases s.len(),
{
    if s.len() > 0 {
        lemma_encode_len(s.drop_first());
    }
}

/// The placeholder text of a PDF is far shorter than the content limit.
proof fn lemma_placeholder_short(n: nat)
    requires
        n <= usize::MAX,
    ensures
        encode_utf8(pdf_placeholder(n)).len() <= 1000,
{
    reveal_with_fuel(pow10, 21);
    assert(usize::MAX < pow10(20));
    lemma_decimal_len(n, 20);
    reveal_strlit("[PDF detected: ");
    reveal_strlit(" bytes \u{2014} text extraction pending native PDF library integration]");
    lemma_encode_len(pdf_placeholder(n));
}

/// The upper-case form of one character, as `char::to_uppercase` gives it
/// (one or more characters).
pub uninterp spec fn upper_spec(c: char) -> Seq<char>;

/// `char::to_uppercase`: the Unicode upper-case form of `c`.
#[verifier::external_body]
fn char_to_upper(c: char) -> (r: String)
    ensures
        r@ == upper_spec(c),
{
    c.to_uppercase().collect::<String>()
}

/// A file name that holds no path separator of any platform (`/`, `\\`)
/// and no drive mark (`:`), and is not `.`: one plain component.
pub open spec fn plain_file_name(name: Seq<char>) -> bool {
    &&& name != "."@
    &&& forall|i: int| 0 <= i < name.len() ==> #[trigger] name[i] != '/' && name[i] != '\\' && name[i] != ':'
}

/// The position of the last `.` in `s`, or -1 when there is none.
pub open spec fn last_dot(s: Seq<char>) -> int
    decreases s.len(),
{
    if s.len() == 0 {
        -1
    } else if s.last() == '.' {
        s.len() - 1
    } else {
        last_dot(s.drop_last())
    }
}

/// The stem of a plain file name, by the rule std documents for
/// `Path::file_stem`: none for an empty name or `..`; the whole name when
/// it holds no `.`, or when its only `.` is the first character; else the
/// text before the last `.`.
pub open spec fn stem_of(name: Seq<char>) -> Option<Seq<char>> {
    if name.len() == 0 || name == ".."@ {
        None
    } else if last_dot(name) <= 0 {
        Some(name)
    } else {
        Some(name.take(last_dot(name)))
    }
}

/// `Option<String>` as plain text.
pub open spec fn opt_text(o: Option<String>) -> Option<Seq<char>> {
    match o {
        Some(s) => Some(s@),
        None => None,
    }
}

/// `std::path::Path::file_stem` of `name`, as text. For a plain file name
/// the stem is the one std's documentation gives (`stem_of`); for a name
/// with separators the split depends on the platform, and the contract
/// states only that the stem, when there is one, is a non-empty piece of
/// `name`.
#[verifier::external_body]
fn file_stem(name: &str) -> (r: Option<String>)
    ensures
        plain_file_name(name@) ==> opt_text(r) == stem_of(name@),
        match r {
            Some(s) => s@.len() > 0 && exists|i: int, j: int| 0 <= i <= j <= name@.len() && s@ == name@.subrange(i, j),
            None => true,
        },
{
    std::path::Path::new(name).file_stem().and_then(|s| s.to_str()).map(|s| s.to_string())
}

/// A word in title case: first character upper-cased, the rest lower-cased.
pub open spec fn title_word(w: Seq<char>) -> Seq<char> {
    if w.len() == 0 {
        Seq::empty()
    } else {
        upper_spec(w[0]) + lowercase_spec(w.drop_first())
    }
}

/// `s` with `_` and `-` turned into spaces.
pub open spec fn spaced(s: Seq<char>) -> Seq<char> {
    s.map_values(|c: char| if c == '_' || c == '-' { ' ' } else { c })
}

/// The title made from a file stem: `None` when the stem, spaced, has at
/// most three bytes; else its words in title case.
pub open spec fn stem_title_spec(stem: Seq<char>) -> Option<Seq<char>> {
    let name = spaced(stem);
    if byte_len(name) > 3 {
        Some(join_spec(words_spec(name).map_values(|w: Seq<char>| title_word(w)), " "@))
    } else {
        None
    }
}

/// The subject is descriptive enough to be the title: longer than five
/// bytes and not a forward (`Fwd:`).
pub open spec fn subject_is_title(subject: Seq<char>) -> bool {
    byte_len(subject) > 5 && !occurs_at(subject, "Fwd:"@, 0)
}

fn title_word_exec(w: &str) -> (r: String)
    ensures
        r@ == title_word(w@),
{
    let v = to_chars(w);
    if v.len() == 0 {
        return String::new();
    }
    let mut r = char_to_upper(v[0]);
    let rest = string_of(&v, 1, v.len());
    let low = to_lowercase(rest.as_str());
    r.append(low.as_str());
    assert(v@.subrange(1, v@.len() as int) =~= v@.drop_first());
    r
}

/// The title made from a file stem (see `stem_title_spec`).
pub fn stem_title(stem: &str) -> (r: Option<String>)
    ensures
        match r {
            Some(t) => stem_title_spec(stem@) == Some(t@),
            None => stem_title_spec(stem@) is None,
        },
{
    let v = to_chars(stem);
    let mut name = String::new();
    let mut i: usize = 0;
    while i < v.len()
        invariant
            i <= v@.len(),
            name@ == spaced(v@.take(i as int)),
        decreases v@.len() - i,
    {
        let c = v[i];
        push_char(&mut name, if c == '_' || c == '-' { ' ' } else { c });
        assert(spaced(v@.take(i as int + 1)) =~= spaced(v@.take(i as int)).push(if c == '_' || c == '-' { ' ' } else { c }));
        i = i + 1;
    }
    assert(v@.take(i as int) =~= v@);
    if name.as_str().len() <= 3 {
        return None;
    }
    let words = split_whitespace(name.as_str());
    let mut titled: Vec<String> = Vec::new();
    let mut k: usize = 0;
    while k < words.len()
        invariant
            k <= words@.len(),
            titled.deep_view() == words.deep_view().take(k as int).map_values(|w: Seq<char>| title_word(w)),
        decreases words@.len() - k,
    {
        let t = title_word_exec(words[k].as_str());
        let ghost before = titled.deep_view();
        titled.push(t);
        proof {
            assert(titled.deep_view() =~= before.push(title_word(words@[k as int]@)));
            assert(words.deep_view().take(k as int + 1).map_values(|w: Seq<char>| title_word(w)) =~= before.push(
                title_word(words.deep_view()[k as int]),
            ));
        }
        k = k + 1;
    }
    assert(words.deep_view().take(k as int) =~= words.deep_view());
    Some(join(&titled, " "))
}

/// The title made from a stem, or `Untitled PDF` when it is too short.
pub open spec fn stem_title_or_untitled(stem: Seq<char>) -> Seq<char> {
    match stem_title_spec(stem) {
        Some(x) => x,
        None => "Untitled PDF"@,
    }
}

/// The stem a plain file name is titled from: its `stem_of`, else the
/// name itself.
pub open spec fn title_stem(name: Seq<char>) -> Seq<char> {
    match stem_of(name) {
        Some(s) => s,
        None => name,
    }
}

/// `t` is a title inferred for a PDF from the subject and the file name:
/// the trimmed subject when it is descriptive enough; else, with no file
/// name, `Untitled PDF`; else the title of the file name's stem (for a
/// plain file name the one `stem_of` gives; for a path, a non-empty piece
/// of it, as the platform's path rules cut it), or `Untitled PDF` when that
/// stem is too short.
pub open spec fn title_inferred(subject: Seq<char>, filename: Seq<char>, t: Seq<char>) -> bool {
    &&& subject_is_title(subject) ==> t == trim_spec(subject)
    &&& !subject_is_title(subject) && filename.len() == 0 ==> t == "Untitled PDF"@
    &&& !subject_is_title(subject) && filename.len() > 0 && plain_file_name(filename) ==> t == stem_title_or_untitled(
        title_stem(filename),
    )
    &&& !subject_is_title(subject) && filename.len() > 0 ==> exists|i: int, j: int|
        0 <= i <= j <= filename.len() && match stem_title_spec(#[trigger] filename.subrange(i, j)) {
            Some(x) => t == x,
            None => t == "Untitled PDF"@,
        }
}

/// Infers the title of a PDF: the trimmed subject when it is descriptive
/// enough; else the file stem in title case when it is long enough; else
/// `Untitled PDF`.
pub fn infer_title(subject: &str, filename: &str) -> (r: String)
    ensures
        title_inferred(subject@, filename@, r@),
{
    if subject.len() > 5 && !starts_with_str(subject, "Fwd:") {
        return trim(subject);
    }
    if !filename.is_empty() {
        let stem = match file_stem(filename) {
            Some(s) => s,
            None => String::from_str(filename),
        };
        proof {
            assert(filename@.subrange(0, filename@.len() as int) =~= filename@);
        }
        match stem_title(stem.as_str()) {
            Some(t) => {
                return t;
            },
            None => {},
        }
    }
    String::from_str("Untitled PDF")
}

/// Generic PDF processor: PDF attachments that are not arXiv papers.
pub struct PdfGenericProcessor;

/// The source of a PDF mail: the `source_url` text of its metadata, else
/// `email:<message id>`.
pub open spec fn pdf_source_spec(a: RawArtifact) -> Seq<char> {
    match meta_text_of(a.metadata@, "source_url"@) {
        Some(u) => u,
        None => "email:"@ + a.message_id@,
    }
}

/// `r` is the result for the PDF attachment `att` of `a` holding `data`.
pub open spec fn generic_pdf_result(a: RawArtifact, att: Attachment, data: Seq<u8>, now: Timestamp, r: ProcessorResult) -> bool {
    &&& title_inferred(a.subject@, att.filename@, r.title@)
    &&& r.content@ == "Title: "@ + r.title@ + "\n"@ + "\n[PDF attachment: "@ + decimal_spec(data.len())
        + " bytes \u{2014} text extraction pending Rust PDF library integration]"@
    &&& r.source_url@ == pdf_source_spec(a)
    &&& r.source_type@ == "pdf-generic"@
    &&& r.processor_version@ == "1.0.0"@
    &&& r.domain_tags.deep_view() == seq!["document"@]
    &&& r.embedded_artifacts@.len() == 0
    &&& r.fetched_at == now
    &&& r.processed_at == now
    &&& r.metadata.wf()
    &&& r.metadata@.dom() == set!["filename"@, "content_hash_sha256"@, "pdf_size_bytes"@]
    &&& meta_text_is(r.metadata@, "filename"@, att.filename@)
    &&& meta_text_is(r.metadata@, "content_hash_sha256"@, hex_encode_spec(sha256_spec(data)))
    &&& meta_number_is(r.metadata@, "pdf_size_bytes"@, data.len() as int)
}

/// The source of a PDF mail.
fn pdf_source(a: &RawArtifact) -> (r: String)
    requires
        a.metadata.wf(),
    ensures
        r@ == pdf_source_spec(*a),
{
    match meta_text(&a.metadata, "source_url") {
        Some(u) => u,
        None => {
            let mut s = String::from_str("email:");
            s.append(a.message_id.as_str());
            s
        },
    }
}

fn hash_hex(data: &Vec<u8>) -> (r: String)
    ensures
        r@ == hex_encode_spec(sha256_spec(data@)),
{
    let d = sha256(data.as_slice());
    hex_encode(d.as_slice())
}

impl PdfGenericProcessor {
    pub fn new() -> (p: Self) {
        PdfGenericProcessor
    }

    /// The processor's name.
    pub fn name(&self) -> (r: &'static str)
        ensures
            r@ == "pdf-generic"@,
    {
        "pdf-generic"
    }

    /// The processor's version.
    pub fn version(&self) -> (r: &'static str)
        ensures
            r@ == "1.0.0"@,
    {
        "1.0.0"
    }

    /// Whether the artifact has a PDF attachment.
    pub fn can_process(&self, artifact: &RawArtifact) -> (b: bool)
        ensures
            b == (first_pdf_index(artifact.attachments@) is Some),
    {
        first_pdf(&artifact.attachments).is_some()
    }

    /// Processes the first PDF attachment: `MissingField("PDF attachment")`
    /// without one, `ExtractionFailed` when its data is not base64,
    /// `MissingField("PDF data")` when it decodes to nothing.
    pub fn process(&self, artifact: &RawArtifact, now: Timestamp) -> (r: Result<ProcessorResult, ProcessorError>)
        requires
            artifact.metadata.wf(),
        ensures
            match first_pdf_index(artifact.attachments@) {
                None => r matches Err(ProcessorError::MissingField(f)) && f@ == "PDF attachment"@,
                Some(i) => match base64_decoded(artifact.attachments@[i].data@) {
                    None => r matches Err(ProcessorError::ExtractionFailed(m)) && m@.len() >= 15 && m@.take(15)
                        == "base64 decode: "@,
                    Some(data) => if data.len() == 0 {
                        r matches Err(ProcessorError::MissingField(f)) && f@ == "PDF data"@
                    } else {
                        r matches Ok(res) && generic_pdf_result(*artifact, artifact.attachments@[i], data, now, res)
                    },
                },
            },
    {
        let i = match first_pdf(&artifact.attachments) {
            Some(i) => i,
            None => {
                return Err(ProcessorError::MissingField(String::from_str("PDF attachment")));
            },
        };
        let att = &artifact.attachments[i];
        let data = match base64_decode(att.data.as_str()) {
            Ok(d) => d,
            Err(e) => {
                let mut m = String::from_str("base64 decode: ");
                m.append(e.as_str());
                proof {
                    reveal_strlit("base64 decode: ");
                    assert(m@.take(15) =~= "base64 decode: "@);
                }
                return Err(ProcessorError::ExtractionFailed(m));
            },
        };
        if data.len() == 0 {
            return Err(ProcessorError::MissingField(String::from_str("PDF data")));
        }
        let content_hash = hash_hex(&data);
        let title = infer_title(artifact.subject.as_str(), att.filename.as_str());
        let source_url = pdf_source(artifact);
        let mut parts: Vec<String> = Vec::new();
        let mut p1 = String::from_str("Title: ");
        p1.append(title.as_str());
        parts.push(p1);
        let mut p2 = String::from_str("\n[PDF attachment: ");
        let d = decimal(data.len());
        p2.append(d.as_str());
        p2.append(" bytes \u{2014} text extraction pending Rust PDF library integration]");
        parts.push(p2);
        let content = join(&parts, "\n");
        proof {
            reveal_with_fuel(join_spec, 3);
            assert(parts.deep_view() =~= seq![parts@[0]@, parts@[1]@]);
            assert(content@ =~= "Title: "@ + title@ + "\n"@ + "\n[PDF attachment: "@ + decimal_spec(data@.len())
                + " bytes \u{2014} text extraction pending Rust PDF library integration]"@);
        }
        let mut metadata: StrMap<MetaValue> = StrMap::new();
        metadata.insert("filename", MetaValue::Text(att.filename.clone()));
        metadata.insert("content_hash_sha256", MetaValue::Text(content_hash));
        metadata.insert("pdf_size_bytes", MetaValue::Number(data.len() as u64));
        proof {
            reveal_strlit("filename");
            reveal_strlit("content_hash_sha256");
            reveal_strlit("pdf_size_bytes");
            assert("filename"@.len() == 8);
            assert("content_hash_sha256"@.len() == 19);
            assert("pdf_size_bytes"@.len() == 14);
            assert(metadata@.dom() =~= set!["filename"@, "content_hash_sha256"@, "pdf_size_bytes"@]);
        }
        let mut tags: Vec<String> = Vec::new();
        tags.push(String::from_str("document"));
        assert(tags.deep_view() =~= seq!["document"@]);
        Ok(
            ProcessorResult {
                title,
                content,
                source_url,
                source_type: String::from_str("pdf-generic"),
                processor_version: String::from_str("1.0.0"),
                domain_tags: tags,
                metadata,
                embedded_artifacts: Vec::new(),
                fetched_at: now,
                processed_at: now,
            },
        )
    }
}

/// arXiv PDF processor: a PDF attachment of a paper whose id the subject names.
pub struct ArxivPdfProcessor;

/// The text of a PDF as recorded: the extracted text, or empty.
pub open spec fn pdf_text_of(bytes: Seq<u8>) -> Seq<char> {
    match pdf_text_spec(bytes) {
        Ok(t) => t,
        Err(_) => Seq::empty(),
    }
}

/// The content lines for the text of a PDF: a header and the text, when
/// text was extracted.
pub open spec fn pdf_text_lines(bytes: Seq<u8>) -> Seq<Seq<char>> {
    if pdf_text_spec(bytes) is Ok && pdf_text_of(bytes).len() > 0 {
        seq!["\n[--- PDF Text ---]"@, pdf_text_of(bytes)]
    } else {
        Seq::empty()
    }
}

/// What every arXiv PDF result holds, for paper `id` and PDF bytes `bytes`.
pub open spec fn arxiv_pdf_common(id: Seq<char>, bytes: Seq<u8>, r: ProcessorResult) -> bool {
    &&& r.source_url@ == "https://arxiv.org/abs/"@ + id
    &&& r.source_type@ == "arxiv-pdf"@
    &&& r.processor_version@ == "1.0.0"@
    &&& r.embedded_artifacts@.len() == 0
    &&& r.metadata.wf()
    &&& meta_text_is(r.metadata@, "arxiv_id"@, id)
    &&& meta_text_is(r.metadata@, "content_hash_sha256"@, hex_encode_spec(sha256_spec(bytes)))
    &&& meta_flag_is(r.metadata@, "pdf_text_extracted"@, pdf_text_spec(bytes) is Ok)
    &&& meta_number_is(r.metadata@, "pdf_text_length"@, byte_len(pdf_text_of(bytes)))
}

/// The keys every arXiv PDF result has in its metadata.
pub open spec fn arxiv_pdf_keys() -> Set<Seq<char>> {
    set!["arxiv_id"@, "content_hash_sha256"@, "pdf_text_extracted"@, "pdf_text_length"@]
}

/// The result of the processing without API metadata.
pub open spec fn arxiv_pdf_sync_result(id: Seq<char>, bytes: Seq<u8>, now: Timestamp, r: ProcessorResult) -> bool {
    &&& arxiv_pdf_common(id, bytes, r)
    &&& r.title@ == "arXiv:"@ + id
    &&& r.content@ == join_spec(seq!["Title: "@ + ("arXiv:"@ + id)] + pdf_text_lines(bytes), "\n"@)
    &&& r.domain_tags.deep_view() == seq!["research"@]
    &&& r.metadata@.dom() == arxiv_pdf_keys().insert("sync_only"@)
    &&& meta_flag_is(r.metadata@, "sync_only"@, true)
    &&& r.fetched_at == now
    &&& r.processed_at == now
}

/// Title, authors (as displayed), abstract, categories and publication date
/// of a paper, from its API metadata or, without it, from its id alone.
pub open spec fn paper_facts(id: Seq<char>, meta: Option<ArxivMetadata>) -> (Seq<char>, Seq<char>, Seq<char>, Seq<Seq<char>>, Seq<char>) {
    match meta {
        Some(m) => (
            m.title@,
            format_authors_spec(m.authors@.map_values(|a: String| a@)),
            m.abstract_text@,
            m.categories.deep_view(),
            m.published@,
        ),
        None => ("arXiv:"@ + id, Seq::empty(), Seq::empty(), Seq::empty(), Seq::empty()),
    }
}

/// The result of the processing with the paper's API metadata (`None` when
/// it could not be fetched).
pub open spec fn arxiv_pdf_full_result(
    id: Seq<char>,
    bytes: Seq<u8>,
    meta: Option<ArxivMetadata>,
    now: Timestamp,
    processed_at: Timestamp,
    r: ProcessorResult,
) -> bool {
    let (title, authors, abs, cats, published) = paper_facts(id, meta);
    &&& arxiv_pdf_common(id, bytes, r)
    &&& r.title@ == title
    &&& r.content@ == join_spec(
        seq!["Title: "@ + title] + (if authors.len() > 0 { seq!["Authors: "@ + authors] } else { Seq::empty() }) + (
        if abs.len() > 0 { seq!["\nAbstract: "@ + abs] } else { Seq::empty() }) + pdf_text_lines(bytes),
        "\n"@,
    )
    &&& r.domain_tags.deep_view() == research_tags_spec(cats)
    &&& r.metadata@.dom() == arxiv_pdf_keys().union(if authors.len() > 0 { set!["authors"@] } else { Set::empty() }).union(
        if cats.len() > 0 { set!["categories"@] } else { Set::empty() },
    ).union(if published.len() > 0 { set!["published"@] } else { Set::empty() })
    &&& authors.len() > 0 ==> meta_text_is(r.metadata@, "authors"@, authors)
    &&& cats.len() > 0 ==> meta_list_is(r.metadata@, "categories"@, cats)
    &&& published.len() > 0 ==> meta_text_is(r.metadata@, "published"@, published)
    &&& r.fetched_at == now
    &&& r.processed_at == processed_at
}

/// The common start of the arXiv PDF processing: id, PDF bytes, their hash
/// and text, and the content lines for the text.
struct PdfFacts {
    id: String,
    bytes: Vec<u8>,
    hash: String,
    text: String,
    extracted: bool,
    lines: Vec<String>,
}

impl ArxivPdfProcessor {
    pub fn new() -> (p: Self) {
        ArxivPdfProcessor
    }

    /// The processor's name.
    pub fn name(&self) -> (r: &'static str)
        ensures
            r@ == "arxiv-pdf"@,
    {
        "arxiv-pdf"
    }

    /// The processor's version.
    pub fn version(&self) -> (r: &'static str)
        ensures
            r@ == "1.0.0"@,
    {
        "1.0.0"
    }

    /// Whether the subject names an arXiv id and a PDF is attached.
    pub fn can_process(&self, artifact: &RawArtifact) -> (b: bool)
        ensures
            b == (bare_id_spec(artifact.subject@) is Some && first_pdf_index(artifact.attachments@) is Some),
    {
        find_bare_id(artifact.subject.as_str()).is_some() && first_pdf(&artifact.attachments).is_some()
    }

    fn facts(&self, artifact: &RawArtifact) -> (r: Result<PdfFacts, ProcessorError>)
        ensures
            match bare_id_spec(artifact.subject@) {
                None => r matches Err(ProcessorError::MissingField(f)) && f@ == "arXiv ID in subject"@,
                Some(id) => match first_pdf_index(artifact.attachments@) {
                    None => r matches Err(ProcessorError::MissingField(f)) && f@ == "PDF attachment"@,
                    Some(i) => r matches Ok(p) && {
                        let bytes = attachment_bytes(artifact.attachments@[i].data@);
                        &&& p.id@ == id
                        &&& p.bytes@ == bytes
                        &&& p.hash@ == hex_encode_spec(sha256_spec(bytes))
                        &&& p.text@ == pdf_text_of(bytes)
                        &&& p.extracted == pdf_text_spec(bytes) is Ok
                        &&& p.lines.deep_view() == pdf_text_lines(bytes)
                    },
                },
            },
    {
        let id = match find_bare_id(artifact.subject.as_str()) {
            Some(id) => id,
            None => {
                return Err(ProcessorError::MissingField(String::from_str("arXiv ID in subject")));
            },
        };
        let i = match first_pdf(&artifact.attachments) {
            Some(i) => i,
            None => {
                return Err(ProcessorError::MissingField(String::from_str("PDF attachment")));
            },
        };
        let bytes = decode_attachment_data(artifact.attachments[i].data.as_str());
        let hash = hash_hex(&bytes);
        let (text, extracted) = match extract_pdf_text(bytes.as_slice(), 50) {
            Ok(t) => (t, true),
            Err(_) => (String::new(), false),
        };
        let mut lines: Vec<String> = Vec::new();
        if extracted && !text.as_str().is_empty() {
            lines.push(String::from_str("\n[--- PDF Text ---]"));
            lines.push(text.clone());
        }
        assert(lines.deep_view() =~= pdf_text_lines(bytes@));
        Ok(PdfFacts { id, bytes, hash, text, extracted, lines })
    }

    /// Processes without API metadata: `MissingField("arXiv ID in subject")`
    /// when the subject names no id, `MissingField("PDF attachment")` when no
    /// PDF is attached.
    pub fn process(&self, artifact: &RawArtifact, now: Timestamp) -> (r: Result<ProcessorResult, ProcessorError>)
        ensures
            match bare_id_spec(artifact.subject@) {
                None => r matches Err(ProcessorError::MissingField(f)) && f@ == "arXiv ID in subject"@,
                Some(id) => match first_pdf_index(artifact.attachments@) {
                    None => r matches Err(ProcessorError::MissingField(f)) && f@ == "PDF attachment"@,
                    Some(i) => r matches Ok(res) && arxiv_pdf_sync_result(
                        id,
                        attachment_bytes(artifact.attachments@[i].data@),
                        now,
                        res,
                    ),
                },
            },
    {
        let f = match self.facts(artifact) {
            Ok(f) => f,
            Err(e) => {
                return Err(e);
            },
        };
        let ghost bytes = f.bytes@;
        let mut title = String::from_str("arXiv:");
        title.append(f.id.as_str());
        let mut first = String::from_str("Title: ");
        first.append(title.as_str());
        let mut lines: Vec<String> = Vec::new();
        lines.push(first);
        let mut k: usize = 0;
        while k < f.lines.len()
            invariant
                k <= f.lines@.len(),
                lines.deep_view() == seq!["Title: "@ + title@] + f.lines.deep_view().take(k as int),
            decreases f.lines@.len() - k,
        {
            let ghost before = lines.deep_view();
            lines.push(f.lines[k].clone());
            assert(lines.deep_view() =~= before.push(f.lines@[k as int]@));
            assert(f.lines.deep_view().take(k as int + 1) =~= f.lines.deep_view().take(k as int).push(
                f.lines.deep_view()[k as int],
            ));
            assert(lines.deep_view() =~= seq!["Title: "@ + title@] + f.lines.deep_view().take(k as int + 1));
            k = k + 1;
        }
        assert(f.lines.deep_view().take(k as int) =~= f.lines.deep_view());
        let content = join(&lines, "\n");
        let text_len = f.text.as_str().len();
        let mut metadata: StrMap<MetaValue> = StrMap::new();
        metadata.insert("arxiv_id", MetaValue::Text(f.id.clone()));
        metadata.insert("content_hash_sha256", MetaValue::Text(f.hash));
        metadata.insert("pdf_text_extracted", MetaValue::Flag(f.extracted));
        metadata.insert("pdf_text_length", MetaValue::Number(text_len as u64));
        metadata.insert("sync_only", MetaValue::Flag(true));
        proof {
            reveal_strlit("arxiv_id");
            reveal_strlit("content_hash_sha256");
            reveal_strlit("pdf_text_extracted");
            reveal_strlit("pdf_text_length");
            reveal_strlit("sync_only");
            assert("arxiv_id"@.len() == 8);
            assert("content_hash_sha256"@.len() == 19);
            assert("pdf_text_extracted"@.len() == 18);
            assert("pdf_text_length"@.len() == 15);
            assert("sync_only"@.len() == 9);
            assert(metadata@.dom() =~= arxiv_pdf_keys().insert("sync_only"@));
        }
        let mut source_url = String::from_str("https://arxiv.org/abs/");
        source_url.append(f.id.as_str());
        let mut tags: Vec<String> = Vec::new();
        tags.push(String::from_str("research"));
        assert(tags.deep_view() =~= seq!["research"@]);
        Ok(
            ProcessorResult {
                title,
                content,
                source_url,
                source_type: String::from_str("arxiv-pdf"),
                processor_version: String::from_str("1.0.0"),
                domain_tags: tags,
                metadata,
                embedded_artifacts: Vec::new(),
                fetched_at: now,
                processed_at: now,
            },
        )
    }
}

impl ArxivPdfProcessor {
    /// Processes with the paper's API metadata (`None` when it could not be
    /// fetched); `processed_at` is when the processing ended. Errors as for
    /// `process`.
    pub fn process_with_metadata(
        &self,
        artifact: &RawArtifact,
        meta: Option<ArxivMetadata>,
        now: Timestamp,
        processed_at: Timestamp,
    ) -> (r: Result<ProcessorResult, ProcessorError>)
        ensures
            match bare_id_spec(artifact.subject@) {
                None => r matches Err(ProcessorError::MissingField(f)) && f@ == "arXiv ID in subject"@,
                Some(id) => match first_pdf_index(artifact.attachments@) {
                    None => r matches Err(ProcessorError::MissingField(f)) && f@ == "PDF attachment"@,
                    Some(i) => r matches Ok(res) && arxiv_pdf_full_result(
                        id,
                        attachment_bytes(artifact.attachments@[i].data@),
                        meta,
                        now,
                        processed_at,
                        res,
                    ),
                },
            },
    {
        let f = match self.facts(artifact) {
            Ok(f) => f,
            Err(e) => {
                return Err(e);
            },
        };
        let ghost facts = paper_facts(f.id@, meta);
        let (title, authors, abs, cats, published) = match meta {
            Some(m) => {
                let a = format_authors(m.authors.as_slice());
                (m.title, a, m.abstract_text, m.categories, m.published)
            },
            None => {
                let mut t = String::from_str("arXiv:");
                t.append(f.id.as_str());
                (t, String::new(), String::new(), Vec::new(), String::new())
            },
        };
        assert(title@ == facts.0 && authors@ == facts.1 && abs@ == facts.2 && published@ == facts.4);
        assert(cats.deep_view() =~= facts.3);
        let mut lines: Vec<String> = Vec::new();
        let mut l1 = String::from_str("Title: ");
        l1.append(title.as_str());
        lines.push(l1);
        if !authors.as_str().is_empty() {
            let mut l = String::from_str("Authors: ");
            l.append(authors.as_str());
            lines.push(l);
        }
        if !abs.as_str().is_empty() {
            let mut l = String::from_str("\nAbstract: ");
            l.append(abs.as_str());
            lines.push(l);
        }
        let ghost head = lines.deep_view();
        assert(head =~= seq!["Title: "@ + title@] + (if authors@.len() > 0 {
            seq!["Authors: "@ + authors@]
        } else {
            Seq::empty()
        }) + (if abs@.len() > 0 {
            seq!["\nAbstract: "@ + abs@]
        } else {
            Seq::empty()
        }));
        let mut k: usize = 0;
        while k < f.lines.len()
            invariant
                k <= f.lines@.len(),
                lines.deep_view() == head + f.lines.deep_view().take(k as int),
            decreases f.lines@.len() - k,
        {
            let ghost before = lines.deep_view();
            lines.push(f.lines[k].clone());
            assert(lines.deep_view() =~= before.push(f.lines@[k as int]@));
            assert(f.lines.deep_view().take(k as int + 1) =~= f.lines.deep_view().take(k as int).push(
                f.lines.deep_view()[k as int],
            ));
            k = k + 1;
        }
        assert(f.lines.deep_view().take(k as int) =~= f.lines.deep_view());
        let content = join(&lines, "\n");
        let tags = research_tags(&cats);
        let text_len = f.text.as_str().len();
        let mut metadata: StrMap<MetaValue> = StrMap::new();
        metadata.insert("arxiv_id", MetaValue::Text(f.id.clone()));
        metadata.insert("content_hash_sha256", MetaValue::Text(f.hash));
        metadata.insert("pdf_text_extracted", MetaValue::Flag(f.extracted));
        metadata.insert("pdf_text_length", MetaValue::Number(text_len as u64));
        let ghost base = metadata@;
        proof {
            reveal_strlit("arxiv_id");
            reveal_strlit("content_hash_sha256");
            reveal_strlit("pdf_text_extracted");
            reveal_strlit("pdf_text_length");
            reveal_strlit("authors");
            reveal_strlit("categories");
            reveal_strlit("published");
            assert("arxiv_id"@.len() == 8);
            assert("content_hash_sha256"@.len() == 19);
            assert("pdf_text_extracted"@.len() == 18);
            assert("pdf_text_length"@.len() == 15);
            assert("authors"@.len() == 7);
            assert("categories"@.len() == 10);
            assert("published"@.len() == 9);
            assert(base.dom() =~= arxiv_pdf_keys());
        }
        if !authors.as_str().is_empty() {
            metadata.insert("authors", MetaValue::Text(authors));
        }
        let ghost m1 = metadata@;
        if cats.len() > 0 {
            let copied = copy_strings(&cats);
            metadata.insert("categories", MetaValue::TextList(copied));
        }
        let ghost m2 = metadata@;
        if !published.as_str().is_empty() {
            metadata.insert("published", MetaValue::Text(published));
        }
        proof {
            assert(metadata@.dom() =~= arxiv_pdf_keys().union(if facts.1.len() > 0 {
                set!["authors"@]
            } else {
                Set::empty()
            }).union(if facts.3.len() > 0 { set!["categories"@] } else { Set::empty() }).union(
                if facts.4.len() > 0 { set!["published"@] } else { Set::empty() },
            ));
        }
        let mut source_url = String::from_str("https://arxiv.org/abs/");
        source_url.append(f.id.as_str());
        Ok(
            ProcessorResult {
                title,
                content,
                source_url,
                source_type: String::from_str("arxiv-pdf"),
                processor_version: String::from_str("1.0.0"),
                domain_tags: tags,
                metadata,
                embedded_artifacts: Vec::new(),
                fetched_at: now,
                processed_at,
            },
        )
    }
}

} // verus!

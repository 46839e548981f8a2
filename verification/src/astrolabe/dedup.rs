//! Dedup engine: remembers processed artifacts by content hash, arXiv id and
//! normalized URL.

use vstd::prelude::*;
use crate::strmap::StrMap;
use crate::astrolabe::scan::ascii_lower;
use crate::text::{
    contains_chars, contains_spec, is_white_space, lowercase_spec, occurs_at, trim_end_spec, trim_start_spec, push_char, replace_spec, replace_str, string_of,
    to_chars, to_lowercase, trim, trim_spec,
};

verus! {

/// One line of the dedup index.
#[derive(Debug)]
pub struct DedupEntry {
    pub hash: String,
    pub arxiv_id: String,
    pub url: String,
    pub envelope_id: String,
    pub title: String,
    pub recorded_at: String,
}

/// Counts of what the index holds.
#[derive(Debug)]
pub struct DedupStats {
    pub hashes: usize,
    pub arxiv_ids: usize,
    pub urls: usize,
}

/// Errors of the dedup index.
#[derive(Debug)]
pub enum DedupError {
    Io(String),
    Serialize(String),
}

/// The fields of an envelope that recording reads (each absent when the
/// envelope has no such string field).
#[derive(Debug)]
pub struct EnvelopeFields {
    pub post_sanitization_hash: Option<String>,
    pub source_url: Option<String>,
    pub source_type: Option<String>,
    /// `metadata.arxiv_id`.
    pub arxiv_id: Option<String>,
    pub envelope_id: Option<String>,
    pub title: Option<String>,
    pub created_at: Option<String>,
}

/// `s` without trailing `c` characters.
pub open spec fn strip_trailing(s: Seq<char>, c: char) -> Seq<char>
    decreases s.len(),
{
    if s.len() > 0 && s.last() == c { strip_trailing(s.drop_last(), c) } else { s }
}

/// Position of the first `c` in `s` (its length when there is none).
pub open spec fn char_index(s: Seq<char>, c: char) -> int
    decreases s.len(),
{
    if s.len() == 0 { 0 } else if s[0] == c { 0 } else { 1 + char_index(s.drop_first(), c) }
}

/// `s` without its query part, unless the part before it names arxiv.org.
pub open spec fn cut_query(s: Seq<char>) -> Seq<char> {
    let q = char_index(s, '?');
    if q < s.len() && !contains_spec(s.take(q), "arxiv.org"@) { s.take(q) } else { s }
}

/// The form of a URL that is compared for duplicates: trimmed, lowercase,
/// twitter.com/ written as x.com/, without tracking parameters (kept on
/// arxiv.org), without trailing slashes.
pub open spec fn normalize_url_spec(u: Seq<char>) -> Seq<char> {
    strip_trailing(cut_query(replace_spec(lowercase_spec(trim_spec(u)), "twitter.com/"@, "x.com/"@)), '/')
}

proof fn lemma_strip_trailing(s: Seq<char>, e: int, c: char)
    requires
        0 <= e <= s.len(),
        forall|j: int| e <= j < s.len() ==> #[trigger] s[j] == c,
        e == 0 || s[e - 1] != c,
    ensures
        strip_trailing(s, c) == s.take(e),
    decreases s.len() - e,
{
    if e < s.len() {
        assert(s.drop_last().take(e) =~= s.take(e));
        lemma_strip_trailing(s.drop_last(), e, c);
    } else {
        assert(s.take(e) =~= s);
        if e > 0 {
            assert(s.last() == s[e - 1]);
        }
    }
}

proof fn lemma_char_index(s: Seq<char>, c: char, i: int)
    requires
        0 <= i <= s.len(),
        forall|j: int| 0 <= j < i ==> #[trigger] s[j] != c,
        i == s.len() || s[i] == c,
    ensures
        char_index(s, c) == i,
    decreases i,
{
    if i > 0 {
        lemma_char_index(s.drop_first(), c, i - 1);
    }
}

proof fn lemma_strip_shape(s: Seq<char>, c: char)
    ensures
        strip_trailing(s, c).len() <= s.len(),
        strip_trailing(s, c) == s.take(strip_trailing(s, c).len() as int),
        strip_trailing(s, c).len() > 0 ==> strip_trailing(s, c).last() != c,
    decreases s.len(),
{
    if s.len() > 0 && s.last() == c {
        lemma_strip_shape(s.drop_last(), c);
        let r = strip_trailing(s.drop_last(), c);
        assert(s.drop_last().take(r.len() as int) =~= s.take(r.len() as int));
    } else {
        assert(s.take(s.len() as int) =~= s);
    }
}

proof fn lemma_char_index_facts(s: Seq<char>, c: char)
    ensures
        0 <= char_index(s, c) <= s.len(),
        forall|j: int| 0 <= j < char_index(s, c) ==> #[trigger] s[j] != c,
        char_index(s, c) < s.len() ==> s[char_index(s, c)] == c,
    decreases s.len(),
{
    if s.len() > 0 && s[0] != c {
        lemma_char_index_facts(s.drop_first(), c);
        assert forall|j: int| 0 <= j < char_index(s, c) implies #[trigger] s[j] != c by {
            if j > 0 {
                assert(s[j] == s.drop_first()[j - 1]);
            }
        }
    }
}

proof fn lemma_prefix_contains(s: Seq<char>, k: int, p: Seq<char>)
    requires
        0 <= k <= s.len(),
        contains_spec(s.take(k), p),
    ensures
        contains_spec(s, p),
{
    let i = choose|i: int| occurs_at(s.take(k), p, i);
    assert(s.take(k).subrange(i, i + p.len()) =~= s.subrange(i, i + p.len()));
    assert(occurs_at(s, p, i));
}

/// When the replacement of `twitter.com/` by `x.com/` in `t` starts with
/// a text `q` free of `x`, so does `t`.
proof fn lemma_replace_prefix(t: Seq<char>, q: Seq<char>)
    requires
        forall|j: int| 0 <= j < q.len() ==> #[trigger] q[j] != 'x',
        q.len() <= replace_spec(t, "twitter.com/"@, "x.com/"@).len(),
        replace_spec(t, "twitter.com/"@, "x.com/"@).take(q.len() as int) == q,
    ensures
        q.len() <= t.len(),
        t.take(q.len() as int) == q,
    decreases t.len(),
{
    reveal_strlit("twitter.com/");
    reveal_strlit("x.com/");
    let rt = replace_spec(t, "twitter.com/"@, "x.com/"@);
    if q.len() == 0 {
        assert(t.take(0) =~= q);
    } else if t.len() == 0 {
    } else if occurs_at(t, "twitter.com/"@, 0) {
        assert(rt[0] == 'x');
        assert(q[0] == rt.take(q.len() as int)[0]);
    } else {
        let rest = replace_spec(t.drop_first(), "twitter.com/"@, "x.com/"@);
        assert(rt =~= seq![t[0]] + rest);
        let q2 = q.drop_first();
        assert(rest.take(q2.len() as int) =~= q2) by {
            assert forall|j: int| 0 <= j < q2.len() implies rest.take(q2.len() as int)[j] == q2[j] by {
                assert(rt.take(q.len() as int)[j + 1] == q[j + 1]);
            }
        }
        lemma_replace_prefix(t.drop_first(), q2);
        assert(q[0] == rt.take(q.len() as int)[0]);
        assert(t.take(q.len() as int) =~= q) by {
            assert forall|j: int| 0 <= j < q.len() implies t.take(q.len() as int)[j] == q[j] by {
                if j > 0 {
                    assert(t.drop_first().take(q2.len() as int)[j - 1] == q2[j - 1]);
                }
            }
        }
    }
}

/// The replacement of `twitter.com/` by `x.com/` leaves no `twitter.com/`.
proof fn lemma_replace_removes(s: Seq<char>)
    ensures
        !contains_spec(replace_spec(s, "twitter.com/"@, "x.com/"@), "twitter.com/"@),
    decreases s.len(),
{
    reveal_strlit("twitter.com/");
    reveal_strlit("x.com/");
    let pat = "twitter.com/"@;
    let res = replace_spec(s, pat, "x.com/"@);
    if s.len() == 0 {
        assert forall|i: int| !occurs_at(res, pat, i) by {}
    } else if occurs_at(s, pat, 0) {
        let rest = replace_spec(s.skip(12), pat, "x.com/"@);
        lemma_replace_removes(s.skip(12));
        assert(res =~= "x.com/"@ + rest);
        assert forall|i: int| !occurs_at(res, pat, i) by {
            if occurs_at(res, pat, i) {
                if i >= 6 {
                    assert(rest.subrange(i - 6, i - 6 + 12) =~= res.subrange(i, i + 12));
                    assert(occurs_at(rest, pat, i - 6));
                } else {
                    assert(res.subrange(i, i + 12)[0] == res[i]);
                    assert(res[i] == "x.com/"@[i]);
                }
            }
        }
    } else {
        let rest = replace_spec(s.drop_first(), pat, "x.com/"@);
        lemma_replace_removes(s.drop_first());
        assert(res =~= seq![s[0]] + rest);
        assert forall|i: int| !occurs_at(res, pat, i) by {
            if occurs_at(res, pat, i) {
                if i >= 1 {
                    assert(rest.subrange(i - 1, i - 1 + 12) =~= res.subrange(i, i + 12));
                    assert(occurs_at(rest, pat, i - 1));
                } else {
                    let q = pat.drop_first();
                    assert(q =~= "witter.com/"@) by {
                        reveal_strlit("witter.com/");
                    }
                    assert(rest.take(11) =~= q) by {
                        assert forall|j: int| 0 <= j < 11 implies rest.take(11)[j] == q[j] by {
                            assert(res.subrange(0, 12)[j + 1] == pat[j + 1]);
                        }
                    }
                    assert forall|j: int| 0 <= j < q.len() implies #[trigger] q[j] != 'x' by {}
                    lemma_replace_prefix(s.drop_first(), q);
                    assert(s.subrange(0, 12) =~= pat) by {
                        assert forall|j: int| 0 <= j < 12 implies s.subrange(0, 12)[j] == pat[j] by {
                            if j > 0 {
                                assert(s.drop_first().take(11)[j - 1] == q[j - 1]);
                            } else {
                                assert(res.subrange(0, 12)[0] == pat[0]);
                            }
                        }
                    }
                }
            }
        }
    }
}

/// Every URL's normal form has no trailing slash and no `twitter.com/`,
/// and keeps a query part only where the text before it names arxiv.org.
pub proof fn lemma_normalized_url_shape(u: Seq<char>)
    ensures
        normalize_url_spec(u).len() == 0 || normalize_url_spec(u).last() != '/',
        !contains_spec(normalize_url_spec(u), "twitter.com/"@),
        char_index(normalize_url_spec(u), '?') < normalize_url_spec(u).len() ==> contains_spec(
            normalize_url_spec(u).take(char_index(normalize_url_spec(u), '?')),
            "arxiv.org"@,
        ),
{
    let x = replace_spec(lowercase_spec(trim_spec(u)), "twitter.com/"@, "x.com/"@);
    let c = cut_query(x);
    let r = strip_trailing(c, '/');
    lemma_strip_shape(c, '/');
    lemma_char_index_facts(x, '?');
    lemma_char_index_facts(r, '?');
    lemma_replace_removes(lowercase_spec(trim_spec(u)));
    let qx = char_index(x, '?');
    let e = r.len() as int;
    let cut = qx < x.len() && !contains_spec(x.take(qx), "arxiv.org"@);
    if cut {
        assert(c == x.take(qx));
        assert(r =~= x.take(e));
    } else {
        assert(c == x);
    }
    assert(r =~= x.take(e));
    if contains_spec(r, "twitter.com/"@) {
        lemma_prefix_contains(x, e, "twitter.com/"@);
    }
    let j = char_index(r, '?');
    if j < r.len() {
        assert(r[j] == '?');
        if cut {
            assert(x[j] == r[j]);
        } else {
            assert forall|t: int| 0 <= t < j implies #[trigger] x[t] != '?' by {
                assert(x[t] == r[t]);
            }
            lemma_char_index(x, '?', j);
            assert(r.take(j) =~= x.take(j));
        }
    }
}

/// A lower-case ASCII character.
pub open spec fn lower_ascii(c: char) -> bool {
    c < '\u{80}' && !('A' <= c <= 'Z')
}

proof fn lemma_trim_keeps(s: Seq<char>, p: spec_fn(char) -> bool)
    requires
        forall|i: int| 0 <= i < s.len() ==> p(#[trigger] s[i]),
    ensures
        forall|i: int| 0 <= i < trim_spec(s).len() ==> p(#[trigger] trim_spec(s)[i]),
{
    lemma_trim_start_keeps(s, p);
    lemma_trim_end_keeps(trim_start_spec(s), p);
}

proof fn lemma_trim_start_keeps(s: Seq<char>, p: spec_fn(char) -> bool)
    requires
        forall|i: int| 0 <= i < s.len() ==> p(#[trigger] s[i]),
    ensures
        forall|i: int| 0 <= i < trim_start_spec(s).len() ==> p(#[trigger] trim_start_spec(s)[i]),
    decreases s.len(),
{
    if s.len() > 0 && is_white_space(s[0]) {
        assert forall|i: int| 0 <= i < s.drop_first().len() implies p(#[trigger] s.drop_first()[i]) by {
            assert(s.drop_first()[i] == s[i + 1]);
        }
        lemma_trim_start_keeps(s.drop_first(), p);
        assert(trim_start_spec(s) == trim_start_spec(s.drop_first()));
    } else {
        assert(trim_start_spec(s) == s);
    }
}

proof fn lemma_trim_end_keeps(s: Seq<char>, p: spec_fn(char) -> bool)
    requires
        forall|i: int| 0 <= i < s.len() ==> p(#[trigger] s[i]),
    ensures
        forall|i: int| 0 <= i < trim_end_spec(s).len() ==> p(#[trigger] trim_end_spec(s)[i]),
    decreases s.len(),
{
    if s.len() > 0 && is_white_space(s.last()) {
        assert forall|i: int| 0 <= i < s.drop_last().len() implies p(#[trigger] s.drop_last()[i]) by {
            assert(s.drop_last()[i] == s[i]);
        }
        lemma_trim_end_keeps(s.drop_last(), p);
        assert(trim_end_spec(s) == trim_end_spec(s.drop_last()));
    } else {
        assert(trim_end_spec(s) == s);
    }
}

proof fn lemma_replace_keeps(s: Seq<char>)
    requires
        forall|i: int| 0 <= i < s.len() ==> lower_ascii(#[trigger] s[i]),
    ensures
        forall|i: int| 0 <= i < replace_spec(s, "twitter.com/"@, "x.com/"@).len() ==> lower_ascii(
            #[trigger] replace_spec(s, "twitter.com/"@, "x.com/"@)[i],
        ),
    decreases s.len(),
{
    reveal_strlit("twitter.com/");
    reveal_strlit("x.com/");
    let res = replace_spec(s, "twitter.com/"@, "x.com/"@);
    if s.len() == 0 {
    } else if occurs_at(s, "twitter.com/"@, 0) {
        let t = s.skip(12);
        assert forall|i: int| 0 <= i < t.len() implies lower_ascii(#[trigger] t[i]) by {
            assert(t[i] == s[i + 12]);
        }
        lemma_replace_keeps(t);
        let rest = replace_spec(t, "twitter.com/"@, "x.com/"@);
        assert(res =~= "x.com/"@ + rest);
        assert forall|i: int| 0 <= i < res.len() implies lower_ascii(#[trigger] res[i]) by {
            if i >= 6 {
                assert(res[i] == rest[i - 6]);
            }
        }
    } else {
        let t = s.drop_first();
        assert forall|i: int| 0 <= i < t.len() implies lower_ascii(#[trigger] t[i]) by {
            assert(t[i] == s[i + 1]);
        }
        lemma_replace_keeps(t);
        let rest = replace_spec(t, "twitter.com/"@, "x.com/"@);
        assert(res =~= seq![s[0]] + rest);
        assert forall|i: int| 0 <= i < res.len() implies lower_ascii(#[trigger] res[i]) by {
            if i >= 1 {
                assert(res[i] == rest[i - 1]);
            }
        }
    }
}

/// Normalizes a URL for duplicate comparison.
pub fn normalize_url(url: &str) -> (r: String)
    ensures
        r@ == normalize_url_spec(url@),
        (forall|i: int| 0 <= i < url@.len() ==> #[trigger] url@[i] < '\u{80}') ==> forall|i: int|
            0 <= i < r@.len() ==> lower_ascii(#[trigger] r@[i]),
{
    let t = trim(url);
    let lower = to_lowercase(t.as_str());
    let ghost ascii_in = forall|i: int| 0 <= i < url@.len() ==> #[trigger] url@[i] < '\u{80}';
    proof {
        if ascii_in {
            let p = |c: char| c < '\u{80}';
            assert forall|i: int| 0 <= i < url@.len() implies p(#[trigger] url@[i]) by {}
            lemma_trim_keeps(url@, p);
            assert forall|i: int| 0 <= i < t@.len() implies #[trigger] t@[i] < '\u{80}' by {
                assert(p(trim_spec(url@)[i]));
            }
            assert forall|i: int| 0 <= i < lower@.len() implies lower_ascii(#[trigger] lower@[i]) by {
                assert(lower@[i] == ascii_lower(t@[i]));
                if 'A' <= t@[i] <= 'Z' {
                    assert(((t@[i] as u32) + 32) as char >= 'a');
                }
            }
            lemma_replace_keeps(lower@);
        }
    }
    proof {
        reveal_strlit("twitter.com/");
    }
    let replaced = replace_str(lower.as_str(), "twitter.com/", "x.com/");
    let w = to_chars(replaced.as_str());
    let mut q: usize = 0;
    while q < w.len() && w[q] != '?'
        invariant
            q <= w@.len(),
            forall|j: int| 0 <= j < q ==> #[trigger] w@[j] != '?',
        decreases w@.len() - q,
    {
        q = q + 1;
    }
    proof { lemma_char_index(w@, '?', q as int); }
    let cut = if q < w.len() {
        let head = string_of(&w, 0, q);
        let hv = to_chars(head.as_str());
        let arxiv = to_chars("arxiv.org");
        proof { assert(hv@ =~= w@.take(q as int)); }
        if !contains_chars(&hv, &arxiv) {
            head
        } else {
            replaced
        }
    } else {
        replaced
    };
    let v = to_chars(cut.as_str());
    let mut e = v.len();
    while e > 0 && v[e - 1] == '/'
        invariant
            e <= v@.len(),
            forall|j: int| e <= j < v@.len() ==> #[trigger] v@[j] == '/',
        decreases e,
    {
        e = e - 1;
    }
    proof { lemma_strip_trailing(v@, e as int, '/'); }
    let r = string_of(&v, 0, e);
    assert(r@ =~= v@.take(e as int));
    proof {
        if ascii_in {
            assert forall|i: int| 0 <= i < r@.len() implies lower_ascii(#[trigger] r@[i]) by {
                assert(r@[i] == v@[i]);
                assert(v@ == cut@);
                if q < w.len() && !contains_spec(w@.take(q as int), "arxiv.org"@) {
                    assert(cut@[i] == w@[i]);
                } else {
                    assert(cut@[i] == w@[i]);
                }
            }
        }
    }
    r
}

/// Hash-based deduplication for artifact processing.
pub struct DedupEngine {
    index_path: String,
    hashes: StrMap<()>,
    arxiv_ids: StrMap<()>,
    urls: StrMap<()>,
}

/// The text of an optional string slice.
pub open spec fn opt_text(o: Option<&str>) -> Option<Seq<char>> {
    match o {
        Some(s) => Some(s@),
        None => None,
    }
}

/// The text of an optional string.
pub open spec fn string_text(o: Option<String>) -> Option<Seq<char>> {
    match o {
        Some(s) => Some(s@),
        None => None,
    }
}

/// Whether an artifact with these keys (empty ones ignored) is among the
/// known hashes, arXiv ids and normalized URLs.
pub open spec fn known(
    hashes: Set<Seq<char>>,
    ids: Set<Seq<char>>,
    urls: Set<Seq<char>>,
    hash: Option<Seq<char>>,
    arxiv_id: Option<Seq<char>>,
    url: Option<Seq<char>>,
) -> bool {
    ||| (hash matches Some(h) && h.len() > 0 && hashes.contains(h))
    ||| (arxiv_id matches Some(a) && a.len() > 0 && ids.contains(a))
    ||| (url matches Some(u) && u.len() > 0 && urls.contains(normalize_url_spec(u)))
}

/// The arXiv id that recording an envelope keeps: its `arxiv_id` when its
/// source type mentions arXiv.
pub open spec fn recorded_arxiv(env: EnvelopeFields) -> Option<Seq<char>> {
    match (env.source_type, env.arxiv_id) {
        (Some(st), Some(a)) => if contains_spec(st@, "arxiv"@) { Some(a@) } else { None },
        _ => None,
    }
}

/// The known hashes after recording `env`.
pub open spec fn recorded_hashes(hashes: Set<Seq<char>>, env: EnvelopeFields) -> Set<Seq<char>> {
    match env.post_sanitization_hash {
        Some(h) => hashes.insert(h@),
        None => hashes,
    }
}

/// The known arXiv ids after recording `env`.
pub open spec fn recorded_ids(ids: Set<Seq<char>>, env: EnvelopeFields) -> Set<Seq<char>> {
    match recorded_arxiv(env) {
        Some(a) => ids.insert(a),
        None => ids,
    }
}

/// The known URLs after recording `env`.
pub open spec fn recorded_urls(urls: Set<Seq<char>>, env: EnvelopeFields) -> Set<Seq<char>> {
    match env.source_url {
        Some(u) => if u@.len() > 0 { urls.insert(normalize_url_spec(u@)) } else { urls },
        None => urls,
    }
}

/// The non-empty hashes of index lines.
pub open spec fn index_hashes(entries: Seq<DedupEntry>) -> Set<Seq<char>> {
    Set::new(|h: Seq<char>| exists|i: int| 0 <= i < entries.len() && entries[i].hash@ == h && h.len() > 0)
}

/// The non-empty arXiv ids of index lines.
pub open spec fn index_ids(entries: Seq<DedupEntry>) -> Set<Seq<char>> {
    Set::new(|a: Seq<char>| exists|i: int| 0 <= i < entries.len() && entries[i].arxiv_id@ == a && a.len() > 0)
}

/// The normalized non-empty URLs of index lines.
pub open spec fn index_urls(entries: Seq<DedupEntry>) -> Set<Seq<char>> {
    Set::new(
        |u: Seq<char>|
            exists|i: int| 0 <= i < entries.len() && entries[i].url@.len() > 0 && normalize_url_spec(entries[i].url@) == u,
    )
}

/// Loading line `e` of the index adds its non-empty keys.
pub open spec fn after_load(hashes: Set<Seq<char>>, e: DedupEntry) -> Set<Seq<char>> {
    if e.hash@.len() > 0 { hashes.insert(e.hash@) } else { hashes }
}

impl DedupEngine {
    /// Known content hashes.
    pub closed spec fn hashes(&self) -> Set<Seq<char>> {
        self.hashes@.dom()
    }

    /// Known arXiv ids.
    pub closed spec fn arxiv_ids(&self) -> Set<Seq<char>> {
        self.arxiv_ids@.dom()
    }

    /// Known URLs, normalized.
    pub closed spec fn urls(&self) -> Set<Seq<char>> {
        self.urls@.dom()
    }

    /// Path of the JSONL index.
    pub closed spec fn path(&self) -> Seq<char> {
        self.index_path@
    }

    /// The invariant of the underlying sets.
    pub closed spec fn wf(&self) -> bool {
        self.hashes.wf() && self.arxiv_ids.wf() && self.urls.wf()
    }

    /// An engine for the index at `index_path` holding the index's lines `entries`.
    pub fn new(index_path: String, entries: &Vec<DedupEntry>) -> (d: Self)
        ensures
            d.wf(),
            d.path() == index_path@,
            forall|h: Seq<char>| #[trigger] d.hashes().contains(h) <==>
                exists|i: int| 0 <= i < entries@.len() && entries@[i].hash@ == h && h.len() > 0,
            forall|a: Seq<char>| #[trigger] d.arxiv_ids().contains(a) <==>
                exists|i: int| 0 <= i < entries@.len() && entries@[i].arxiv_id@ == a && a.len() > 0,
            forall|u: Seq<char>| #[trigger] d.urls().contains(u) <==>
                exists|i: int| 0 <= i < entries@.len() && entries@[i].url@.len() > 0
                    && normalize_url_spec(entries@[i].url@) == u,
            d.hashes() == index_hashes(entries@),
            d.arxiv_ids() == index_ids(entries@),
            d.urls() == index_urls(entries@),
    {
        let mut d = DedupEngine {
            index_path,
            hashes: StrMap::new(),
            arxiv_ids: StrMap::new(),
            urls: StrMap::new(),
        };
        let n = entries.len();
        let mut i: usize = 0;
        while i < n
            invariant
                n == entries@.len(),
                i <= n,
                d.wf(),
                d.path() == index_path@,
                forall|h: Seq<char>| #[trigger] d.hashes().contains(h) <==>
                    exists|j: int| 0 <= j < i && entries@[j].hash@ == h && h.len() > 0,
                forall|a: Seq<char>| #[trigger] d.arxiv_ids().contains(a) <==>
                    exists|j: int| 0 <= j < i && entries@[j].arxiv_id@ == a && a.len() > 0,
                forall|u: Seq<char>| #[trigger] d.urls().contains(u) <==>
                    exists|j: int| 0 <= j < i && entries@[j].url@.len() > 0
                        && normalize_url_spec(entries@[j].url@) == u,
            decreases n - i,
        {
            let ghost h0 = d.hashes();
            let ghost a0 = d.arxiv_ids();
            let ghost u0 = d.urls();
            d.load_entry(&entries[i]);
            proof {
                let e = entries@[i as int];
                assert forall|h: Seq<char>| #[trigger] d.hashes().contains(h) <==>
                    exists|j: int| 0 <= j < i + 1 && entries@[j].hash@ == h && h.len() > 0 by {
                    if d.hashes().contains(h) && !h0.contains(h) {
                        assert(entries@[i as int].hash@ == h);
                    }
                    if exists|j: int| 0 <= j < i + 1 && entries@[j].hash@ == h && h.len() > 0 {
                        let j = choose|j: int| 0 <= j < i + 1 && entries@[j].hash@ == h && h.len() > 0;
                        if j < i { assert(h0.contains(h)); }
                    }
                }
                assert forall|a: Seq<char>| #[trigger] d.arxiv_ids().contains(a) <==>
                    exists|j: int| 0 <= j < i + 1 && entries@[j].arxiv_id@ == a && a.len() > 0 by {
                    if d.arxiv_ids().contains(a) && !a0.contains(a) {
                        assert(entries@[i as int].arxiv_id@ == a);
                    }
                    if exists|j: int| 0 <= j < i + 1 && entries@[j].arxiv_id@ == a && a.len() > 0 {
                        let j = choose|j: int| 0 <= j < i + 1 && entries@[j].arxiv_id@ == a && a.len() > 0;
                        if j < i { assert(a0.contains(a)); }
                    }
                }
                assert forall|u: Seq<char>| #[trigger] d.urls().contains(u) <==>
                    exists|j: int| 0 <= j < i + 1 && entries@[j].url@.len() > 0
                        && normalize_url_spec(entries@[j].url@) == u by {
                    if d.urls().contains(u) && !u0.contains(u) {
                        assert(entries@[i as int].url@.len() > 0 && normalize_url_spec(entries@[i as int].url@) == u);
                    }
                    if exists|j: int| 0 <= j < i + 1 && entries@[j].url@.len() > 0 && normalize_url_spec(entries@[j].url@) == u {
                        let j = choose|j: int| 0 <= j < i + 1 && entries@[j].url@.len() > 0 && normalize_url_spec(entries@[j].url@) == u;
                        if j < i { assert(u0.contains(u)); }
                    }
                }
            }
            i = i + 1;
        }
        assert(d.hashes() =~= index_hashes(entries@));
        assert(d.arxiv_ids() =~= index_ids(entries@));
        assert(d.urls() =~= index_urls(entries@));
        d
    }

    /// Adds the non-empty keys of one index line.
    pub fn load_entry(&mut self, entry: &DedupEntry)
        requires
            old(self).wf(),
        ensures
            final(self).wf(),
            final(self).path() == old(self).path(),
            final(self).hashes() == if entry.hash@.len() > 0 { old(self).hashes().insert(entry.hash@) } else { old(self).hashes() },
            final(self).arxiv_ids() == if entry.arxiv_id@.len() > 0 { old(self).arxiv_ids().insert(entry.arxiv_id@) } else { old(self).arxiv_ids() },
            final(self).urls() == if entry.url@.len() > 0 {
                old(self).urls().insert(normalize_url_spec(entry.url@))
            } else {
                old(self).urls()
            },
    {
        if !entry.hash.as_str().is_empty() {
            self.hashes.insert(entry.hash.as_str(), ());
        }
        if !entry.arxiv_id.as_str().is_empty() {
            self.arxiv_ids.insert(entry.arxiv_id.as_str(), ());
        }
        if !entry.url.as_str().is_empty() {
            let u = normalize_url(entry.url.as_str());
            self.urls.insert(u.as_str(), ());
        }
    }

    /// Whether an artifact with this hash, arXiv id or URL (empty values
    /// ignored) has been processed.
    pub fn is_duplicate(&self, hash: Option<&str>, arxiv_id: Option<&str>, url: Option<&str>) -> (b: bool)
        requires
            self.wf(),
        ensures
            b == known(self.hashes(), self.arxiv_ids(), self.urls(), opt_text(hash), opt_text(arxiv_id), opt_text(url)),
    {
        if let Some(h) = hash {
            if !h.is_empty() && self.hashes.contains_key(h) {
                return true;
            }
        }
        if let Some(a) = arxiv_id {
            if !a.is_empty() && self.arxiv_ids.contains_key(a) {
                return true;
            }
        }
        if let Some(u) = url {
            if !u.is_empty() {
                let n = normalize_url(u);
                if self.urls.contains_key(n.as_str()) {
                    return true;
                }
            }
        }
        false
    }

    /// Records a processed envelope: remembers its keys and gives the line
    /// to append to the index.
    pub fn record(&mut self, env: &EnvelopeFields) -> (entry: DedupEntry)
        requires
            old(self).wf(),
        ensures
            final(self).wf(),
            final(self).path() == old(self).path(),
            final(self).hashes() == recorded_hashes(old(self).hashes(), *env),
            final(self).urls() == recorded_urls(old(self).urls(), *env),
            final(self).arxiv_ids() == recorded_ids(old(self).arxiv_ids(), *env),
            entry.hash@ == match env.post_sanitization_hash { Some(h) => h@, None => Seq::<char>::empty() },
            entry.url@ == match env.source_url { Some(u) => u@, None => Seq::<char>::empty() },
            entry.arxiv_id@ == match (env.source_type, env.arxiv_id) {
                (Some(st), Some(a)) => if contains_spec(st@, "arxiv"@) { a@ } else { Seq::<char>::empty() },
                _ => Seq::<char>::empty(),
            },
            entry.envelope_id@ == match env.envelope_id { Some(e) => e@, None => Seq::<char>::empty() },
            entry.title@ == match env.title {
                Some(t) => if t@.len() <= 100 { t@ } else { t@.take(100) },
                None => Seq::<char>::empty(),
            },
            entry.recorded_at@ == match env.created_at { Some(c) => c@, None => Seq::<char>::empty() },
    {
        let mut entry = DedupEntry {
            hash: String::new(),
            arxiv_id: String::new(),
            url: String::new(),
            envelope_id: String::new(),
            title: String::new(),
            recorded_at: String::new(),
        };
        if let Some(h) = &env.post_sanitization_hash {
            entry.hash = h.clone();
            self.hashes.insert(h.as_str(), ());
        }
        if let Some(u) = &env.source_url {
            if !u.as_str().is_empty() {
                entry.url = u.clone();
                let n = normalize_url(u.as_str());
                self.urls.insert(n.as_str(), ());
            }
        }
        if let (Some(st), Some(a)) = (&env.source_type, &env.arxiv_id) {
            let sv = to_chars(st.as_str());
            let pat = to_chars("arxiv");
            if contains_chars(&sv, &pat) {
                entry.arxiv_id = a.clone();
                self.arxiv_ids.insert(a.as_str(), ());
            }
        }
        if let Some(e) = &env.envelope_id {
            entry.envelope_id = e.clone();
        }
        if let Some(t) = &env.title {
            let tv = to_chars(t.as_str());
            let k = if tv.len() <= 100 { tv.len() } else { 100 };
            entry.title = string_of(&tv, 0, k);
            proof {
                assert(tv@.len() <= 100 ==> tv@.subrange(0, k as int) =~= tv@);
                assert(tv@.len() > 100 ==> tv@.subrange(0, k as int) =~= tv@.take(100));
            }
        }
        if let Some(c) = &env.created_at {
            entry.recorded_at = c.clone();
        }
        entry
    }

    /// The numbers of known hashes, arXiv ids and URLs.
    pub fn stats(&self) -> (s: DedupStats)
        requires
            self.wf(),
        ensures
            s.hashes == self.hashes().len(),
            s.arxiv_ids == self.arxiv_ids().len(),
            s.urls == self.urls().len(),
    {
        DedupStats { hashes: self.hashes.len(), arxiv_ids: self.arxiv_ids.len(), urls: self.urls.len() }
    }

    /// The path of the JSONL index.
    pub fn index_path(&self) -> (p: &str)
        ensures
            p@ == self.path(),
    {
        self.index_path.as_str()
    }
}

/// Once an envelope is recorded, an artifact with its post-sanitization
/// hash, its kept arXiv id or its URL is a duplicate (when that key is not empty).
pub proof fn lemma_recorded_is_duplicate(
    hashes: Set<Seq<char>>,
    ids: Set<Seq<char>>,
    urls: Set<Seq<char>>,
    env: EnvelopeFields,
)
    ensures
        (env.post_sanitization_hash matches Some(h) && h@.len() > 0) ==> known(
            recorded_hashes(hashes, env),
            recorded_ids(ids, env),
            recorded_urls(urls, env),
            string_text(env.post_sanitization_hash),
            None,
            None,
        ),
        (recorded_arxiv(env) matches Some(a) && a.len() > 0) ==> known(
            recorded_hashes(hashes, env),
            recorded_ids(ids, env),
            recorded_urls(urls, env),
            None,
            recorded_arxiv(env),
            None,
        ),
        (env.source_url matches Some(u) && u@.len() > 0) ==> known(
            recorded_hashes(hashes, env),
            recorded_ids(ids, env),
            recorded_urls(urls, env),
            None,
            None,
            string_text(env.source_url),
        ),
{
}

/// The index line written for a recorded envelope makes the envelope a
/// duplicate for an engine loaded from an index holding that line.
pub proof fn lemma_reloaded_is_duplicate(entries: Seq<DedupEntry>, k: int, env: EnvelopeFields)
    requires
        0 <= k < entries.len(),
        entries[k].hash@ == match env.post_sanitization_hash {
            Some(h) => h@,
            None => Seq::<char>::empty(),
        },
        entries[k].url@ == match env.source_url {
            Some(u) => u@,
            None => Seq::<char>::empty(),
        },
        entries[k].arxiv_id@ == match recorded_arxiv(env) {
            Some(a) => a,
            None => Seq::<char>::empty(),
        },
    ensures
        (env.post_sanitization_hash matches Some(h) && h@.len() > 0) ==> known(
            index_hashes(entries),
            index_ids(entries),
            index_urls(entries),
            string_text(env.post_sanitization_hash),
            None,
            None,
        ),
        (recorded_arxiv(env) matches Some(a) && a.len() > 0) ==> known(
            index_hashes(entries),
            index_ids(entries),
            index_urls(entries),
            None,
            recorded_arxiv(env),
            None,
        ),
        (env.source_url matches Some(u) && u@.len() > 0) ==> known(
            index_hashes(entries),
            index_ids(entries),
            index_urls(entries),
            None,
            None,
            string_text(env.source_url),
        ),
{
    if env.post_sanitization_hash is Some {
        assert(index_hashes(entries).contains(entries[k].hash@) || entries[k].hash@.len() == 0);
    }
    if recorded_arxiv(env) is Some {
        assert(index_ids(entries).contains(entries[k].arxiv_id@) || entries[k].arxiv_id@.len() == 0);
    }
    if env.source_url is Some {
        assert(index_urls(entries).contains(normalize_url_spec(entries[k].url@)) || entries[k].url@.len() == 0);
    }
}

} // verus!

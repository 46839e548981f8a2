//! Web article processor: blog posts and articles reached by a URL, with
//! their text taken from the page by stripping the HTML tags.

use vstd::prelude::*;
use crate::astrolabe::processor::{
    meta_flag_is, meta_number_is, meta_text, meta_text_is, meta_text_of, MetaValue, ProcessorError, ProcessorResult,
    RawArtifact,
};
use crate::astrolabe::scan::{ci_text_at, ci_at, class_pred, lemma_run_of_bounds, run_len, run_of, Class};
use crate::astrolabe::xpost::{find_urls, urls_spec};
use crate::codec::{hex_encode_spec, sha256_hex, sha256_spec};
use crate::events::schema::Timestamp;
use crate::strmap::StrMap;
use vstd::utf8::encode_utf8;
use crate::text::{
    byte_len, contains_spec, contains_str, join, join_spec, push_char, string_of, to_chars, trim, trim_spec,
};

verus! {

/// The topic tags of an article, by the site its URL names.
pub open spec fn domain_tags_spec(url: Seq<char>) -> Seq<Seq<char>> {
    if contains_spec(url, "medium.com"@) {
        seq!["web-article"@, "blog"@, "tech-writing"@]
    } else if contains_spec(url, "huggingface.co"@) {
        seq!["web-article"@, "blog"@, "machine-learning"@, "huggingface"@]
    } else if contains_spec(url, "substack.com"@) {
        seq!["web-article"@, "newsletter"@]
    } else {
        seq!["web-article"@]
    }
}

/// Article tags: always `web-article`, first; medium.com adds blog and
/// tech-writing; otherwise huggingface.co adds blog, machine-learning and
/// huggingface; otherwise substack.com adds newsletter; other sites add
/// nothing.
pub proof fn lemma_domain_tags(url: Seq<char>)
    ensures
        domain_tags_spec(url).len() >= 1 && domain_tags_spec(url)[0] == "web-article"@,
        contains_spec(url, "medium.com"@) ==> domain_tags_spec(url) == seq!["web-article"@, "blog"@, "tech-writing"@],
        !contains_spec(url, "medium.com"@) && contains_spec(url, "huggingface.co"@) ==> domain_tags_spec(url) == seq![
            "web-article"@,
            "blog"@,
            "machine-learning"@,
            "huggingface"@,
        ],
        !contains_spec(url, "medium.com"@) && !contains_spec(url, "huggingface.co"@) && contains_spec(url, "substack.com"@)
            ==> domain_tags_spec(url) == seq!["web-article"@, "newsletter"@],
        !contains_spec(url, "medium.com"@) && !contains_spec(url, "huggingface.co"@) && !contains_spec(url, "substack.com"@)
            ==> domain_tags_spec(url) == seq!["web-article"@],
{
}


/// Topic tags of an article: `web-article` and those of its site.
pub fn domain_tags(url: &str) -> (r: Vec<String>)
    ensures
        r.deep_view() == domain_tags_spec(url@),
{
    let mut tags: Vec<String> = Vec::new();
    tags.push(String::from_str("web-article"));
    if contains_str(url, "medium.com") {
        tags.push(String::from_str("blog"));
        tags.push(String::from_str("tech-writing"));
    } else if contains_str(url, "huggingface.co") {
        tags.push(String::from_str("blog"));
        tags.push(String::from_str("machine-learning"));
        tags.push(String::from_str("huggingface"));
    } else if contains_str(url, "substack.com") {
        tags.push(String::from_str("newsletter"));
    }
    assert(tags.deep_view() =~= domain_tags_spec(url@));
    tags
}

/// URLs not worth fetching as articles: posts and images.
pub open spec fn skip_url(u: Seq<char>) -> bool {
    contains_spec(u, "x.com/"@) || contains_spec(u, "twitter.com/"@) || contains_spec(u, ".png"@) || contains_spec(
        u,
        ".jpg"@,
    ) || contains_spec(u, ".gif"@)
}

/// A trailing `.`, `,`, `;` or `)`.
pub open spec fn is_trailing_punct(c: char) -> bool {
    c == '.' || c == ',' || c == ';' || c == ')'
}

/// `u` without trailing `.`, `,`, `;` and `)`.
pub open spec fn trim_end_punct(u: Seq<char>) -> Seq<char>
    decreases u.len(),
{
    if u.len() > 0 && is_trailing_punct(u.last()) {
        trim_end_punct(u.drop_last())
    } else {
        u
    }
}

/// The first URL that is not skipped, trailing punctuation removed.
pub open spec fn first_kept(urls: Seq<Seq<char>>) -> Option<Seq<char>>
    decreases urls.len(),
{
    if urls.len() == 0 {
        None
    } else if !skip_url(urls[0]) {
        Some(trim_end_punct(urls[0]))
    } else {
        first_kept(urls.drop_first())
    }
}

/// The article URL of an artifact: the `source_url` text of its metadata,
/// else the first URL of its body that is not a post or an image.
pub open spec fn extract_url_spec(meta: Map<Seq<char>, MetaValue>, body: Seq<char>) -> Option<Seq<char>> {
    match meta_text_of(meta, "source_url"@) {
        Some(u) => Some(u),
        None => first_kept(urls_spec(body)),
    }
}

fn skip_url_exec(u: &str) -> (b: bool)
    ensures
        b == skip_url(u@),
{
    contains_str(u, "x.com/") || contains_str(u, "twitter.com/") || contains_str(u, ".png") || contains_str(u, ".jpg")
        || contains_str(u, ".gif")
}

fn trim_end_punct_exec(u: &str) -> (r: String)
    ensures
        r@ == trim_end_punct(u@),
{
    let v = to_chars(u);
    let mut n = v.len();
    assert(v@.take(n as int) =~= v@);
    while n > 0 && (v[n - 1] == '.' || v[n - 1] == ',' || v[n - 1] == ';' || v[n - 1] == ')')
        invariant
            n <= v@.len(),
            trim_end_punct(v@.take(n as int)) == trim_end_punct(v@),
        decreases n,
    {
        assert(v@.take(n as int).drop_last() =~= v@.take(n - 1));
        n = n - 1;
    }
    assert(v@.take(v@.len() as int) =~= v@);
    string_of(&v, 0, n)
}

impl RawArtifact {
    /// The article URL of this artifact (see `extract_url_spec`).
    pub fn extract_url(&self) -> (r: Option<String>)
        requires
            self.metadata.wf(),
        ensures
            match r {
                Some(u) => extract_url_spec(self.metadata@, self.body@) == Some(u@),
                None => extract_url_spec(self.metadata@, self.body@) is None,
            },
    {
        match meta_text(&self.metadata, "source_url") {
            Some(u) => {
                return Some(u);
            },
            None => {},
        }
        let urls = find_urls(self.body.as_str());
        let ghost us = urls.deep_view();
        assert(us.skip(0) =~= us);
        let mut i: usize = 0;
        while i < urls.len()
            invariant
                us == urls.deep_view(),
                us == urls_spec(self.body@),
                meta_text_of(self.metadata@, "source_url"@) is None,
                i <= us.len(),
                first_kept(us.skip(i as int)) == first_kept(us),
            decreases us.len() - i,
        {
            assert(us.skip(i as int)[0] == urls@[i as int]@);
            assert(us.skip(i as int).drop_first() =~= us.skip(i as int + 1));
            if !skip_url_exec(urls[i].as_str()) {
                return Some(trim_end_punct_exec(urls[i].as_str()));
            }
            i = i + 1;
        }
        assert(us.skip(i as int) =~= Seq::<Seq<char>>::empty());
        None
    }
}

/// `<title ...>text</title>` (tag name in any case) at `i`: the
/// start and length of the text.
pub open spec fn title_at(s: Seq<char>, i: int) -> Option<(int, int)> {
    let a = run_of(s, i + 6, class_pred(Class::NotGt));
    let t = i + 6 + a + 1;
    let b = run_of(s, t, class_pred(Class::NotLt));
    if ci_text_at(s, "<title"@, i) && i + 6 + a < s.len() && s[i + 6 + a] == '>' && b > 0 && ci_text_at(
        s,
        "</title>"@,
        t + b,
    ) {
        Some((t, b))
    } else {
        None
    }
}

/// `i` is where the first title element starts.
pub open spec fn first_title_at(s: Seq<char>, i: int) -> bool {
    0 <= i && title_at(s, i) is Some && forall|j: int| 0 <= j < i ==> #[trigger] title_at(s, j) is None
}

/// The trimmed text of the first title element, or empty.
pub open spec fn html_title_spec(s: Seq<char>) -> Seq<char> {
    if exists|i: int| first_title_at(s, i) {
        let t = title_at(s, choose|i: int| first_title_at(s, i)).unwrap();
        trim_spec(s.subrange(t.0, t.0 + t.1))
    } else {
        Seq::empty()
    }
}

/// `s` from `i` on without its tags (`<` then at least one character other
/// than `>`, then `>`).
pub open spec fn strip_tags_from(s: Seq<char>, i: int) -> Seq<char>
    decreases s.len() - i,
{
    if i < 0 || i >= s.len() {
        Seq::empty()
    } else {
        let r = run_of(s, i + 1, class_pred(Class::NotGt));
        if s[i] == '<' && r > 0 && i + 1 + r < s.len() {
            strip_tags_from(s, i + 2 + r)
        } else {
            seq![s[i]] + strip_tags_from(s, i + 1)
        }
    }
}

/// `s` from `i` on with each run of three or more line breaks cut to two.
pub open spec fn collapse_from(s: Seq<char>, i: int) -> Seq<char>
    decreases s.len() - i,
{
    if i < 0 || i >= s.len() {
        Seq::empty()
    } else {
        let r = run_of(s, i, class_pred(Class::Newline));
        if r >= 3 && i + r <= s.len() {
            seq!['\n', '\n'] + collapse_from(s, i + r)
        } else {
            seq![s[i]] + collapse_from(s, i + 1)
        }
    }
}

/// At most this many characters of page text are kept.
pub const MAX_CONTENT_LEN: usize = 30000;

/// The text of a page: tags stripped, runs of line breaks cut to two, at
/// most `MAX_CONTENT_LEN` characters, trimmed.
pub open spec fn page_text_spec(s: Seq<char>) -> Seq<char> {
    let c = collapse_from(strip_tags_from(s, 0), 0);
    trim_spec(if c.len() > MAX_CONTENT_LEN { c.take(MAX_CONTENT_LEN as int) } else { c })
}

fn title_at_exec(v: &Vec<char>, i: usize) -> (r: Option<(usize, usize)>)
    ensures
        match r {
            Some(t) => title_at(v@, i as int) == Some((t.0 as int, t.1 as int)) && t.0 + t.1 <= v@.len(),
            None => title_at(v@, i as int) is None,
        },
{
    proof {
        reveal_strlit("<title");
        reveal_strlit("</title>");
    }
    let len = v.len();
    if !ci_at(v, i, "<title") {
        return None;
    }
    let a = run_len(v, i + 6, Class::NotGt);
    if i + 6 + a >= len || v[i + 6 + a] != '>' {
        return None;
    }
    let t = i + 6 + a + 1;
    let b = run_len(v, t, Class::NotLt);
    if b == 0 {
        return None;
    }
    if !ci_at(v, t + b, "</title>") {
        return None;
    }
    Some((t, b))
}

proof fn lemma_first_title_unique(s: Seq<char>, a: int, b: int)
    requires
        first_title_at(s, a),
        first_title_at(s, b),
    ensures
        a == b,
{
    if a < b {
        assert(title_at(s, a) is Some);
    } else if b < a {
        assert(title_at(s, b) is Some);
    }
}

fn html_title(v: &Vec<char>) -> (r: String)
    ensures
        r@ == html_title_spec(v@),
{
    let len = v.len();
    let mut i: usize = 0;
    while i < len
        invariant
            len == v@.len(),
            i <= len,
            forall|j: int| 0 <= j < i ==> #[trigger] title_at(v@, j) is None,
        decreases len - i,
    {
        match title_at_exec(v, i) {
            Some((t, b)) => {
                proof {
                    assert(first_title_at(v@, i as int));
                    let c = choose|c: int| first_title_at(v@, c);
                    lemma_first_title_unique(v@, i as int, c);
                }
                let raw = string_of(v, t, t + b);
                return trim(raw.as_str());
            },
            None => {},
        }
        i = i + 1;
    }
    proof {
        assert forall|j: int| !first_title_at(v@, j) by {
            if 0 <= j && title_at(v@, j) is Some {
                reveal_strlit("<title");
                assert(j + 6 <= v@.len());
            }
        }
    }
    String::new()
}

pub(crate) fn strip_tags(v: &Vec<char>) -> (r: Vec<char>)
    ensures
        r@ == strip_tags_from(v@, 0),
{
    let len = v.len();
    let mut out: Vec<char> = Vec::new();
    let mut i: usize = 0;
    while i < len
        invariant
            len == v@.len(),
            i <= len,
            out@ + strip_tags_from(v@, i as int) == strip_tags_from(v@, 0),
        decreases len - i,
    {
        let r = if v[i] == '<' {
            run_len(v, i + 1, Class::NotGt)
        } else {
            0
        };
        proof {
            lemma_run_of_bounds(v@, i + 1, class_pred(Class::NotGt));
        }
        if v[i] == '<' && r > 0 && i + 1 + r < len {
            i = i + 2 + r;
        } else {
            let ghost before = out@;
            out.push(v[i]);
            assert(out@ =~= before + seq![v@[i as int]]);
            i = i + 1;
        }
    }
    assert(strip_tags_from(v@, i as int) =~= Seq::<char>::empty());
    assert(out@ =~= strip_tags_from(v@, 0));
    out
}

fn collapse_newlines(v: &Vec<char>) -> (r: Vec<char>)
    ensures
        r@ == collapse_from(v@, 0),
{
    let len = v.len();
    let mut out: Vec<char> = Vec::new();
    let mut i: usize = 0;
    while i < len
        invariant
            len == v@.len(),
            i <= len,
            out@ + collapse_from(v@, i as int) == collapse_from(v@, 0),
        decreases len - i,
    {
        let r = run_len(v, i, Class::Newline);
        let ghost before = out@;
        if r >= 3 {
            out.push('\n');
            out.push('\n');
            assert(out@ =~= before + seq!['\n', '\n']);
            i = i + r;
        } else {
            out.push(v[i]);
            assert(out@ =~= before + seq![v@[i as int]]);
            i = i + 1;
        }
    }
    assert(collapse_from(v@, i as int) =~= Seq::<char>::empty());
    assert(out@ =~= collapse_from(v@, 0));
    out
}

/// The title and the text of an HTML page.
pub fn extract_content(html: &str) -> (r: (String, String))
    ensures
        r.0@ == html_title_spec(html@),
        r.1@ == page_text_spec(html@),
{
    let v = to_chars(html);
    let title = html_title(&v);
    let stripped = strip_tags(&v);
    let collapsed = collapse_newlines(&stripped);
    let n = if collapsed.len() > MAX_CONTENT_LEN {
        MAX_CONTENT_LEN
    } else {
        collapsed.len()
    };
    let kept = string_of(&collapsed, 0, n);
    proof {
        if collapsed@.len() <= MAX_CONTENT_LEN {
            assert(collapsed@.subrange(0, n as int) =~= collapsed@);
        }
    }
    let text = trim(kept.as_str());
    (title, text)
}

/// Processor for web articles: Medium, Hugging Face blog posts and other pages.
pub struct WebArticleProcessor;

/// The title when the page gives none: the subject, else `Web article: <url>`.
pub open spec fn fallback_title(subject: Seq<char>, url: Seq<char>) -> Seq<char> {
    if subject.len() > 0 {
        subject
    } else {
        "Web article: "@ + url
    }
}

/// The lines of the content of a fetched article.
pub open spec fn article_lines(title: Seq<char>, url: Seq<char>, text: Seq<char>) -> Seq<Seq<char>> {
    seq![
        "Title: "@ + title,
        "URL: "@ + url,
        if text.len() > 0 { "\n"@ + text } else { "\n[Content extraction failed]"@ },
    ]
}

/// `r` is the result for the article at `url` of `a`, given the fetched
/// page (or `None` when the fetch failed), at time `now`.
pub open spec fn article_result(a: RawArtifact, url: Seq<char>, page: Option<String>, now: Timestamp, r: ProcessorResult) -> bool {
    &&& r.source_url@ == url
    &&& r.source_type@ == "web-article"@
    &&& r.processor_version@ == "1.0.0"@
    &&& r.domain_tags.deep_view() == domain_tags_spec(url)
    &&& r.embedded_artifacts@.len() == 0
    &&& r.fetched_at == now
    &&& r.processed_at == now
    &&& r.metadata.wf()
    &&& match page {
        Some(html) => {
            let ht = html_title_spec(html@);
            let title = if ht.len() > 0 { ht } else { fallback_title(a.subject@, url) };
            let text = page_text_spec(html@);
            &&& r.title@ == title
            &&& r.content@ == join_spec(article_lines(title, url, text), "\n"@)
            &&& r.metadata@.dom() == set!["content_hash_sha256"@, "text_extracted"@, "text_length"@]
            &&& meta_text_is(r.metadata@, "content_hash_sha256"@, hex_encode_spec(sha256_spec(encode_utf8(html@))))
            &&& meta_flag_is(r.metadata@, "text_extracted"@, text.len() > 0)
            &&& meta_number_is(r.metadata@, "text_length"@, byte_len(text))
        },
        None => {
            &&& r.title@ == fallback_title(a.subject@, url)
            &&& r.content@ == "URL: "@ + url + "\n\n[Fetch failed \u{2014} content unavailable]\n\n"@ + a.body@
            &&& r.metadata@.dom() == set!["fetch_failed"@]
            &&& meta_flag_is(r.metadata@, "fetch_failed"@, true)
        },
    }
}

impl WebArticleProcessor {
    pub fn new() -> (p: Self) {
        WebArticleProcessor
    }

    /// The processor's name.
    pub fn name(&self) -> (r: &'static str)
        ensures
            r@ == "web-article"@,
    {
        "web-article"
    }

    /// The processor's version.
    pub fn version(&self) -> (r: &'static str)
        ensures
            r@ == "1.0.0"@,
    {
        "1.0.0"
    }

    /// Whether the artifact has an article URL.
    pub fn can_process(&self, artifact: &RawArtifact) -> (b: bool)
        requires
            artifact.metadata.wf(),
        ensures
            b == (extract_url_spec(artifact.metadata@, artifact.body@) is Some),
    {
        artifact.extract_url().is_some()
    }

    /// Builds the result for an artifact from the page fetched at its article
    /// URL (`None` when the fetch failed); `MissingField("URL")` when the
    /// artifact has no article URL.
    pub fn process_with_page(&self, artifact: &RawArtifact, page: Option<String>, now: Timestamp) -> (r: Result<
        ProcessorResult,
        ProcessorError,
    >)
        requires
            artifact.metadata.wf(),
        ensures
            match r {
                Ok(res) => extract_url_spec(artifact.metadata@, artifact.body@) matches Some(url) && article_result(
                    *artifact,
                    url,
                    page,
                    now,
                    res,
                ),
                Err(e) => extract_url_spec(artifact.metadata@, artifact.body@) is None && (e matches ProcessorError::MissingField(
                    f,
                ) && f@ == "URL"@),
            },
    {
        let url = match artifact.extract_url() {
            Some(u) => u,
            None => {
                return Err(ProcessorError::MissingField(String::from_str("URL")));
            },
        };
        let tags = domain_tags(url.as_str());
        let ghost pg = page;
        match page {
            Some(html) => {
                let hash = sha256_hex(html.as_str());
                let (html_title, text) = extract_content(html.as_str());
                let title = if !html_title.as_str().is_empty() {
                    html_title
                } else if !artifact.subject.as_str().is_empty() {
                    artifact.subject.clone()
                } else {
                    let mut t = String::from_str("Web article: ");
                    t.append(url.as_str());
                    t
                };
                let mut lines: Vec<String> = Vec::new();
                let mut l1 = String::from_str("Title: ");
                l1.append(title.as_str());
                lines.push(l1);
                let mut l2 = String::from_str("URL: ");
                l2.append(url.as_str());
                lines.push(l2);
                if !text.as_str().is_empty() {
                    let mut l3 = String::from_str("\n");
                    l3.append(text.as_str());
                    lines.push(l3);
                } else {
                    lines.push(String::from_str("\n[Content extraction failed]"));
                }
                assert(lines.deep_view() =~= article_lines(title@, url@, text@));
                let content = join(&lines, "\n");
                let text_len = text.as_str().len();
                let mut metadata: StrMap<MetaValue> = StrMap::new();
                metadata.insert("content_hash_sha256", MetaValue::Text(hash));
                metadata.insert("text_extracted", MetaValue::Flag(!text.as_str().is_empty()));
                metadata.insert("text_length", MetaValue::Number(text_len as u64));
                proof {
                    reveal_strlit("content_hash_sha256");
                    reveal_strlit("text_extracted");
                    reveal_strlit("text_length");
                    assert("content_hash_sha256"@.len() == 19);
                    assert("text_extracted"@.len() == 14);
                    assert("text_length"@.len() == 11);
                    assert(metadata@.dom() =~= set!["content_hash_sha256"@, "text_extracted"@, "text_length"@]);
                }
                Ok(
                    ProcessorResult {
                        title,
                        content,
                        source_url: url,
                        source_type: String::from_str("web-article"),
                        processor_version: String::from_str("1.0.0"),
                        domain_tags: tags,
                        metadata,
                        embedded_artifacts: Vec::new(),
                        fetched_at: now,
                        processed_at: now,
                    },
                )
            },
            None => {
                let title = if !artifact.subject.as_str().is_empty() {
                    artifact.subject.clone()
                } else {
                    let mut t = String::from_str("Web article: ");
                    t.append(url.as_str());
                    t
                };
                let mut content = String::from_str("URL: ");
                content.append(url.as_str());
                content.append("\n\n[Fetch failed \u{2014} content unavailable]\n\n");
                content.append(artifact.body.as_str());
                let mut metadata: StrMap<MetaValue> = StrMap::new();
                metadata.insert("fetch_failed", MetaValue::Flag(true));
                proof {
                    assert(metadata@.dom() =~= set!["fetch_failed"@]);
                }
                Ok(
                    ProcessorResult {
                        title,
                        content,
                        source_url: url,
                        source_type: String::from_str("web-article"),
                        processor_version: String::from_str("1.0.0"),
                        domain_tags: tags,
                        metadata,
                        embedded_artifacts: Vec::new(),
                        fetched_at: now,
                        processed_at: now,
                    },
                )
            },
        }
    }
}

} // verus!

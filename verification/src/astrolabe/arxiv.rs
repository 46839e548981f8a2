//! arXiv helpers: ids in text, category tags, author lists.

use vstd::prelude::*;
use crate::astrolabe::scan::{ci_text_at, ci_text_at_exec, digit_char, is_digit};
use crate::astrolabe::processor::{
    meta_flag_is, meta_list_is, meta_text_is, MetaValue, ProcessorError, ProcessorResult, RawArtifact,
};
use crate::events::schema::Timestamp;
use crate::strmap::StrMap;
use crate::text::{contains_spec, copy_strings, decimal, decimal_spec, occurs_at, push_char, str_eq, string_of, to_chars};

verus! {

/// The length of the arXiv id (`dddd.dddd` or `dddd.ddddd`, the longer when
/// possible) that starts at position `i` of `s`, or 0 when none does.
pub open spec fn id_len_at(s: Seq<char>, i: int) -> int {
    if 0 <= i && i + 9 <= s.len()
        && (forall|k: int| 0 <= k < 4 ==> is_digit(#[trigger] s[i + k]))
        && s[i + 4] == '.'
        && (forall|k: int| 5 <= k < 9 ==> is_digit(#[trigger] s[i + k]))
    {
        if i + 9 < s.len() && is_digit(s[i + 9]) { 10 } else { 9 }
    } else {
        0
    }
}

/// `arxiv.org/abs/<id>` (any case) starts at position `i` of `s`.
pub open spec fn url_id_at(s: Seq<char>, i: int) -> bool {
    ci_text_at(s, "arxiv.org/abs/"@, i) && id_len_at(s, i + 14) > 0
}

/// A bare arXiv id starts at position `i` of `s`.
pub open spec fn bare_id_at(s: Seq<char>, i: int) -> bool {
    id_len_at(s, i) > 0
}

/// `i` is the first position of an `arxiv.org/abs/<id>` link in `s`.
pub open spec fn first_url_at(s: Seq<char>, i: int) -> bool {
    0 <= i && url_id_at(s, i) && forall|j: int| 0 <= j < i ==> !#[trigger] url_id_at(s, j)
}

/// `i` is the first position of a bare arXiv id in `s`.
pub open spec fn first_bare_at(s: Seq<char>, i: int) -> bool {
    0 <= i && bare_id_at(s, i) && forall|j: int| 0 <= j < i ==> !#[trigger] bare_id_at(s, j)
}

/// The arXiv id in `s`: from the first `arxiv.org/abs/` link, else the
/// first bare id.
pub open spec fn extract_arxiv_id_spec(s: Seq<char>) -> Option<Seq<char>> {
    if exists|i: int| first_url_at(s, i) {
        let i = choose|i: int| first_url_at(s, i);
        Some(s.subrange(i + 14, i + 14 + id_len_at(s, i + 14)))
    } else {
        bare_id_spec(s)
    }
}

/// The first bare arXiv id in `s` (a version suffix such as `v2` is not part of it).
pub open spec fn bare_id_spec(s: Seq<char>) -> Option<Seq<char>> {
    if exists|i: int| first_bare_at(s, i) {
        let i = choose|i: int| first_bare_at(s, i);
        Some(s.subrange(i, i + id_len_at(s, i)))
    } else {
        None
    }
}

proof fn lemma_first_url_unique(s: Seq<char>, a: int, b: int)
    requires
        first_url_at(s, a),
        first_url_at(s, b),
    ensures
        a == b,
{
    if a < b {
        assert(!url_id_at(s, a));
    } else if b < a {
        assert(!url_id_at(s, b));
    }
}

proof fn lemma_first_bare_unique(s: Seq<char>, a: int, b: int)
    requires
        first_bare_at(s, a),
        first_bare_at(s, b),
    ensures
        a == b,
{
    if a < b {
        assert(!bare_id_at(s, a));
    } else if b < a {
        assert(!bare_id_at(s, b));
    }
}

/// Length of the arXiv id at position `i` of `v` (0 when none).
pub fn id_len_at_exec(v: &Vec<char>, i: usize) -> (n: usize)
    ensures
        n == id_len_at(v@, i as int),
{
    if i > v.len() || v.len() - i < 9 {
        return 0;
    }
    let mut k: usize = 0;
    while k < 9
        invariant
            i + 9 <= v@.len(),
            v@.len() <= usize::MAX,
            k <= 9,
            forall|t: int| 0 <= t < k && t != 4 ==> is_digit(#[trigger] v@[i + t]),
            k > 4 ==> v@[i + 4] == '.',
        decreases 9 - k,
    {
        if k == 4 {
            if v[i + 4] != '.' {
                return 0;
            }
        } else if !digit_char(v[i + k]) {
            assert(!is_digit(v@[i + k]));
            return 0;
        }
        k = k + 1;
    }
    assert(forall|t: int| 0 <= t < 4 ==> is_digit(#[trigger] v@[i + t]));
    assert(forall|t: int| 5 <= t < 9 ==> is_digit(#[trigger] v@[i + t]));
    if i + 9 < v.len() && digit_char(v[i + 9]) { 10 } else { 9 }
}

/// Extracts the arXiv id from text holding an arXiv link or a bare id.
pub fn extract_arxiv_id(text: &str) -> (r: Option<String>)
    ensures
        match r {
            Some(id) => extract_arxiv_id_spec(text@) == Some(id@),
            None => extract_arxiv_id_spec(text@) is None,
        },
{
    let v = to_chars(text);
    let pat = to_chars("arxiv.org/abs/");
    proof { reveal_strlit("arxiv.org/abs/"); }
    let ghost s = v@;
    let n = v.len();
    let mut i: usize = 0;
    while i < n
        invariant
            s == v@,
            s == text@,
            pat@ == "arxiv.org/abs/"@,
            n == v@.len(),
            i <= n,
            forall|j: int| 0 <= j < i ==> !url_id_at(s, j),
        decreases n - i,
    {
        if ci_text_at_exec(&v, &pat, i) && n - i >= 14 && id_len_at_exec(&v, i + 14) > 0 {
            let len = id_len_at_exec(&v, i + 14);
            proof {
                assert(first_url_at(s, i as int));
                let c = choose|c: int| first_url_at(s, c);
                lemma_first_url_unique(s, i as int, c);
                assert(extract_arxiv_id_spec(s) == Some(s.subrange(i + 14, i + 14 + len)));
            }
            let id = string_of(&v, i + 14, i + 14 + len);
            assert(id@ == s.subrange(i + 14, i + 14 + len));
            return Some(id);
        }
        i = i + 1;
    }
    proof {
        assert forall|j: int| !first_url_at(s, j) by {
            if 0 <= j && url_id_at(s, j) {
                assert(j + 14 <= s.len());
            }
        }
    }
    find_bare_id(text)
}

/// The first bare arXiv id in `text`.
pub fn find_bare_id(text: &str) -> (r: Option<String>)
    ensures
        match r {
            Some(id) => bare_id_spec(text@) == Some(id@),
            None => bare_id_spec(text@) is None,
        },
{
    let v = to_chars(text);
    let ghost s = v@;
    let n = v.len();
    let mut i: usize = 0;
    while i < n
        invariant
            s == v@,
            s == text@,
            n == v@.len(),
            i <= n,
            forall|j: int| 0 <= j < i ==> !bare_id_at(s, j),
        decreases n - i,
    {
        let len = id_len_at_exec(&v, i);
        if len > 0 {
            proof {
                assert(first_bare_at(s, i as int));
                let c = choose|c: int| first_bare_at(s, c);
                lemma_first_bare_unique(s, i as int, c);
                assert(bare_id_spec(s) == Some(s.subrange(i as int, i + len)));
            }
            let id = string_of(&v, i, i + len);
            assert(id@ == s.subrange(i as int, i + len));
            return Some(id);
        }
        i = i + 1;
    }
    proof {
        assert forall|j: int| !first_bare_at(s, j) by {
            if 0 <= j && bare_id_at(s, j) {
                assert(j + 9 <= s.len());
            }
        }
    }
    None
}

/// The domain tag of an arXiv category.
pub open spec fn category_tag_spec(cat: Seq<char>) -> Option<Seq<char>> {
    if cat == "cs.AI"@ {
        Some("artificial-intelligence"@)
    } else if cat == "cs.LG"@ || cat == "stat.ML"@ {
        Some("machine-learning"@)
    } else if cat == "cs.CL"@ {
        Some("nlp"@)
    } else if cat == "cs.CV"@ {
        Some("computer-vision"@)
    } else if cat == "cs.CR"@ {
        Some("security"@)
    } else if cat == "cs.DC"@ {
        Some("distributed-computing"@)
    } else if cat == "cs.SE"@ {
        Some("software-engineering"@)
    } else if cat == "math.OC"@ {
        Some("optimization"@)
    } else {
        None
    }
}

/// Maps an arXiv category to a human-readable domain tag.
pub fn category_tag(cat: &str) -> (r: Option<&'static str>)
    ensures
        match r {
            Some(t) => category_tag_spec(cat@) == Some(t@),
            None => category_tag_spec(cat@) is None,
        },
{
    if str_eq(cat, "cs.AI") {
        Some("artificial-intelligence")
    } else if str_eq(cat, "cs.LG") || str_eq(cat, "stat.ML") {
        Some("machine-learning")
    } else if str_eq(cat, "cs.CL") {
        Some("nlp")
    } else if str_eq(cat, "cs.CV") {
        Some("computer-vision")
    } else if str_eq(cat, "cs.CR") {
        Some("security")
    } else if str_eq(cat, "cs.DC") {
        Some("distributed-computing")
    } else if str_eq(cat, "cs.SE") {
        Some("software-engineering")
    } else if str_eq(cat, "math.OC") {
        Some("optimization")
    } else {
        None
    }
}

/// The domain tags of arXiv categories: `cs.AI` artificial intelligence,
/// `cs.LG` and `stat.ML` machine learning, `cs.CL` NLP, `cs.CV` computer
/// vision, `cs.CR` security, `cs.DC` distributed computing, `cs.SE`
/// software engineering, `math.OC` optimization; any other category has
/// no tag.
pub proof fn lemma_category_table(cat: Seq<char>)
    ensures
        category_tag_spec("cs.AI"@) == Some("artificial-intelligence"@),
        category_tag_spec("cs.LG"@) == Some("machine-learning"@),
        category_tag_spec("stat.ML"@) == Some("machine-learning"@),
        category_tag_spec("cs.CL"@) == Some("nlp"@),
        category_tag_spec("cs.CV"@) == Some("computer-vision"@),
        category_tag_spec("cs.CR"@) == Some("security"@),
        category_tag_spec("cs.DC"@) == Some("distributed-computing"@),
        category_tag_spec("cs.SE"@) == Some("software-engineering"@),
        category_tag_spec("math.OC"@) == Some("optimization"@),
        cat != "cs.AI"@ && cat != "cs.LG"@ && cat != "stat.ML"@ && cat != "cs.CL"@ && cat != "cs.CV"@ && cat
            != "cs.CR"@ && cat != "cs.DC"@ && cat != "cs.SE"@ && cat != "math.OC"@ ==> category_tag_spec(cat) is None,
{
    reveal_strlit("cs.AI");
    reveal_strlit("cs.LG");
    reveal_strlit("stat.ML");
    reveal_strlit("cs.CL");
    reveal_strlit("cs.CV");
    reveal_strlit("cs.CR");
    reveal_strlit("cs.DC");
    reveal_strlit("cs.SE");
    reveal_strlit("math.OC");
    assert("cs.AI"@[3] != "cs.LG"@[3]);
    assert("cs.AI"@ != "cs.LG"@);
    assert("cs.AI"@.len() != "stat.ML"@.len());
    assert("cs.AI"@ != "stat.ML"@);
    assert("cs.AI"@[3] != "cs.CL"@[3]);
    assert("cs.AI"@ != "cs.CL"@);
    assert("cs.AI"@[3] != "cs.CV"@[3]);
    assert("cs.AI"@ != "cs.CV"@);
    assert("cs.AI"@[3] != "cs.CR"@[3]);
    assert("cs.AI"@ != "cs.CR"@);
    assert("cs.AI"@[3] != "cs.DC"@[3]);
    assert("cs.AI"@ != "cs.DC"@);
    assert("cs.AI"@[3] != "cs.SE"@[3]);
    assert("cs.AI"@ != "cs.SE"@);
    assert("cs.AI"@.len() != "math.OC"@.len());
    assert("cs.AI"@ != "math.OC"@);
    assert("cs.LG"@.len() != "stat.ML"@.len());
    assert("cs.LG"@ != "stat.ML"@);
    assert("cs.LG"@[3] != "cs.CL"@[3]);
    assert("cs.LG"@ != "cs.CL"@);
    assert("cs.LG"@[3] != "cs.CV"@[3]);
    assert("cs.LG"@ != "cs.CV"@);
    assert("cs.LG"@[3] != "cs.CR"@[3]);
    assert("cs.LG"@ != "cs.CR"@);
    assert("cs.LG"@[3] != "cs.DC"@[3]);
    assert("cs.LG"@ != "cs.DC"@);
    assert("cs.LG"@[3] != "cs.SE"@[3]);
    assert("cs.LG"@ != "cs.SE"@);
    assert("cs.LG"@.len() != "math.OC"@.len());
    assert("cs.LG"@ != "math.OC"@);
    assert("stat.ML"@.len() != "cs.CL"@.len());
    assert("stat.ML"@ != "cs.CL"@);
    assert("stat.ML"@.len() != "cs.CV"@.len());
    assert("stat.ML"@ != "cs.CV"@);
    assert("stat.ML"@.len() != "cs.CR"@.len());
    assert("stat.ML"@ != "cs.CR"@);
    assert("stat.ML"@.len() != "cs.DC"@.len());
    assert("stat.ML"@ != "cs.DC"@);
    assert("stat.ML"@.len() != "cs.SE"@.len());
    assert("stat.ML"@ != "cs.SE"@);
    assert("stat.ML"@[0] != "math.OC"@[0]);
    assert("stat.ML"@ != "math.OC"@);
    assert("cs.CL"@[4] != "cs.CV"@[4]);
    assert("cs.CL"@ != "cs.CV"@);
    assert("cs.CL"@[4] != "cs.CR"@[4]);
    assert("cs.CL"@ != "cs.CR"@);
    assert("cs.CL"@[3] != "cs.DC"@[3]);
    assert("cs.CL"@ != "cs.DC"@);
    assert("cs.CL"@[3] != "cs.SE"@[3]);
    assert("cs.CL"@ != "cs.SE"@);
    assert("cs.CL"@.len() != "math.OC"@.len());
    assert("cs.CL"@ != "math.OC"@);
    assert("cs.CV"@[4] != "cs.CR"@[4]);
    assert("cs.CV"@ != "cs.CR"@);
    assert("cs.CV"@[3] != "cs.DC"@[3]);
    assert("cs.CV"@ != "cs.DC"@);
    assert("cs.CV"@[3] != "cs.SE"@[3]);
    assert("cs.CV"@ != "cs.SE"@);
    assert("cs.CV"@.len() != "math.OC"@.len());
    assert("cs.CV"@ != "math.OC"@);
    assert("cs.CR"@[3] != "cs.DC"@[3]);
    assert("cs.CR"@ != "cs.DC"@);
    assert("cs.CR"@[3] != "cs.SE"@[3]);
    assert("cs.CR"@ != "cs.SE"@);
    assert("cs.CR"@.len() != "math.OC"@.len());
    assert("cs.CR"@ != "math.OC"@);
    assert("cs.DC"@[3] != "cs.SE"@[3]);
    assert("cs.DC"@ != "cs.SE"@);
    assert("cs.DC"@.len() != "math.OC"@.len());
    assert("cs.DC"@ != "math.OC"@);
    assert("cs.SE"@.len() != "math.OC"@.len());
    assert("cs.SE"@ != "math.OC"@);
}


/// `names` joined by `", "`.
pub open spec fn join_comma(names: Seq<Seq<char>>) -> Seq<char>
    decreases names.len(),
{
    if names.len() == 0 {
        Seq::empty()
    } else if names.len() == 1 {
        names[0]
    } else {
        join_comma(names.drop_last()) + ", "@ + names.last()
    }
}

/// The author list for display: at most five names joined by `", "`, then
/// ` et al. (N authors)` when there are more.
pub open spec fn format_authors_spec(authors: Seq<Seq<char>>) -> Seq<char> {
    if authors.len() == 0 {
        Seq::empty()
    } else if authors.len() <= 5 {
        join_comma(authors)
    } else {
        join_comma(authors.take(5)) + " et al. ("@ + decimal_spec(authors.len()) + " authors)"@
    }
}

/// Four digits, a dot and four digits start at position `i` of `s`.
pub open spec fn four_dot_four_at(s: Seq<char>, i: int) -> bool {
    &&& 0 <= i && i + 9 <= s.len()
    &&& forall|k: int| 0 <= k < 4 ==> is_digit(#[trigger] s[i + k])
    &&& s[i + 4] == '.'
    &&& forall|k: int| 5 <= k < 9 ==> is_digit(#[trigger] s[i + k])
}

proof fn lemma_first_url_exists(s: Seq<char>, i: int)
    requires
        url_id_at(s, i),
    ensures
        exists|j: int| first_url_at(s, j),
    decreases i,
{
    if exists|j: int| 0 <= j < i && url_id_at(s, j) {
        let j = choose|j: int| 0 <= j < i && url_id_at(s, j);
        lemma_first_url_exists(s, j);
    } else {
        assert(first_url_at(s, i));
    }
}

proof fn lemma_first_bare_exists(s: Seq<char>, i: int)
    requires
        0 <= i,
        bare_id_at(s, i),
    ensures
        exists|j: int| first_bare_at(s, j),
    decreases i,
{
    if exists|j: int| 0 <= j < i && bare_id_at(s, j) {
        let j = choose|j: int| 0 <= j < i && bare_id_at(s, j);
        lemma_first_bare_exists(s, j);
    } else {
        assert(first_bare_at(s, i));
    }
}

/// An arXiv id found in a text is a piece of the text of the form four
/// digits, a dot, and four or five digits; and a text holding four digits,
/// a dot and four digits always yields an id.
pub proof fn lemma_extracted_id_shape(s: Seq<char>)
    ensures
        extract_arxiv_id_spec(s) matches Some(id) ==> {
            &&& id.len() == 9 || id.len() == 10
            &&& id[4] == '.'
            &&& forall|k: int| 0 <= k < id.len() && k != 4 ==> is_digit(#[trigger] id[k])
            &&& contains_spec(s, id)
            &&& exists|p: int| #[trigger] occurs_at(s, id, p) && (id.len() == 9 ==> !(p + 9 < s.len() && is_digit(s[p + 9])))
                && ((exists|i: int| url_id_at(s, i)) ==> p >= 14 && url_id_at(s, p - 14))
        },
        (exists|i: int| #[trigger] four_dot_four_at(s, i))
            ==> extract_arxiv_id_spec(s) is Some,
{
    if exists|i: int| #[trigger] four_dot_four_at(s, i) {
        let i = choose|i: int| #[trigger] four_dot_four_at(s, i);
        assert(bare_id_at(s, i));
        lemma_first_bare_exists(s, i);
    }
    if extract_arxiv_id_spec(s) is Some {
        let id = extract_arxiv_id_spec(s).unwrap();
        let p = if exists|i: int| first_url_at(s, i) {
            let i = choose|i: int| first_url_at(s, i);
            i + 14
        } else {
            choose|i: int| first_bare_at(s, i)
        };
        let n = id_len_at(s, p);
        assert(n == 9 || n == 10);
        assert(id == s.subrange(p, p + n));
        assert forall|k: int| 0 <= k < id.len() && k != 4 implies is_digit(#[trigger] id[k]) by {
            assert(id[k] == s[p + k]);
            if k < 4 {
                assert(is_digit(s[p + k]));
            } else if k < 9 {
                assert(is_digit(s[p + k]));
            }
        }
        assert(id[4] == s[p + 4]);
        assert(occurs_at(s, id, p));
        if exists|i: int| url_id_at(s, i) {
            let i = choose|i: int| url_id_at(s, i);
            lemma_first_url_exists(s, i);
        }
    }
}

/// Author lists: none gives an empty line; up to five are all listed,
/// separated by commas; more than five list the first five and then
/// ` et al. (<count> authors)`.
pub proof fn lemma_author_line(authors: Seq<Seq<char>>)
    ensures
        authors.len() == 0 ==> format_authors_spec(authors) == Seq::<char>::empty(),
        0 < authors.len() <= 5 ==> format_authors_spec(authors) == join_comma(authors),
        authors.len() > 5 ==> format_authors_spec(authors) == join_comma(authors.take(5)) + " et al. ("@ + decimal_spec(
            authors.len(),
        ) + " authors)"@,
        authors.len() == 1 ==> format_authors_spec(authors) == authors[0],
        authors.len() >= 2 ==> join_comma(authors) == join_comma(authors.drop_last()) + ", "@ + authors.last(),
{
}


/// Formats an author list with "et al." for long lists.
pub fn format_authors(authors: &[String]) -> (r: String)
    ensures
        r@ == format_authors_spec(authors@.map_values(|a: String| a@)),
{
    let ghost names = authors@.map_values(|a: String| a@);
    let n = authors.len();
    if n == 0 {
        return String::new();
    }
    let k = if n < 5 { n } else { 5 };
    let mut s = String::new();
    let mut i: usize = 0;
    while i < k
        invariant
            names == authors@.map_values(|a: String| a@),
            n == authors@.len(),
            k <= n,
            k <= 5,
            i <= k,
            s@ == join_comma(names.take(i as int)),
        decreases k - i,
    {
        let ghost before = s@;
        if i > 0 {
            s.append(", ");
        }
        s.append(authors[i].as_str());
        proof {
            reveal_strlit(", ");
            let t = names.take(i as int + 1);
            assert(t.drop_last() =~= names.take(i as int));
            assert(t.last() == authors@[i as int]@);
            if i == 0 {
                assert(s@ =~= join_comma(t));
            } else {
                assert(s@ =~= join_comma(t));
            }
        }
        i = i + 1;
    }
    if n > 5 {
        s.append(" et al. (");
        let d = decimal(n);
        s.append(d.as_str());
        s.append(" authors)");
        proof {
            assert(names.take(5) =~= names.take(k as int));
        }
    } else {
        proof {
            assert(names.take(k as int) =~= names);
        }
    }
    s
}

/// Parsed arXiv paper metadata.
#[derive(Debug)]
pub struct ArxivMetadata {
    pub arxiv_id: String,
    pub title: String,
    pub authors: Vec<String>,
    pub abstract_text: String,
    pub categories: Vec<String>,
    pub published: String,
}

impl ArxivMetadata {
    /// The authors for display (with "et al." for long lists).
    pub fn authors_display(&self) -> (r: String)
        ensures
            r@ == format_authors_spec(self.authors@.map_values(|a: String| a@)),
    {
        format_authors(self.authors.as_slice())
    }
}

/// The domain tags of a paper: `research`, then the tag of each category
/// that has one, each tag once, in order of first appearance.
pub open spec fn research_tags_spec(cats: Seq<Seq<char>>) -> Seq<Seq<char>>
    decreases cats.len(),
{
    if cats.len() == 0 {
        seq!["research"@]
    } else {
        let acc = research_tags_spec(cats.drop_last());
        match category_tag_spec(cats.last()) {
            Some(tag) => if acc.contains(tag) {
                acc
            } else {
                acc.push(tag)
            },
            None => acc,
        }
    }
}

proof fn lemma_tag_not_research(c: Seq<char>)
    ensures
        category_tag_spec(c) != Some("research"@),
{
    reveal_strlit("artificial-intelligence");
    reveal_strlit("machine-learning");
    reveal_strlit("nlp");
    reveal_strlit("computer-vision");
    reveal_strlit("security");
    reveal_strlit("distributed-computing");
    reveal_strlit("software-engineering");
    reveal_strlit("optimization");
    reveal_strlit("research");
    assert("artificial-intelligence"@.len() != "research"@.len());
    assert("machine-learning"@.len() != "research"@.len());
    assert("nlp"@.len() != "research"@.len());
    assert("computer-vision"@.len() != "research"@.len());
    assert("security"@[0] != "research"@[0]);
    assert("distributed-computing"@.len() != "research"@.len());
    assert("software-engineering"@.len() != "research"@.len());
    assert("optimization"@.len() != "research"@.len());
}

/// A paper's tags: `research` first, then the tag of every category that
/// has one, each tag once; nothing else.
pub proof fn lemma_research_tags(cats: Seq<Seq<char>>)
    ensures
        research_tags_spec(cats).len() >= 1,
        research_tags_spec(cats)[0] == "research"@,
        research_tags_spec(cats).no_duplicates(),
        forall|i: int| 0 <= i < cats.len() ==> (category_tag_spec(#[trigger] cats[i]) matches Some(t)
            && research_tags_spec(cats).contains(t)) || category_tag_spec(cats[i]) is None,
        forall|j: int| 1 <= j < research_tags_spec(cats).len() ==> exists|i: int| 0 <= i < cats.len()
            && #[trigger] category_tag_spec(cats[i]) == Some(#[trigger] research_tags_spec(cats)[j]),
    decreases cats.len(),
{
    if cats.len() > 0 {
        let d = cats.drop_last();
        lemma_research_tags(d);
        let acc = research_tags_spec(d);
        let r = research_tags_spec(cats);
        lemma_tag_not_research(cats.last());
        assert forall|i: int| 0 <= i < cats.len() implies (category_tag_spec(#[trigger] cats[i]) matches Some(t)
            && r.contains(t)) || category_tag_spec(cats[i]) is None by {
            if i < cats.len() - 1 {
                assert(cats[i] == d[i]);
                if let Some(t) = category_tag_spec(d[i]) {
                    assert(acc.contains(t));
                    let j = choose|j: int| 0 <= j < acc.len() && acc[j] == t;
                    assert(r[j] == t);
                }
            } else {
                if let Some(t) = category_tag_spec(cats.last()) {
                    if !acc.contains(t) {
                        assert(r[r.len() - 1] == t);
                    }
                }
            }
        }
        assert forall|j: int| 1 <= j < r.len() implies exists|i: int| 0 <= i < cats.len()
            && #[trigger] category_tag_spec(cats[i]) == Some(#[trigger] r[j]) by {
            if j < acc.len() {
                assert(r[j] == acc[j]);
                let i = choose|i: int| 0 <= i < d.len() && #[trigger] category_tag_spec(d[i]) == Some(acc[j]);
                assert(cats[i] == d[i]);
            } else {
                assert(category_tag_spec(cats[cats.len() - 1]) == Some(r[j]));
            }
        }
    }
}

fn contains_text(v: &Vec<String>, s: &str) -> (b: bool)
    ensures
        b == v.deep_view().contains(s@),
{
    let mut i: usize = 0;
    while i < v.len()
        invariant
            i <= v@.len(),
            forall|k: int| 0 <= k < i ==> v.deep_view()[k] != s@,
        decreases v@.len() - i,
    {
        if str_eq(v[i].as_str(), s) {
            assert(v.deep_view()[i as int] == s@);
            return true;
        }
        i = i + 1;
    }
    false
}

/// The domain tags of a paper with the given categories.
pub fn research_tags(cats: &Vec<String>) -> (r: Vec<String>)
    ensures
        r.deep_view() == research_tags_spec(cats.deep_view()),
{
    let ghost cs = cats.deep_view();
    let mut tags: Vec<String> = Vec::new();
    tags.push(String::from_str("research"));
    assert(tags.deep_view() =~= research_tags_spec(cs.take(0)));
    let mut i: usize = 0;
    while i < cats.len()
        invariant
            cs == cats.deep_view(),
            i <= cs.len(),
            tags.deep_view() == research_tags_spec(cs.take(i as int)),
        decreases cs.len() - i,
    {
        assert(cs.take(i as int + 1).drop_last() =~= cs.take(i as int));
        assert(cs.take(i as int + 1).last() == cats@[i as int]@);
        match category_tag(cats[i].as_str()) {
            Some(tag) => {
                if !contains_text(&tags, tag) {
                    let ghost before = tags.deep_view();
                    tags.push(String::from_str(tag));
                    assert(tags.deep_view() =~= before.push(tag@));
                }
            },
            None => {},
        }
        i = i + 1;
    }
    assert(cs.take(i as int) =~= cs);
    tags
}

/// Processor for arXiv URLs: enriches an arXiv id with API metadata.
pub struct ArxivUrlProcessor;

/// `r` is the result for the paper `id` given its metadata (or `None` when
/// the metadata could not be fetched), at time `now`.
pub open spec fn arxiv_url_result(id: Seq<char>, meta: Option<ArxivMetadata>, now: Timestamp, r: ProcessorResult) -> bool {
    &&& r.source_url@ == "https://arxiv.org/abs/"@ + id
    &&& r.source_type@ == "arxiv-url"@
    &&& r.processor_version@ == "1.0.0"@
    &&& r.embedded_artifacts@.len() == 0
    &&& r.fetched_at == now
    &&& r.processed_at == now
    &&& r.metadata.wf()
    &&& meta_text_is(r.metadata@, "arxiv_id"@, id)
    &&& match meta {
        Some(m) => {
            let authors = format_authors_spec(m.authors@.map_values(|a: String| a@));
            &&& r.title@ == m.title@
            &&& r.content@ == "Title: "@ + m.title@ + "\nAuthors: "@ + authors + "\nAbstract: "@ + m.abstract_text@
            &&& r.domain_tags.deep_view() == research_tags_spec(m.categories.deep_view())
            &&& r.metadata@.dom() == set!["arxiv_id"@, "authors"@, "categories"@, "published"@]
            &&& meta_text_is(r.metadata@, "authors"@, authors)
            &&& meta_list_is(r.metadata@, "categories"@, m.categories.deep_view())
            &&& meta_text_is(r.metadata@, "published"@, m.published@)
        },
        None => {
            &&& r.title@ == "arXiv:"@ + id
            &&& r.content@ == "arXiv paper "@ + id + " (metadata fetch failed)"@
            &&& r.domain_tags.deep_view() == seq!["research"@]
            &&& r.metadata@.dom() == set!["arxiv_id"@, "api_fetch_failed"@]
            &&& meta_flag_is(r.metadata@, "api_fetch_failed"@, true)
        },
    }
}

impl ArxivUrlProcessor {
    pub fn new() -> (p: Self) {
        ArxivUrlProcessor
    }

    /// The processor's name.
    pub fn name(&self) -> (r: &'static str)
        ensures
            r@ == "arxiv-url"@,
    {
        "arxiv-url"
    }

    /// The processor's version.
    pub fn version(&self) -> (r: &'static str)
        ensures
            r@ == "1.0.0"@,
    {
        "1.0.0"
    }

    /// Whether the subject and body (joined by a space) hold an arXiv id.
    pub fn can_process(&self, artifact: &RawArtifact) -> (b: bool)
        ensures
            b == (extract_arxiv_id_spec(artifact.subject@ + seq![' '] + artifact.body@) is Some),
    {
        self.paper_id(artifact).is_some()
    }

    /// The arXiv id of the artifact: from `subject + " " + body`.
    pub fn paper_id(&self, artifact: &RawArtifact) -> (r: Option<String>)
        ensures
            match r {
                Some(id) => extract_arxiv_id_spec(artifact.subject@ + seq![' '] + artifact.body@) == Some(id@),
                None => extract_arxiv_id_spec(artifact.subject@ + seq![' '] + artifact.body@) is None,
            },
    {
        let mut combined = String::from_str(artifact.subject.as_str());
        push_char(&mut combined, ' ');
        combined.append(artifact.body.as_str());
        assert(combined@ =~= artifact.subject@ + seq![' '] + artifact.body@);
        extract_arxiv_id(combined.as_str())
    }

    /// Builds the result for an artifact from the metadata fetched for its
    /// paper (`None` when the fetch failed); `MissingField("arXiv ID")` when
    /// the artifact holds no arXiv id.
    pub fn process_with_metadata(&self, artifact: &RawArtifact, meta: Option<ArxivMetadata>, now: Timestamp) -> (r:
        Result<ProcessorResult, ProcessorError>)
        ensures
            match r {
                Ok(res) => extract_arxiv_id_spec(artifact.subject@ + seq![' '] + artifact.body@) matches Some(id)
                    && arxiv_url_result(id, meta, now, res),
                Err(e) => extract_arxiv_id_spec(artifact.subject@ + seq![' '] + artifact.body@) is None && (
                e matches ProcessorError::MissingField(f) && f@ == "arXiv ID"@),
            },
    {
        let id = match self.paper_id(artifact) {
            Some(id) => id,
            None => {
                return Err(ProcessorError::MissingField(String::from_str("arXiv ID")));
            },
        };
        let mut source_url = String::from_str("https://arxiv.org/abs/");
        source_url.append(id.as_str());
        proof {
            reveal_strlit("arxiv_id");
            reveal_strlit("authors");
            reveal_strlit("categories");
            reveal_strlit("published");
            reveal_strlit("api_fetch_failed");
            assert("arxiv_id"@.len() == 8);
            assert("authors"@.len() == 7);
            assert("categories"@.len() == 10);
            assert("published"@.len() == 9);
            assert("api_fetch_failed"@.len() == 16);
        }
        match meta {
            Some(m) => {
                let author_str = format_authors(m.authors.as_slice());
                let tags = research_tags(&m.categories);
                let mut content = String::from_str("Title: ");
                content.append(m.title.as_str());
                content.append("\nAuthors: ");
                content.append(author_str.as_str());
                content.append("\nAbstract: ");
                content.append(m.abstract_text.as_str());
                let mut metadata: StrMap<MetaValue> = StrMap::new();
                metadata.insert("arxiv_id", MetaValue::Text(id.clone()));
                metadata.insert("authors", MetaValue::Text(author_str));
                metadata.insert("categories", MetaValue::TextList(copy_strings(&m.categories)));
                metadata.insert("published", MetaValue::Text(m.published.clone()));
                assert(metadata@.dom() =~= set!["arxiv_id"@, "authors"@, "categories"@, "published"@]);
                Ok(
                    ProcessorResult {
                        title: m.title,
                        content,
                        source_url,
                        source_type: String::from_str("arxiv-url"),
                        processor_version: String::from_str("1.0.0"),
                        domain_tags: tags,
                        metadata,
                        embedded_artifacts: Vec::new(),
                        fetched_at: now,
                        processed_at: now,
                    },
                )
            },
            None => {
                let mut title = String::from_str("arXiv:");
                title.append(id.as_str());
                let mut content = String::from_str("arXiv paper ");
                content.append(id.as_str());
                content.append(" (metadata fetch failed)");
                let mut metadata: StrMap<MetaValue> = StrMap::new();
                metadata.insert("arxiv_id", MetaValue::Text(id.clone()));
                metadata.insert("api_fetch_failed", MetaValue::Flag(true));
                assert(metadata@.dom() =~= set!["arxiv_id"@, "api_fetch_failed"@]);
                let mut tags: Vec<String> = Vec::new();
                tags.push(String::from_str("research"));
                assert(tags.deep_view() =~= seq!["research"@]);
                Ok(
                    ProcessorResult {
                        title,
                        content,
                        source_url,
                        source_type: String::from_str("arxiv-url"),
                        processor_version: String::from_str("1.0.0"),
                        domain_tags: tags,
                        metadata,
                        embedded_artifacts: Vec::new(),
                        fetched_at: now,
                        processed_at: now,
                    },
                )
            },
        }
    }
}

} // verus!

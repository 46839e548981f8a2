//! X/Twitter post processor: author, engagement and links from the subject
//! line and body of a self-sent mail holding a post link.

use vstd::prelude::*;
use crate::astrolabe::arxiv::{id_len_at_exec, url_id_at};
use crate::astrolabe::scan::{
    ci_text_at, fold_lower, fold_lower_exec, ci_at, class_pred, exact_at, is_path_char, word_char, lemma_run_of_bounds, lit_at, run_len, run_of, Class,
};
use crate::astrolabe::processor::{
    meta_flag_is, meta_number_is, meta_text_is, EmbeddedLink, MetaValue, ProcessorError, ProcessorResult, RawArtifact,
};
use crate::events::schema::Timestamp;
use crate::strmap::StrMap;
use crate::text::{
    contains_spec, contains_str, decimal, decimal_spec, int_text, int_text_spec, join, join_spec, lowercase_spec, push_char,
    str_eq, string_of, to_chars, to_lowercase, trim, trim_spec,
};

verus! {

/// Processor for X/Twitter posts (subject-only extraction).
pub struct XPostProcessor;

impl XPostProcessor {
    pub fn new() -> (p: Self) {
        XPostProcessor
    }

    /// The processor's name.
    pub fn name(&self) -> (r: &'static str)
        ensures
            r@ == "x-post"@,
    {
        "x-post"
    }

    /// The processor's version.
    pub fn version(&self) -> (r: &'static str)
        ensures
            r@ == "1.0.0"@,
    {
        "1.0.0"
    }

    /// Whether `subject + " " + body` holds a post link.
    pub fn can_process(&self, artifact: &RawArtifact) -> (b: bool)
        ensures
            b == (tweet_match(artifact.subject@ + seq![' '] + artifact.body@) is Some),
    {
        let mut combined = String::from_str(artifact.subject.as_str());
        push_char(&mut combined, ' ');
        combined.append(artifact.body.as_str());
        assert(combined@ =~= artifact.subject@ + seq![' '] + artifact.body@);
        has_tweet_link(combined.as_str())
    }
}

/// Length of `https://` or `http://` (case ignored) at `i`, or 0.
pub open spec fn scheme_len_ci(s: Seq<char>, i: int) -> int {
    if ci_text_at(s, "https://"@, i) {
        8
    } else if ci_text_at(s, "http://"@, i) {
        7
    } else {
        0
    }
}

/// Length of the host `x.com` or `twitter.com` (case ignored) at `i`, or 0.
pub open spec fn host_len(s: Seq<char>, i: int) -> int {
    if ci_text_at(s, "x.com"@, i) {
        5
    } else if ci_text_at(s, "twitter.com"@, i) {
        11
    } else {
        0
    }
}

/// A post link `http(s)://(x|twitter).com/<handle>/status/<digits>` at `i`:
/// the start and length of the handle and of the post id.
pub open spec fn tweet_at(s: Seq<char>, i: int) -> Option<(int, int, int, int)> {
    let a = scheme_len_ci(s, i);
    let h = i + a;
    let hl = host_len(s, h);
    let u = h + hl + 1;
    let ul = run_of(s, u, class_pred(Class::Word));
    let d = u + ul + 8;
    let dl = run_of(s, d, class_pred(Class::Digit));
    if a > 0 && hl > 0 && h + hl < s.len() && s[h + hl] == '/' && ul > 0 && ci_text_at(s, "/status/"@, u + ul)
        && dl > 0 {
        Some((u, ul, d, dl))
    } else {
        None
    }
}

/// `i` is where the first post link of `s` starts.
pub open spec fn first_tweet_at(s: Seq<char>, i: int) -> bool {
    0 <= i && tweet_at(s, i) is Some && forall|j: int| 0 <= j < i ==> #[trigger] tweet_at(s, j) is None
}

/// The first post link of `s`, as (handle start, handle length, id start, id length).
pub open spec fn tweet_match(s: Seq<char>) -> Option<(int, int, int, int)> {
    if exists|i: int| first_tweet_at(s, i) {
        tweet_at(s, choose|i: int| first_tweet_at(s, i))
    } else {
        None
    }
}

proof fn lemma_first_tweet_unique(s: Seq<char>, a: int, b: int)
    requires
        first_tweet_at(s, a),
        first_tweet_at(s, b),
    ensures
        a == b,
{
    if a < b {
        assert(tweet_at(s, a) is None);
    } else if b < a {
        assert(tweet_at(s, b) is None);
    }
}

/// The post link at `i` of `v`, if one starts there.
fn tweet_at_exec(v: &Vec<char>, i: usize) -> (r: Option<(usize, usize, usize, usize)>)
    ensures
        match r {
            Some(t) => tweet_at(v@, i as int) == Some((t.0 as int, t.1 as int, t.2 as int, t.3 as int))
                && t.0 + t.1 <= v@.len() && t.2 + t.3 <= v@.len(),
            None => tweet_at(v@, i as int) is None,
        },
{
    proof {
        reveal_strlit("https://");
        reveal_strlit("http://");
        reveal_strlit("x.com");
        reveal_strlit("twitter.com");
        reveal_strlit("/status/");
    }
    let len = v.len();
    let a: usize = if ci_at(v, i, "https://") {
        8
    } else if ci_at(v, i, "http://") {
        7
    } else {
        0
    };
    if a == 0 {
        return None;
    }
    assert(i + a <= v@.len());
    let h = i + a;
    let hl: usize = if ci_at(v, h, "x.com") {
        5
    } else if ci_at(v, h, "twitter.com") {
        11
    } else {
        0
    };
    if hl == 0 {
        return None;
    }
    assert(h + hl <= v@.len());
    if h + hl >= v.len() || v[h + hl] != '/' {
        return None;
    }
    let u = h + hl + 1;
    let ul = run_len(v, u, Class::Word);
    if ul == 0 {
        return None;
    }
    if !ci_at(v, u + ul, "/status/") {
        return None;
    }
    let d = u + ul + 8;
    let dl = run_len(v, d, Class::Digit);
    if dl == 0 {
        return None;
    }
    Some((u, ul, d, dl))
}

/// Finds the first post link of `v`.
fn find_tweet(v: &Vec<char>) -> (r: Option<(usize, usize, usize, usize)>)
    ensures
        match r {
            Some(t) => tweet_match(v@) == Some((t.0 as int, t.1 as int, t.2 as int, t.3 as int))
                && t.0 + t.1 <= v@.len() && t.2 + t.3 <= v@.len(),
            None => tweet_match(v@) is None,
        },
{
    let mut i: usize = 0;
    while i < v.len()
        invariant
            i <= v@.len(),
            forall|j: int| 0 <= j < i ==> #[trigger] tweet_at(v@, j) is None,
        decreases v@.len() - i,
    {
        match tweet_at_exec(v, i) {
            Some(t) => {
                proof {
                    assert(first_tweet_at(v@, i as int));
                    let c = choose|c: int| first_tweet_at(v@, c);
                    lemma_first_tweet_unique(v@, i as int, c);
                }
                return Some(t);
            },
            None => {},
        }
        i = i + 1;
    }
    proof {
        assert forall|j: int| !first_tweet_at(v@, j) by {
            if 0 <= j && j >= v@.len() && tweet_at(v@, j) is Some {
                assert(ci_text_at(v@, "http://"@, j) || ci_text_at(v@, "https://"@, j));
                reveal_strlit("https://");
                reveal_strlit("http://");
            }
        }
    }
    None
}

/// Whether `text` holds a post link.
pub fn has_tweet_link(text: &str) -> (b: bool)
    ensures
        b == (tweet_match(text@) is Some),
{
    let v = to_chars(text);
    find_tweet(&v).is_some()
}

/// No line break in `s[a..b)`.
pub open spec fn no_newline(s: Seq<char>, a: int, b: int) -> bool {
    forall|k: int| a <= k < b ==> #[trigger] s[k] != '\n'
}

/// The subject `<name> (@<handle>) <rest>` with a name of `n` characters:
/// the start and length of the handle and the start of the rest.
pub open spec fn subject_at(s: Seq<char>, n: int) -> Option<(int, int, int)> {
    let w = run_of(s, n, class_pred(Class::Space));
    let p = n + w;
    let hs = p + 2;
    let hl = run_of(s, hs, class_pred(Class::Word));
    let q = hs + hl;
    let w2 = run_of(s, q + 1, class_pred(Class::Space));
    let r = q + 1 + w2;
    if 1 <= n <= s.len() && no_newline(s, 0, n) && w > 0 && p + 1 < s.len() && s[p] == '(' && s[p + 1] == '@'
        && hl > 0 && q < s.len() && s[q] == ')' && w2 > 0 && no_newline(s, r, s.len() as int) {
        Some((hs, hl, r))
    } else {
        None
    }
}

/// `n` is the shortest name with which the subject pattern matches.
pub open spec fn first_subject_at(s: Seq<char>, n: int) -> bool {
    subject_at(s, n) is Some && forall|m: int| 1 <= m < n ==> #[trigger] subject_at(s, m) is None
}

/// The parts of a subject `<name> (@<handle>) <rest>`: name length, handle
/// start and length, start of the rest.
pub open spec fn subject_match(s: Seq<char>) -> Option<(int, int, int, int)> {
    if exists|n: int| first_subject_at(s, n) {
        let n = choose|n: int| first_subject_at(s, n);
        let t = subject_at(s, n).unwrap();
        Some((n, t.0, t.1, t.2))
    } else {
        None
    }
}

fn no_newline_exec(v: &Vec<char>, a: usize, b: usize) -> (r: bool)
    requires
        a <= b <= v@.len(),
    ensures
        r == no_newline(v@, a as int, b as int),
{
    let mut k = a;
    while k < b
        invariant
            a <= k <= b <= v@.len(),
            no_newline(v@, a as int, k as int),
        decreases b - k,
    {
        if v[k] == '\n' {
            return false;
        }
        k = k + 1;
    }
    true
}

fn subject_at_exec(v: &Vec<char>, n: usize) -> (r: Option<(usize, usize, usize)>)
    ensures
        match r {
            Some(t) => subject_at(v@, n as int) == Some((t.0 as int, t.1 as int, t.2 as int)) && t.0 + t.1 <= v@.len()
                && t.2 <= v@.len(),
            None => subject_at(v@, n as int) is None,
        },
{
    if n < 1 || n > v.len() || !no_newline_exec(v, 0, n) {
        return None;
    }
    let w = run_len(v, n, Class::Space);
    if w == 0 {
        return None;
    }
    let p = n + w;
    if p >= v.len() || p + 1 >= v.len() || v[p] != '(' || v[p + 1] != '@' {
        return None;
    }
    let hs = p + 2;
    let hl = run_len(v, hs, Class::Word);
    if hl == 0 {
        return None;
    }
    let q = hs + hl;
    if q >= v.len() || v[q] != ')' {
        return None;
    }
    let w2 = run_len(v, q + 1, Class::Space);
    if w2 == 0 {
        return None;
    }
    let r = q + 1 + w2;
    assert(hs + hl <= v@.len());
    if !no_newline_exec(v, r, v.len()) {
        return None;
    }
    Some((hs, hl, r))
}

proof fn lemma_first_subject_unique(s: Seq<char>, a: int, b: int)
    requires
        first_subject_at(s, a),
        first_subject_at(s, b),
    ensures
        a == b,
{
    if a < b {
        assert(subject_at(s, a) is Some);
        assert(1 <= a);
    } else if b < a {
        assert(subject_at(s, b) is Some);
        assert(1 <= b);
    }
}

/// Matches the subject pattern: (name length, handle start, handle length, rest start).
fn match_subject(v: &Vec<char>) -> (r: Option<(usize, usize, usize, usize)>)
    ensures
        match r {
            Some(t) => subject_match(v@) == Some((t.0 as int, t.1 as int, t.2 as int, t.3 as int)) && t.0 <= v@.len()
                && t.1 + t.2 <= v@.len() && t.3 <= v@.len(),
            None => subject_match(v@) is None,
        },
{
    let mut k: usize = 0;
    while k < v.len()
        invariant
            k <= v@.len(),
            forall|m: int| 1 <= m < k + 1 ==> #[trigger] subject_at(v@, m) is None,
        decreases v@.len() - k,
    {
        let n = k + 1;
        match subject_at_exec(v, n) {
            Some(t) => {
                proof {
                    assert(first_subject_at(v@, n as int));
                    let c = choose|c: int| first_subject_at(v@, c);
                    lemma_first_subject_unique(v@, n as int, c);
                }
                return Some((n, t.0, t.1, t.2));
            },
            None => {},
        }
        k = k + 1;
    }
    proof {
        assert forall|m: int| !first_subject_at(v@, m) by {
            if subject_at(v@, m) is Some {
                assert(m <= v@.len());
            }
        }
    }
    None
}

/// An optional `s` (any case) at `j`: its length.
pub open spec fn opt_s(s: Seq<char>, j: int) -> int {
    if 0 <= j < s.len() && fold_lower(s[j]) == 's' {
        1
    } else {
        0
    }
}

/// The engagement word at `i` (`like`, `replie`, `repost`, `retweet` or
/// `bookmark` with an optional `s`, case ignored): the metric it
/// counts and its length.
pub open spec fn metric_at(s: Seq<char>, i: int) -> Option<(Seq<char>, int)> {
    if ci_text_at(s, "like"@, i) {
        Some(("likes"@, 4 + opt_s(s, i + 4)))
    } else if ci_text_at(s, "replie"@, i) {
        Some(("replies"@, 6 + opt_s(s, i + 6)))
    } else if ci_text_at(s, "repost"@, i) {
        Some(("reposts"@, 6 + opt_s(s, i + 6)))
    } else if ci_text_at(s, "retweet"@, i) {
        Some(("reposts"@, 7 + opt_s(s, i + 7)))
    } else if ci_text_at(s, "bookmark"@, i) {
        Some(("bookmarks"@, 8 + opt_s(s, i + 8)))
    } else {
        None
    }
}

/// A magnitude suffix `K`, `k`, `M` or `m` at `j`: its length.
pub open spec fn suffix_len(s: Seq<char>, j: int) -> int {
    if 0 <= j < s.len() && (s[j] == 'K' || s[j] == 'k' || s[j] == 'M' || s[j] == 'm') {
        1
    } else {
        0
    }
}

/// An engagement count `<number>[KkMm] <metric>` at `i`: the length of the
/// number, of its suffix, the metric, and the length of the whole count.
pub open spec fn term_at(s: Seq<char>, i: int) -> Option<(int, int, Seq<char>, int)> {
    let nl = run_of(s, i, class_pred(Class::NumChar));
    let kl = suffix_len(s, i + nl);
    let w = run_of(s, i + nl + kl, class_pred(Class::Space));
    let m = metric_at(s, i + nl + kl + w);
    if nl > 0 && w > 0 && m is Some {
        Some((nl, kl, m.unwrap().0, nl + kl + w + m.unwrap().1))
    } else {
        None
    }
}

/// `x` without its commas.
pub open spec fn without_commas(x: Seq<char>) -> Seq<char>
    decreases x.len(),
{
    if x.len() == 0 {
        Seq::empty()
    } else if x.last() == ',' {
        without_commas(x.drop_last())
    } else {
        without_commas(x.drop_last()).push(x.last())
    }
}

/// The factor a magnitude suffix stands for.
pub open spec fn multiplier_of(c: char) -> u32 {
    if c == 'K' || c == 'k' {
        1000
    } else if c == 'M' || c == 'm' {
        1000000
    } else {
        1
    }
}

/// Engagement counts: a `K`/`k` suffix multiplies by a thousand, `M`/`m`
/// by a million, no suffix by one; the words like(s), replies, repost(s),
/// retweet(s) and bookmark(s) count likes, replies, reposts (retweets count
/// as reposts) and bookmarks, and no other word is a metric.
pub proof fn lemma_engagement_words(s: Seq<char>, i: int, c: char)
    ensures
        (c == 'K' || c == 'k') ==> multiplier_of(c) == 1000,
        (c == 'M' || c == 'm') ==> multiplier_of(c) == 1000000,
        c != 'K' && c != 'k' && c != 'M' && c != 'm' ==> multiplier_of(c) == 1,
        ci_text_at(s, "like"@, i) ==> (metric_at(s, i) matches Some(m) && m.0 == "likes"@),
        !ci_text_at(s, "like"@, i) && ci_text_at(s, "replie"@, i) ==> (metric_at(s, i) matches Some(m) && m.0 == "replies"@),
        !ci_text_at(s, "like"@, i) && !ci_text_at(s, "replie"@, i) && (ci_text_at(s, "repost"@, i) || ci_text_at(
            s,
            "retweet"@,
            i,
        )) ==> (metric_at(s, i) matches Some(m) && m.0 == "reposts"@),
        !ci_text_at(s, "like"@, i) && !ci_text_at(s, "replie"@, i) && !ci_text_at(s, "repost"@, i) && !ci_text_at(
            s,
            "retweet"@,
            i,
        ) && ci_text_at(s, "bookmark"@, i) ==> (metric_at(s, i) matches Some(m) && m.0 == "bookmarks"@),
        !ci_text_at(s, "like"@, i) && !ci_text_at(s, "replie"@, i) && !ci_text_at(s, "repost"@, i) && !ci_text_at(
            s,
            "retweet"@,
            i,
        ) && !ci_text_at(s, "bookmark"@, i) ==> metric_at(s, i) is None,
        (suffix_len(s, i) == 1 <==> (0 <= i < s.len() && (s[i] == 'K' || s[i] == 'k' || s[i] == 'M' || s[i] == 'm'))),
{
}


/// The engagement counts of `s` from position `i` on, left to right and not
/// overlapping: (metric, number without commas or suffix, multiplier).
pub open spec fn terms_from(s: Seq<char>, i: int) -> Seq<(Seq<char>, Seq<char>, u32)>
    decreases s.len() - i,
{
    if i < 0 || i >= s.len() {
        Seq::empty()
    } else {
        let t = term_at(s, i);
        if t is Some && 0 < t.unwrap().3 && i + t.unwrap().3 <= s.len() {
            let (nl, kl, key, len) = t.unwrap();
            let mult = if kl == 1 { multiplier_of(s[i + nl]) } else { 1u32 };
            seq![(key, without_commas(s.subrange(i, i + nl)), mult)] + terms_from(s, i + len)
        } else {
            terms_from(s, i + 1)
        }
    }
}

/// The engagement counts in `s`.
pub open spec fn engagement_terms_spec(s: Seq<char>) -> Seq<(Seq<char>, Seq<char>, u32)> {
    terms_from(s, 0)
}

/// One engagement count found in text: the metric ("likes", "replies",
/// "reposts" or "bookmarks"), the number as written (commas and suffix
/// removed) and the factor of its suffix.
#[derive(Debug, Clone)]
pub struct EngagementTerm {
    pub key: String,
    pub number: String,
    pub multiplier: u32,
}

impl EngagementTerm {
    pub open spec fn view_triple(&self) -> (Seq<char>, Seq<char>, u32) {
        (self.key@, self.number@, self.multiplier)
    }
}

fn metric_at_exec(v: &Vec<char>, i: usize) -> (r: Option<(&'static str, usize)>)
    ensures
        match r {
            Some(m) => metric_at(v@, i as int) == Some((m.0@, m.1 as int)) && i + m.1 <= v@.len(),
            None => metric_at(v@, i as int) is None,
        },
{
    proof {
        reveal_strlit("like");
        reveal_strlit("replie");
        reveal_strlit("repost");
        reveal_strlit("retweet");
        reveal_strlit("bookmark");
    }
    let len = v.len();
    let (key, n): (&'static str, usize) = if ci_at(v, i, "like") {
        ("likes", 4)
    } else if ci_at(v, i, "replie") {
        ("replies", 6)
    } else if ci_at(v, i, "repost") {
        ("reposts", 6)
    } else if ci_at(v, i, "retweet") {
        ("reposts", 7)
    } else if ci_at(v, i, "bookmark") {
        ("bookmarks", 8)
    } else {
        return None;
    };
    assert(i + n <= len);
    let j = i + n;
    let extra: usize = if j < len && fold_lower_exec(v[j]) == 's' {
        1
    } else {
        0
    };
    assert(extra == opt_s(v@, j as int));
    Some((key, n + extra))
}

fn term_at_exec(v: &Vec<char>, i: usize) -> (r: Option<(usize, usize, &'static str, usize)>)
    ensures
        match r {
            Some(t) => term_at(v@, i as int) == Some((t.0 as int, t.1 as int, t.2@, t.3 as int)) && 0 < t.3
                && i + t.3 <= v@.len() && i + t.0 + t.1 <= v@.len() && (t.1 == 1 ==> i + t.0 < v@.len()),
            None => term_at(v@, i as int) is None,
        },
{
    let len = v.len();
    let nl = run_len(v, i, Class::NumChar);
    if nl == 0 {
        return None;
    }
    let j = i + nl;
    let kl: usize = if j < len && (v[j] == 'K' || v[j] == 'k' || v[j] == 'M' || v[j] == 'm') {
        1
    } else {
        0
    };
    let w = run_len(v, j + kl, Class::Space);
    if w == 0 {
        return None;
    }
    assert(j + kl + w <= len);
    match metric_at_exec(v, j + kl + w) {
        Some((key, ml)) => Some((nl, kl, key, nl + kl + w + ml)),
        None => None,
    }
}

fn without_commas_exec(v: &Vec<char>, from: usize, to: usize) -> (r: String)
    requires
        from <= to <= v@.len(),
    ensures
        r@ == without_commas(v@.subrange(from as int, to as int)),
{
    let mut r = String::new();
    let mut k = from;
    while k < to
        invariant
            from <= k <= to <= v@.len(),
            r@ == without_commas(v@.subrange(from as int, k as int)),
        decreases to - k,
    {
        let ghost x = v@.subrange(from as int, k as int + 1);
        assert(x.drop_last() =~= v@.subrange(from as int, k as int));
        if v[k] != ',' {
            push_char(&mut r, v[k]);
        }
        k = k + 1;
    }
    r
}

/// The engagement counts in `text`, in order.
pub fn engagement_terms(text: &str) -> (r: Vec<EngagementTerm>)
    ensures
        r@.len() == engagement_terms_spec(text@).len(),
        forall|k: int| 0 <= k < r@.len() ==> #[trigger] r@[k].view_triple() == engagement_terms_spec(text@)[k],
{
    let v = to_chars(text);
    let ghost s = v@;
    let mut acc: Vec<EngagementTerm> = Vec::new();
    let mut i: usize = 0;
    while i < v.len()
        invariant
            s == v@,
            s == text@,
            i <= v@.len(),
            acc@.map_values(|t: EngagementTerm| t.view_triple()) + terms_from(s, i as int) == terms_from(s, 0),
        decreases v@.len() - i,
    {
        let ghost before = acc@.map_values(|t: EngagementTerm| t.view_triple());
        match term_at_exec(&v, i) {
            Some((nl, kl, key, total)) => {
                proof {
                    lemma_run_of_bounds(s, i as int, class_pred(Class::NumChar));
                    lemma_run_of_bounds(s, i + nl + kl, class_pred(Class::Space));
                }
                let number = without_commas_exec(&v, i, i + nl);
                let mult: u32 = if kl == 1 {
                    let c = v[i + nl];
                    if c == 'K' || c == 'k' {
                        1000
                    } else if c == 'M' || c == 'm' {
                        1000000
                    } else {
                        1
                    }
                } else {
                    1
                };
                let term = EngagementTerm { key: String::from_str(key), number, multiplier: mult };
                acc.push(term);
                proof {
                    assert(acc@.map_values(|t: EngagementTerm| t.view_triple()) =~= before.push(
                        (key@, without_commas(s.subrange(i as int, i + nl)), mult),
                    ));
                }
                i = i + total;
            },
            None => {
                i = i + 1;
            },
        }
    }
    proof {
        assert(terms_from(s, i as int) =~= Seq::empty());
        assert(acc@.map_values(|t: EngagementTerm| t.view_triple()) =~= terms_from(s, 0));
    }
    acc
}

/// Length of a bare URL (`http://` or `https://` and then characters that
/// are neither white space nor `<>"'`) at `i`, or 0.
pub open spec fn url_len_at(s: Seq<char>, i: int) -> int {
    let a = if lit_at(s, "https://"@, i) {
        8int
    } else if lit_at(s, "http://"@, i) {
        7int
    } else {
        0int
    };
    let r = run_of(s, i + a, class_pred(Class::UrlChar));
    if a > 0 && r > 0 {
        a + r
    } else {
        0
    }
}

/// The bare URLs of `s` from position `i` on, left to right, not overlapping.
pub open spec fn urls_from(s: Seq<char>, i: int) -> Seq<Seq<char>>
    decreases s.len() - i,
{
    if i < 0 || i >= s.len() {
        Seq::empty()
    } else {
        let l = url_len_at(s, i);
        if 0 < l && i + l <= s.len() {
            seq![s.subrange(i, i + l)] + urls_from(s, i + l)
        } else {
            urls_from(s, i + 1)
        }
    }
}

/// The bare URLs of `s`, in order.
pub open spec fn urls_spec(s: Seq<char>) -> Seq<Seq<char>> {
    urls_from(s, 0)
}

fn url_len_at_exec(v: &Vec<char>, i: usize) -> (n: usize)
    ensures
        n == url_len_at(v@, i as int),
        n == 0 || i + n <= v@.len(),
{
    proof {
        reveal_strlit("https://");
        reveal_strlit("http://");
    }
    let len = v.len();
    let a: usize = if exact_at(v, i, "https://") {
        8
    } else if exact_at(v, i, "http://") {
        7
    } else {
        0
    };
    if a == 0 {
        return 0;
    }
    assert(i + a <= len);
    let r = run_len(v, i + a, Class::UrlChar);
    if r == 0 {
        0
    } else {
        a + r
    }
}

/// The bare URLs in `text`, in order.
pub fn find_urls(text: &str) -> (r: Vec<String>)
    ensures
        r.deep_view() == urls_spec(text@),
{
    let v = to_chars(text);
    let ghost s = v@;
    let mut acc: Vec<String> = Vec::new();
    let mut i: usize = 0;
    while i < v.len()
        invariant
            s == v@,
            s == text@,
            i <= v@.len(),
            acc.deep_view() + urls_from(s, i as int) == urls_from(s, 0),
        decreases v@.len() - i,
    {
        let ghost before = acc.deep_view();
        let l = url_len_at_exec(&v, i);
        if l > 0 {
            let u = string_of(&v, i, i + l);
            acc.push(u);
            proof {
                assert(acc.deep_view() =~= before.push(s.subrange(i as int, i + l)));
            }
            i = i + l;
        } else {
            i = i + 1;
        }
    }
    proof {
        assert(urls_from(s, i as int) =~= Seq::empty());
        assert(acc.deep_view() =~= urls_from(s, 0));
    }
    acc
}

/// A repository link `github.com/<owner>/<name>` (case ignored) at `i`.
pub open spec fn github_at(s: Seq<char>, i: int) -> bool {
    let r = run_of(s, i + 11, class_pred(Class::PathChar));
    ci_text_at(s, "github.com/"@, i) && r > 0 && i + 12 + r < s.len() && s[i + 11 + r] == '/' && is_path_char(
        s[i + 12 + r],
    )
}

/// The kind of a URL found in a post: an arXiv paper, a repository, an
/// article, a video, a media file, or another web page.
pub open spec fn classify_url_spec(u: Seq<char>) -> Seq<char> {
    if exists|i: int| url_id_at(u, i) {
        "arxiv_url"@
    } else if exists|i: int| github_at(u, i) {
        "reference"@
    } else if contains_spec(u, "medium.com"@) || contains_spec(u, "huggingface.co/blog"@) || contains_spec(
        u,
        "substack.com"@,
    ) {
        "web_article"@
    } else if contains_spec(u, "youtube.com"@) || contains_spec(u, "youtu.be"@) {
        "video"@
    } else if contains_spec(lowercase_spec(u), ".png"@) || contains_spec(lowercase_spec(u), ".jpg"@)
        || contains_spec(lowercase_spec(u), ".jpeg"@) || contains_spec(lowercase_spec(u), ".gif"@)
        || contains_spec(lowercase_spec(u), ".mp4"@) {
        "media"@
    } else {
        "web_url"@
    }
}

/// How a URL of a post is classified, by precedence: a link to an arXiv
/// abstract is `arxiv_url`; else a GitHub repository link is `reference`;
/// else a medium.com, huggingface.co/blog or substack.com address is
/// `web_article`; else a youtube.com or youtu.be address is `video`; else
/// one naming a .png, .jpg, .jpeg, .gif or .mp4 file (in any case) is
/// `media`; anything else is `web_url`.
pub proof fn lemma_classify_url(u: Seq<char>)
    ensures
        (exists|i: int| url_id_at(u, i)) ==> classify_url_spec(u) == "arxiv_url"@,
        !(exists|i: int| url_id_at(u, i)) && (exists|i: int| github_at(u, i)) ==> classify_url_spec(u) == "reference"@,
        ({
            let other = !(exists|i: int| url_id_at(u, i)) && !(exists|i: int| github_at(u, i));
            let article = contains_spec(u, "medium.com"@) || contains_spec(u, "huggingface.co/blog"@) || contains_spec(
                u,
                "substack.com"@,
            );
            let video = contains_spec(u, "youtube.com"@) || contains_spec(u, "youtu.be"@);
            let l = lowercase_spec(u);
            let media = contains_spec(l, ".png"@) || contains_spec(l, ".jpg"@) || contains_spec(l, ".jpeg"@)
                || contains_spec(l, ".gif"@) || contains_spec(l, ".mp4"@);
            &&& other && article ==> classify_url_spec(u) == "web_article"@
            &&& other && !article && video ==> classify_url_spec(u) == "video"@
            &&& other && !article && !video && media ==> classify_url_spec(u) == "media"@
            &&& other && !article && !video && !media ==> classify_url_spec(u) == "web_url"@
        }),
{
}


fn has_arxiv_link(v: &Vec<char>) -> (b: bool)
    ensures
        b == exists|i: int| url_id_at(v@, i),
{
    proof {
        reveal_strlit("arxiv.org/abs/");
    }
    let len = v.len();
    let mut i: usize = 0;
    while i < len
        invariant
            len == v@.len(),
            i <= len,
            forall|j: int| 0 <= j < i ==> !#[trigger] url_id_at(v@, j),
        decreases len - i,
    {
        if ci_at(v, i, "arxiv.org/abs/") {
            proof {
                reveal_strlit("arxiv.org/abs/");
            }
            assert(i + 14 <= len);
            if id_len_at_exec(v, i + 14) > 0 {
                assert(url_id_at(v@, i as int));
                return true;
            }
        }
        i = i + 1;
    }
    proof {
        assert forall|j: int| !url_id_at(v@, j) by {
            if url_id_at(v@, j) {
                assert(0 <= j && j + 14 <= v@.len());
            }
        }
    }
    false
}

fn has_github_link(v: &Vec<char>) -> (b: bool)
    ensures
        b == exists|i: int| github_at(v@, i),
{
    proof {
        reveal_strlit("github.com/");
    }
    let len = v.len();
    let mut i: usize = 0;
    while i < len
        invariant
            len == v@.len(),
            i <= len,
            forall|j: int| 0 <= j < i ==> !#[trigger] github_at(v@, j),
        decreases len - i,
    {
        if ci_at(v, i, "github.com/") {
            proof {
                reveal_strlit("github.com/");
            }
            assert(i + 11 <= len);
            let r = run_len(v, i + 11, Class::PathChar);
            if r > 0 && i + 11 + r < len && i + 12 + r < len && v[i + 11 + r] == '/' {
                let c = v[i + 12 + r];
                if word_char(c) || c == '.' || c == '-' {
                    assert(github_at(v@, i as int));
                    return true;
                }
            }
        }
        i = i + 1;
    }
    proof {
        assert forall|j: int| !github_at(v@, j) by {
            if github_at(v@, j) {
                assert(0 <= j && j + 11 <= v@.len());
            }
        }
    }
    false
}

/// Classifies a URL found in a post by the kind of thing it links to.
pub fn classify_url(url: &str) -> (r: &'static str)
    ensures
        r@ == classify_url_spec(url@),
{
    let v = to_chars(url);
    if has_arxiv_link(&v) {
        "arxiv_url"
    } else if has_github_link(&v) {
        "reference"
    } else if contains_str(url, "medium.com") || contains_str(url, "huggingface.co/blog") || contains_str(
        url,
        "substack.com",
    ) {
        "web_article"
    } else if contains_str(url, "youtube.com") || contains_str(url, "youtu.be") {
        "video"
    } else {
        let lower = to_lowercase(url);
        let l = lower.as_str();
        if contains_str(l, ".png") || contains_str(l, ".jpg") || contains_str(l, ".jpeg") || contains_str(l, ".gif")
            || contains_str(l, ".mp4") {
            "media"
        } else {
            "web_url"
        }
    }
}

/// The links worth following among the URLs of a post body: (url, kind),
/// leaving out post links and media files.
pub open spec fn embedded_spec(urls: Seq<Seq<char>>) -> Seq<(Seq<char>, Seq<char>)>
    decreases urls.len(),
{
    if urls.len() == 0 {
        Seq::empty()
    } else {
        let u = urls.last();
        let rest = embedded_spec(urls.drop_last());
        if tweet_match(u) is None && classify_url_spec(u) != "media"@ {
            rest.push((u, classify_url_spec(u)))
        } else {
            rest
        }
    }
}

impl EmbeddedLink {
    pub open spec fn view_tuple(&self) -> (Seq<char>, Seq<char>, Seq<char>, Seq<char>) {
        (self.url@, self.type_hint@, self.discovered_in@, self.discovered_from@)
    }
}

/// What a post mail yields before its engagement counts are converted to numbers.
pub struct XPostParts {
    pub tweet_id: String,
    /// `https://x.com/<handle>/status/<id>`, with the handle of the link.
    pub tweet_url: String,
    /// The trimmed author name from the subject, or empty.
    pub author_name: String,
    /// The handle from the subject, else the one of the link.
    pub author_handle: String,
    /// The subject text after the handle, where the engagement counts stand.
    pub engagement_text: Option<String>,
    pub embedded: Vec<EmbeddedLink>,
}

/// The post link of `combined`, as the canonical `https://x.com/...` URL.
pub open spec fn tweet_url_spec(combined: Seq<char>, t: (int, int, int, int)) -> Seq<char> {
    "https://x.com/"@ + combined.subrange(t.0, t.0 + t.1) + "/status/"@ + combined.subrange(t.2, t.2 + t.3)
}

/// `p` is what the subject and body of a post mail give, the post link
/// being `t` in `subject + " " + body`.
pub open spec fn parts_spec(subject: Seq<char>, body: Seq<char>, t: (int, int, int, int), p: XPostParts) -> bool {
    let combined = subject + seq![' '] + body;
    let url = tweet_url_spec(combined, t);
    let emb = embedded_spec(urls_spec(body));
    &&& p.tweet_id@ == combined.subrange(t.2, t.2 + t.3)
    &&& p.tweet_url@ == url
    &&& match subject_match(subject) {
        Some(m) => {
            &&& p.author_name@ == trim_spec(subject.take(m.0))
            &&& p.author_handle@ == subject.subrange(m.1, m.1 + m.2)
            &&& p.engagement_text matches Some(e) && e@ == subject.subrange(m.3, subject.len() as int)
        },
        None => {
            &&& p.author_name@ == Seq::<char>::empty()
            &&& p.author_handle@ == combined.subrange(t.0, t.0 + t.1)
            &&& p.engagement_text is None
        },
    }
    &&& p.embedded@.len() == emb.len()
    &&& forall|k: int| 0 <= k < emb.len() ==> #[trigger] p.embedded@[k].view_tuple() == (emb[k].0, emb[k].1, "x-post"@, url)
}

fn embedded_links(urls: &Vec<String>, from: &String) -> (r: Vec<EmbeddedLink>)
    ensures
        r@.len() == embedded_spec(urls.deep_view()).len(),
        forall|k: int| 0 <= k < r@.len() ==> #[trigger] r@[k].view_tuple() == (embedded_spec(urls.deep_view())[k].0,
            embedded_spec(urls.deep_view())[k].1, "x-post"@, from@),
{
    let ghost us = urls.deep_view();
    let mut acc: Vec<EmbeddedLink> = Vec::new();
    let mut i: usize = 0;
    while i < urls.len()
        invariant
            us == urls.deep_view(),
            i <= us.len(),
            acc@.len() == embedded_spec(us.take(i as int)).len(),
            forall|k: int| 0 <= k < acc@.len() ==> #[trigger] acc@[k].view_tuple() == (embedded_spec(us.take(i as int))[k].0,
                embedded_spec(us.take(i as int))[k].1, "x-post"@, from@),
        decreases us.len() - i,
    {
        let ghost pre = us.take(i as int);
        let ghost cur = us.take(i as int + 1);
        assert(cur.drop_last() =~= pre);
        assert(cur.last() == urls@[i as int]@);
        let u = urls[i].as_str();
        let is_post = has_tweet_link(u);
        let kind = classify_url(u);
        if !is_post && !str_eq(kind, "media") {
            let link = EmbeddedLink {
                url: String::from_str(u),
                type_hint: String::from_str(kind),
                discovered_in: String::from_str("x-post"),
                discovered_from: from.clone(),
            };
            acc.push(link);
        }
        i = i + 1;
    }
    assert(us.take(i as int) =~= us);
    acc
}

impl XPostProcessor {
    /// Reads a post mail: the first post link of `subject + " " + body`
    /// (else `MissingField("tweet URL")`), the author and engagement text
    /// from the subject `<name> (@<handle>) <counts>`, and the links of the body.
    pub fn parse(&self, artifact: &RawArtifact) -> (r: Result<XPostParts, ProcessorError>)
        ensures
            match r {
                Ok(p) => {
                    let combined = artifact.subject@ + seq![' '] + artifact.body@;
                    tweet_match(combined) matches Some(t) && parts_spec(artifact.subject@, artifact.body@, t, p)
                },
                Err(e) => tweet_match(artifact.subject@ + seq![' '] + artifact.body@) is None && (
                e matches ProcessorError::MissingField(f) && f@ == "tweet URL"@),
            },
    {
        let mut combined = String::from_str(artifact.subject.as_str());
        push_char(&mut combined, ' ');
        combined.append(artifact.body.as_str());
        assert(combined@ =~= artifact.subject@ + seq![' '] + artifact.body@);
        let cv = to_chars(combined.as_str());
        let t = match find_tweet(&cv) {
            Some(t) => t,
            None => {
                return Err(ProcessorError::MissingField(String::from_str("tweet URL")));
            },
        };
        proof {
            lemma_run_of_bounds(cv@, t.0 as int, class_pred(Class::Word));
            lemma_run_of_bounds(cv@, t.2 as int, class_pred(Class::Digit));
        }
        let handle_from_url = string_of(&cv, t.0, t.0 + t.1);
        let tweet_id = string_of(&cv, t.2, t.2 + t.3);
        let mut tweet_url = String::from_str("https://x.com/");
        tweet_url.append(handle_from_url.as_str());
        tweet_url.append("/status/");
        tweet_url.append(tweet_id.as_str());
        let sv = to_chars(artifact.subject.as_str());
        let (author_name, author_handle, engagement_text) = match match_subject(&sv) {
            Some((n, hs, hl, rest)) => {
                proof {
                    lemma_run_of_bounds(sv@, hs as int, class_pred(Class::Word));
                }
                let name = string_of(&sv, 0, n);
                (trim(name.as_str()), string_of(&sv, hs, hs + hl), Some(string_of(&sv, rest, sv.len())))
            },
            None => (String::new(), handle_from_url, None),
        };
        let urls = find_urls(artifact.body.as_str());
        let embedded = embedded_links(&urls, &tweet_url);
        let p = XPostParts { tweet_id, tweet_url, author_name, author_handle, engagement_text, embedded };
        proof {
            assert(sv@.subrange(0, 0) =~= sv@.take(0));
        }
        Ok(p)
    }
}

/// How the author is shown: the name, else `@handle`.
pub open spec fn display_spec(p: XPostParts) -> Seq<char> {
    if p.author_name@.len() > 0 {
        p.author_name@
    } else {
        "@"@ + p.author_handle@
    }
}

/// What the title says the post shares: a paper, a repository, a link, or nothing.
pub open spec fn topic_hint_spec(p: XPostParts) -> Seq<char> {
    if p.embedded@.len() == 0 {
        ""@
    } else if exists|k: int| 0 <= k < p.embedded@.len() && #[trigger] p.embedded@[k].type_hint@ == "arxiv_url"@ {
        " sharing paper"@
    } else if exists|k: int| 0 <= k < p.embedded@.len() && #[trigger] p.embedded@[k].type_hint@ == "reference"@ {
        " sharing repo"@
    } else {
        " sharing link"@
    }
}

/// One engagement count as shown: `<value> <metric>`.
pub open spec fn count_text(e: (Seq<char>, i64)) -> Seq<char> {
    int_text_spec(e.1 as int) + " "@ + e.0
}

/// One embedded link as listed: `  - [<kind>] <url>`.
pub open spec fn link_line(l: EmbeddedLink) -> Seq<char> {
    "  - ["@ + l.type_hint@ + "] "@ + l.url@
}

/// The lines of a post's content.
pub open spec fn x_post_lines(p: XPostParts, eng: Seq<(Seq<char>, i64)>) -> Seq<Seq<char>> {
    let d = display_spec(p);
    let head = seq!["X post by "@ + d + " (@"@ + p.author_handle@ + ")"@, "URL: "@ + p.tweet_url@];
    let e = if eng.len() > 0 {
        seq!["Engagement: "@ + join_spec(eng.map_values(|x: (Seq<char>, i64)| count_text(x)), ", "@)]
    } else {
        Seq::empty()
    };
    let links = if p.embedded@.len() > 0 {
        seq!["Embedded links: "@ + decimal_spec(p.embedded@.len())] + p.embedded@.map_values(|l: EmbeddedLink| link_line(l))
    } else {
        Seq::empty()
    };
    head + e + links + seq!["\n[Tweet text not yet fetched \u{2014} v1.0 subject-only extraction]"@]
}

/// The links kept from a post body are exactly its URLs that are not post
/// links and not media files, in order, each with its kind as
/// `classify_url_spec` gives it.
pub proof fn lemma_embedded_links(urls: Seq<Seq<char>>)
    ensures
        forall|k: int| 0 <= k < embedded_spec(urls).len() ==> {
            let e = #[trigger] embedded_spec(urls)[k];
            &&& urls.contains(e.0)
            &&& tweet_match(e.0) is None
            &&& e.1 == classify_url_spec(e.0)
            &&& e.1 != "media"@
        },
        forall|j: int| 0 <= j < urls.len() && tweet_match(#[trigger] urls[j]) is None && classify_url_spec(urls[j]) != "media"@
            ==> embedded_spec(urls).contains((urls[j], classify_url_spec(urls[j]))),
        embedded_spec(urls).len() <= urls.len(),
    decreases urls.len(),
{
    if urls.len() > 0 {
        let d = urls.drop_last();
        lemma_embedded_links(d);
        let rest = embedded_spec(d);
        let r = embedded_spec(urls);
        assert forall|k: int| 0 <= k < r.len() implies {
            let e = #[trigger] r[k];
            &&& urls.contains(e.0)
            &&& tweet_match(e.0) is None
            &&& e.1 == classify_url_spec(e.0)
            &&& e.1 != "media"@
        } by {
            if k < rest.len() {
                assert(r[k] == rest[k]);
                let e = rest[k];
                let j = choose|j: int| 0 <= j < d.len() && d[j] == e.0;
                assert(urls[j] == e.0);
            } else {
                assert(urls[urls.len() - 1] == urls.last());
            }
        }
        assert forall|j: int| 0 <= j < urls.len() && tweet_match(#[trigger] urls[j]) is None && classify_url_spec(urls[j])
            != "media"@ implies r.contains((urls[j], classify_url_spec(urls[j]))) by {
            if j < urls.len() - 1 {
                assert(urls[j] == d[j]);
                let x = (urls[j], classify_url_spec(urls[j]));
                assert(rest.contains(x));
                let t = choose|t: int| 0 <= t < rest.len() && rest[t] == x;
                assert(r[t] == x);
            } else {
                assert(r[r.len() - 1] == (urls[j], classify_url_spec(urls[j])));
            }
        }
    }
}

/// How a post is shown: by the author's name, else by `@` and the handle;
/// its title notes a shared paper before a shared repository before any
/// other shared link, and nothing without links; its content starts with
/// `X post by <author> (@<handle>)` and `URL: <post link>`.
pub proof fn lemma_post_display(p: XPostParts, eng: Seq<(Seq<char>, i64)>)
    ensures
        p.author_name@.len() > 0 ==> display_spec(p) == p.author_name@,
        p.author_name@.len() == 0 ==> display_spec(p) == "@"@ + p.author_handle@,
        p.embedded@.len() == 0 ==> topic_hint_spec(p) == ""@,
        (exists|k: int| 0 <= k < p.embedded@.len() && #[trigger] p.embedded@[k].type_hint@ == "arxiv_url"@)
            ==> topic_hint_spec(p) == " sharing paper"@,
        !(exists|k: int| 0 <= k < p.embedded@.len() && #[trigger] p.embedded@[k].type_hint@ == "arxiv_url"@) && (exists|k: int|
            0 <= k < p.embedded@.len() && #[trigger] p.embedded@[k].type_hint@ == "reference"@) ==> topic_hint_spec(p)
            == " sharing repo"@,
        p.embedded@.len() > 0 && !(exists|k: int| 0 <= k < p.embedded@.len() && #[trigger] p.embedded@[k].type_hint@
            == "arxiv_url"@) && !(exists|k: int| 0 <= k < p.embedded@.len() && #[trigger] p.embedded@[k].type_hint@
            == "reference"@) ==> topic_hint_spec(p) == " sharing link"@,
        x_post_lines(p, eng)[0] == "X post by "@ + display_spec(p) + " (@"@ + p.author_handle@ + ")"@,
        x_post_lines(p, eng)[1] == "URL: "@ + p.tweet_url@,
{
}


/// The engagement counts as (metric, value) pairs.
pub open spec fn counts_view(eng: Seq<(String, i64)>) -> Seq<(Seq<char>, i64)> {
    eng.map_values(|x: (String, i64)| (x.0@, x.1))
}

fn topic_hint(links: &Vec<EmbeddedLink>) -> (r: &'static str)
    ensures
        r@ == (if links@.len() == 0 {
            ""@
        } else if exists|k: int| 0 <= k < links@.len() && #[trigger] links@[k].type_hint@ == "arxiv_url"@ {
            " sharing paper"@
        } else if exists|k: int| 0 <= k < links@.len() && #[trigger] links@[k].type_hint@ == "reference"@ {
            " sharing repo"@
        } else {
            " sharing link"@
        }),
{
    if links.len() == 0 {
        return "";
    }
    let mut paper = false;
    let mut repo = false;
    let mut i: usize = 0;
    while i < links.len()
        invariant
            i <= links@.len(),
            paper == exists|k: int| 0 <= k < i && #[trigger] links@[k].type_hint@ == "arxiv_url"@,
            repo == exists|k: int| 0 <= k < i && #[trigger] links@[k].type_hint@ == "reference"@,
        decreases links@.len() - i,
    {
        if str_eq(links[i].type_hint.as_str(), "arxiv_url") {
            paper = true;
        }
        if str_eq(links[i].type_hint.as_str(), "reference") {
            repo = true;
        }
        i = i + 1;
    }
    if paper {
        " sharing paper"
    } else if repo {
        " sharing repo"
    } else {
        " sharing link"
    }
}

fn engagement_line(eng: &Vec<(String, i64)>) -> (r: String)
    ensures
        r@ == "Engagement: "@ + join_spec(counts_view(eng@).map_values(|x: (Seq<char>, i64)| count_text(x)), ", "@),
{
    let mut items: Vec<String> = Vec::new();
    let mut i: usize = 0;
    while i < eng.len()
        invariant
            i <= eng@.len(),
            items.deep_view() == counts_view(eng@).take(i as int).map_values(|x: (Seq<char>, i64)| count_text(x)),
        decreases eng@.len() - i,
    {
        let mut s = int_text(eng[i].1);
        s.append(" ");
        s.append(eng[i].0.as_str());
        let ghost before = items.deep_view();
        items.push(s);
        proof {
            assert(items.deep_view() =~= before.push(count_text(counts_view(eng@)[i as int])));
            assert(counts_view(eng@).take(i as int + 1).map_values(|x: (Seq<char>, i64)| count_text(x)) =~= before.push(
                count_text(counts_view(eng@)[i as int]),
            ));
        }
        i = i + 1;
    }
    assert(counts_view(eng@).take(i as int) =~= counts_view(eng@));
    let j = join(&items, ", ");
    let mut r = String::from_str("Engagement: ");
    r.append(j.as_str());
    r
}

fn display_of(p: &XPostParts) -> (r: String)
    ensures
        r@ == display_spec(*p),
{
    let mut display = String::new();
    if p.author_name.as_str().is_empty() {
        display.append("@");
        display.append(p.author_handle.as_str());
    } else {
        display.append(p.author_name.as_str());
    }
    proof {
        reveal_strlit("");
    }
    display
}

fn x_post_content(p: &XPostParts, display: &String, engagement: &Vec<(String, i64)>) -> (r: String)
    requires
        display@ == display_spec(*p),
    ensures
        r@ == join_spec(x_post_lines(*p, counts_view(engagement@)), "\n"@),
{
    let mut lines: Vec<String> = Vec::new();
    let mut l1 = String::from_str("X post by ");
    l1.append(display.as_str());
    l1.append(" (@");
    l1.append(p.author_handle.as_str());
    l1.append(")");
    lines.push(l1);
    let mut l2 = String::from_str("URL: ");
    l2.append(p.tweet_url.as_str());
    lines.push(l2);
    let ghost head = lines.deep_view();
    assert(head =~= seq!["X post by "@ + display_spec(*p) + " (@"@ + p.author_handle@ + ")"@, "URL: "@ + p.tweet_url@]);
    if engagement.len() > 0 {
        lines.push(engagement_line(engagement));
    }
    let ghost with_eng = lines.deep_view();
    let ghost e = if engagement@.len() > 0 {
        seq!["Engagement: "@ + join_spec(counts_view(engagement@).map_values(|x: (Seq<char>, i64)| count_text(x)), ", "@)]
    } else {
        Seq::<Seq<char>>::empty()
    };
    assert(with_eng =~= head + e);
    let n = p.embedded.len();
    if n > 0 {
        let mut l = String::from_str("Embedded links: ");
        let d = decimal(n);
        l.append(d.as_str());
        lines.push(l);
        let ghost base = lines.deep_view();
        let mut i: usize = 0;
        while i < n
            invariant
                n == p.embedded@.len(),
                i <= n,
                lines.deep_view() == base + p.embedded@.take(i as int).map_values(|x: EmbeddedLink| link_line(x)),
            decreases n - i,
        {
            let mut s = String::from_str("  - [");
            s.append(p.embedded[i].type_hint.as_str());
            s.append("] ");
            s.append(p.embedded[i].url.as_str());
            let ghost before = lines.deep_view();
            lines.push(s);
            proof {
                assert(lines.deep_view() =~= before.push(link_line(p.embedded@[i as int])));
                assert(p.embedded@.take(i as int + 1).map_values(|x: EmbeddedLink| link_line(x)) =~= p.embedded@.take(
                    i as int,
                ).map_values(|x: EmbeddedLink| link_line(x)).push(link_line(p.embedded@[i as int])));
            }
            i = i + 1;
        }
        assert(p.embedded@.take(n as int) =~= p.embedded@);
    }
    let ghost links = if p.embedded@.len() > 0 {
        seq!["Embedded links: "@ + decimal_spec(p.embedded@.len())] + p.embedded@.map_values(|l: EmbeddedLink| link_line(l))
    } else {
        Seq::<Seq<char>>::empty()
    };
    assert(lines.deep_view() =~= head + e + links);
    lines.push(String::from_str("\n[Tweet text not yet fetched \u{2014} v1.0 subject-only extraction]"));
    assert(lines.deep_view() =~= x_post_lines(*p, counts_view(engagement@)));
    join(&lines, "\n")
}

/// The metadata of a post result.
pub open spec fn x_post_metadata_spec(m: Map<Seq<char>, MetaValue>, p: XPostParts, engagement: Vec<(String, i64)>) -> bool {
    &&& m.dom() == set![
        "author_handle"@,
        "author_name"@,
        "tweet_id"@,
        "engagement"@,
        "has_embedded_links"@,
        "embedded_link_count"@,
    ]
    &&& meta_text_is(m, "author_handle"@, p.author_handle@)
    &&& meta_text_is(m, "author_name"@, p.author_name@)
    &&& meta_text_is(m, "tweet_id"@, p.tweet_id@)
    &&& m["engagement"@] == MetaValue::Counts(engagement)
    &&& meta_flag_is(m, "has_embedded_links"@, p.embedded@.len() > 0)
    &&& meta_number_is(m, "embedded_link_count"@, p.embedded@.len() as int)
}

fn x_post_metadata(p: &XPostParts, engagement: Vec<(String, i64)>) -> (r: StrMap<MetaValue>)
    ensures
        r.wf(),
        x_post_metadata_spec(r@, *p, engagement),
{
    let n = p.embedded.len();
    let mut metadata: StrMap<MetaValue> = StrMap::new();
    metadata.insert("author_handle", MetaValue::Text(p.author_handle.clone()));
    metadata.insert("author_name", MetaValue::Text(p.author_name.clone()));
    metadata.insert("tweet_id", MetaValue::Text(p.tweet_id.clone()));
    metadata.insert("engagement", MetaValue::Counts(engagement));
    metadata.insert("has_embedded_links", MetaValue::Flag(n > 0));
    metadata.insert("embedded_link_count", MetaValue::Number(n as u64));
    proof {
        reveal_strlit("author_handle");
        reveal_strlit("author_name");
        reveal_strlit("tweet_id");
        reveal_strlit("engagement");
        reveal_strlit("has_embedded_links");
        reveal_strlit("embedded_link_count");
        assert("author_handle"@.len() == 13);
        assert("author_name"@.len() == 11);
        assert("tweet_id"@.len() == 8);
        assert("engagement"@.len() == 10);
        assert("has_embedded_links"@.len() == 18);
        assert("embedded_link_count"@.len() == 19);
        assert(metadata@.dom() =~= set![
            "author_handle"@,
            "author_name"@,
            "tweet_id"@,
            "engagement"@,
            "has_embedded_links"@,
            "embedded_link_count"@,
        ]);
    }
    metadata
}

impl XPostProcessor {
    /// Builds the result of a post from its parts and its engagement counts
    /// (metric, value), in the order given.
    pub fn assemble(&self, p: XPostParts, engagement: Vec<(String, i64)>, now: Timestamp) -> (r: ProcessorResult)
        ensures
            r.title@ == display_spec(p) + topic_hint_spec(p),
            r.content@ == join_spec(x_post_lines(p, counts_view(engagement@)), "\n"@),
            r.source_url@ == p.tweet_url@,
            r.source_type@ == "x-post"@,
            r.processor_version@ == "1.0.0"@,
            r.domain_tags.deep_view() == seq!["social-signal"@, "curated"@],
            r.metadata.wf(),
            x_post_metadata_spec(r.metadata@, p, engagement),
            r.embedded_artifacts == p.embedded,
            r.fetched_at == now,
            r.processed_at == now,
    {
        let hint = topic_hint(&p.embedded);
        let display = display_of(&p);
        let mut title = display.clone();
        title.append(hint);
        let content = x_post_content(&p, &display, &engagement);
        let metadata = x_post_metadata(&p, engagement);
        let mut tags: Vec<String> = Vec::new();
        tags.push(String::from_str("social-signal"));
        tags.push(String::from_str("curated"));
        proof {
            assert(tags.deep_view() =~= seq!["social-signal"@, "curated"@]);
        }
        ProcessorResult {
            title,
            content,
            source_url: p.tweet_url,
            source_type: String::from_str("x-post"),
            processor_version: String::from_str("1.0.0"),
            domain_tags: tags,
            metadata,
            embedded_artifacts: p.embedded,
            fetched_at: now,
            processed_at: now,
        }
    }
}

} // verus!

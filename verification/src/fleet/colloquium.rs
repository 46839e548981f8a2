//! The colloquium daemon's text rules: which threads are colloquia, the
//! tags taken from text, what counts as a commitment, and the prompt a
//! voice is given.

use vstd::prelude::*;
use crate::astrolabe::scan::{ci_text_at, ci_at, is_word, word_char};
use crate::text::{char_is_alnum, is_alnum, 
    byte_len, contains_spec, contains_str, copy_strings, join, join_spec, lowercase_spec, split_whitespace, str_eq,
    string_of, to_chars, to_lowercase, truncatable, truncate, truncated, words_spec,
};

verus! {

/// Subject markers of colloquium threads.
pub open spec fn colloquium_markers() -> Seq<Seq<char>> {
    seq!["colloquium \u{2014}"@, "colloquium \u{2014}"@, "colloquium -"@, "inaugural colloquium"@]
}

/// A thread is a colloquium when its subject holds `colloquium —` (em
/// dash), `colloquium -` or `inaugural colloquium`.
pub proof fn lemma_colloquium_markers(subject: Seq<char>)
    ensures
        (exists|i: int| 0 <= i < 4 && contains_spec(subject, #[trigger] colloquium_markers()[i])) <==> (contains_spec(
            subject,
            "colloquium \u{2014}"@,
        ) || contains_spec(subject, "colloquium -"@) || contains_spec(subject, "inaugural colloquium"@)),
{
    if contains_spec(subject, "colloquium \u{2014}"@) {
        assert(contains_spec(subject, colloquium_markers()[0]));
    }
    if contains_spec(subject, "colloquium -"@) {
        assert(contains_spec(subject, colloquium_markers()[2]));
    }
    if contains_spec(subject, "inaugural colloquium"@) {
        assert(contains_spec(subject, colloquium_markers()[3]));
    }
}


/// Whether a thread subject marks a colloquium.
pub fn is_colloquium_subject(subject: &str) -> (b: bool)
    ensures
        b == exists|i: int| 0 <= i < 4 && contains_spec(subject@, #[trigger] colloquium_markers()[i]),
{
    let b = contains_str(subject, "colloquium \u{2014}") || contains_str(subject, "colloquium \u{2014}")
        || contains_str(subject, "colloquium -") || contains_str(subject, "inaugural colloquium");
    assert(b == exists|i: int| 0 <= i < 4 && contains_spec(subject@, #[trigger] colloquium_markers()[i])) by {
        if b {
            if contains_spec(subject@, "colloquium \u{2014}"@) {
                assert(contains_spec(subject@, colloquium_markers()[0]));
            } else if contains_spec(subject@, "colloquium -"@) {
                assert(contains_spec(subject@, colloquium_markers()[2]));
            } else {
                assert(contains_spec(subject@, colloquium_markers()[3]));
            }
        }
    }
    b
}

/// `s` without the characters at either end that are not alphanumeric.
pub open spec fn trim_non_alnum(s: Seq<char>) -> Seq<char>
    decreases s.len(),
{
    if s.len() > 0 && !is_alnum(s[0]) {
        trim_non_alnum(s.drop_first())
    } else if s.len() > 0 && !is_alnum(s.last()) {
        trim_non_alnum(s.drop_last())
    } else {
        s
    }
}

fn trim_non_alnum_exec(s: &str) -> (r: String)
    ensures
        r@ == trim_non_alnum(s@),
{
    let v = to_chars(s);
    let mut a: usize = 0;
    let mut b: usize = v.len();
    assert(v@.subrange(0, v@.len() as int) =~= v@);
    while a < b && !char_is_alnum(v[a])
        invariant
            a <= b <= v@.len(),
            b == v@.len(),
            trim_non_alnum(v@.subrange(a as int, b as int)) == trim_non_alnum(v@),
        decreases b - a,
    {
        assert(v@.subrange(a as int, b as int).drop_first() =~= v@.subrange(a + 1, b as int));
        a = a + 1;
    }
    while a < b && !char_is_alnum(v[b - 1])
        invariant
            a <= b <= v@.len(),
            a < b ==> is_alnum(v@[a as int]),
            trim_non_alnum(v@.subrange(a as int, b as int)) == trim_non_alnum(v@),
        decreases b - a,
    {
        assert(v@.subrange(a as int, b as int).drop_last() =~= v@.subrange(a as int, b - 1));
        assert(v@.subrange(a as int, b as int)[0] == v@[a as int]);
        a = a;
        b = b - 1;
    }
    let r = string_of(&v, a, b);
    proof {
        let t = v@.subrange(a as int, b as int);
        if a < b {
            assert(t[0] == v@[a as int]);
            assert(t.last() == v@[b - 1]);
        }
    }
    r
}

/// A tag made from a word: lower-cased, stripped of non-alphanumeric ends.
pub open spec fn tag_of(w: Seq<char>) -> Seq<char> {
    trim_non_alnum(lowercase_spec(w))
}

fn tag_of_exec(w: &str) -> (r: String)
    ensures
        r@ == tag_of(w@),
{
    let l = to_lowercase(w);
    trim_non_alnum_exec(l.as_str())
}

/// The words of a subject longer than three bytes, at most six of them.
pub open spec fn long_subject_words(words: Seq<Seq<char>>, n: int) -> Seq<Seq<char>>
    decreases words.len(),
{
    if words.len() == 0 || n <= 0 {
        Seq::empty()
    } else if byte_len(words[0]) > 3 {
        seq![words[0]] + long_subject_words(words.drop_first(), n - 1)
    } else {
        long_subject_words(words.drop_first(), n)
    }
}

/// The tags of a subject: the first six words longer than three bytes, made
/// tags, the empty ones dropped.
pub open spec fn subject_tags_spec(subject: Seq<char>) -> Seq<Seq<char>> {
    long_subject_words(words_spec(subject), 6).map_values(|w: Seq<char>| tag_of(w)).filter(|t: Seq<char>| t.len() > 0)
}

/// The tags of a thread subject.
pub fn extract_tags_from_subject(subject: &str) -> (r: Vec<String>)
    ensures
        r.deep_view() == subject_tags_spec(subject@),
{
    let words = split_whitespace(subject);
    let ghost ws = words.deep_view();
    let mut picked: Vec<String> = Vec::new();
    let mut i: usize = 0;
    let mut left: usize = 6;
    assert(ws.skip(0) =~= ws);
    while i < words.len() && left > 0
        invariant
            ws == words.deep_view(),
            i <= ws.len(),
            left <= 6,
            picked.deep_view() + long_subject_words(ws.skip(i as int), left as int) == long_subject_words(ws, 6),
        decreases ws.len() - i,
    {
        let ghost rest = ws.skip(i as int);
        assert(rest[0] == words@[i as int]@);
        assert(rest.drop_first() =~= ws.skip(i + 1));
        if words[i].as_str().len() > 3 {
            let ghost before = picked.deep_view();
            picked.push(words[i].clone());
            assert(picked.deep_view() =~= before.push(ws[i as int]));
            left = left - 1;
        }
        i = i + 1;
    }
    assert(long_subject_words(ws.skip(i as int), left as int) =~= Seq::<Seq<char>>::empty());
    assert(picked.deep_view() =~= long_subject_words(ws, 6));
    let ghost ps = picked.deep_view();
    let mut out: Vec<String> = Vec::new();
    let mut k: usize = 0;
    while k < picked.len()
        invariant
            ps == picked.deep_view(),
            k <= ps.len(),
            out.deep_view() == ps.take(k as int).map_values(|w: Seq<char>| tag_of(w)).filter(|t: Seq<char>| t.len() > 0),
        decreases ps.len() - k,
    {
        let t = tag_of_exec(picked[k].as_str());
        let ghost before = out.deep_view();
        assert(ps.take(k as int + 1).map_values(|w: Seq<char>| tag_of(w)) =~= ps.take(k as int).map_values(
            |w: Seq<char>| tag_of(w),
        ).push(tag_of(ps[k as int])));
        assert(ps[k as int] == picked@[k as int]@);
        proof {
            ps.take(k as int).map_values(|w: Seq<char>| tag_of(w)).lemma_filter_push(
                tag_of(ps[k as int]),
                |t: Seq<char>| t.len() > 0,
            );
        }
        if !t.as_str().is_empty() {
            out.push(t);
            assert(out.deep_view() =~= before.push(tag_of(ps[k as int])));
        }
        k = k + 1;
    }
    assert(ps.take(k as int) =~= ps);
    out
}

/// Words too common to be tags.
pub open spec fn stopwords() -> Seq<Seq<char>> {
    seq!["the"@, "and"@, "for"@, "with"@, "that"@, "this"@, "from"@, "into"@, "have"@, "been"@]
}

/// A word of at least five bytes whose lower-case form is no stop word.
pub open spec fn tag_word(w: Seq<char>) -> bool {
    byte_len(w) >= 5 && !stopwords().contains(lowercase_spec(w))
}

/// `s` without the elements equal to the one before them (what `Vec::dedup` keeps).
pub open spec fn dedup_spec(s: Seq<Seq<char>>) -> Seq<Seq<char>>
    decreases s.len(),
{
    if s.len() <= 1 {
        s
    } else if s.last() == s.drop_last().last() {
        dedup_spec(s.drop_last())
    } else {
        dedup_spec(s.drop_last()).push(s.last())
    }
}

/// The tags of a text: its words of at least five bytes that are not stop
/// words, made tags, the empty ones dropped, repeats in a row dropped, at most eight.
pub open spec fn text_tags_spec(text: Seq<char>) -> Seq<Seq<char>> {
    let t = dedup_spec(
        words_spec(text).filter(|w: Seq<char>| tag_word(w)).map_values(|w: Seq<char>| tag_of(w)).filter(
            |t: Seq<char>| t.len() > 0,
        ),
    );
    if t.len() > 8 { t.take(8) } else { t }
}

fn is_stopword(w: &str) -> (b: bool)
    ensures
        b == stopwords().contains(w@),
{
    let words = vec!["the", "and", "for", "with", "that", "this", "from", "into", "have", "been"];
    assert(words@.map_values(|x: &str| x@) =~= stopwords());
    let mut i: usize = 0;
    while i < words.len()
        invariant
            i <= words@.len(),
            words@.map_values(|x: &str| x@) == stopwords(),
            forall|j: int| 0 <= j < i ==> stopwords()[j] != w@,
        decreases words@.len() - i,
    {
        assert(stopwords()[i as int] == words@[i as int]@);
        if str_eq(words[i], w) {
            assert(stopwords()[i as int] == w@);
            return true;
        }
        i = i + 1;
    }
    false
}

/// The tags of a text (see `text_tags_spec`).
pub fn extract_tags(text: &str) -> (r: Vec<String>)
    ensures
        r.deep_view() == text_tags_spec(text@),
{
    let words = split_whitespace(text);
    let ghost ws = words.deep_view();
    let ghost kept = ws.filter(|w: Seq<char>| tag_word(w));
    let ghost tagged = kept.map_values(|w: Seq<char>| tag_of(w));
    let ghost tags = tagged.filter(|t: Seq<char>| t.len() > 0);
    let mut out: Vec<String> = Vec::new();
    let mut i: usize = 0;
    while i < words.len()
        invariant
            ws == words.deep_view(),
            i <= ws.len(),
            out.deep_view() == ws.take(i as int).filter(|w: Seq<char>| tag_word(w)).map_values(|w: Seq<char>| tag_of(w)).filter(
                |t: Seq<char>| t.len() > 0,
            ),
        decreases ws.len() - i,
    {
        let w = words[i].as_str();
        let ghost wv = ws[i as int];
        assert(wv == w@);
        let ghost pre = ws.take(i as int);
        assert(ws.take(i as int + 1) =~= pre.push(wv));
        proof {
            pre.lemma_filter_push(wv, |w: Seq<char>| tag_word(w));
        }
        let low = to_lowercase(w);
        if w.len() >= 5 && !is_stopword(low.as_str()) {
            let t = tag_of_exec(w);
            let ghost f = pre.filter(|w: Seq<char>| tag_word(w));
            assert(f.push(wv).map_values(|w: Seq<char>| tag_of(w)) =~= f.map_values(|w: Seq<char>| tag_of(w)).push(
                tag_of(wv),
            ));
            proof {
                f.map_values(|w: Seq<char>| tag_of(w)).lemma_filter_push(tag_of(wv), |t: Seq<char>| t.len() > 0);
            }
            if !t.as_str().is_empty() {
                let ghost before = out.deep_view();
                out.push(t);
                assert(out.deep_view() =~= before.push(tag_of(wv)));
            }
        }
        i = i + 1;
    }
    assert(ws.take(i as int) =~= ws);
    let ghost all = out.deep_view();
    let mut dd: Vec<String> = Vec::new();
    let mut k: usize = 0;
    while k < out.len()
        invariant
            all == out.deep_view(),
            k <= all.len(),
            dd.deep_view() == dedup_spec(all.take(k as int)),
            k > 0 ==> dd.deep_view().len() > 0 && dd.deep_view().last() == all[k - 1],
        decreases all.len() - k,
    {
        let ghost pre = all.take(k as int);
        let ghost cur = all.take(k as int + 1);
        assert(cur.drop_last() =~= pre);
        assert(cur.last() == all[k as int]);
        assert(all[k as int] == out@[k as int]@);
        if k == 0 || !str_eq(out[k].as_str(), out[k - 1].as_str()) {
            let ghost before = dd.deep_view();
            dd.push(out[k].clone());
            assert(dd.deep_view() =~= before.push(all[k as int]));
            proof {
                if k > 0 {
                    assert(all[k - 1] == out@[k - 1]@);
                    assert(pre.last() == all[k - 1]);
                }
            }
        } else {
            proof {
                assert(all[k - 1] == out@[k - 1]@);
                assert(pre.last() == all[k - 1]);
            }
        }
        proof {
            if k > 0 {
                assert(pre.len() > 0);
            }
        }
        k = k + 1;
    }
    assert(all.take(k as int) =~= all);
    if dd.len() > 8 {
        let mut r: Vec<String> = Vec::new();
        let mut j: usize = 0;
        while j < 8
            invariant
                j <= 8,
                dd@.len() > 8,
                r.deep_view() == dd.deep_view().take(j as int),
            decreases 8 - j,
        {
            let ghost before = r.deep_view();
            r.push(dd[j].clone());
            assert(r.deep_view() =~= before.push(dd@[j as int]@));
            assert(dd.deep_view().take(j as int + 1) =~= dd.deep_view().take(j as int).push(dd.deep_view()[j as int]));
            j = j + 1;
        }
        r
    } else {
        dd
    }
}

/// The phrases that commit the speaker to act (in lower case): `I will`,
/// `I commit`, `I volunteer`, `let me` with a build verb, `I'll` or `I will`
/// with a delivery verb, `I take` ownership or responsibility, and `I'll` or
/// `I will` have it, this or that ready, done or finished.
pub open spec fn commitment_phrases() -> Seq<Seq<char>> {
    seq![
        "i will"@,
        "i commit"@,
        "i volunteer"@,
        "let me handle"@,
        "let me build"@,
        "let me deploy"@,
        "let me implement"@,
        "let me fix"@,
        "let me create"@,
        "i'll build"@,
        "i'll deploy"@,
        "i'll implement"@,
        "i'll fix"@,
        "i'll create"@,
        "i'll write"@,
        "i'll deliver"@,
        "i'll ship"@,
        "i will build"@,
        "i will deploy"@,
        "i will implement"@,
        "i will fix"@,
        "i will create"@,
        "i will write"@,
        "i will deliver"@,
        "i will ship"@,
        "i take ownership"@,
        "i take responsibility"@,
        "i'll have it ready"@,
        "i'll have it done"@,
        "i'll have it finished"@,
        "i'll have this ready"@,
        "i'll have this done"@,
        "i'll have this finished"@,
        "i'll have that ready"@,
        "i'll have that done"@,
        "i'll have that finished"@,
        "i will have it ready"@,
        "i will have it done"@,
        "i will have it finished"@,
        "i will have this ready"@,
        "i will have this done"@,
        "i will have this finished"@,
        "i will have that ready"@,
        "i will have that done"@,
        "i will have that finished"@,
    ]
}

/// Phrase `p` (lower case) stands at `i` of `s` as whole words, case ignored.
pub open spec fn phrase_at(s: Seq<char>, p: Seq<char>, i: int) -> bool {
    &&& ci_text_at(s, p, i)
    &&& (i == 0 || !is_word(s[i - 1]))
    &&& (i + p.len() == s.len() || !is_word(s[i + p.len()]))
}

/// Whether a text holds a commitment phrase.
pub open spec fn commitment_spec(s: Seq<char>) -> bool {
    exists|k: int, i: int| 0 <= k < commitment_phrases().len() && #[trigger] phrase_at(s, commitment_phrases()[k], i)
}

/// `p` stands somewhere in `s` as whole words, case ignored.
pub open spec fn says(s: Seq<char>, p: Seq<char>) -> bool {
    exists|i: int| phrase_at(s, p, i)
}

/// A response commits its author exactly when it says, as whole words and
/// in any case, one of: I will, I commit, I volunteer; let me handle,
/// build, deploy, implement, fix or create; I'll or I will build, deploy,
/// implement, fix, create, write, deliver or ship; I take ownership or
/// responsibility; I'll or I will have it, this or that ready, done or
/// finished.
pub proof fn lemma_commitment_phrases(s: Seq<char>)
    ensures
        commitment_spec(s) <==> (says(s, "i will"@)
            || says(s, "i commit"@)
            || says(s, "i volunteer"@)
            || says(s, "let me handle"@)
            || says(s, "let me build"@)
            || says(s, "let me deploy"@)
            || says(s, "let me implement"@)
            || says(s, "let me fix"@)
            || says(s, "let me create"@)
            || says(s, "i'll build"@)
            || says(s, "i'll deploy"@)
            || says(s, "i'll implement"@)
            || says(s, "i'll fix"@)
            || says(s, "i'll create"@)
            || says(s, "i'll write"@)
            || says(s, "i'll deliver"@)
            || says(s, "i'll ship"@)
            || says(s, "i will build"@)
            || says(s, "i will deploy"@)
            || says(s, "i will implement"@)
            || says(s, "i will fix"@)
            || says(s, "i will create"@)
            || says(s, "i will write"@)
            || says(s, "i will deliver"@)
            || says(s, "i will ship"@)
            || says(s, "i take ownership"@)
            || says(s, "i take responsibility"@)
            || says(s, "i'll have it ready"@)
            || says(s, "i'll have it done"@)
            || says(s, "i'll have it finished"@)
            || says(s, "i'll have this ready"@)
            || says(s, "i'll have this done"@)
            || says(s, "i'll have this finished"@)
            || says(s, "i'll have that ready"@)
            || says(s, "i'll have that done"@)
            || says(s, "i'll have that finished"@)
            || says(s, "i will have it ready"@)
            || says(s, "i will have it done"@)
            || says(s, "i will have it finished"@)
            || says(s, "i will have this ready"@)
            || says(s, "i will have this done"@)
            || says(s, "i will have this finished"@)
            || says(s, "i will have that ready"@)
            || says(s, "i will have that done"@)
            || says(s, "i will have that finished"@)),
{
    if says(s, "i will"@) {
        let i = choose|i: int| phrase_at(s, "i will"@, i);
        assert(commitment_phrases()[0] == "i will"@);
        assert(phrase_at(s, commitment_phrases()[0], i));
    }
    if says(s, "i commit"@) {
        let i = choose|i: int| phrase_at(s, "i commit"@, i);
        assert(commitment_phrases()[1] == "i commit"@);
        assert(phrase_at(s, commitment_phrases()[1], i));
    }
    if says(s, "i volunteer"@) {
        let i = choose|i: int| phrase_at(s, "i volunteer"@, i);
        assert(commitment_phrases()[2] == "i volunteer"@);
        assert(phrase_at(s, commitment_phrases()[2], i));
    }
    if says(s, "let me handle"@) {
        let i = choose|i: int| phrase_at(s, "let me handle"@, i);
        assert(commitment_phrases()[3] == "let me handle"@);
        assert(phrase_at(s, commitment_phrases()[3], i));
    }
    if says(s, "let me build"@) {
        let i = choose|i: int| phrase_at(s, "let me build"@, i);
        assert(commitment_phrases()[4] == "let me build"@);
        assert(phrase_at(s, commitment_phrases()[4], i));
    }
    if says(s, "let me deploy"@) {
        let i = choose|i: int| phrase_at(s, "let me deploy"@, i);
        assert(commitment_phrases()[5] == "let me deploy"@);
        assert(phrase_at(s, commitment_phrases()[5], i));
    }
    if says(s, "let me implement"@) {
        let i = choose|i: int| phrase_at(s, "let me implement"@, i);
        assert(commitment_phrases()[6] == "let me implement"@);
        assert(phrase_at(s, commitment_phrases()[6], i));
    }
    if says(s, "let me fix"@) {
        let i = choose|i: int| phrase_at(s, "let me fix"@, i);
        assert(commitment_phrases()[7] == "let me fix"@);
        assert(phrase_at(s, commitment_phrases()[7], i));
    }
    if says(s, "let me create"@) {
        let i = choose|i: int| phrase_at(s, "let me create"@, i);
        assert(commitment_phrases()[8] == "let me create"@);
        assert(phrase_at(s, commitment_phrases()[8], i));
    }
    if says(s, "i'll build"@) {
        let i = choose|i: int| phrase_at(s, "i'll build"@, i);
        assert(commitment_phrases()[9] == "i'll build"@);
        assert(phrase_at(s, commitment_phrases()[9], i));
    }
    if says(s, "i'll deploy"@) {
        let i = choose|i: int| phrase_at(s, "i'll deploy"@, i);
        assert(commitment_phrases()[10] == "i'll deploy"@);
        assert(phrase_at(s, commitment_phrases()[10], i));
    }
    if says(s, "i'll implement"@) {
        let i = choose|i: int| phrase_at(s, "i'll implement"@, i);
        assert(commitment_phrases()[11] == "i'll implement"@);
        assert(phrase_at(s, commitment_phrases()[11], i));
    }
    if says(s, "i'll fix"@) {
        let i = choose|i: int| phrase_at(s, "i'll fix"@, i);
        assert(commitment_phrases()[12] == "i'll fix"@);
        assert(phrase_at(s, commitment_phrases()[12], i));
    }
    if says(s, "i'll create"@) {
        let i = choose|i: int| phrase_at(s, "i'll create"@, i);
        assert(commitment_phrases()[13] == "i'll create"@);
        assert(phrase_at(s, commitment_phrases()[13], i));
    }
    if says(s, "i'll write"@) {
        let i = choose|i: int| phrase_at(s, "i'll write"@, i);
        assert(commitment_phrases()[14] == "i'll write"@);
        assert(phrase_at(s, commitment_phrases()[14], i));
    }
    if says(s, "i'll deliver"@) {
        let i = choose|i: int| phrase_at(s, "i'll deliver"@, i);
        assert(commitment_phrases()[15] == "i'll deliver"@);
        assert(phrase_at(s, commitment_phrases()[15], i));
    }
    if says(s, "i'll ship"@) {
        let i = choose|i: int| phrase_at(s, "i'll ship"@, i);
        assert(commitment_phrases()[16] == "i'll ship"@);
        assert(phrase_at(s, commitment_phrases()[16], i));
    }
    if says(s, "i will build"@) {
        let i = choose|i: int| phrase_at(s, "i will build"@, i);
        assert(commitment_phrases()[17] == "i will build"@);
        assert(phrase_at(s, commitment_phrases()[17], i));
    }
    if says(s, "i will deploy"@) {
        let i = choose|i: int| phrase_at(s, "i will deploy"@, i);
        assert(commitment_phrases()[18] == "i will deploy"@);
        assert(phrase_at(s, commitment_phrases()[18], i));
    }
    if says(s, "i will implement"@) {
        let i = choose|i: int| phrase_at(s, "i will implement"@, i);
        assert(commitment_phrases()[19] == "i will implement"@);
        assert(phrase_at(s, commitment_phrases()[19], i));
    }
    if says(s, "i will fix"@) {
        let i = choose|i: int| phrase_at(s, "i will fix"@, i);
        assert(commitment_phrases()[20] == "i will fix"@);
        assert(phrase_at(s, commitment_phrases()[20], i));
    }
    if says(s, "i will create"@) {
        let i = choose|i: int| phrase_at(s, "i will create"@, i);
        assert(commitment_phrases()[21] == "i will create"@);
        assert(phrase_at(s, commitment_phrases()[21], i));
    }
    if says(s, "i will write"@) {
        let i = choose|i: int| phrase_at(s, "i will write"@, i);
        assert(commitment_phrases()[22] == "i will write"@);
        assert(phrase_at(s, commitment_phrases()[22], i));
    }
    if says(s, "i will deliver"@) {
        let i = choose|i: int| phrase_at(s, "i will deliver"@, i);
        assert(commitment_phrases()[23] == "i will deliver"@);
        assert(phrase_at(s, commitment_phrases()[23], i));
    }
    if says(s, "i will ship"@) {
        let i = choose|i: int| phrase_at(s, "i will ship"@, i);
        assert(commitment_phrases()[24] == "i will ship"@);
        assert(phrase_at(s, commitment_phrases()[24], i));
    }
    if says(s, "i take ownership"@) {
        let i = choose|i: int| phrase_at(s, "i take ownership"@, i);
        assert(commitment_phrases()[25] == "i take ownership"@);
        assert(phrase_at(s, commitment_phrases()[25], i));
    }
    if says(s, "i take responsibility"@) {
        let i = choose|i: int| phrase_at(s, "i take responsibility"@, i);
        assert(commitment_phrases()[26] == "i take responsibility"@);
        assert(phrase_at(s, commitment_phrases()[26], i));
    }
    if says(s, "i'll have it ready"@) {
        let i = choose|i: int| phrase_at(s, "i'll have it ready"@, i);
        assert(commitment_phrases()[27] == "i'll have it ready"@);
        assert(phrase_at(s, commitment_phrases()[27], i));
    }
    if says(s, "i'll have it done"@) {
        let i = choose|i: int| phrase_at(s, "i'll have it done"@, i);
        assert(commitment_phrases()[28] == "i'll have it done"@);
        assert(phrase_at(s, commitment_phrases()[28], i));
    }
    if says(s, "i'll have it finished"@) {
        let i = choose|i: int| phrase_at(s, "i'll have it finished"@, i);
        assert(commitment_phrases()[29] == "i'll have it finished"@);
        assert(phrase_at(s, commitment_phrases()[29], i));
    }
    if says(s, "i'll have this ready"@) {
        let i = choose|i: int| phrase_at(s, "i'll have this ready"@, i);
        assert(commitment_phrases()[30] == "i'll have this ready"@);
        assert(phrase_at(s, commitment_phrases()[30], i));
    }
    if says(s, "i'll have this done"@) {
        let i = choose|i: int| phrase_at(s, "i'll have this done"@, i);
        assert(commitment_phrases()[31] == "i'll have this done"@);
        assert(phrase_at(s, commitment_phrases()[31], i));
    }
    if says(s, "i'll have this finished"@) {
        let i = choose|i: int| phrase_at(s, "i'll have this finished"@, i);
        assert(commitment_phrases()[32] == "i'll have this finished"@);
        assert(phrase_at(s, commitment_phrases()[32], i));
    }
    if says(s, "i'll have that ready"@) {
        let i = choose|i: int| phrase_at(s, "i'll have that ready"@, i);
        assert(commitment_phrases()[33] == "i'll have that ready"@);
        assert(phrase_at(s, commitment_phrases()[33], i));
    }
    if says(s, "i'll have that done"@) {
        let i = choose|i: int| phrase_at(s, "i'll have that done"@, i);
        assert(commitment_phrases()[34] == "i'll have that done"@);
        assert(phrase_at(s, commitment_phrases()[34], i));
    }
    if says(s, "i'll have that finished"@) {
        let i = choose|i: int| phrase_at(s, "i'll have that finished"@, i);
        assert(commitment_phrases()[35] == "i'll have that finished"@);
        assert(phrase_at(s, commitment_phrases()[35], i));
    }
    if says(s, "i will have it ready"@) {
        let i = choose|i: int| phrase_at(s, "i will have it ready"@, i);
        assert(commitment_phrases()[36] == "i will have it ready"@);
        assert(phrase_at(s, commitment_phrases()[36], i));
    }
    if says(s, "i will have it done"@) {
        let i = choose|i: int| phrase_at(s, "i will have it done"@, i);
        assert(commitment_phrases()[37] == "i will have it done"@);
        assert(phrase_at(s, commitment_phrases()[37], i));
    }
    if says(s, "i will have it finished"@) {
        let i = choose|i: int| phrase_at(s, "i will have it finished"@, i);
        assert(commitment_phrases()[38] == "i will have it finished"@);
        assert(phrase_at(s, commitment_phrases()[38], i));
    }
    if says(s, "i will have this ready"@) {
        let i = choose|i: int| phrase_at(s, "i will have this ready"@, i);
        assert(commitment_phrases()[39] == "i will have this ready"@);
        assert(phrase_at(s, commitment_phrases()[39], i));
    }
    if says(s, "i will have this done"@) {
        let i = choose|i: int| phrase_at(s, "i will have this done"@, i);
        assert(commitment_phrases()[40] == "i will have this done"@);
        assert(phrase_at(s, commitment_phrases()[40], i));
    }
    if says(s, "i will have this finished"@) {
        let i = choose|i: int| phrase_at(s, "i will have this finished"@, i);
        assert(commitment_phrases()[41] == "i will have this finished"@);
        assert(phrase_at(s, commitment_phrases()[41], i));
    }
    if says(s, "i will have that ready"@) {
        let i = choose|i: int| phrase_at(s, "i will have that ready"@, i);
        assert(commitment_phrases()[42] == "i will have that ready"@);
        assert(phrase_at(s, commitment_phrases()[42], i));
    }
    if says(s, "i will have that done"@) {
        let i = choose|i: int| phrase_at(s, "i will have that done"@, i);
        assert(commitment_phrases()[43] == "i will have that done"@);
        assert(phrase_at(s, commitment_phrases()[43], i));
    }
    if says(s, "i will have that finished"@) {
        let i = choose|i: int| phrase_at(s, "i will have that finished"@, i);
        assert(commitment_phrases()[44] == "i will have that finished"@);
        assert(phrase_at(s, commitment_phrases()[44], i));
    }
    if commitment_spec(s) {
        let (k, i) = choose|k: int, i: int| 0 <= k < commitment_phrases().len() && #[trigger] phrase_at(s, commitment_phrases()[k], i);
        assert(phrase_at(s, commitment_phrases()[k], i));
    }
}

pub(crate) fn phrase_somewhere(v: &Vec<char>, p: &str) -> (b: bool)
    ensures
        b == exists|i: int| #[trigger] phrase_at(v@, p@, i),
{
    let pv = to_chars(p);
    let n = v.len();
    let m = pv.len();
    let mut i: usize = 0;
    while i < n
        invariant
            n == v@.len(),
            m == p@.len(),
            pv@ == p@,
            i <= n,
            forall|j: int| 0 <= j < i ==> !#[trigger] phrase_at(v@, p@, j),
        decreases n - i,
    {
        if m <= n - i && ci_at(v, i, p) && (i == 0 || !word_char(v[i - 1])) && (m == n - i || !word_char(
            v[i + m],
        )) {
            assert(phrase_at(v@, p@, i as int));
            return true;
        }
        i = i + 1;
    }
    if m == 0 && (n == 0 || !word_char(v[n - 1])) {
        assert(phrase_at(v@, p@, n as int));
        return true;
    }
    assert forall|j: int| !#[trigger] phrase_at(v@, p@, j) by {
        if phrase_at(v@, p@, j) {
            assert(j + m <= n);
        }
    }
    false
}

/// Whether a response commits its author to act (see `commitment_spec`).
pub fn detect_commitment(text: &str) -> (b: bool)
    ensures
        b == commitment_spec(text@),
{
    let v = to_chars(text);
    let phrases = vec![
        "i will",
        "i commit",
        "i volunteer",
        "let me handle",
        "let me build",
        "let me deploy",
        "let me implement",
        "let me fix",
        "let me create",
        "i'll build",
        "i'll deploy",
        "i'll implement",
        "i'll fix",
        "i'll create",
        "i'll write",
        "i'll deliver",
        "i'll ship",
        "i will build",
        "i will deploy",
        "i will implement",
        "i will fix",
        "i will create",
        "i will write",
        "i will deliver",
        "i will ship",
        "i take ownership",
        "i take responsibility",
        "i'll have it ready",
        "i'll have it done",
        "i'll have it finished",
        "i'll have this ready",
        "i'll have this done",
        "i'll have this finished",
        "i'll have that ready",
        "i'll have that done",
        "i'll have that finished",
        "i will have it ready",
        "i will have it done",
        "i will have it finished",
        "i will have this ready",
        "i will have this done",
        "i will have this finished",
        "i will have that ready",
        "i will have that done",
        "i will have that finished",
    ];
    assert(phrases@.map_values(|x: &str| x@) =~= commitment_phrases());
    let mut k: usize = 0;
    while k < phrases.len()
        invariant
            v@ == text@,
            k <= phrases@.len(),
            phrases@.map_values(|x: &str| x@) == commitment_phrases(),
            forall|j: int, i: int| 0 <= j < k ==> !#[trigger] phrase_at(text@, commitment_phrases()[j], i),
        decreases phrases@.len() - k,
    {
        assert(commitment_phrases()[k as int] == phrases@[k as int]@);
        if phrase_somewhere(&v, phrases[k]) {
            let ghost i = choose|i: int| phrase_at(v@, phrases@[k as int]@, i);
            assert(phrase_at(text@, commitment_phrases()[k as int], i));
            return true;
        }
        k = k + 1;
    }
    false
}

/// An entity of the knowledge graph in a briefing (fields absent when not text).
#[derive(Debug, Clone)]
pub struct BriefingNode {
    pub name: Option<String>,
    pub summary: Option<String>,
}

/// A fact of the knowledge graph in a briefing.
#[derive(Debug, Clone)]
pub struct BriefingFact {
    pub fact: Option<String>,
    pub is_invalid: Option<bool>,
}

/// What the knowledge graph gave for a voice's tags.
pub struct AstrolabeBriefing {
    pub nodes: Vec<BriefingNode>,
    pub facts: Vec<BriefingFact>,
    pub raw_query: String,
    pub available: bool,
    pub error: String,
}

/// The text of an optional string, or a default.
pub open spec fn text_or(s: Option<String>, d: Seq<char>) -> Seq<char> {
    match s {
        Some(x) => x@,
        None => d,
    }
}

/// The line of an entity: `- **<name>**: <summary>`.
pub open spec fn node_line(n: BriefingNode) -> Seq<char> {
    "- **"@ + text_or(n.name, "?"@) + "**: "@ + text_or(n.summary, ""@)
}

/// The line of a fact, marked when it was superseded.
pub open spec fn fact_line(f: BriefingFact) -> Seq<char> {
    if f.is_invalid == Some(true) {
        "- "@ + text_or(f.fact, ""@) + " [SUPERSEDED]"@
    } else {
        "- "@ + text_or(f.fact, ""@)
    }
}

/// The lines of a briefing.
pub open spec fn briefing_lines(b: AstrolabeBriefing) -> Seq<Seq<char>> {
    (if b.nodes@.len() > 0 {
        seq!["### Relevant Entities"@] + b.nodes@.map_values(|n: BriefingNode| node_line(n))
    } else {
        Seq::empty()
    }) + (if b.facts@.len() > 0 {
        seq!["### Relevant Facts"@] + b.facts@.map_values(|f: BriefingFact| fact_line(f))
    } else {
        Seq::empty()
    })
}

/// The full text of a briefing: its lines joined.
pub open spec fn briefing_full(b: AstrolabeBriefing) -> Seq<char> {
    join_spec(briefing_lines(b), "\n"@)
}

impl AstrolabeBriefing {
    /// The briefing's lines joined, before any cut.
    pub fn full_text(&self) -> (r: String)
        ensures
            r@ == briefing_full(*self),
    {
        let mut lines: Vec<String> = Vec::new();
        assert(lines.deep_view() =~= Seq::<Seq<char>>::empty());
        if self.nodes.len() > 0 {
            lines.push(String::from_str("### Relevant Entities"));
            assert(lines.deep_view() =~= seq!["### Relevant Entities"@]);
            let ghost base = lines.deep_view();
            let mut i: usize = 0;
            while i < self.nodes.len()
                invariant
                    i <= self.nodes@.len(),
                    lines.deep_view() == base + self.nodes@.take(i as int).map_values(|n: BriefingNode| node_line(n)),
                decreases self.nodes@.len() - i,
            {
                let n = &self.nodes[i];
                let mut l = String::from_str("- **");
                match &n.name {
                    Some(x) => l.append(x.as_str()),
                    None => l.append("?"),
                }
                l.append("**: ");
                match &n.summary {
                    Some(x) => l.append(x.as_str()),
                    None => {},
                }
                proof {
                    reveal_strlit("");
                }
                assert(l@ =~= node_line(self.nodes@[i as int]));
                let ghost before = lines.deep_view();
                lines.push(l);
                assert(self.nodes@.take(i as int + 1).map_values(|n: BriefingNode| node_line(n)) =~= self.nodes@.take(
                    i as int,
                ).map_values(|n: BriefingNode| node_line(n)).push(node_line(self.nodes@[i as int])));
                assert(lines.deep_view() =~= before.push(node_line(self.nodes@[i as int])));
                i = i + 1;
            }
            assert(self.nodes@.take(i as int) =~= self.nodes@);
        }
        let ghost after_nodes = lines.deep_view();
        assert(after_nodes =~= (if self.nodes@.len() > 0 {
            seq!["### Relevant Entities"@] + self.nodes@.map_values(|n: BriefingNode| node_line(n))
        } else {
            Seq::empty()
        }));
        if self.facts.len() > 0 {
            let ghost b0 = lines.deep_view();
            lines.push(String::from_str("### Relevant Facts"));
            assert(lines.deep_view() =~= b0.push("### Relevant Facts"@));
            let ghost base = lines.deep_view();
            let mut i: usize = 0;
            while i < self.facts.len()
                invariant
                    i <= self.facts@.len(),
                    lines.deep_view() == base + self.facts@.take(i as int).map_values(|f: BriefingFact| fact_line(f)),
                decreases self.facts@.len() - i,
            {
                let f = &self.facts[i];
                let mut l = String::from_str("- ");
                match &f.fact {
                    Some(x) => l.append(x.as_str()),
                    None => {},
                }
                let invalid = match f.is_invalid {
                    Some(b) => b,
                    None => false,
                };
                if invalid {
                    l.append(" [SUPERSEDED]");
                }
                proof {
                    reveal_strlit("");
                }
                assert(l@ =~= fact_line(self.facts@[i as int]));
                let ghost before = lines.deep_view();
                lines.push(l);
                assert(self.facts@.take(i as int + 1).map_values(|f: BriefingFact| fact_line(f)) =~= self.facts@.take(
                    i as int,
                ).map_values(|f: BriefingFact| fact_line(f)).push(fact_line(self.facts@[i as int])));
                assert(lines.deep_view() =~= before.push(fact_line(self.facts@[i as int])));
                i = i + 1;
            }
            assert(self.facts@.take(i as int) =~= self.facts@);
        }
        assert(lines.deep_view() =~= briefing_lines(*self));
        join(&lines, "\n")
    }

    /// The briefing as text of at most `max_chars` bytes (cut with `...`);
    /// empty when the graph was not available.
    pub fn to_text(&self, max_chars: usize) -> (r: String)
        requires
            truncatable(briefing_full(*self), max_chars as int),
        ensures
            r@ == (if self.available {
                truncated(briefing_full(*self), max_chars as int)
            } else {
                Seq::empty()
            }),
    {
        if !self.available {
            return String::new();
        }
        let full = self.full_text();
        truncate(full.as_str(), max_chars)
    }
}

/// The voices of the council: id, display name and perspective.
pub open spec fn voice_configs() -> Seq<(Seq<char>, Seq<char>, Seq<char>)> {
    seq![
        ("aleph"@, "Aleph"@, "Infrastructure architect \u{2014} evaluate from systems reliability, deployment, and operational complexity perspective"@),
        ("thales"@, "Thales"@, "Architecture lead \u{2014} evaluate from structural integrity, pattern coherence, and long-term maintainability perspective"@),
        ("luban"@, "Luban"@, "Inference engineer \u{2014} evaluate from performance, latency, resource efficiency, and model serving perspective"@),
        ("laozi-jung"@, "Laozi-Jung"@, "Witness and pattern observer \u{2014} evaluate from emergent patterns, historical parallels, and systemic wisdom perspective"@),
        ("mataya"@, "Mataya"@, "Design lead \u{2014} evaluate from user experience, interface clarity, and aesthetic coherence perspective"@),
        ("ogma"@, "Ogma"@, "Security architect \u{2014} evaluate from threat surface, compliance, credential hygiene, and access control perspective"@),
        ("merlin"@, "Merlin"@, "Project lead \u{2014} evaluate from strategic alignment, resource allocation, and mission priorities perspective"@),
    ]
}

/// The perspective of the first voice with id `agent`, or a general one.
pub open spec fn perspective_from(cfgs: Seq<(Seq<char>, Seq<char>, Seq<char>)>, agent: Seq<char>) -> Seq<char>
    decreases cfgs.len(),
{
    if cfgs.len() == 0 {
        "Provide your expert perspective"@
    } else if cfgs[0].0 == agent {
        cfgs[0].2
    } else {
        perspective_from(cfgs.drop_first(), agent)
    }
}

/// The perspective a voice is asked to take.
pub fn voice_perspective(agent: &str) -> (r: &'static str)
    ensures
        r@ == perspective_from(voice_configs(), agent@),
{
    let cfgs = vec![
        ("aleph", "Aleph", "Infrastructure architect \u{2014} evaluate from systems reliability, deployment, and operational complexity perspective"),
        ("thales", "Thales", "Architecture lead \u{2014} evaluate from structural integrity, pattern coherence, and long-term maintainability perspective"),
        ("luban", "Luban", "Inference engineer \u{2014} evaluate from performance, latency, resource efficiency, and model serving perspective"),
        ("laozi-jung", "Laozi-Jung", "Witness and pattern observer \u{2014} evaluate from emergent patterns, historical parallels, and systemic wisdom perspective"),
        ("mataya", "Mataya", "Design lead \u{2014} evaluate from user experience, interface clarity, and aesthetic coherence perspective"),
        ("ogma", "Ogma", "Security architect \u{2014} evaluate from threat surface, compliance, credential hygiene, and access control perspective"),
        ("merlin", "Merlin", "Project lead \u{2014} evaluate from strategic alignment, resource allocation, and mission priorities perspective"),
    ];
    let ghost all = cfgs@.map_values(|c: (&str, &str, &str)| (c.0@, c.1@, c.2@));
    assert(all =~= voice_configs());
    assert(all.skip(0) =~= all);
    let mut i: usize = 0;
    while i < cfgs.len()
        invariant
            i <= cfgs@.len(),
            all == cfgs@.map_values(|c: (&str, &str, &str)| (c.0@, c.1@, c.2@)),
            all == voice_configs(),
            perspective_from(all.skip(i as int), agent@) == perspective_from(voice_configs(), agent@),
        decreases cfgs@.len() - i,
    {
        assert(all.skip(i as int)[0] == all[i as int]);
        assert(all.skip(i as int).drop_first() =~= all.skip(i + 1));
        if str_eq(cfgs[i].0, agent) {
            return cfgs[i].2;
        }
        i = i + 1;
    }
    assert(all.skip(i as int) =~= Seq::<(Seq<char>, Seq<char>, Seq<char>)>::empty());
    "Provide your expert perspective"
}

/// The prior responses section: a heading, then each response as
/// `### <from>\n<content>\n\n`.
pub open spec fn prior_text(prior: Seq<(String, String)>) -> Seq<char>
    decreases prior.len(),
{
    if prior.len() == 0 {
        "## Prior Responses\n\n"@
    } else {
        prior_text(prior.drop_last()) + "### "@ + prior.last().0@ + "\n"@ + prior.last().1@ + "\n\n"@
    }
}

/// The message a voice is given: the briefing (when not empty), the
/// proposal, the prior responses (when there are any) and its task,
/// separated by rules.
pub open spec fn voice_prompt_spec(
    briefing: Seq<char>,
    proposal: Seq<char>,
    prior: Seq<(String, String)>,
    perspective: Seq<char>,
) -> Seq<char> {
    let sections = (if briefing.len() > 0 {
        seq!["## Field Briefing (ASTROLABE)\n\n"@ + briefing]
    } else {
        Seq::empty()
    }) + seq!["## Proposal\n\n"@ + proposal] + (if prior.len() > 0 {
        seq![prior_text(prior)]
    } else {
        Seq::empty()
    }) + seq![
        "## Your Task\n\n"@ + perspective
            + "\n\nProvide a focused, substantive response (300-600 words). Be direct and specific."@,
    ];
    join_spec(sections, "\n\n---\n\n"@)
}

/// Builds the message a voice is given.
pub fn voice_prompt(briefing: &str, proposal: &str, prior: &Vec<(String, String)>, perspective: &str) -> (r: String)
    ensures
        r@ == voice_prompt_spec(briefing@, proposal@, prior@, perspective@),
{
    let mut sections: Vec<String> = Vec::new();
    if !briefing.is_empty() {
        let mut s = String::from_str("## Field Briefing (ASTROLABE)\n\n");
        s.append(briefing);
        sections.push(s);
    }
    let mut s = String::from_str("## Proposal\n\n");
    s.append(proposal);
    sections.push(s);
    if prior.len() > 0 {
        let mut p = String::from_str("## Prior Responses\n\n");
        let mut i: usize = 0;
        while i < prior.len()
            invariant
                i <= prior@.len(),
                p@ == prior_text(prior@.take(i as int)),
            decreases prior@.len() - i,
        {
            assert(prior@.take(i as int + 1).drop_last() =~= prior@.take(i as int));
            p.append("### ");
            p.append(prior[i].0.as_str());
            p.append("\n");
            p.append(prior[i].1.as_str());
            p.append("\n\n");
            i = i + 1;
        }
        assert(prior@.take(i as int) =~= prior@);
        sections.push(p);
    }
    let mut task = String::from_str("## Your Task\n\n");
    task.append(perspective);
    task.append("\n\nProvide a focused, substantive response (300-600 words). Be direct and specific.");
    sections.push(task);
    assert(sections.deep_view() =~= (if briefing@.len() > 0 {
        seq!["## Field Briefing (ASTROLABE)\n\n"@ + briefing@]
    } else {
        Seq::empty()
    }) + seq!["## Proposal\n\n"@ + proposal@] + (if prior@.len() > 0 {
        seq![prior_text(prior@)]
    } else {
        Seq::empty()
    }) + seq![
        "## Your Task\n\n"@ + perspective@
            + "\n\nProvide a focused, substantive response (300-600 words). Be direct and specific."@,
    ]);
    join(&sections, "\n\n---\n\n")
}

/// The tags a voice's briefing is queried with: the given ones, else those
/// of the proposal, else none.
pub fn voice_tags(context_tags: &Vec<String>, proposal: Option<&str>) -> (r: Vec<String>)
    ensures
        r.deep_view() == (if context_tags@.len() > 0 {
            context_tags.deep_view()
        } else {
            match proposal {
                Some(p) => text_tags_spec(p@),
                None => Seq::empty(),
            }
        }),
{
    if context_tags.len() > 0 {
        copy_strings(context_tags)
    } else {
        match proposal {
            Some(p) => extract_tags(p),
            None => {
                let r: Vec<String> = Vec::new();
                assert(r.deep_view() =~= Seq::<Seq<char>>::empty());
                r
            },
        }
    }
}

/// A voice's response is posted to the thread only when posting was asked,
/// there is a thread, and the response makes no commitment.
pub fn should_post(do_post: bool, has_thread: bool, commitment_detected: bool) -> (b: bool)
    ensures
        b == (do_post && has_thread && !commitment_detected),
{
    do_post && has_thread && !commitment_detected
}

/// How a response's provenance is labelled.
pub fn provenance_label(autonomous: bool) -> (r: &'static str)
    ensures
        r@ == (if autonomous { "autonomous"@ } else { "authored"@ }),
{
    if autonomous {
        "autonomous"
    } else {
        "authored"
    }
}


/// The ids of the voices, in their configured order.
pub open spec fn voice_ids() -> Seq<Seq<char>> {
    seq!["aleph"@, "thales"@, "luban"@, "laozi-jung"@, "mataya"@, "ogma"@, "merlin"@]
}

/// The captains' voices speak only when authored by them.
pub open spec fn is_captain(id: Seq<char>) -> bool {
    id == "merlin"@ || id == "thales"@
}

/// A voice with whether it speaks autonomously (it is no captain).
pub open spec fn voice_entry(id: Seq<char>) -> (Seq<char>, bool) {
    (id, !is_captain(id))
}

/// The configured voices among `ids`, in order (captains only when
/// `captains_too`), each with whether it speaks autonomously.
pub open spec fn voices_of(ids: Seq<Seq<char>>, captains_too: bool) -> Seq<(Seq<char>, bool)>
    decreases ids.len(),
{
    if ids.len() == 0 {
        Seq::empty()
    } else {
        let rest = voices_of(ids.drop_last(), captains_too);
        let id = ids.last();
        if voice_ids().contains(id) && (captains_too || !is_captain(id)) {
            rest.push(voice_entry(id))
        } else {
            rest
        }
    }
}

/// The voices a cast request asks for: with `all`, every configured voice
/// (captains only when `authored`); else each requested agent that is a
/// configured voice, in the request's order; `None` when neither is given.
pub open spec fn selected_voices(all: bool, agents: Option<Seq<Seq<char>>>, authored: bool) -> Option<Seq<(Seq<char>, bool)>> {
    if all {
        Some(voices_of(voice_ids(), authored))
    } else {
        match agents {
            Some(a) => Some(voices_of(a, true)),
            None => None,
        }
    }
}

fn is_voice_id(id: &str) -> (b: bool)
    ensures
        b == voice_ids().contains(id@),
{
    let b = str_eq(id, "aleph") || str_eq(id, "thales") || str_eq(id, "luban") || str_eq(id, "laozi-jung")
        || str_eq(id, "mataya") || str_eq(id, "ogma") || str_eq(id, "merlin");
    proof {
        if b {
            if id@ == "aleph"@ {
                assert(voice_ids()[0] == id@);
            } else if id@ == "thales"@ {
                assert(voice_ids()[1] == id@);
            } else if id@ == "luban"@ {
                assert(voice_ids()[2] == id@);
            } else if id@ == "laozi-jung"@ {
                assert(voice_ids()[3] == id@);
            } else if id@ == "mataya"@ {
                assert(voice_ids()[4] == id@);
            } else if id@ == "ogma"@ {
                assert(voice_ids()[5] == id@);
            } else {
                assert(voice_ids()[6] == id@);
            }
        } else {
            assert forall|k: int| 0 <= k < voice_ids().len() implies voice_ids()[k] != id@ by {}
        }
    }
    b
}

fn voices_from(ids: &Vec<String>, captains_too: bool) -> (r: Vec<(String, bool)>)
    ensures
        r@.map_values(|v: (String, bool)| (v.0@, v.1)) == voices_of(ids.deep_view(), captains_too),
{
    let ghost s = ids.deep_view();
    let mut out: Vec<(String, bool)> = Vec::new();
    let mut i: usize = 0;
    while i < ids.len()
        invariant
            s == ids.deep_view(),
            i <= s.len(),
            out@.map_values(|v: (String, bool)| (v.0@, v.1)) == voices_of(s.take(i as int), captains_too),
        decreases s.len() - i,
    {
        let id = ids[i].as_str();
        assert(s[i as int] == id@);
        assert(s.take(i as int + 1).drop_last() =~= s.take(i as int));
        let captain = str_eq(id, "merlin") || str_eq(id, "thales");
        if is_voice_id(id) && (captains_too || !captain) {
            let ghost before = out@.map_values(|v: (String, bool)| (v.0@, v.1));
            out.push((String::from_str(id), !captain));
            assert(out@.map_values(|v: (String, bool)| (v.0@, v.1)) =~= before.push(voice_entry(id@)));
        }
        i = i + 1;
    }
    assert(s.take(i as int) =~= s);
    out
}

/// The voices a cast request asks for (see `selected_voices`), each with
/// whether it speaks autonomously.
pub fn select_voices(all: bool, agents: &Option<Vec<String>>, authored: bool) -> (r: Option<Vec<(String, bool)>>)
    ensures
        match r {
            Some(v) => selected_voices(all, agents.deep_view(), authored) == Some(
                v@.map_values(|e: (String, bool)| (e.0@, e.1)),
            ),
            None => selected_voices(all, agents.deep_view(), authored) is None,
        },
{
    if all {
        let mut ids: Vec<String> = Vec::new();
        ids.push(String::from_str("aleph"));
        ids.push(String::from_str("thales"));
        ids.push(String::from_str("luban"));
        ids.push(String::from_str("laozi-jung"));
        ids.push(String::from_str("mataya"));
        ids.push(String::from_str("ogma"));
        ids.push(String::from_str("merlin"));
        assert(ids.deep_view() =~= voice_ids());
        Some(voices_from(&ids, authored))
    } else {
        match agents {
            Some(a) => Some(voices_from(a, true)),
            None => None,
        }
    }
}

/// Whether a notification line asks the dispatcher to cast a colloquium:
/// not sent by the dispatcher or the daemon itself, to the council with a
/// colloquium subject (lower-cased) or with the intent `colloquium`, and in
/// a thread.
pub open spec fn dispatch_casts(from: Seq<char>, to: Seq<char>, subject_lower: Seq<char>, intent: Seq<char>, thread_id: Seq<char>) -> bool {
    &&& from != "council-dispatch"@ && from != "colloquium-daemon"@
    &&& (to == "council"@ && (exists|i: int| 0 <= i < 4 && contains_spec(subject_lower, #[trigger] colloquium_markers()[i]))) || intent == "colloquium"@
    &&& thread_id.len() > 0
}

/// Whether the dispatcher casts a colloquium for a notification (see
/// `dispatch_casts`); the subject is given lower-cased.
pub fn should_dispatch(from: &str, to: &str, subject_lower: &str, intent: &str, thread_id: &str) -> (b: bool)
    ensures
        b == dispatch_casts(from@, to@, subject_lower@, intent@, thread_id@),
{
    if str_eq(from, "council-dispatch") || str_eq(from, "colloquium-daemon") {
        return false;
    }
    let colloquium = (str_eq(to, "council") && is_colloquium_subject(subject_lower)) || str_eq(intent, "colloquium");
    colloquium && !thread_id.is_empty()
}

} // verus!

//! The CVE sweep's text rules: white space, cut text, stack keywords, and
//! which findings are reported.

use vstd::prelude::*;
use crate::astrolabe::scan::{exact_at, is_word, lit_at, word_char};
use crate::text::{
    contains_spec, contains_str, join, join_spec, lowercase_spec, split_whitespace, str_eq, to_chars, to_lowercase,
    truncatable, truncate, truncated, words_spec,
};

verus! {

/// `s` with its white space runs turned into single spaces and trimmed.
pub open spec fn normalized(s: Seq<char>) -> Seq<char> {
    join_spec(words_spec(s), " "@)
}

/// Turns white space runs into single spaces and trims.
pub fn normalize_whitespace(s: &str) -> (r: String)
    ensures
        r@ == normalized(s@),
{
    let words = split_whitespace(s);
    join(&words, " ")
}

/// Normalizes white space, then cuts to at most `max` bytes (with `...`).
pub fn trim_text(text: &str, max: usize) -> (r: String)
    requires
        truncatable(normalized(text@), max as int),
    ensures
        r@ == truncated(normalized(text@), max as int),
{
    let n = normalize_whitespace(text);
    truncate(n.as_str(), max)
}

/// The technologies of the stack that findings are matched against.
pub open spec fn stack_keywords() -> Seq<Seq<char>> {
    seq![
        "rust"@, "nats"@, "docker"@, "falkordb"@, "graphiti"@, "sveltekit"@, "mcp"@, "surrealdb"@, "spiffe"@,
        "spire"@,
    ]
}

/// `w` stands at `i` of `s` as a whole word.
pub open spec fn word_at(s: Seq<char>, w: Seq<char>, i: int) -> bool {
    &&& lit_at(s, w, i)
    &&& (i == 0 || !is_word(s[i - 1]))
    &&& (i + w.len() == s.len() || !is_word(s[i + w.len()]))
}

/// `w` stands somewhere in `s` as a whole word.
pub open spec fn has_word(s: Seq<char>, w: Seq<char>) -> bool {
    exists|i: int| #[trigger] word_at(s, w, i)
}

fn has_word_exec(v: &Vec<char>, w: &str) -> (b: bool)
    ensures
        b == has_word(v@, w@),
{
    let wv = to_chars(w);
    let n = v.len();
    let m = wv.len();
    let mut i: usize = 0;
    while i < n
        invariant
            n == v@.len(),
            m == w@.len(),
            i <= n,
            forall|j: int| 0 <= j < i ==> !#[trigger] word_at(v@, w@, j),
        decreases n - i,
    {
        if m <= n - i && exact_at(v, i, w) && (i == 0 || !word_char(v[i - 1])) && (m == n - i || !word_char(
            v[i + m],
        )) {
            assert(word_at(v@, w@, i as int));
            return true;
        }
        i = i + 1;
    }
    if m == 0 && (n == 0 || !word_char(v[n - 1])) {
        assert(word_at(v@, w@, n as int));
        return true;
    }
    assert forall|j: int| !#[trigger] word_at(v@, w@, j) by {
        if word_at(v@, w@, j) {
            assert(j + m <= n);
        }
    }
    false
}

/// The stack keywords of a lower-cased text, in keyword order: each that
/// stands as a whole word, and `mcp` also for "model context protocol".
pub open spec fn keywords_in(lower: Seq<char>) -> Seq<Seq<char>> {
    stack_keywords().filter(
        |k: Seq<char>| has_word(lower, k) || (k == "mcp"@ && contains_spec(lower, "model context protocol"@)),
    )
}

/// The stack keywords a text mentions (see `keywords_in`), of its lower-case form.
pub fn matches_stack_keywords(text: &str) -> (r: Vec<String>)
    ensures
        r.deep_view() == keywords_in(lowercase_spec(text@)),
{
    let lower = to_lowercase(text);
    let v = to_chars(lower.as_str());
    let kws = vec![
        "rust", "nats", "docker", "falkordb", "graphiti", "sveltekit", "mcp", "surrealdb", "spiffe", "spire",
    ];
    let ghost ks = kws@.map_values(|k: &str| k@);
    assert(ks =~= stack_keywords());
    let ghost pred = |k: Seq<char>| has_word(v@, k) || (k == "mcp"@ && contains_spec(v@, "model context protocol"@));
    let mcp_phrase = contains_str(lower.as_str(), "model context protocol");
    let mut out: Vec<String> = Vec::new();
    let mut i: usize = 0;
    while i < kws.len()
        invariant
            v@ == lower@,
            lower@ == lowercase_spec(text@),
            ks == kws@.map_values(|k: &str| k@),
            ks == stack_keywords(),
            mcp_phrase == contains_spec(v@, "model context protocol"@),
            pred == (|k: Seq<char>| has_word(v@, k) || (k == "mcp"@ && contains_spec(v@, "model context protocol"@))),
            i <= ks.len(),
            out.deep_view() == ks.take(i as int).filter(pred),
        decreases ks.len() - i,
    {
        let k = kws[i];
        assert(ks[i as int] == k@);
        assert(ks.take(i as int + 1) =~= ks.take(i as int).push(k@));
        proof {
            ks.take(i as int).lemma_filter_push(k@, pred);
        }
        let hit = has_word_exec(&v, k) || (str_eq(k, "mcp") && mcp_phrase);
        if hit {
            let ghost before = out.deep_view();
            out.push(String::from_str(k));
            assert(out.deep_view() =~= before.push(k@));
        }
        i = i + 1;
    }
    assert(ks.take(i as int) =~= ks);
    out
}

/// Whether a finding is reported: always when critical or high; when
/// medium, if it mentions the stack; when low, if its text (lower-cased)
/// names a running service; never otherwise.
pub open spec fn allowed_by_policy(
    severity: Seq<char>,
    keywords: Seq<Seq<char>>,
    services: Seq<Seq<char>>,
    text: Seq<char>,
) -> bool {
    if severity == "CRITICAL"@ || severity == "HIGH"@ {
        true
    } else if severity == "MEDIUM"@ {
        keywords.len() > 0
    } else if severity == "LOW"@ {
        exists|i: int| 0 <= i < services.len() && services[i].len() > 0 && contains_spec(
            lowercase_spec(text),
            #[trigger] services[i],
        )
    } else {
        false
    }
}

/// A finding is reported exactly when it is critical or high; or medium
/// and matched at least one stack keyword; or low and its text, in lower
/// case, names a running service (a non-empty name); nothing else is.
pub proof fn lemma_policy(severity: Seq<char>, keywords: Seq<Seq<char>>, services: Seq<Seq<char>>, text: Seq<char>)
    ensures
        (severity == "CRITICAL"@ || severity == "HIGH"@) ==> allowed_by_policy(severity, keywords, services, text),
        severity == "MEDIUM"@ ==> (allowed_by_policy(severity, keywords, services, text) <==> keywords.len() > 0),
        severity == "LOW"@ ==> (allowed_by_policy(severity, keywords, services, text) <==> exists|i: int|
            0 <= i < services.len() && services[i].len() > 0 && contains_spec(lowercase_spec(text), #[trigger] services[i])),
        severity != "CRITICAL"@ && severity != "HIGH"@ && severity != "MEDIUM"@ && severity != "LOW"@
            ==> !allowed_by_policy(severity, keywords, services, text),
{
    reveal_strlit("CRITICAL");
    reveal_strlit("HIGH");
    reveal_strlit("MEDIUM");
    reveal_strlit("LOW");
    assert("MEDIUM"@.len() != "CRITICAL"@.len() && "MEDIUM"@.len() != "HIGH"@.len());
    assert("MEDIUM"@ != "CRITICAL"@ && "MEDIUM"@ != "HIGH"@);
    assert("LOW"@.len() != "CRITICAL"@.len() && "LOW"@.len() != "HIGH"@.len() && "LOW"@.len() != "MEDIUM"@.len());
    assert("LOW"@ != "CRITICAL"@ && "LOW"@ != "HIGH"@ && "LOW"@ != "MEDIUM"@);
}

/// The stack keywords a lower-case text is matched to: rust, nats, docker,
/// falkordb, graphiti, sveltekit, mcp, surrealdb, spiffe and spire, each
/// when it stands in the text as a whole word; `mcp` also when the text
/// says "model context protocol".
pub proof fn lemma_stack_keywords(lower: Seq<char>, k: Seq<char>)
    ensures
        keywords_in(lower).contains(k) <==> ((k == "rust"@ || k == "nats"@ || k == "docker"@ || k == "falkordb"@ || k == "graphiti"@ || k == "sveltekit"@ || k == "mcp"@ || k == "surrealdb"@ || k == "spiffe"@ || k == "spire"@) && (has_word(lower, k) || (k == "mcp"@
            && contains_spec(lower, "model context protocol"@)))),
{
    let p = |x: Seq<char>| has_word(lower, x) || (x == "mcp"@ && contains_spec(lower, "model context protocol"@));
    stack_keywords().filter_lemma(p);
    if keywords_in(lower).contains(k) {
        stack_keywords().lemma_filter_contains_rev(p, k);
        let j = choose|j: int| 0 <= j < stack_keywords().len() && stack_keywords()[j] == k;
        assert(stack_keywords()[0] == "rust"@);
        assert(stack_keywords()[1] == "nats"@);
        assert(stack_keywords()[2] == "docker"@);
        assert(stack_keywords()[3] == "falkordb"@);
        assert(stack_keywords()[4] == "graphiti"@);
        assert(stack_keywords()[5] == "sveltekit"@);
        assert(stack_keywords()[6] == "mcp"@);
        assert(stack_keywords()[7] == "surrealdb"@);
        assert(stack_keywords()[8] == "spiffe"@);
        assert(stack_keywords()[9] == "spire"@);
        let i = choose|i: int| 0 <= i < keywords_in(lower).len() && keywords_in(lower)[i] == k;
        assert(p(keywords_in(lower)[i]));
    }
    if (k == "rust"@ || k == "nats"@ || k == "docker"@ || k == "falkordb"@ || k == "graphiti"@ || k == "sveltekit"@ || k == "mcp"@ || k == "surrealdb"@ || k == "spiffe"@ || k == "spire"@) && p(k) {
        assert(stack_keywords()[0] == "rust"@);
        assert(stack_keywords()[1] == "nats"@);
        assert(stack_keywords()[2] == "docker"@);
        assert(stack_keywords()[3] == "falkordb"@);
        assert(stack_keywords()[4] == "graphiti"@);
        assert(stack_keywords()[5] == "sveltekit"@);
        assert(stack_keywords()[6] == "mcp"@);
        assert(stack_keywords()[7] == "surrealdb"@);
        assert(stack_keywords()[8] == "spiffe"@);
        assert(stack_keywords()[9] == "spire"@);
        assert(exists|j: int| 0 <= j < stack_keywords().len() && stack_keywords()[j] == k);
        let j = choose|j: int| 0 <= j < stack_keywords().len() && stack_keywords()[j] == k;
        assert(stack_keywords().filter(p).contains(stack_keywords()[j]));
    }
}

/// Whether a finding is reported (see `allowed_by_policy`).
pub fn allow_by_policy(
    severity: &str,
    matched_keywords: &Vec<String>,
    service_names: &Vec<String>,
    searchable_text: &str,
) -> (b: bool)
    ensures
        b == allowed_by_policy(severity@, matched_keywords.deep_view(), service_names.deep_view(), searchable_text@),
{
    if str_eq(severity, "CRITICAL") || str_eq(severity, "HIGH") {
        true
    } else if str_eq(severity, "MEDIUM") {
        matched_keywords.len() > 0
    } else if str_eq(severity, "LOW") {
        let lower = to_lowercase(searchable_text);
        let ghost s = service_names.deep_view();
        let mut i: usize = 0;
        while i < service_names.len()
            invariant
                s == service_names.deep_view(),
                lower@ == lowercase_spec(searchable_text@),
                severity@ == "LOW"@,
                severity@ != "CRITICAL"@ && severity@ != "HIGH"@ && severity@ != "MEDIUM"@,
                i <= s.len(),
                forall|j: int| 0 <= j < i ==> !(s[j].len() > 0 && contains_spec(lower@, #[trigger] s[j])),
            decreases s.len() - i,
        {
            let name = service_names[i].as_str();
            assert(s[i as int] == name@);
            if !name.is_empty() && contains_str(lower.as_str(), name) {
                return true;
            }
            i = i + 1;
        }
        false
    } else {
        false
    }
}

} // verus!

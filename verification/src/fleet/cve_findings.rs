//! The keyword and source lists of the daily security sweep's findings:
//! texts kept in strictly increasing code-point order, so that each occurs
//! once and the report lists them sorted.
use vstd::prelude::*;
use crate::text::{str_eq, to_chars};

verus! {

/// Code-point lexicographic order on texts (the order of `str`).
pub open spec fn text_lt(a: Seq<char>, b: Seq<char>) -> bool
    decreases a.len(),
{
    if a.len() == 0 {
        b.len() > 0
    } else if b.len() == 0 {
        false
    } else if a[0] != b[0] {
        a[0] < b[0]
    } else {
        text_lt(a.drop_first(), b.drop_first())
    }
}

/// No text comes before itself.
pub proof fn lemma_text_lt_irreflexive(a: Seq<char>)
    ensures
        !text_lt(a, a),
    decreases a.len(),
{
    if a.len() > 0 {
        lemma_text_lt_irreflexive(a.drop_first());
    }
}

/// Two different texts are ordered one way, and only one.
pub proof fn lemma_text_lt_total(a: Seq<char>, b: Seq<char>)
    ensures
        a != b ==> (text_lt(a, b) || text_lt(b, a)),
        !(text_lt(a, b) && text_lt(b, a)),
    decreases a.len(),
{
    if a.len() > 0 && b.len() > 0 {
        if a[0] == b[0] {
            lemma_text_lt_total(a.drop_first(), b.drop_first());
            if a != b {
                assert(a.drop_first() != b.drop_first()) by {
                    if a.drop_first() == b.drop_first() {
                        assert(a =~= seq![a[0]] + a.drop_first());
                        assert(b =~= seq![b[0]] + b.drop_first());
                    }
                }
            }
        } else {
        }
    } else if a.len() == 0 && b.len() == 0 {
        assert(a =~= b);
    }
}

/// The order is transitive.
pub proof fn lemma_text_lt_transitive(a: Seq<char>, b: Seq<char>, c: Seq<char>)
    requires
        text_lt(a, b),
        text_lt(b, c),
    ensures
        text_lt(a, c),
    decreases a.len(),
{
    if a.len() > 0 && b.len() > 0 && c.len() > 0 {
        if a[0] == b[0] && b[0] == c[0] {
            lemma_text_lt_transitive(a.drop_first(), b.drop_first(), c.drop_first());
        }
    }
}

/// Whether `a` comes before `b` (see `text_lt`).
pub fn text_less(a: &str, b: &str) -> (r: bool)
    ensures
        r == text_lt(a@, b@),
{
    let x = to_chars(a);
    let y = to_chars(b);
    let mut i: usize = 0;
    assert(a@.skip(0) =~= a@ && b@.skip(0) =~= b@);
    while i < x.len() && i < y.len()
        invariant
            x@ == a@,
            y@ == b@,
            i <= x@.len(),
            i <= y@.len(),
            text_lt(a@, b@) == text_lt(a@.skip(i as int), b@.skip(i as int)),
        decreases x@.len() - i,
    {
        let ghost sa = a@.skip(i as int);
        let ghost sb = b@.skip(i as int);
        assert(sa[0] == x@[i as int]);
        assert(sb[0] == y@[i as int]);
        if x[i] != y[i] {
            return x[i] < y[i];
        }
        assert(sa.drop_first() =~= a@.skip(i + 1));
        assert(sb.drop_first() =~= b@.skip(i + 1));
        i = i + 1;
    }
    let ghost sa = a@.skip(i as int);
    let ghost sb = b@.skip(i as int);
    assert(sa.len() == 0 || sb.len() == 0);
    x.len() - i == 0 && y.len() - i > 0
}

/// The texts are in strictly increasing order (so none occurs twice).
pub open spec fn strictly_sorted(s: Seq<Seq<char>>) -> bool {
    forall|i: int, j: int| 0 <= i < j < s.len() ==> text_lt(#[trigger] s[i], #[trigger] s[j])
}

/// Adds `k` to a strictly sorted list of texts, keeping it strictly
/// sorted: the list then holds what it held and `k`.
pub fn insert_sorted(v: &mut Vec<String>, k: &str)
    requires
        strictly_sorted(old(v).deep_view()),
    ensures
        strictly_sorted(final(v).deep_view()),
        forall|t: Seq<char>| #[trigger] final(v).deep_view().contains(t) <==> (old(v).deep_view().contains(t) || t == k@),
{
    let ghost s0 = v.deep_view();
    let n = v.len();
    let mut i: usize = 0;
    while i < n
        invariant
            n == v@.len(),
            v.deep_view() == s0,
            strictly_sorted(s0),
            i <= n,
            forall|j: int| 0 <= j < i ==> text_lt(#[trigger] s0[j], k@),
        ensures
            v.deep_view() == s0,
            i <= n,
            forall|j: int| 0 <= j < i ==> text_lt(#[trigger] s0[j], k@),
            i == n || (!text_lt(s0[i as int], k@) && s0[i as int] != k@),
        decreases n - i,
    {
        assert(s0[i as int] == v@[i as int]@);
        if str_eq(v[i].as_str(), k) {
            assert(s0.contains(k@));
            return;
        }
        if !text_less(v[i].as_str(), k) {
            break;
        }
        i = i + 1;
    }
    // Every element from `i` on comes after `k`.
    proof {
        assert forall|j: int| i <= j < s0.len() implies text_lt(k@, #[trigger] s0[j]) by {
            lemma_text_lt_total(s0[i as int], k@);
            if j > i {
                lemma_text_lt_transitive(k@, s0[i as int], s0[j]);
            }
        }
    }
    let ks = String::from_str(k);
    v.insert(i, ks);
    let ghost s1 = s0.insert(i as int, k@);
    proof {
        s0.insert_ensures(i as int, k@);
        assert(v.deep_view() =~= s1) by {
            assert forall|j: int| 0 <= j < v@.len() implies v.deep_view()[j] == s1[j] by {
                if j < i {
                } else if j == i {
                } else {
                    assert(s1[j] == s0[j - 1]);
                }
            }
        }
        assert forall|a: int, b: int| 0 <= a < b < s1.len() implies text_lt(#[trigger] s1[a], #[trigger] s1[b]) by {
            if b < i {
            } else if a < i && b == i {
            } else if a < i && b > i {
                assert(s1[b] == s0[b - 1]);
                lemma_text_lt_transitive(s0[a], k@, s0[b - 1]);
            } else if a == i {
                assert(s1[b] == s0[b - 1]);
            } else {
                assert(s1[a] == s0[a - 1]);
                assert(s1[b] == s0[b - 1]);
            }
        }
        assert forall|t: Seq<char>| #[trigger] s1.contains(t) <==> (s0.contains(t) || t == k@) by {
            if s1.contains(t) {
                let j = choose|j: int| 0 <= j < s1.len() && s1[j] == t;
                if j < i {
                    assert(s0[j] == t);
                } else if j > i {
                    assert(s0[j - 1] == t);
                }
            }
            if s0.contains(t) {
                let j = choose|j: int| 0 <= j < s0.len() && s0[j] == t;
                if j < i {
                    assert(s1[j] == t);
                } else {
                    assert(s1[j + 1] == t);
                }
            }
            if t == k@ {
                assert(s1[i as int] == t);
            }
        }
    }
}

} // verus!

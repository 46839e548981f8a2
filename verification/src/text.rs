//! Character-level text helpers shared by the rest of the library.

use vstd::prelude::*;
use crate::astrolabe::scan::ascii_lower;

verus! {

/// Compares two string slices; `<str as PartialEq>::eq` compares contents.
#[verifier::external_body]
pub fn str_eq(a: &str, b: &str) -> (r: bool)
    ensures
        r == (a@ == b@),
{
    a == b
}

/// Appends one character; `String::push` appends it at the end.
#[verifier::external_body]
pub fn push_char(s: &mut String, c: char)
    ensures
        final(s)@ == old(s)@.push(c),
{
    s.push(c)
}

/// The characters of `s`, in order.
pub fn to_chars(s: &str) -> (v: Vec<char>)
    ensures
        v@ == s@,
{
    let mut v: Vec<char> = Vec::new();
    for c in it: s.chars()
        invariant
            v@ == it.seq().take(it.index() as int),
            it.seq() == s@,
    {
        v.push(c);
    }
    v
}


/// Whether `c` has the Unicode `White_Space` property (PropList.txt):
/// tab, line feed, vertical tab, form feed, carriage return, space, next
/// line, no-break space, ogham space mark, the spaces U+2000 to U+200A, line
/// and paragraph separators, narrow no-break space, medium mathematical
/// space and ideographic space.
pub open spec fn is_white_space(c: char) -> bool {
    ||| '\u{9}' <= c <= '\u{D}'
    ||| c == ' '
    ||| c == '\u{85}'
    ||| c == '\u{A0}'
    ||| c == '\u{1680}'
    ||| '\u{2000}' <= c <= '\u{200A}'
    ||| c == '\u{2028}'
    ||| c == '\u{2029}'
    ||| c == '\u{202F}'
    ||| c == '\u{205F}'
    ||| c == '\u{3000}'
}

/// `char::is_whitespace`: whether `c` has the Unicode `White_Space`
/// property (`is_white_space`).
#[verifier::external_body]
pub fn char_is_whitespace(c: char) -> (r: bool)
    ensures
        r == is_white_space(c),
{
    c.is_whitespace()
}

/// Whether `c` is alphanumeric (Unicode `Alphabetic` or `Numeric`).
pub uninterp spec fn is_alnum(c: char) -> bool;

/// `char::is_alphanumeric`.
#[verifier::external_body]
pub fn char_is_alnum(c: char) -> (b: bool)
    ensures
        b == is_alnum(c),
{
    c.is_alphanumeric()
}

/// `s` without leading white space.
pub open spec fn trim_start_spec(s: Seq<char>) -> Seq<char>
    decreases s.len(),
{
    if s.len() > 0 && is_white_space(s[0]) { trim_start_spec(s.drop_first()) } else { s }
}

/// `s` without trailing white space.
pub open spec fn trim_end_spec(s: Seq<char>) -> Seq<char>
    decreases s.len(),
{
    if s.len() > 0 && is_white_space(s.last()) { trim_end_spec(s.drop_last()) } else { s }
}

/// `s` without leading and trailing white space (what `str::trim` gives).
pub open spec fn trim_spec(s: Seq<char>) -> Seq<char> {
    trim_end_spec(trim_start_spec(s))
}

/// A string holding the characters `v[from..to]`.
pub fn string_of(v: &Vec<char>, from: usize, to: usize) -> (s: String)
    requires
        from <= to <= v@.len(),
    ensures
        s@ == v@.subrange(from as int, to as int),
{
    let mut s = String::new();
    let mut i = from;
    while i < to
        invariant
            from <= i <= to <= v@.len(),
            s@ == v@.subrange(from as int, i as int),
        decreases to - i,
    {
        push_char(&mut s, v[i]);
        assert(s@ =~= v@.subrange(from as int, i + 1));
        i = i + 1;
    }
    s
}

proof fn lemma_trim_start_skip(s: Seq<char>, i: int)
    requires
        0 <= i <= s.len(),
        forall|j: int| 0 <= j < i ==> is_white_space(#[trigger] s[j]),
    ensures
        trim_start_spec(s) == trim_start_spec(s.subrange(i, s.len() as int)),
    decreases i,
{
    if i > 0 {
        assert(s.drop_first() =~= s.subrange(1, s.len() as int));
        lemma_trim_start_skip(s.drop_first(), i - 1);
        assert(s.drop_first().subrange(i - 1, s.drop_first().len() as int) =~= s.subrange(i, s.len() as int));
    } else {
        assert(s.subrange(0, s.len() as int) =~= s);
    }
}

proof fn lemma_trim_end_skip(s: Seq<char>, e: int)
    requires
        0 <= e <= s.len(),
        forall|j: int| e <= j < s.len() ==> is_white_space(#[trigger] s[j]),
    ensures
        trim_end_spec(s) == trim_end_spec(s.subrange(0, e)),
    decreases s.len() - e,
{
    if e < s.len() {
        assert(s.drop_last() =~= s.subrange(0, s.len() - 1));
        lemma_trim_end_skip(s.drop_last(), e);
        assert(s.drop_last().subrange(0, e) =~= s.subrange(0, e));
    } else {
        assert(s.subrange(0, e) =~= s);
    }
}

/// The bounds `[from, to)` of `v` without its leading and trailing white space.
pub fn trim_bounds(v: &Vec<char>) -> (r: (usize, usize))
    ensures
        r.0 <= r.1 <= v@.len(),
        v@.subrange(r.0 as int, r.1 as int) == trim_spec(v@),
{
    let n = v.len();
    let mut i: usize = 0;
    while i < n && char_is_whitespace(v[i])
        invariant
            n == v@.len(),
            i <= n,
            forall|j: int| 0 <= j < i ==> is_white_space(#[trigger] v@[j]),
        decreases n - i,
    {
        i = i + 1;
    }
    proof {
        lemma_trim_start_skip(v@, i as int);
        let rest = v@.subrange(i as int, n as int);
        if rest.len() > 0 {
            assert(rest[0] == v@[i as int]);
        }
        assert(trim_start_spec(rest) == rest);
    }
    let mut e: usize = n;
    while e > i && char_is_whitespace(v[e - 1])
        invariant
            n == v@.len(),
            i <= e <= n,
            forall|j: int| e <= j < n ==> is_white_space(#[trigger] v@[j]),
        decreases e - i,
    {
        e = e - 1;
    }
    proof {
        let rest = v@.subrange(i as int, n as int);
        lemma_trim_end_skip(rest, e - i);
        let core = rest.subrange(0, e - i);
        assert(core =~= v@.subrange(i as int, e as int));
        if core.len() > 0 {
            assert(core.last() == v@[e - 1]);
        }
        assert(trim_end_spec(core) == core);
    }
    (i, e)
}

/// `s` without leading and trailing white space.
pub fn trim(s: &str) -> (r: String)
    ensures
        r@ == trim_spec(s@),
{
    let v = to_chars(s);
    let (a, b) = trim_bounds(&v);
    string_of(&v, a, b)
}


/// `p` occurs in `s` starting at position `i`.
pub open spec fn occurs_at(s: Seq<char>, p: Seq<char>, i: int) -> bool {
    0 <= i && i + p.len() <= s.len() && s.subrange(i, i + p.len()) == p
}

/// `p` occurs somewhere in `s`.
pub open spec fn contains_spec(s: Seq<char>, p: Seq<char>) -> bool {
    exists|i: int| occurs_at(s, p, i)
}

/// Whether `p` occurs in `s` at position `i`.
pub fn matches_at(s: &Vec<char>, p: &Vec<char>, i: usize) -> (b: bool)
    ensures
        b == occurs_at(s@, p@, i as int),
{
    if i > s.len() || p.len() > s.len() - i {
        return false;
    }
    let mut j: usize = 0;
    while j < p.len()
        invariant
            i + p@.len() <= s@.len(),
            s@.len() <= usize::MAX,
            j <= p@.len(),
            forall|t: int| 0 <= t < j ==> s@[i + t] == p@[t],
        decreases p@.len() - j,
    {
        if s[i + j] != p[j] {
            assert(s@.subrange(i as int, i + p@.len())[j as int] != p@[j as int]);
            return false;
        }
        j = j + 1;
    }
    assert(s@.subrange(i as int, i + p@.len()) =~= p@);
    true
}

/// The first position at or after `from` where `p` occurs in `s`.
pub fn find_from(s: &Vec<char>, p: &Vec<char>, from: usize) -> (r: Option<usize>)
    ensures
        match r {
            Some(i) => from <= i && occurs_at(s@, p@, i as int)
                && forall|j: int| from <= j < i ==> !occurs_at(s@, p@, j),
            None => forall|j: int| from <= j ==> !occurs_at(s@, p@, j),
        },
{
    if from > s.len() {
        return None;
    }
    let mut i = from;
    loop
        invariant
            from <= i <= s@.len(),
            forall|j: int| from <= j < i ==> !occurs_at(s@, p@, j),
        decreases s@.len() - i,
    {
        if matches_at(s, p, i) {
            return Some(i);
        }
        if i == s.len() {
            return None;
        }
        i = i + 1;
    }
}

/// Whether `p` occurs in `s`.
pub fn contains_chars(s: &Vec<char>, p: &Vec<char>) -> (b: bool)
    ensures
        b == contains_spec(s@, p@),
{
    match find_from(s, p, 0) {
        Some(i) => true,
        None => {
            assert(!contains_spec(s@, p@)) by {
                if contains_spec(s@, p@) {
                    let j = choose|j: int| occurs_at(s@, p@, j);
                }
            }
            false
        },
    }
}

/// Whether `p` occurs in `s`.
pub fn contains_str(s: &str, p: &str) -> (b: bool)
    ensures
        b == contains_spec(s@, p@),
{
    let sv = to_chars(s);
    let pv = to_chars(p);
    contains_chars(&sv, &pv)
}

/// Whether `s` starts with `p`.
pub fn starts_with_str(s: &str, p: &str) -> (b: bool)
    ensures
        b == occurs_at(s@, p@, 0),
{
    let sv = to_chars(s);
    let pv = to_chars(p);
    matches_at(&sv, &pv, 0)
}

/// `s` with every occurrence of `p` (taken left to right, not overlapping)
/// replaced by `r`.
pub open spec fn replace_spec(s: Seq<char>, p: Seq<char>, r: Seq<char>) -> Seq<char>
    recommends
        p.len() > 0,
    decreases s.len(),
{
    if p.len() == 0 || s.len() == 0 {
        s
    } else if occurs_at(s, p, 0) {
        r + replace_spec(s.skip(p.len() as int), p, r)
    } else {
        seq![s[0]] + replace_spec(s.drop_first(), p, r)
    }
}

proof fn lemma_occurs_shift(s: Seq<char>, p: Seq<char>, i: int)
    requires
        0 <= i <= s.len(),
    ensures
        occurs_at(s.skip(i), p, 0) == occurs_at(s, p, i),
{
    if i + p.len() <= s.len() {
        assert(s.skip(i).subrange(0, p.len() as int) =~= s.subrange(i, i + p.len()));
    }
}

/// `s` with every occurrence of `p` replaced by `r` (`str::replace`).
pub fn replace_str(s: &str, p: &str, r: &str) -> (out: String)
    requires
        p@.len() > 0,
    ensures
        out@ == replace_spec(s@, p@, r@),
{
    let sv = to_chars(s);
    let pv = to_chars(p);
    let mut out = String::new();
    let mut i: usize = 0;
    assert(sv@.skip(0) =~= sv@);
    assert(out@ + replace_spec(sv@.skip(0), p@, r@) =~= replace_spec(s@, p@, r@));
    while i < sv.len()
        invariant
            sv@ == s@,
            pv@ == p@,
            p@.len() > 0,
            i <= sv@.len(),
            out@ + replace_spec(sv@.skip(i as int), p@, r@) == replace_spec(s@, p@, r@),
        decreases sv@.len() - i,
    {
        let ghost rest = sv@.skip(i as int);
        proof { lemma_occurs_shift(sv@, pv@, i as int); }
        if matches_at(&sv, &pv, i) {
            let ghost before = out@;
            out.append(r);
            proof {
                assert(rest.skip(p@.len() as int) =~= sv@.skip(i + p@.len()));
                assert(before + replace_spec(rest, p@, r@) == before + (r@ + replace_spec(rest.skip(p@.len() as int), p@, r@)));
                assert(before + (r@ + replace_spec(rest.skip(p@.len() as int), p@, r@)) =~= out@ + replace_spec(sv@.skip(i + p@.len()), p@, r@));
            }
            i = i + pv.len();
        } else {
            let ghost before = out@;
            push_char(&mut out, sv[i]);
            proof {
                assert(rest.drop_first() =~= sv@.skip(i + 1));
                assert(rest[0] == sv@[i as int]);
                assert(before + replace_spec(rest, p@, r@) == before + (seq![rest[0]] + replace_spec(rest.drop_first(), p@, r@)));
                assert(before + (seq![rest[0]] + replace_spec(rest.drop_first(), p@, r@)) =~= out@ + replace_spec(sv@.skip(i + 1), p@, r@));
            }
            i = i + 1;
        }
    }
    proof {
        assert(sv@.skip(i as int).len() == 0);
        assert(out@ + replace_spec(sv@.skip(i as int), p@, r@) =~= out@);
    }
    out
}

/// The Unicode lowercase form of `s`.
pub uninterp spec fn lowercase_spec(s: Seq<char>) -> Seq<char>;

/// `str::to_lowercase`: the Unicode lowercase form of `s`; on ASCII text,
/// each upper-case letter in lower case and every other character as it is.
#[verifier::external_body]
pub fn to_lowercase(s: &str) -> (r: String)
    ensures
        r@ == lowercase_spec(s@),
        (forall|i: int| 0 <= i < s@.len() ==> #[trigger] s@[i] < '\u{80}') ==> r@ == s@.map_values(
            |c: char| ascii_lower(c),
        ),
{
    s.to_lowercase()
}


/// The Unicode uppercase form of `s`.
pub uninterp spec fn uppercase_spec(s: Seq<char>) -> Seq<char>;

/// `str::to_uppercase`: the Unicode uppercase form of `s`.
#[verifier::external_body]
pub fn to_uppercase(s: &str) -> (r: String)
    ensures
        r@ == uppercase_spec(s@),
{
    s.to_uppercase()
}

/// Whether `s` is one of the strings of `v`.
pub fn has_string(v: &Vec<String>, s: &str) -> (b: bool)
    ensures
        b == v.deep_view().contains(s@),
{
    let mut i: usize = 0;
    while i < v.len()
        invariant
            i <= v@.len(),
            forall|j: int| 0 <= j < i ==> v.deep_view()[j] != s@,
        decreases v@.len() - i,
    {
        assert(v.deep_view()[i as int] == v@[i as int]@);
        if str_eq(v[i].as_str(), s) {
            assert(v.deep_view()[i as int] == s@);
            return true;
        }
        i = i + 1;
    }
    false
}

/// `n` spaces.
pub open spec fn spaces(n: nat) -> Seq<char> {
    Seq::new(n, |i: int| ' ')
}

/// `s` padded on the right with spaces to `w` characters (as `{:w}` does).
pub open spec fn pad_right_spec(s: Seq<char>, w: nat) -> Seq<char> {
    if s.len() >= w { s } else { s + spaces((w - s.len()) as nat) }
}

/// `s` padded on the left with spaces to `w` characters (as `{:>w}` does).
pub open spec fn pad_left_spec(s: Seq<char>, w: nat) -> Seq<char> {
    if s.len() >= w { s } else { spaces((w - s.len()) as nat) + s }
}

fn spaces_exec(n: usize) -> (r: String)
    ensures
        r@ == spaces(n as nat),
{
    let mut r = String::new();
    let mut i: usize = 0;
    while i < n
        invariant
            i <= n,
            r@ == spaces(i as nat),
        decreases n - i,
    {
        push_char(&mut r, ' ');
        assert(r@ =~= spaces((i + 1) as nat));
        i = i + 1;
    }
    r
}

/// Pads `s` on the right with spaces to `w` characters.
pub fn pad_right(s: &str, w: usize) -> (r: String)
    ensures
        r@ == pad_right_spec(s@, w as nat),
{
    let n = to_chars(s).len();
    let mut r = String::from_str(s);
    if n < w {
        let sp = spaces_exec(w - n);
        r.append(sp.as_str());
    }
    r
}

/// Pads `s` on the left with spaces to `w` characters.
pub fn pad_left(s: &str, w: usize) -> (r: String)
    ensures
        r@ == pad_left_spec(s@, w as nat),
{
    let n = to_chars(s).len();
    if n < w {
        let mut r = spaces_exec(w - n);
        r.append(s);
        r
    } else {
        String::from_str(s)
    }
}

/// The decimal digits of `n`.
pub open spec fn decimal_spec(n: nat) -> Seq<char>
    decreases n,
{
    if n < 10 {
        seq![((n + 48) as u8) as char]
    } else {
        decimal_spec(n / 10).push((((n % 10) + 48) as u8) as char)
    }
}

/// The decimal text of `n`.
pub fn decimal(n: usize) -> (s: String)
    ensures
        s@ == decimal_spec(n as nat),
    decreases n,
{
    if n < 10 {
        let mut s = String::new();
        push_char(&mut s, ((n as u8) + 48) as char);
        assert(s@ =~= decimal_spec(n as nat));
        s
    } else {
        let mut s = decimal(n / 10);
        push_char(&mut s, (((n % 10) as u8) + 48) as char);
        s
    }
}

/// Splitting by white space, as a scan: `cur` is the word being read and
/// `acc` the words already complete.
pub open spec fn words_acc(s: Seq<char>, cur: Seq<char>, acc: Seq<Seq<char>>) -> Seq<Seq<char>>
    decreases s.len(),
{
    if s.len() == 0 {
        if cur.len() > 0 { acc.push(cur) } else { acc }
    } else if is_white_space(s[0]) {
        words_acc(s.drop_first(), Seq::empty(), if cur.len() > 0 { acc.push(cur) } else { acc })
    } else {
        words_acc(s.drop_first(), cur.push(s[0]), acc)
    }
}

/// The white-space separated words of `s` (what `str::split_whitespace` yields).
pub open spec fn words_spec(s: Seq<char>) -> Seq<Seq<char>> {
    words_acc(s, Seq::empty(), Seq::empty())
}

/// The white-space separated words of `s`.
pub fn split_whitespace(s: &str) -> (r: Vec<String>)
    ensures
        r.deep_view() == words_spec(s@),
{
    let v = to_chars(s);
    let mut acc: Vec<String> = Vec::new();
    let mut cur = String::new();
    let mut i: usize = 0;
    assert(v@.skip(0) =~= v@);
    assert(acc.deep_view() =~= Seq::<Seq<char>>::empty());
    while i < v.len()
        invariant
            v@ == s@,
            i <= v@.len(),
            words_acc(v@.skip(i as int), cur@, acc.deep_view()) == words_spec(s@),
        decreases v@.len() - i,
    {
        let c = v[i];
        let ghost rest = v@.skip(i as int);
        assert(rest.drop_first() =~= v@.skip(i + 1));
        assert(rest[0] == c);
        let ghost acc0 = acc.deep_view();
        let ghost cur0 = cur@;
        if char_is_whitespace(c) {
            if !cur.as_str().is_empty() {
                let w = cur;
                acc.push(w);
                assert(acc.deep_view() =~= acc0.push(cur0));
            }
            cur = String::new();
        } else {
            push_char(&mut cur, c);
        }
        i = i + 1;
    }
    let ghost acc0 = acc.deep_view();
    let ghost cur0 = cur@;
    assert(v@.skip(i as int).len() == 0);
    if !cur.as_str().is_empty() {
        acc.push(cur);
        assert(acc.deep_view() =~= acc0.push(cur0));
    }
    acc
}

/// `parts` joined by `sep` (what `[String]::join` gives).
pub open spec fn join_spec(parts: Seq<Seq<char>>, sep: Seq<char>) -> Seq<char>
    decreases parts.len(),
{
    if parts.len() == 0 {
        Seq::empty()
    } else if parts.len() == 1 {
        parts[0]
    } else {
        join_spec(parts.drop_last(), sep) + sep + parts.last()
    }
}

/// Joins `parts` with `sep` between consecutive parts.
pub fn join(parts: &Vec<String>, sep: &str) -> (r: String)
    ensures
        r@ == join_spec(parts.deep_view(), sep@),
{
    let ghost ps = parts.deep_view();
    let mut s = String::new();
    let mut i: usize = 0;
    while i < parts.len()
        invariant
            ps == parts.deep_view(),
            i <= parts@.len(),
            s@ == join_spec(ps.take(i as int), sep@),
        decreases parts@.len() - i,
    {
        if i > 0 {
            s.append(sep);
        }
        s.append(parts[i].as_str());
        proof {
            let t = ps.take(i as int + 1);
            assert(t.drop_last() =~= ps.take(i as int));
            assert(t.last() == ps[i as int]);
            assert(s@ =~= join_spec(t, sep@));
        }
        i = i + 1;
    }
    assert(ps.take(i as int) =~= ps);
    s
}

/// The decimal text of `n`.
pub fn decimal_u64(n: u64) -> (s: String)
    ensures
        s@ == decimal_spec(n as nat),
    decreases n,
{
    if n < 10 {
        let mut s = String::new();
        push_char(&mut s, ((n as u8) + 48) as char);
        assert(s@ =~= decimal_spec(n as nat));
        s
    } else {
        let mut s = decimal_u64(n / 10);
        push_char(&mut s, (((n % 10) as u8) + 48) as char);
        s
    }
}

/// The decimal text of `v`, with a leading `-` when negative.
pub open spec fn int_text_spec(v: int) -> Seq<char> {
    if v < 0 {
        seq!['-'] + decimal_spec((-v) as nat)
    } else {
        decimal_spec(v as nat)
    }
}

/// The decimal text of `v`, with a leading `-` when negative.
pub fn int_text(v: i64) -> (s: String)
    ensures
        s@ == int_text_spec(v as int),
{
    if v < 0 {
        let m: u64 = ((-(v + 1)) as u64) + 1;
        assert(m == -v);
        let mut s = String::new();
        push_char(&mut s, '-');
        let d = decimal_u64(m);
        s.append(d.as_str());
        assert(s@ =~= seq!['-'] + decimal_spec((-v) as nat));
        s
    } else {
        decimal_u64(v as u64)
    }
}

/// The length in bytes of the UTF-8 form of `s`, as `str::len` gives it.
pub open spec fn byte_len(s: Seq<char>) -> int {
    (vstd::utf8::encode_utf8(s).len() as usize) as int
}

/// A copy of a list of strings.
pub fn copy_strings(v: &Vec<String>) -> (r: Vec<String>)
    ensures
        r.deep_view() == v.deep_view(),
{
    let mut r: Vec<String> = Vec::new();
    let n = v.len();
    let mut i: usize = 0;
    while i < n
        invariant
            n == v@.len(),
            i <= n,
            r@.len() == i,
            forall|j: int| 0 <= j < i ==> (#[trigger] r@[j])@ == v@[j]@,
        decreases n - i,
    {
        r.push(v[i].clone());
        i = i + 1;
    }
    assert(r.deep_view() =~= v.deep_view());
    r
}

/// A line without the `\r` of a `\r\n` ending.
pub open spec fn without_cr(l: Seq<char>) -> Seq<char> {
    if l.len() > 0 && l.last() == '\r' { l.drop_last() } else { l }
}

/// The lines of `s` from the line that starts at `start`, scanning from `i`
/// (what `str::lines` yields: split at `\n`, a `\r` before it dropped, no
/// empty line after a final `\n`).
pub open spec fn lines_from(s: Seq<char>, start: int, i: int) -> Seq<Seq<char>>
    decreases s.len() - i,
{
    if i < start || start < 0 || i >= s.len() {
        if 0 <= start < s.len() {
            seq![s.subrange(start, s.len() as int)]
        } else {
            Seq::empty()
        }
    } else if s[i] == '\n' {
        seq![without_cr(s.subrange(start, i))] + lines_from(s, i + 1, i + 1)
    } else {
        lines_from(s, start, i + 1)
    }
}

/// The lines of `s`.
pub open spec fn lines_spec(s: Seq<char>) -> Seq<Seq<char>> {
    lines_from(s, 0, 0)
}

/// The lines of `s`, as `str::lines` yields them.
pub fn lines(s: &str) -> (r: Vec<String>)
    ensures
        r.deep_view() == lines_spec(s@),
{
    let v = to_chars(s);
    let n = v.len();
    let mut acc: Vec<String> = Vec::new();
    let mut start: usize = 0;
    let mut i: usize = 0;
    while i < n
        invariant
            n == v@.len(),
            v@ == s@,
            start <= i <= n,
            acc.deep_view() + lines_from(v@, start as int, i as int) == lines_spec(s@),
        decreases n - i,
    {
        if v[i] == '\n' {
            let mut end = i;
            if end > start && v[end - 1] == '\r' {
                end = end - 1;
            }
            let line = string_of(&v, start, end);
            proof {
                assert(line@ == without_cr(v@.subrange(start as int, i as int))) by {
                    if i > start && v@[i - 1] == '\r' {
                        assert(v@.subrange(start as int, i as int).drop_last() =~= v@.subrange(start as int, end as int));
                    } else {
                        assert(end == i);
                    }
                }
            }
            let ghost before = acc.deep_view();
            acc.push(line);
            assert(acc.deep_view() =~= before.push(without_cr(v@.subrange(start as int, i as int))));
            assert(before + lines_from(v@, start as int, i as int) =~= acc.deep_view() + lines_from(
                v@,
                i + 1,
                i + 1,
            ));
            start = i + 1;
        }
        i = i + 1;
    }
    if start < n {
        let line = string_of(&v, start, n);
        let ghost before = acc.deep_view();
        acc.push(line);
        assert(acc.deep_view() =~= before + lines_from(v@, start as int, n as int));
    } else {
        assert(acc.deep_view() =~= acc.deep_view() + lines_from(v@, start as int, n as int));
    }
    acc
}

/// The text of the first `n` bytes of the UTF-8 form of `s`.
pub open spec fn byte_prefix(s: Seq<char>, n: int) -> Seq<char> {
    vstd::utf8::decode_utf8(vstd::utf8::encode_utf8(s).subrange(0, n))
}

/// `s` cut to at most `max` bytes: unchanged when it fits, else its first
/// `max - 3` bytes and `...`.
pub open spec fn truncated(s: Seq<char>, max: int) -> Seq<char> {
    if byte_len(s) <= max {
        s
    } else {
        byte_prefix(s, max - 3) + "..."@
    }
}

/// `s` can be cut to `max` bytes: it fits, or `max - 3` is a character
/// boundary of it (`max` at least 3).
pub open spec fn truncatable(s: Seq<char>, max: int) -> bool {
    byte_len(s) <= max || (max >= 3 && vstd::utf8::is_char_boundary(vstd::utf8::encode_utf8(s), max - 3))
}

/// Cuts `s` to at most `max` bytes, marking a cut with `...`.
pub fn truncate(s: &str, max: usize) -> (r: String)
    requires
        truncatable(s@, max as int),
    ensures
        r@ == truncated(s@, max as int),
{
    if s.len() <= max {
        String::from_str(s)
    } else {
        let (head, _) = s.split_at(max - 3);
        proof {
            vstd::utf8::encode_utf8_decode_utf8(head@);
        }
        let mut r = String::from_str(head);
        r.append("...");
        r
    }
}

/// Joined parts are at least as long as the first part.
pub proof fn lemma_join_len(parts: Seq<Seq<char>>, sep: Seq<char>)
    requires
        parts.len() > 0,
    ensures
        join_spec(parts, sep).len() >= parts[0].len(),
    decreases parts.len(),
{
    if parts.len() > 1 {
        lemma_join_len(parts.drop_last(), sep);
    }
}

} // verus!

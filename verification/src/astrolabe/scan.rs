//! Scanning text for the patterns the processors look for: runs of a
//! character class and case-insensitive literals.

use vstd::prelude::*;
use crate::text::{char_is_whitespace, is_white_space, to_chars};

verus! {

/// An ASCII decimal digit.
pub open spec fn is_ascii_digit(c: char) -> bool {
    '0' <= c <= '9'
}

/// Whether the regex crate's class `\d` (Unicode decimal digits, general
/// category `Nd`) holds `c`.
pub uninterp spec fn regex_digit(c: char) -> bool;

/// Whether the regex crate's class `\w` (Unicode word characters: letters,
/// marks, decimal digits, connector punctuation, join controls) holds `c`.
pub uninterp spec fn regex_word(c: char) -> bool;

/// Whether `\d` of the regex crate matches the one character `c`.
#[verifier::external_body]
fn char_in_regex_digit(c: char) -> (b: bool)
    ensures
        b == regex_digit(c),
{
    let mut buf = [0u8; 4];
    regex::Regex::new(r"\A\d\z").map_or(false, |re| re.is_match(c.encode_utf8(&mut buf)))
}

/// Whether `\w` of the regex crate matches the one character `c`.
#[verifier::external_body]
fn char_in_regex_word(c: char) -> (b: bool)
    ensures
        b == regex_word(c),
{
    let mut buf = [0u8; 4];
    regex::Regex::new(r"\A\w\z").map_or(false, |re| re.is_match(c.encode_utf8(&mut buf)))
}

/// A digit as the patterns of this library read it (`\d`): an ASCII
/// decimal digit, or a character beyond ASCII in the regex crate's `\d`
/// (on ASCII that class is exactly `0`-`9`).
pub open spec fn is_digit(c: char) -> bool {
    is_ascii_digit(c) || ('\u{80}' <= c && regex_digit(c))
}

/// A word character as the patterns of this library read it (`\w`): an
/// ASCII letter, digit or underscore, or a character beyond ASCII in the
/// regex crate's `\w` (on ASCII that class is exactly these).
pub open spec fn is_word(c: char) -> bool {
    ('a' <= c <= 'z') || ('A' <= c <= 'Z') || ('0' <= c <= '9') || c == '_' || ('\u{80}' <= c && regex_word(c))
}

/// A character that may stand in a bare URL: neither white space nor
/// one of `<`, `>`, `"`, `'`.
pub open spec fn is_url_char(c: char) -> bool {
    !is_white_space(c) && c != '<' && c != '>' && c != '"' && c != '\''
}

/// The length of the run of characters satisfying `p` that starts at `i`.
pub open spec fn run_of(s: Seq<char>, i: int, p: spec_fn(char) -> bool) -> int
    decreases s.len() - i,
{
    if 0 <= i < s.len() && p(s[i]) {
        1 + run_of(s, i + 1, p)
    } else {
        0
    }
}

/// A run that ends where the predicate first fails has the length `run_of` gives.
pub proof fn lemma_run_of(s: Seq<char>, i: int, j: int, p: spec_fn(char) -> bool)
    requires
        0 <= i <= j <= s.len(),
        forall|k: int| i <= k < j ==> p(#[trigger] s[k]),
        j == s.len() || !p(s[j]),
    ensures
        run_of(s, i, p) == j - i,
    decreases j - i,
{
    if i < j {
        lemma_run_of(s, i + 1, j, p);
    }
}

/// Every character of a run satisfies the predicate, and the run ends.
pub proof fn lemma_run_of_bounds(s: Seq<char>, i: int, p: spec_fn(char) -> bool)
    requires
        0 <= i,
    ensures
        0 <= run_of(s, i, p),
        i + run_of(s, i, p) <= s.len() || run_of(s, i, p) == 0,
        forall|k: int| i <= k < i + run_of(s, i, p) ==> p(#[trigger] s[k]),
        i + run_of(s, i, p) < s.len() ==> !p(s[i + run_of(s, i, p)]),
    decreases s.len() - i,
{
    if 0 <= i < s.len() && p(s[i]) {
        lemma_run_of_bounds(s, i + 1, p);
    }
}

/// A character of a number as written in engagement counts: digit, comma or dot.
pub open spec fn is_num_char(c: char) -> bool {
    is_digit(c) || c == ',' || c == '.'
}

/// A character of a repository path segment: word character, dot or hyphen.
pub open spec fn is_path_char(c: char) -> bool {
    is_word(c) || c == '.' || c == '-'
}

/// Which run to measure.
pub enum Class {
    Digit,
    Word,
    Space,
    UrlChar,
    NumChar,
    PathChar,
    NotGt,
    NotLt,
    Newline,
    AnsiParam,
    NotQuote,
}

/// The predicate of a class.
pub open spec fn class_pred(c: Class) -> spec_fn(char) -> bool {
    match c {
        Class::Digit => |x: char| is_digit(x),
        Class::Word => |x: char| is_word(x),
        Class::Space => |x: char| is_white_space(x),
        Class::UrlChar => |x: char| is_url_char(x),
        Class::NumChar => |x: char| is_num_char(x),
        Class::PathChar => |x: char| is_path_char(x),
        Class::NotGt => |x: char| x != '>',
        Class::NotLt => |x: char| x != '<',
        Class::Newline => |x: char| x == '\n',
        Class::AnsiParam => |x: char| is_ascii_digit(x) || x == ';',
        Class::NotQuote => |x: char| x != '"',
    }
}

/// Whether `c` is a digit (`is_digit`).
pub fn digit_char(c: char) -> (b: bool)
    ensures
        b == is_digit(c),
{
    ('0' <= c && c <= '9') || ('\u{80}' <= c && char_in_regex_digit(c))
}

/// Whether `c` is a word character (`is_word`).
pub fn word_char(c: char) -> (b: bool)
    ensures
        b == is_word(c),
{
    ('a' <= c && c <= 'z') || ('A' <= c && c <= 'Z') || ('0' <= c && c <= '9') || c == '_' || ('\u{80}' <= c
        && char_in_regex_word(c))
}

fn in_class(cls: &Class, c: char) -> (b: bool)
    ensures
        b == (class_pred(*cls))(c),
{
    match cls {
        Class::Digit => digit_char(c),
        Class::Word => word_char(c),
        Class::Space => char_is_whitespace(c),
        Class::UrlChar => !char_is_whitespace(c) && c != '<' && c != '>' && c != '"' && c != '\'',
        Class::NumChar => digit_char(c) || c == ',' || c == '.',
        Class::PathChar => word_char(c) || c == '.' || c == '-',
        Class::NotGt => c != '>',
        Class::NotLt => c != '<',
        Class::Newline => c == '\n',
        Class::AnsiParam => ('0' <= c && c <= '9') || c == ';',
        Class::NotQuote => c != '"',
    }
}

/// The length of the run of class `cls` that starts at `i` in `v`.
pub fn run_len(v: &Vec<char>, i: usize, cls: Class) -> (n: usize)
    ensures
        n == run_of(v@, i as int, class_pred(cls)),
        i + n <= v@.len() || n == 0,
{
    let ghost p = class_pred(cls);
    if i >= v.len() {
        return 0;
    }
    let mut j = i;
    while j < v.len() && in_class(&cls, v[j])
        invariant
            i <= j <= v@.len(),
            p == class_pred(cls),
            forall|k: int| i <= k < j ==> p(#[trigger] v@[k]),
        decreases v@.len() - j,
    {
        j = j + 1;
    }
    proof {
        lemma_run_of(v@, i as int, j as int, p);
    }
    j - i
}

/// ASCII lowercase of `c`.
pub open spec fn ascii_lower(c: char) -> char {
    if 'A' <= c <= 'Z' { ((c as u32) + 32) as char } else { c }
}

/// The simple case fold of `c` onto an ASCII lower-case letter, as a
/// case-insensitive pattern of ASCII text compares: ASCII upper case to
/// lower case, the Kelvin sign to `k` and the long s to `s`; any other
/// character stays as it is.
pub open spec fn fold_lower(c: char) -> char {
    if c == '\u{212A}' {
        'k'
    } else if c == '\u{17F}' {
        's'
    } else {
        ascii_lower(c)
    }
}

/// `s` has `p` (lowercase ASCII) at position `i`, ignoring case.
pub open spec fn ci_text_at(s: Seq<char>, p: Seq<char>, i: int) -> bool {
    0 <= i && i + p.len() <= s.len() && forall|k: int| 0 <= k < p.len() ==> fold_lower(#[trigger] s[i + k]) == p[k]
}

/// `fold_lower` of `c`.
pub fn fold_lower_exec(c: char) -> (r: char)
    ensures
        r == fold_lower(c),
{
    if c == '\u{212A}' {
        'k'
    } else if c == '\u{17F}' {
        's'
    } else if 'A' <= c && c <= 'Z' {
        let r = ((c as u32) + 32) as u8 as char;
        assert(r == ((c as u32) + 32) as char);
        r
    } else {
        c
    }
}

/// Whether `v` has the lowercase ASCII pattern `p` at `i`, ignoring case.
pub fn ci_text_at_exec(v: &Vec<char>, p: &Vec<char>, i: usize) -> (b: bool)
    ensures
        b == ci_text_at(v@, p@, i as int),
{
    if i > v.len() || p.len() > v.len() - i {
        return false;
    }
    let mut k: usize = 0;
    while k < p.len()
        invariant
            i + p@.len() <= v@.len(),
            v@.len() <= usize::MAX,
            k <= p@.len(),
            forall|t: int| 0 <= t < k ==> fold_lower(#[trigger] v@[i + t]) == p@[t],
        decreases p@.len() - k,
    {
        let lc = fold_lower_exec(v[i + k]);
        if lc != p[k] {
            return false;
        }
        k = k + 1;
    }
    true
}

/// Whether `v` has exactly `p` at `i`.
pub open spec fn lit_at(s: Seq<char>, p: Seq<char>, i: int) -> bool {
    0 <= i && i + p.len() <= s.len() && forall|k: int| 0 <= k < p.len() ==> #[trigger] s[i + k] == p[k]
}

/// Whether `v` has exactly `p` at `i`.
pub fn lit_at_exec(v: &Vec<char>, p: &Vec<char>, i: usize) -> (b: bool)
    ensures
        b == lit_at(v@, p@, i as int),
{
    if i > v.len() || p.len() > v.len() - i {
        return false;
    }
    let mut k: usize = 0;
    while k < p.len()
        invariant
            i + p@.len() <= v@.len(),
            v@.len() <= usize::MAX,
            k <= p@.len(),
            forall|t: int| 0 <= t < k ==> #[trigger] v@[i + t] == p@[t],
        decreases p@.len() - k,
    {
        if v[i + k] != p[k] {
            return false;
        }
        k = k + 1;
    }
    true
}

/// Whether `v` has `lit` (lowercase ASCII) at `i`, ignoring case.
pub fn ci_at(v: &Vec<char>, i: usize, lit: &str) -> (b: bool)
    ensures
        b == ci_text_at(v@, lit@, i as int),
{
    let p = to_chars(lit);
    ci_text_at_exec(v, &p, i)
}

/// Whether `v` has exactly `lit` at `i`.
pub fn exact_at(v: &Vec<char>, i: usize, lit: &str) -> (b: bool)
    ensures
        b == lit_at(v@, lit@, i as int),
{
    let p = to_chars(lit);
    lit_at_exec(v, &p, i)
}

} // verus!

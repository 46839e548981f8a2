//! The messaging console's rules: how a typed line is read as a command,
//! how the inbox and a thread are shown, and which polled messages are new.

use vstd::prelude::*;
use vstd::string::StringSliceAdditionalSpecFns;
use vstd::utf8::{decode_utf8, encode_utf8, is_char_boundary};
use crate::astrolabe::scan::is_ascii_digit;
use crate::text::{
    byte_len, decimal, decimal_spec, has_string, lines, lines_spec, lowercase_spec, pad_right, pad_right_spec, str_eq,
    string_of, to_chars, to_lowercase, trim, trim_spec, truncatable, truncate, truncated,
};

verus! {

/// The first position of `c` in `s`, if any.
pub open spec fn index_of_char(s: Seq<char>, c: char) -> Option<int>
    decreases s.len(),
{
    if s.len() == 0 {
        None
    } else if s[0] == c {
        Some(0)
    } else {
        match index_of_char(s.drop_first(), c) {
            Some(i) => Some(i + 1),
            None => None,
        }
    }
}

proof fn lemma_index_of_char(s: Seq<char>, c: char)
    ensures
        match index_of_char(s, c) {
            Some(i) => 0 <= i < s.len() && s[i] == c && forall|j: int| 0 <= j < i ==> s[j] != c,
            None => forall|j: int| 0 <= j < s.len() ==> s[j] != c,
        },
    decreases s.len(),
{
    if s.len() > 0 {
        lemma_index_of_char(s.drop_first(), c);
        if s[0] != c {
            match index_of_char(s.drop_first(), c) {
                Some(i) => {
                    assert forall|j: int| 0 <= j < i + 1 implies s[j] != c by {
                        if j > 0 {
                            assert(s[j] == s.drop_first()[j - 1]);
                        }
                    }
                },
                None => {
                    assert forall|j: int| 0 <= j < s.len() implies s[j] != c by {
                        if j > 0 {
                            assert(s[j] == s.drop_first()[j - 1]);
                        }
                    }
                },
            }
        }
    }
}

/// `s` split at its spaces into at most three parts, the last holding the
/// rest (as `splitn(3, ' ')` splits).
pub open spec fn split3(s: Seq<char>) -> Seq<Seq<char>> {
    match index_of_char(s, ' ') {
        None => seq![s],
        Some(i) => {
            let rest = s.skip(i + 1);
            match index_of_char(rest, ' ') {
                None => seq![s.take(i), rest],
                Some(j) => seq![s.take(i), rest.take(j), rest.skip(j + 1)],
            }
        },
    }
}

fn index_of_space(v: &Vec<char>, from: usize) -> (r: Option<usize>)
    requires
        from <= v@.len(),
    ensures
        match r {
            Some(i) => from <= i < v@.len() && v@[i as int] == ' ' && index_of_char(v@.skip(from as int), ' ') == Some(
                i - from,
            ),
            None => index_of_char(v@.skip(from as int), ' ') is None,
        },
{
    let mut i: usize = from;
    while i < v.len()
        invariant
            from <= i <= v@.len(),
            forall|j: int| from <= j < i ==> v@[j] != ' ',
        decreases v@.len() - i,
    {
        if v[i] == ' ' {
            proof {
                let s = v@.skip(from as int);
                lemma_index_of_char(s, ' ');
                assert(s[i - from] == ' ');
                match index_of_char(s, ' ') {
                    Some(k) => {
                        if k < i - from {
                            assert(s[k] == v@[from + k]);
                            assert(v@[from + k] != ' ');
                        }
                    },
                    None => {},
                }
            }
            return Some(i);
        }
        i = i + 1;
    }
    proof {
        let s = v@.skip(from as int);
        lemma_index_of_char(s, ' ');
        match index_of_char(s, ' ') {
            Some(k) => {
                assert(s[k] == v@[from + k]);
                assert(v@[from + k] != ' ');
            },
            None => {},
        }
    }
    None
}

/// Splits a line at its spaces into at most three parts (see `split3`).
pub fn split_command(line: &str) -> (r: Vec<String>)
    ensures
        r.deep_view() == split3(line@),
{
    let v = to_chars(line);
    let n = v.len();
    assert(v@.skip(0) =~= v@);
    let mut out: Vec<String> = Vec::new();
    match index_of_space(&v, 0) {
        None => {
            out.push(string_of(&v, 0, n));
            assert(out.deep_view() =~= seq![v@]);
        },
        Some(i) => {
            out.push(string_of(&v, 0, i));
            match index_of_space(&v, i + 1) {
                None => {
                    out.push(string_of(&v, i + 1, n));
                    assert(out.deep_view() =~= seq![v@.take(i as int), v@.skip(i + 1)]);
                },
                Some(j) => {
                    out.push(string_of(&v, i + 1, j));
                    out.push(string_of(&v, j + 1, n));
                    let ghost rest = v@.skip(i + 1);
                    assert(rest.take(j - i - 1) =~= v@.subrange(i + 1, j as int));
                    assert(rest.skip(j - i) =~= v@.subrange(j + 1, n as int));
                    assert(out.deep_view() =~= seq![v@.take(i as int), rest.take(j - i - 1), rest.skip(j - i)]);
                },
            }
        },
    }
    out
}

/// The value of the decimal digits `d`.
pub open spec fn digits_value(d: Seq<char>) -> nat
    decreases d.len(),
{
    if d.len() == 0 {
        0
    } else {
        digits_value(d.drop_last()) * 10 + (d.last() as nat - '0' as nat) as nat
    }
}

/// `s` without a leading `+`.
pub open spec fn unsigned_part(s: Seq<char>) -> Seq<char> {
    if s.len() > 0 && s[0] == '+' { s.drop_first() } else { s }
}

/// The number a text writes in decimal (an optional `+`, then at least one
/// digit), if it writes one.
pub open spec fn decimal_text_value(s: Seq<char>) -> Option<nat> {
    let d = unsigned_part(s);
    if d.len() > 0 && forall|i: int| 0 <= i < d.len() ==> is_ascii_digit(#[trigger] d[i]) {
        Some(digits_value(d))
    } else {
        None
    }
}

proof fn lemma_digits_value_grows(d: Seq<char>, i: int, j: int)
    requires
        0 <= i <= j <= d.len(),
        forall|k: int| 0 <= k < d.len() ==> is_ascii_digit(#[trigger] d[k]),
    ensures
        digits_value(d.take(i)) <= digits_value(d.take(j)),
    decreases j - i,
{
    if i < j {
        lemma_digits_value_grows(d, i, j - 1);
        assert(d.take(j).drop_last() =~= d.take(j - 1));
    }
}

/// Reads a decimal number (as `usize::from_str` does): `None` when the text
/// writes no number (see `decimal_text_value`) or one too large.
pub fn parse_usize(s: &str) -> (r: Option<usize>)
    ensures
        r == match decimal_text_value(s@) {
            Some(v) => if v <= usize::MAX { Some(v as usize) } else { None },
            None => None,
        },
{
    let v = to_chars(s);
    let start: usize = if v.len() > 0 && v[0] == '+' { 1 } else { 0 };
    let ghost d = unsigned_part(v@);
    assert(d =~= v@.skip(start as int));
    if start >= v.len() {
        assert(d.len() == 0);
        return None;
    }
    let mut k: usize = start;
    while k < v.len()
        invariant
            start <= k <= v@.len(),
            v@ == s@,
            start == 1 <==> (v@.len() > 0 && v@[0] == '+'),
            d == unsigned_part(v@),
            d =~= v@.skip(start as int),
            forall|m: int| 0 <= m < k - start ==> is_ascii_digit(#[trigger] d[m]),
        decreases v@.len() - k,
    {
        assert(d[k - start] == v@[k as int]);
        if !('0' <= v[k] && v[k] <= '9') {
            assert(!is_ascii_digit(d[k - start]));
            assert(!is_ascii_digit(unsigned_part(s@)[k - start]));
            assert(decimal_text_value(s@) is None);
            return None;
        }
        k = k + 1;
    }
    let mut acc: usize = 0;
    let mut i: usize = start;
    assert(d.take(0) =~= Seq::<char>::empty());
    while i < v.len()
        invariant
            start <= i <= v@.len(),
            v@ == s@,
            d == unsigned_part(v@),
            d =~= v@.skip(start as int),
            d.len() > 0,
            forall|m: int| 0 <= m < d.len() ==> is_ascii_digit(#[trigger] d[m]),
            acc == digits_value(d.take(i - start)),
        decreases v@.len() - i,
    {
        assert(d.take(i - start + 1).drop_last() =~= d.take(i - start));
        assert(d[i - start] == v@[i as int]);
        assert(is_ascii_digit(d[i - start]));
        let digit = (v[i] as u32 - '0' as u32) as usize;
        assert(digits_value(d.take(i - start + 1)) == acc * 10 + digit);
        if acc > (usize::MAX - digit) / 10 {
            proof {
                assert(acc * 10 + digit > usize::MAX) by (nonlinear_arith)
                    requires
                        acc > (usize::MAX - digit) / 10,
                        digit <= 9,
                ;
                lemma_digits_value_grows(d, i - start + 1, d.len() as int);
                assert(d.take(d.len() as int) =~= d);
                assert(decimal_text_value(s@) == Some(digits_value(d)));
            }
            return None;
        }
        assert(acc * 10 + digit <= usize::MAX) by (nonlinear_arith)
            requires
                acc <= (usize::MAX - digit) / 10,
                digit <= 9,
        ;
        acc = acc * 10 + digit;
        i = i + 1;
    }
    assert(d.take(d.len() as int) =~= d);
    assert(decimal_text_value(s@) == Some(digits_value(d)));
    Some(acc)
}

/// A command typed at the console.
#[derive(Debug)]
pub enum ReplCommand {
    /// An empty line.
    Nothing,
    Quit,
    Help,
    Inbox,
    /// Read the thread of the message at this position of the last inbox.
    Read(usize),
    /// Reply in the thread of the message at this position of the last inbox.
    Reply(usize),
    Send { to: String, subject: String },
    Threads,
    /// A command without its arguments; the usage to show.
    Usage(String),
    /// A message number that is no positive number.
    InvalidNumber,
    /// Anything else, by its lower-cased name.
    Unknown(String),
}

/// What a message number gives: the position it names (numbers count from
/// one), or `InvalidNumber`.
pub open spec fn number_command(arg: Seq<char>, read: bool) -> ReplCommandView {
    match decimal_text_value(arg) {
        Some(n) => if 0 < n <= usize::MAX {
            if read {
                ReplCommandView::Read((n - 1) as nat)
            } else {
                ReplCommandView::Reply((n - 1) as nat)
            }
        } else {
            ReplCommandView::InvalidNumber
        },
        None => ReplCommandView::InvalidNumber,
    }
}

/// A command as plain values.
pub enum ReplCommandView {
    Nothing,
    Quit,
    Help,
    Inbox,
    Read(nat),
    Reply(nat),
    Send(Seq<char>, Seq<char>),
    Threads,
    Usage(Seq<char>),
    InvalidNumber,
    Unknown(Seq<char>),
}

/// The plain values of a command.
pub open spec fn command_view(c: ReplCommand) -> ReplCommandView {
    match c {
        ReplCommand::Nothing => ReplCommandView::Nothing,
        ReplCommand::Quit => ReplCommandView::Quit,
        ReplCommand::Help => ReplCommandView::Help,
        ReplCommand::Inbox => ReplCommandView::Inbox,
        ReplCommand::Read(i) => ReplCommandView::Read(i as nat),
        ReplCommand::Reply(i) => ReplCommandView::Reply(i as nat),
        ReplCommand::Send { to, subject } => ReplCommandView::Send(to@, subject@),
        ReplCommand::Threads => ReplCommandView::Threads,
        ReplCommand::Usage(u) => ReplCommandView::Usage(u@),
        ReplCommand::InvalidNumber => ReplCommandView::InvalidNumber,
        ReplCommand::Unknown(c) => ReplCommandView::Unknown(c@),
    }
}

/// The command a typed line gives: the line is trimmed and split at its
/// spaces into at most three parts, the first of which, lower-cased, names
/// the command.
pub open spec fn command_of(line: Seq<char>) -> ReplCommandView {
    let t = trim_spec(line);
    let parts = split3(t);
    let cmd = lowercase_spec(parts[0]);
    if t.len() == 0 {
        ReplCommandView::Nothing
    } else if cmd == "quit"@ || cmd == "exit"@ || cmd == "q"@ {
        ReplCommandView::Quit
    } else if cmd == "help"@ || cmd == "?"@ {
        ReplCommandView::Help
    } else if cmd == "inbox"@ || cmd == "i"@ {
        ReplCommandView::Inbox
    } else if cmd == "read"@ || cmd == "r"@ {
        if parts.len() < 2 {
            ReplCommandView::Usage("  Usage: read <#>"@)
        } else {
            number_command(parts[1], true)
        }
    } else if cmd == "reply"@ || cmd == "re"@ {
        if parts.len() < 2 {
            ReplCommandView::Usage("  Usage: reply <#>"@)
        } else {
            number_command(parts[1], false)
        }
    } else if cmd == "send"@ || cmd == "s"@ {
        if parts.len() < 3 {
            ReplCommandView::Usage("  Usage: send <to> <subject>"@)
        } else {
            ReplCommandView::Send(parts[1], parts[2])
        }
    } else if cmd == "threads"@ || cmd == "t"@ {
        ReplCommandView::Threads
    } else {
        ReplCommandView::Unknown(cmd)
    }
}

fn numbered(arg: &str, read: bool) -> (c: ReplCommand)
    ensures
        command_view(c) == number_command(arg@, read),
{
    match parse_usize(arg) {
        Some(n) => {
            if n > 0 {
                if read {
                    ReplCommand::Read(n - 1)
                } else {
                    ReplCommand::Reply(n - 1)
                }
            } else {
                ReplCommand::InvalidNumber
            }
        },
        None => ReplCommand::InvalidNumber,
    }
}

/// The command a typed line gives (see `command_of`).
pub fn parse_command(line: &str) -> (c: ReplCommand)
    ensures
        command_view(c) == command_of(line@),
{
    let t = trim(line);
    if t.as_str().is_empty() {
        return ReplCommand::Nothing;
    }
    let parts = split_command(t.as_str());
    assert(split3(t@).len() >= 1);
    assert(parts@.len() >= 1);
    assert(parts.deep_view()[0] == parts@[0]@);
    let lc = to_lowercase(parts[0].as_str());
    let cmd = lc.as_str();
    if str_eq(cmd, "quit") || str_eq(cmd, "exit") || str_eq(cmd, "q") {
        ReplCommand::Quit
    } else if str_eq(cmd, "help") || str_eq(cmd, "?") {
        ReplCommand::Help
    } else if str_eq(cmd, "inbox") || str_eq(cmd, "i") {
        ReplCommand::Inbox
    } else if str_eq(cmd, "read") || str_eq(cmd, "r") {
        if parts.len() < 2 {
            ReplCommand::Usage(String::from_str("  Usage: read <#>"))
        } else {
            assert(parts.deep_view()[1] == parts@[1]@);
            numbered(parts[1].as_str(), true)
        }
    } else if str_eq(cmd, "reply") || str_eq(cmd, "re") {
        if parts.len() < 2 {
            ReplCommand::Usage(String::from_str("  Usage: reply <#>"))
        } else {
            assert(parts.deep_view()[1] == parts@[1]@);
            numbered(parts[1].as_str(), false)
        }
    } else if str_eq(cmd, "send") || str_eq(cmd, "s") {
        if parts.len() < 3 {
            ReplCommand::Usage(String::from_str("  Usage: send <to> <subject>"))
        } else {
            assert(parts.deep_view()[1] == parts@[1]@);
            assert(parts.deep_view()[2] == parts@[2]@);
            ReplCommand::Send { to: parts[1].clone(), subject: parts[2].clone() }
        }
    } else if str_eq(cmd, "threads") || str_eq(cmd, "t") {
        ReplCommand::Threads
    } else {
        ReplCommand::Unknown(lc)
    }
}

/// A composed text ends at a line that is a single `.` (spaces aside).
pub fn ends_composition(line: &str) -> (b: bool)
    ensures
        b == (trim_spec(line@) == "."@),
{
    let t = trim(line);
    str_eq(t.as_str(), ".")
}

/// The bytes `a..b` of `s` as text, when both are character boundaries (as
/// `str::get` gives them).
pub open spec fn byte_range(s: Seq<char>, a: int, b: int) -> Option<Seq<char>> {
    let e = encode_utf8(s);
    if 0 <= a <= b <= e.len() && is_char_boundary(e, a) && is_char_boundary(e, b) {
        Some(decode_utf8(e.subrange(a, b)))
    } else {
        None
    }
}

/// The bytes `a..b` of `s` as text (see `byte_range`).
pub fn str_get(s: &str, a: usize, b: usize) -> (r: Option<String>)
    ensures
        match r {
            Some(x) => byte_range(s@, a as int, b as int) == Some(x@),
            None => byte_range(s@, a as int, b as int) is None,
        },
{
    broadcast use vstd::utf8::encode_utf8_valid_utf8, vstd::utf8::encode_utf8_decode_utf8,
        vstd::utf8::is_char_boundary_iff_not_is_continuation_byte, vstd::utf8::is_char_boundary_start_end_of_seq;

    let n = s.as_bytes().len();
    if !(a <= b && b <= n) {
        return None;
    }
    let ba = s.is_char_boundary(a);
    let bb = s.is_char_boundary(b);
    if !(ba && bb) {
        assert(!(is_char_boundary(encode_utf8(s@), a as int) && is_char_boundary(encode_utf8(s@), b as int)));
        return None;
    }
    let (head, _) = s.split_at(b);
    let ghost e = s.spec_bytes();
    let ghost h = head.spec_bytes();
    proof {
        assert(h =~= e.subrange(0, b as int));
        vstd::utf8::encode_utf8_valid_utf8(s@);
        vstd::utf8::encode_utf8_valid_utf8(head@);
        if a == b {
            vstd::utf8::is_char_boundary_start_end_of_seq(h);
        } else if a > 0 {
            assert(h[a as int] == e[a as int]);
            vstd::utf8::is_char_boundary_iff_not_is_continuation_byte(e, a as int);
            vstd::utf8::is_char_boundary_iff_not_is_continuation_byte(h, a as int);
        } else {
            vstd::utf8::is_char_boundary_start_end_of_seq(h);
        }
    }
    let (_, mid) = head.split_at(a);
    proof {
        assert(mid.spec_bytes() =~= e.subrange(a as int, b as int));
    }
    Some(String::from_str(mid))
}

/// The text of an optional field, or a default.
pub open spec fn or_default(o: Option<String>, d: Seq<char>) -> Seq<char> {
    match o {
        Some(s) => s@,
        None => d,
    }
}

/// A message of the inbox or of a thread, as the server gives it.
#[derive(Debug, Clone)]
pub struct InboxMessage {
    pub id: Option<String>,
    pub from: Option<String>,
    pub subject: Option<String>,
    pub content: Option<String>,
    pub intent: Option<String>,
    pub thread_id: Option<String>,
    pub created_at: Option<String>,
}

/// The time (hours and minutes) shown for a message: bytes 11 to 16 of its
/// creation time, or nothing.
pub open spec fn clock_of(created_at: Option<String>) -> Seq<char> {
    match byte_range(or_default(created_at, Seq::empty()), 11, 16) {
        Some(t) => t,
        None => Seq::empty(),
    }
}

/// The inbox line of the message at position `i`.
pub open spec fn inbox_line(i: nat, m: InboxMessage) -> Seq<char> {
    "  "@ + pad_right_spec(decimal_spec(i + 1), 4) + " "@ + pad_right_spec(or_default(m.from, "?"@), 14) + " "@
        + pad_right_spec(or_default(m.intent, "?"@), 10) + " "@ + truncated(or_default(m.subject, "(no subject)"@), 40)
        + " ["@ + clock_of(m.created_at) + "]"@
}

/// The inbox as shown: a mark when it is empty, else a header, a rule, and
/// a line per message.
pub open spec fn inbox_lines_spec(msgs: Seq<InboxMessage>) -> Seq<Seq<char>> {
    if msgs.len() == 0 {
        seq!["  (empty)"@]
    } else {
        seq![
            "  "@ + pad_right_spec("#"@, 4) + " "@ + pad_right_spec("FROM"@, 14) + " "@ + pad_right_spec("INTENT"@, 10)
                + " SUBJECT"@,
            "  "@ + Seq::new(70, |k: int| '-'),
        ] + Seq::new(msgs.len(), |i: int| inbox_line(i as nat, msgs[i]))
    }
}

fn text_or(o: &Option<String>, d: &str) -> (r: String)
    ensures
        r@ == or_default(*o, d@),
{
    match o {
        Some(s) => s.clone(),
        None => String::from_str(d),
    }
}

fn inbox_line_exec(i: usize, m: &InboxMessage) -> (r: String)
    requires
        i < usize::MAX,
        truncatable(or_default(m.subject, "(no subject)"@), 40),
    ensures
        r@ == inbox_line(i as nat, *m),
{
    let mut r = String::from_str("  ");
    let num = decimal(i + 1);
    let a = pad_right(num.as_str(), 4);
    r.append(a.as_str());
    r.append(" ");
    let from = text_or(&m.from, "?");
    let b = pad_right(from.as_str(), 14);
    r.append(b.as_str());
    r.append(" ");
    let intent = text_or(&m.intent, "?");
    let c = pad_right(intent.as_str(), 10);
    r.append(c.as_str());
    r.append(" ");
    let subject = text_or(&m.subject, "(no subject)");
    let t = truncate(subject.as_str(), 40);
    r.append(t.as_str());
    r.append(" [");
    let created = text_or(&m.created_at, "");
    proof {
        reveal_strlit("");
    }
    match str_get(created.as_str(), 11, 16) {
        Some(clock) => r.append(clock.as_str()),
        None => {},
    }
    r.append("]");
    r
}

/// The inbox as shown (see `inbox_lines_spec`).
pub fn inbox_lines(msgs: &Vec<InboxMessage>) -> (r: Vec<String>)
    requires
        msgs@.len() < usize::MAX,
        forall|i: int| 0 <= i < msgs@.len() ==> truncatable(or_default(#[trigger] msgs@[i].subject, "(no subject)"@), 40),
    ensures
        r.deep_view() == inbox_lines_spec(msgs@),
{
    let mut out: Vec<String> = Vec::new();
    if msgs.len() == 0 {
        out.push(String::from_str("  (empty)"));
        assert(out.deep_view() =~= seq!["  (empty)"@]);
        return out;
    }
    let mut head = String::from_str("  ");
    let a = pad_right("#", 4);
    head.append(a.as_str());
    head.append(" ");
    let b = pad_right("FROM", 14);
    head.append(b.as_str());
    head.append(" ");
    let c = pad_right("INTENT", 10);
    head.append(c.as_str());
    head.append(" SUBJECT");
    out.push(head);
    let mut rule = String::from_str("  ");
    let mut k: usize = 0;
    while k < 70
        invariant
            k <= 70,
            rule@ == "  "@ + Seq::new(k as nat, |j: int| '-'),
        decreases 70 - k,
    {
        crate::text::push_char(&mut rule, '-');
        assert(rule@ =~= "  "@ + Seq::new((k + 1) as nat, |j: int| '-'));
        k = k + 1;
    }
    out.push(rule);
    let ghost top = out.deep_view();
    let mut i: usize = 0;
    while i < msgs.len()
        invariant
            i <= msgs@.len(),
            msgs@.len() < usize::MAX,
            forall|j: int| 0 <= j < msgs@.len() ==> truncatable(or_default(#[trigger] msgs@[j].subject, "(no subject)"@), 40),
            top.len() == 2,
            out.deep_view() == top + Seq::new(i as nat, |j: int| inbox_line(j as nat, msgs@[j])),
        decreases msgs@.len() - i,
    {
        let line = inbox_line_exec(i, &msgs[i]);
        let ghost before = out.deep_view();
        let ghost lv = line@;
        out.push(line);
        assert(out.deep_view() =~= before.push(lv));
        assert(out.deep_view() =~= top + Seq::new((i + 1) as nat, |j: int| inbox_line(j as nat, msgs@[j])));
        i = i + 1;
    }
    assert(out.deep_view() =~= inbox_lines_spec(msgs@));
    out
}

/// The ids of `ids` not yet in `seen`, each counted once, in order.
pub open spec fn fresh_ids(seen: Seq<Seq<char>>, ids: Seq<Option<String>>) -> Seq<Seq<char>>
    decreases ids.len(),
{
    if ids.len() == 0 {
        Seq::empty()
    } else {
        let before = fresh_ids(seen, ids.drop_last());
        match ids.last() {
            Some(id) => if seen.contains(id@) || before.contains(id@) {
                before
            } else {
                before.push(id@)
            },
            None => before,
        }
    }
}

/// Records the polled message ids in `seen`: each id not seen before is
/// added, in order; the number added.
pub fn record_new_ids(seen: &mut Vec<String>, ids: &Vec<Option<String>>) -> (n: usize)
    ensures
        final(seen).deep_view() == old(seen).deep_view() + fresh_ids(old(seen).deep_view(), ids@),
        n == fresh_ids(old(seen).deep_view(), ids@).len(),
{
    let ghost s0 = seen.deep_view();
    let mut n: usize = 0;
    let mut i: usize = 0;
    while i < ids.len()
        invariant
            i <= ids@.len(),
            seen.deep_view() == s0 + fresh_ids(s0, ids@.take(i as int)),
            n == fresh_ids(s0, ids@.take(i as int)).len(),
            n <= i,
        decreases ids@.len() - i,
    {
        assert(ids@.take(i as int + 1).drop_last() =~= ids@.take(i as int));
        assert(ids@.take(i as int + 1).last() == ids@[i as int]);
        match &ids[i] {
            Some(id) => {
                let ghost f = fresh_ids(s0, ids@.take(i as int));
                let known = has_string(seen, id.as_str());
                proof {
                    if s0.contains(id@) {
                        let k = choose|k: int| 0 <= k < s0.len() && s0[k] == id@;
                        assert((s0 + f)[k] == id@);
                    }
                    if f.contains(id@) {
                        let k = choose|k: int| 0 <= k < f.len() && f[k] == id@;
                        assert((s0 + f)[s0.len() + k] == id@);
                    }
                    if (s0 + f).contains(id@) {
                        let k = choose|k: int| 0 <= k < (s0 + f).len() && (s0 + f)[k] == id@;
                        if k < s0.len() {
                            assert(s0[k] == id@);
                        } else {
                            assert(f[k - s0.len()] == id@);
                        }
                    }
                }
                if !known {
                    let ghost before = seen.deep_view();
                    seen.push(id.clone());
                    assert(seen.deep_view() =~= before.push(id@));
                    assert(seen.deep_view() =~= s0 + f.push(id@));
                    n = n + 1;
                }
            },
            None => {},
        }
        i = i + 1;
    }
    assert(ids@.take(i as int) =~= ids@);
    n
}

/// The notice of new messages: their count and the sender and subject of
/// the last message of the inbox (`?` when unknown).
pub open spec fn new_messages_notice_spec(count: nat, from: Seq<char>, subject: Seq<char>) -> Seq<char> {
    "\n  ** "@ + decimal_spec(count) + " new message(s) \u{2014} latest from "@ + from + " re: "@ + truncated(subject, 50)
        + " **\n"@
}

/// The notice of new messages (see `new_messages_notice_spec`).
pub fn new_messages_notice(count: usize, from: &str, subject: &str) -> (r: String)
    requires
        truncatable(subject@, 50),
    ensures
        r@ == new_messages_notice_spec(count as nat, from@, subject@),
{
    let mut r = String::from_str("\n  ** ");
    let c = decimal(count);
    r.append(c.as_str());
    r.append(" new message(s) \u{2014} latest from ");
    r.append(from);
    r.append(" re: ");
    let t = truncate(subject, 50);
    r.append(t.as_str());
    r.append(" **\n");
    r
}

/// A thread as shown: its subject under a rule, then each message with its
/// time (the first 19 bytes of its creation time, or all of it) and sender,
/// and its content line by line, indented.
pub open spec fn thread_lines_spec(subject: Option<String>, msgs: Seq<InboxMessage>) -> Seq<Seq<char>>
    decreases msgs.len(),
{
    if msgs.len() == 0 {
        seq![Seq::empty(), "  Thread: "@ + or_default(subject, "(no subject)"@), "  "@ + Seq::new(60, |k: int| '=')]
    } else {
        let m = msgs.last();
        let time = or_default(m.created_at, Seq::empty());
        let shown = match byte_range(time, 0, 19) {
            Some(t) => t,
            None => time,
        };
        thread_lines_spec(subject, msgs.drop_last()) + seq![
            Seq::empty(),
            "  ["@ + shown + "] "@ + or_default(m.from, "?"@) + " :"@,
        ] + lines_spec(or_default(m.content, Seq::empty())).map_values(|l: Seq<char>| "    "@ + l)
    }
}

/// A thread as shown (see `thread_lines_spec`), with an empty line after it.
pub fn thread_lines(subject: &Option<String>, msgs: &Vec<InboxMessage>) -> (r: Vec<String>)
    ensures
        r.deep_view() == thread_lines_spec(*subject, msgs@).push(Seq::empty()),
{
    proof {
        reveal_strlit("");
    }
    let mut out: Vec<String> = Vec::new();
    out.push(String::new());
    let mut t = String::from_str("  Thread: ");
    let s = text_or(subject, "(no subject)");
    t.append(s.as_str());
    out.push(t);
    let mut rule = String::from_str("  ");
    let mut k: usize = 0;
    while k < 60
        invariant
            k <= 60,
            rule@ == "  "@ + Seq::new(k as nat, |j: int| '='),
        decreases 60 - k,
    {
        crate::text::push_char(&mut rule, '=');
        assert(rule@ =~= "  "@ + Seq::new((k + 1) as nat, |j: int| '='));
        k = k + 1;
    }
    out.push(rule);
    assert(out.deep_view() =~= thread_lines_spec(*subject, msgs@.take(0)));
    let mut i: usize = 0;
    while i < msgs.len()
        invariant
            i <= msgs@.len(),
            out.deep_view() == thread_lines_spec(*subject, msgs@.take(i as int)),
        decreases msgs@.len() - i,
    {
        proof {
            reveal_strlit("");
        }
        assert(msgs@.take(i as int + 1).drop_last() =~= msgs@.take(i as int));
        let m = &msgs[i];
        let time = text_or(&m.created_at, "");
        let shown = match str_get(time.as_str(), 0, 19) {
            Some(x) => x,
            None => time.clone(),
        };
        let ghost before = out.deep_view();
        out.push(String::new());
        let mut head = String::from_str("  [");
        head.append(shown.as_str());
        head.append("] ");
        let from = text_or(&m.from, "?");
        head.append(from.as_str());
        head.append(" :");
        out.push(head);
        let content = text_or(&m.content, "");
        let ls = lines(content.as_str());
        let ghost mid = out.deep_view();
        let mut j: usize = 0;
        while j < ls.len()
            invariant
                j <= ls@.len(),
                out.deep_view() == mid + ls.deep_view().take(j as int).map_values(|l: Seq<char>| "    "@ + l),
            decreases ls@.len() - j,
        {
            let mut l = String::from_str("    ");
            l.append(ls[j].as_str());
            let ghost b = out.deep_view();
            let ghost lv = l@;
            out.push(l);
            assert(out.deep_view() =~= b.push(lv));
            assert(ls.deep_view()[j as int] == ls@[j as int]@);
            assert(ls.deep_view().take(j as int + 1).map_values(|l: Seq<char>| "    "@ + l) =~= ls.deep_view().take(
                j as int,
            ).map_values(|l: Seq<char>| "    "@ + l).push("    "@ + ls.deep_view()[j as int]));
            j = j + 1;
        }
        assert(ls.deep_view().take(j as int) =~= ls.deep_view());
        assert(msgs@.take(i as int + 1).last() == msgs@[i as int]);
        assert(out.deep_view() =~= thread_lines_spec(*subject, msgs@.take(i as int + 1)));
        i = i + 1;
    }
    assert(msgs@.take(i as int) =~= msgs@);
    out.push(String::new());
    out
}

} // verus!

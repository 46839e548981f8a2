//! Reading the replies of the knowledge-graph tool server.
//!
//! A tool call is answered as a server-sent event stream; the first line
//! that carries `data: ` holds the JSON reply, and the reply's first content
//! item holds the tool's own JSON result as text.
use vstd::prelude::*;
use crate::text::{lines, lines_spec, string_of, to_chars};

verus! {

/// The marker of an event-stream data line.
pub open spec fn data_marker() -> Seq<char> {
    seq!['d', 'a', 't', 'a', ':', ' ']
}

/// Whether line `l` is an event-stream data line.
pub open spec fn is_data_line(l: Seq<char>) -> bool {
    l.len() >= 6 && l.subrange(0, 6) == data_marker()
}

/// What follows the marker on the first data line among `ls`, if any.
pub open spec fn first_data_payload(ls: Seq<Seq<char>>) -> Option<Seq<char>>
    decreases ls.len(),
{
    if ls.len() == 0 {
        None
    } else if is_data_line(ls[0]) {
        Some(ls[0].subrange(6, ls[0].len() as int))
    } else {
        first_data_payload(ls.drop_first())
    }
}

fn data_line_payload(l: &str) -> (r: Option<String>)
    ensures
        is_data_line(l@) ==> r is Some && r->0@ == l@.subrange(6, l@.len() as int),
        !is_data_line(l@) ==> r is None,
{
    let v = to_chars(l);
    let n = v.len();
    if n >= 6 && v[0] == 'd' && v[1] == 'a' && v[2] == 't' && v[3] == 'a' && v[4] == ':' && v[5]
        == ' ' {
        assert(v@.subrange(0, 6) =~= data_marker());
        Some(string_of(&v, 6, n))
    } else {
        proof {
            if n >= 6 {
                assert(v@.subrange(0, 6)[0] == v@[0]);
                assert(v@.subrange(0, 6)[1] == v@[1]);
                assert(v@.subrange(0, 6)[2] == v@[2]);
                assert(v@.subrange(0, 6)[3] == v@[3]);
                assert(v@.subrange(0, 6)[4] == v@[4]);
                assert(v@.subrange(0, 6)[5] == v@[5]);
            }
        }
        None
    }
}

/// The payload of the first `data: ` line of an event-stream reply body,
/// or `None` when no line carries one.
pub fn sse_data_payload(body: &str) -> (r: Option<String>)
    ensures
        match first_data_payload(lines_spec(body@)) {
            Some(p) => r is Some && r->0@ == p,
            None => r is None,
        },
{
    let ls = lines(body);
    let n = ls.len();
    let mut i: usize = 0;
    assert(ls.deep_view().skip(0) =~= ls.deep_view());
    while i < n
        invariant
            n == ls@.len(),
            i <= n,
            ls.deep_view() == lines_spec(body@),
            first_data_payload(ls.deep_view().skip(i as int)) == first_data_payload(
                lines_spec(body@),
            ),
        decreases n - i,
    {
        let ghost rest = ls.deep_view().skip(i as int);
        assert(rest[0] == ls[i as int]@);
        let found = data_line_payload(ls[i].as_str());
        match found {
            Some(p) => {
                return Some(p);
            },
            None => {
                assert(rest.drop_first() =~= ls.deep_view().skip(i + 1));
            },
        }
        i = i + 1;
    }
    assert(ls.deep_view().skip(n as int) =~= Seq::<Seq<char>>::empty());
    None
}

/// What a tool reply says, from its `result.isError` flag and the text of its
/// first content item where the reply has them: the flag defaults to
/// `false` and the text to an empty JSON object.
pub fn tool_outcome(is_error: Option<bool>, text: Option<String>) -> (r: (bool, String))
    ensures
        r.0 == (is_error == Some(true)),
        text is Some ==> r.1@ == text->0@,
        text is None ==> r.1@ == seq!['{', '}'],
{
    let flag = match is_error {
        Some(b) => b,
        None => false,
    };
    let body = match text {
        Some(t) => t,
        None => {
            let mut s = String::new();
            crate::text::push_char(&mut s, '{');
            crate::text::push_char(&mut s, '}');
            s
        },
    };
    (flag, body)
}

} // verus!

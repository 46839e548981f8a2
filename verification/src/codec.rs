//! Byte encodings and digests used by the library.

use vstd::prelude::*;
use vstd::string::StringSliceAdditionalSpecFns;
use vstd::utf8::{encode_utf8, is_ascii_chars, is_ascii_chars_encode_utf8};

verus! {

/// The lowercase hex digit for `n < 16`.
pub open spec fn hex_digit(n: int) -> char {
    if n < 10 { ((n + 48) as u8) as char } else { ((n + 87) as u8) as char }
}

/// Lowercase hex text of `b`: two digits per byte, high nibble first.
pub open spec fn hex_encode_spec(b: Seq<u8>) -> Seq<char> {
    Seq::new(2 * b.len(), |i: int| if i % 2 == 0 { hex_digit(b[i / 2] as int / 16) } else { hex_digit(b[i / 2] as int % 16) })
}

/// The value of a hex digit byte (either case), if it is one.
pub open spec fn hex_value(c: u8) -> Option<u8> {
    if 48 <= c <= 57 {
        Some((c - 48) as u8)
    } else if 97 <= c <= 102 {
        Some((c - 87) as u8)
    } else if 65 <= c <= 70 {
        Some((c - 55) as u8)
    } else {
        None
    }
}

/// The bytes whose hex text is `b`, if `b` is hex text of even length.
pub open spec fn hex_decode_spec(b: Seq<u8>) -> Option<Seq<u8>> {
    if b.len() % 2 == 0 && forall|i: int| 0 <= i < b.len() ==> (#[trigger] hex_value(b[i])) is Some {
        Some(Seq::new(b.len() / 2, |i: int|
            (hex_value(b[2 * i]).unwrap() * 16 + hex_value(b[2 * i + 1]).unwrap()) as u8))
    } else {
        None
    }
}

/// `hex::encode`: lowercase hex text, two digits per byte.
#[verifier::external_body]
pub fn hex_encode(data: &[u8]) -> (r: String)
    ensures
        r@ == hex_encode_spec(data@),
{
    hex::encode(data)
}

/// `hex::decode`: fails on odd length or a byte that is not a hex digit
/// (either case); otherwise the decoded bytes.
#[verifier::external_body]
pub fn hex_decode(text: &str) -> (r: Option<Vec<u8>>)
    ensures
        match r {
            Some(v) => hex_decode_spec(text.spec_bytes()) == Some(v@),
            None => hex_decode_spec(text.spec_bytes()) is None,
        },
{
    hex::decode(text).ok()
}

/// SHA-256 digest of `data`.
pub uninterp spec fn sha256_spec(data: Seq<u8>) -> Seq<u8>;

/// `sha2::Sha256::digest`: the 32-byte SHA-256 digest.
#[verifier::external_body]
pub fn sha256(data: &[u8]) -> (r: Vec<u8>)
    ensures
        r@ == sha256_spec(data@),
        r@.len() == 32,
{
    <sha2::Sha256 as sha2::Digest>::digest(data).to_vec()
}

/// Lowercase hex of the SHA-256 digest of the UTF-8 bytes of `text`.
pub fn sha256_hex(text: &str) -> (r: String)
    ensures
        r@ == hex_encode_spec(sha256_spec(text.spec_bytes())),
        r@.len() == 64,
{
    let d = sha256(text.as_bytes());
    hex_encode(d.as_slice())
}


proof fn lemma_hex_digit(n: int)
    requires
        0 <= n < 16,
    ensures
        '\0' <= hex_digit(n) <= '\u{7f}',
        hex_value(hex_digit(n) as u8) == Some(n as u8),
{
    if n < 10 {
        let x = (n + 48) as u8;
        assert(x as char as u8 == x);
    } else {
        let x = (n + 87) as u8;
        assert(x as char as u8 == x);
    }
}

/// Decoding the hex text of `b` gives back `b`.
pub proof fn lemma_hex_roundtrip(b: Seq<u8>)
    ensures
        hex_decode_spec(encode_utf8(hex_encode_spec(b))) == Some(b),
{
    let c = hex_encode_spec(b);
    assert forall|i: int| 0 <= i < c.len() implies '\0' <= #[trigger] c[i] <= '\u{7f}' && hex_value(c[i] as u8) == Some(
        if i % 2 == 0 { (b[i / 2] / 16) as u8 } else { (b[i / 2] % 16) as u8 }) by {
        if i % 2 == 0 {
            lemma_hex_digit(b[i / 2] as int / 16);
        } else {
            lemma_hex_digit(b[i / 2] as int % 16);
        }
    }
    assert(is_ascii_chars(c));
    is_ascii_chars_encode_utf8(c);
    let e = encode_utf8(c);
    assert forall|i: int| 0 <= i < e.len() implies (#[trigger] hex_value(e[i])) is Some by {
        assert(c[i] as u8 == e[i]);
    }
    let d = hex_decode_spec(e).unwrap();
    assert forall|i: int| 0 <= i < b.len() implies d[i] == b[i] by {
        assert(c[2 * i] as u8 == e[2 * i]);
        assert(c[2 * i + 1] as u8 == e[2 * i + 1]);
        assert((2 * i) / 2 == i && (2 * i) % 2 == 0);
        assert((2 * i + 1) / 2 == i && (2 * i + 1) % 2 == 1);
        assert(b[i] / 16 * 16 + b[i] % 16 == b[i]);
    }
    assert(d =~= b);
}

} // verus!

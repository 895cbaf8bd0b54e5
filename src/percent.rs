//! Percent-encoding of text, as done by the `urlencoding` crate.
use vstd::prelude::*;
use vstd::utf8::*;

verus! {

/// Bytes that percent-encoding leaves as they are.
pub open spec fn is_unreserved(b: u8) -> bool {
    (0x30 <= b && b <= 0x39) || (0x41 <= b && b <= 0x5a) || (0x61 <= b && b <= 0x7a) || b == 0x2d
        || b == 0x2e || b == 0x5f || b == 0x7e
}

/// Upper-case hexadecimal digit of a nibble, as a byte.
pub open spec fn hex_upper(n: u8) -> u8 {
    if n < 10 {
        (0x30 + n) as u8
    } else {
        (0x41 + n - 10) as u8
    }
}

/// Value of a hexadecimal digit in either case.
pub open spec fn hex_value(b: u8) -> Option<u8> {
    if 0x30 <= b && b <= 0x39 {
        Some((b - 0x30) as u8)
    } else if 0x41 <= b && b <= 0x46 {
        Some((b - 0x41 + 10) as u8)
    } else if 0x61 <= b && b <= 0x66 {
        Some((b - 0x61 + 10) as u8)
    } else {
        None
    }
}

pub open spec fn escape_byte(b: u8) -> Seq<u8> {
    if is_unreserved(b) {
        seq![b]
    } else {
        seq![0x25u8, hex_upper(b / 16), hex_upper(b % 16)]
    }
}

/// Percent-encoding of a byte string.
pub open spec fn pct_encode(b: Seq<u8>) -> Seq<u8>
    decreases b.len(),
{
    if b.len() == 0 {
        seq![]
    } else {
        escape_byte(b[0]) + pct_encode(b.drop_first())
    }
}

/// Percent-decoding: `%` and two hex digits give one byte; anything else stays.
pub open spec fn pct_decode(b: Seq<u8>) -> Seq<u8>
    decreases b.len(),
{
    if b.len() == 0 {
        seq![]
    } else if b[0] == 0x25 && b.len() >= 3 && hex_value(b[1]) is Some && hex_value(b[2]) is Some {
        seq![(hex_value(b[1])->Some_0 * 16 + hex_value(b[2])->Some_0) as u8] + pct_decode(
            b.subrange(3, b.len() as int),
        )
    } else {
        seq![b[0]] + pct_decode(b.drop_first())
    }
}

/// What URL encoding turns a text into.
pub open spec fn url_encode_output(t: Seq<char>) -> Seq<char> {
    decode_utf8(pct_encode(encode_utf8(t)))
}

/// What URL decoding turns a text into: the decoded text, or `Invalid` where the
/// decoded bytes are not UTF-8.
pub open spec fn url_decode_output(t: Seq<char>) -> Seq<char> {
    let d = pct_decode(encode_utf8(t));
    if valid_utf8(d) {
        decode_utf8(d)
    } else {
        "Invalid"@
    }
}

/// Relies on urlencoding::encode: each unreserved byte of the UTF-8 form is kept,
/// every other byte becomes `%` and two upper-case hex digits.
#[verifier::external_body]
fn pct_encode_str(s: &str) -> (r: String)
    ensures
        encode_utf8(r@) == pct_encode(encode_utf8(s@)),
{
    urlencoding::encode(s).into_owned()
}

/// Relies on urlencoding::decode: the bytes are percent-decoded, and the result
/// is text exactly when those bytes are valid UTF-8.
#[verifier::external_body]
fn pct_decode_str(s: &str) -> (r: Option<String>)
    ensures
        r is Some <==> valid_utf8(pct_decode(encode_utf8(s@))),
        r is Some ==> encode_utf8(r->Some_0@) == pct_decode(encode_utf8(s@)),
{
    match urlencoding::decode(s) {
        Ok(t) => Some(t.into_owned()),
        Err(_) => None,
    }
}

proof fn lemma_escape_byte_decodes(b: u8, rest: Seq<u8>)
    ensures
        pct_decode(escape_byte(b) + rest) == seq![b] + pct_decode(rest),
{
    let e = escape_byte(b) + rest;
    if is_unreserved(b) {
        assert(e[0] == b);
        assert(e.drop_first() =~= rest);
    } else {
        let hi = (b / 16) as u8;
        let lo = (b % 16) as u8;
        assert(hex_value(hex_upper(hi)) == Some(hi));
        assert(hex_value(hex_upper(lo)) == Some(lo));
        assert(e[1] == hex_upper(hi));
        assert(e[2] == hex_upper(lo));
        assert(e.subrange(3, e.len() as int) =~= rest);
        assert((hi * 16 + lo) as u8 == b);
    }
}

/// Percent-decoding undoes percent-encoding, for every byte string.
pub proof fn lemma_pct_round_trip(b: Seq<u8>)
    ensures
        pct_decode(pct_encode(b)) == b,
    decreases b.len(),
{
    if b.len() > 0 {
        lemma_pct_round_trip(b.drop_first());
        lemma_escape_byte_decodes(b[0], pct_encode(b.drop_first()));
        assert(b =~= seq![b[0]] + b.drop_first());
    }
}

/// Percent-encodes the UTF-8 form of a text.
pub fn url_encode_text(s: &str) -> (r: String)
    ensures
        encode_utf8(r@) == pct_encode(encode_utf8(s@)),
        r@ == url_encode_output(s@),
{
    let r = pct_encode_str(s);
    proof {
        vstd::utf8::encode_utf8_decode_utf8(r@);
    }
    r
}

/// Percent-decodes a text; where the result is not UTF-8 it is `Invalid`.
pub fn url_decode_text(s: &str) -> (r: String)
    ensures
        r@ == url_decode_output(s@),
{
    match pct_decode_str(s) {
        Some(t) => {
            proof {
                vstd::utf8::encode_utf8_decode_utf8(t@);
            }
            t
        },
        None => "Invalid".to_string(),
    }
}

proof fn lemma_ascii_prefix_valid(x: Seq<u8>, rest: Seq<u8>)
    requires
        forall|i: int| 0 <= i < x.len() ==> #[trigger] x[i] < 0x80,
        valid_utf8(rest),
    ensures
        valid_utf8(x + rest),
    decreases x.len(),
{
    if x.len() > 0 {
        lemma_ascii_prefix_valid(x.drop_first(), rest);
        let s = x + rest;
        assert(is_leading_byte_width_1(s[0]));
        assert(pop_first_scalar(s) =~= x.drop_first() + rest);
    }
}

proof fn lemma_pct_encode_valid(b: Seq<u8>)
    ensures
        valid_utf8(pct_encode(b)),
    decreases b.len(),
{
    if b.len() > 0 {
        lemma_pct_encode_valid(b.drop_first());
        let e = escape_byte(b[0]);
        assert forall|i: int| 0 <= i < e.len() implies #[trigger] e[i] < 0x80 by {
            assert(hex_upper((b[0] / 16) as u8) < 0x80);
            assert(hex_upper((b[0] % 16) as u8) < 0x80);
        }
        lemma_ascii_prefix_valid(e, pct_encode(b.drop_first()));
    }
}

/// URL decoding gives back every text that URL encoding was given.
pub proof fn lemma_url_round_trip(t: Seq<char>)
    ensures
        url_decode_output(url_encode_output(t)) == t,
{
    let e = pct_encode(encode_utf8(t));
    lemma_pct_round_trip(encode_utf8(t));
    lemma_pct_encode_valid(encode_utf8(t));
    vstd::utf8::decode_utf8_encode_utf8(e);
    vstd::utf8::encode_utf8_valid_utf8(t);
    vstd::utf8::encode_utf8_decode_utf8(t);
}

} // verus!

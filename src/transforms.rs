//! The transform of each tool, from input text to output text.
use vstd::prelude::*;
use vstd::utf8::*;
use crate::outside::{
    base64_bytes, base64_decode_str, base64_encode_bytes, base64_text, format_utc, local_offset_at,
    hex_lower, hyphenated, hyphens_before, json_is_valid, json_pretty, json_pretty_str, json_valid, now_seconds, parse_i64,
    parsed_i64, plain_pattern, digits_value_bytes, has_overflowing_placeholder, is_digit_byte,
    overflowing_placeholder_at, in_chrono_range, random_v4_bytes, sql_format_str, sql_layout, utc_formatted, utf8_text,
    uuid_text,
};

verus! {

/// The strftime pattern of every date and time shown: `YYYY-MM-DD HH:MM:SS`.
pub open spec fn date_time_pattern() -> Seq<char> {
    "%Y-%m-%d %H:%M:%S"@
}

/// Text shown in place of a failed JSON or URL transform.
pub open spec fn invalid_marker() -> Seq<char> {
    "Invalid"@
}

/// Text shown in place of a time that cannot be had.
pub open spec fn missing_marker() -> Seq<char> {
    "N/A"@
}

/// Text of the decoded bytes where they are UTF-8, else the empty text.
pub open spec fn decoded_text(decoded: Option<Seq<u8>>) -> Seq<char> {
    match decoded {
        Some(b) => if valid_utf8(b) {
            decode_utf8(b)
        } else {
            seq![]
        },
        None => seq![],
    }
}

/// What Base64 encoding turns a text into: the Base64 text of its UTF-8 bytes.
pub open spec fn base64_encode_output(t: Seq<char>) -> Seq<char> {
    base64_text(encode_utf8(t))
}

/// What Base64 decoding turns a text into: the decoded bytes as text, or the empty
/// text where the input is not Base64 or the bytes are not UTF-8.
pub open spec fn base64_decode_output(t: Seq<char>) -> Seq<char> {
    decoded_text(base64_bytes(t))
}

/// What the JSON tool turns a text into: the pretty-printed form of a well-formed
/// JSON text, else `Invalid`.
pub open spec fn json_output(t: Seq<char>) -> Seq<char> {
    if json_valid(t) {
        match json_pretty(t) {
            Some(p) => p,
            None => invalid_marker(),
        }
    } else {
        invalid_marker()
    }
}

/// What the SQL tool turns a text into: four-space indents, upper-case keywords,
/// one blank line between statements; `Invalid` where a `?` or `$` placeholder
/// index is beyond `usize::MAX`.
pub open spec fn sql_output(t: Seq<char>) -> Seq<char> {
    if has_overflowing_placeholder(encode_utf8(t)) {
        invalid_marker()
    } else {
        sql_layout(t, 4, true, 2)
    }
}

/// A timestamp shown in UTC, or `N/A` where it is out of range.
pub open spec fn utc_time_output(ts: i64) -> Seq<char> {
    match utc_formatted(ts, date_time_pattern()) {
        Some(t) => t,
        None => missing_marker(),
    }
}

/// A timestamp shifted by a zone offset (seconds east of UTC) and shown like a
/// UTC time; `N/A` where there is no offset or the shifted time is out of range.
pub open spec fn zoned_time_output(ts: i64, offset: Option<i32>) -> Seq<char> {
    match offset {
        Some(o) => if i64::MIN <= ts + o <= i64::MAX {
            utc_time_output((ts + o) as i64)
        } else {
            missing_marker()
        },
        None => missing_marker(),
    }
}

/// The time `ts` shows in a zone `o` seconds east of UTC, where chrono has it.
pub open spec fn offset_formatted(ts: i64, o: i32) -> Option<Seq<char>> {
    utc_formatted((ts + o) as i64, date_time_pattern())
}

/// What a local time shown for `ts` can be. Out of chrono's range it is `N/A`.
/// Where a day either side of `ts` is in range it is the time in some zone less
/// than a day from UTC. Near the ends of the range it is one of the two.
pub open spec fn is_local_time_output(ts: i64, r: Seq<char>) -> bool {
    &&& !in_chrono_range(ts as int) ==> r == missing_marker()
    &&& in_chrono_range(ts - 86399) && in_chrono_range(ts + 86399) ==> exists|o: i32|
        -86400 < o < 86400 && #[trigger] offset_formatted(ts, o) == Some(r)
    &&& r == missing_marker() || exists|o: i32|
        -86400 < o < 86400 && #[trigger] zoned_time_output(ts, Some(o)) == r
}

/// The UTC time that an epoch input shows: `N/A` where it is not an integer.
pub open spec fn epoch_utc_output(t: Seq<char>) -> Seq<char> {
    match parsed_i64(t) {
        Some(ts) => utc_time_output(ts),
        None => missing_marker(),
    }
}

pub open spec fn is_lower_hex(c: char) -> bool {
    ('0' <= c <= '9') || ('a' <= c <= 'f')
}

/// The canonical text of a random (version 4, RFC 4122 variant) UUID:
/// `xxxxxxxx-xxxx-4xxx-Vxxx-xxxxxxxxxxxx` with lower-case hex digits and V one
/// of `8 9 a b`.
pub open spec fn is_v4_uuid(s: Seq<char>) -> bool {
    &&& s.len() == 36
    &&& forall|i: int|
        0 <= i < 36 ==> if i == 8 || i == 13 || i == 18 || i == 23 {
            #[trigger] s[i] == '-'
        } else {
            is_lower_hex(s[i])
        }
    &&& s[14] == '4'
    &&& s[19] == '8' || s[19] == '9' || s[19] == 'a' || s[19] == 'b'
}

/// The result of an outside transform, or `fallback` where there is none.
pub fn text_or(result: Option<String>, fallback: &str) -> (r: String)
    ensures
        r@ == (match result {
            Some(t) => t@,
            None => fallback@,
        }),
{
    match result {
        Some(t) => t,
        None => fallback.to_string(),
    }
}

/// Decoded bytes as text: the empty text where there are none or they are not UTF-8.
pub fn text_from_decoded(decoded: Option<Vec<u8>>) -> (r: String)
    ensures
        r@ == decoded_text(
            match decoded {
                Some(v) => Some(v@),
                None => None,
            },
        ),
{
    match decoded {
        Some(v) => match utf8_text(v.as_slice()) {
            Some(t) => {
                proof {
                    vstd::utf8::encode_utf8_decode_utf8(t@);
                }
                t
            },
            None => String::new(),
        },
        None => String::new(),
    }
}

/// Base64-encodes the UTF-8 bytes of a text.
pub fn base64_encode_text(s: &str) -> (r: String)
    ensures
        r@ == base64_encode_output(s@),
{
    base64_encode_bytes(s.as_bytes())
}

/// Base64-decodes a text; the empty text where the input is not Base64 or the
/// bytes are not UTF-8. A text that Base64 encoding produced decodes to the text
/// it was made from.
pub fn base64_decode_text(s: &str) -> (r: String)
    ensures
        r@ == base64_decode_output(s@),
        forall|t: Seq<char>| #[trigger] base64_encode_output(t) == s@ ==> r@ == t,
{
    let decoded = base64_decode_str(s);
    let r = text_from_decoded(decoded);
    assert forall|t: Seq<char>| #[trigger] base64_encode_output(t) == s@ implies r@ == t by {
        assert(base64_text(encode_utf8(t)) == s@);
        vstd::utf8::encode_utf8_valid_utf8(t);
        vstd::utf8::encode_utf8_decode_utf8(t);
    }
    r
}

/// Pretty-prints a JSON text; `Invalid` where it does not parse.
pub fn json_format_text(s: &str) -> (r: String)
    ensures
        r@ == json_output(s@),
{
    if json_is_valid(s) {
        text_or(json_pretty_str(s), "Invalid")
    } else {
        "Invalid".to_string()
    }
}

fn overflowing_placeholder_check(b: &[u8], p: usize) -> (r: bool)
    requires
        p < b@.len(),
    ensures
        r == overflowing_placeholder_at(b@, p as int),
{
    if !(b[p] == 0x3f || b[p] == 0x24) {
        return false;
    }
    assert(b@[p as int] == 0x3f || b@[p as int] == 0x24);
    let mut k: usize = p + 1;
    let mut v: usize = 0;
    loop
        invariant
            p + 1 <= k <= b@.len(),
            b@[p as int] == 0x3f || b@[p as int] == 0x24,
            v as int == digits_value_bytes(b@, p + 1, k as int),
            forall|q: int| p + 1 <= q < k ==> is_digit_byte(#[trigger] b@[q]),
            forall|e: int| p + 1 <= e <= k ==> #[trigger] digits_value_bytes(b@, p + 1, e) <= v,
        decreases b@.len() - k,
    {
        if k >= b.len() || !(0x30 <= b[k] && b[k] <= 0x39) {
            assert forall|e: int|
                p + 1 <= e <= b@.len() && (forall|q: int|
                    p + 1 <= q < e ==> is_digit_byte(#[trigger] b@[q])) implies #[trigger] digits_value_bytes(
                b@,
                p + 1,
                e,
            ) <= usize::MAX by {
                if e > k {
                    assert(is_digit_byte(b@[k as int]));
                }
            }
            return false;
        }
        let d: usize = (b[k] - 0x30) as usize;
        assert(forall|q: int| p + 1 <= q < k + 1 ==> is_digit_byte(#[trigger] b@[q]));
        assert(digits_value_bytes(b@, p + 1, k + 1) == v * 10 + d);
        match v.checked_mul(10) {
            Some(m) => match m.checked_add(d) {
                Some(n) => {
                    v = n;
                },
                None => {
                    assert(digits_value_bytes(b@, p + 1, k + 1) > usize::MAX);
                    assert(overflowing_placeholder_at(b@, p as int));
                    return true;
                },
            },
            None => {
                assert(digits_value_bytes(b@, p + 1, k + 1) > usize::MAX) by (nonlinear_arith)
                    requires
                        v * 10 > usize::MAX,
                        digits_value_bytes(b@, p + 1, k + 1) == v * 10 + d,
                        d >= 0,
                ;
                assert(overflowing_placeholder_at(b@, p as int));
                return true;
            },
        }
        k = k + 1;
    }
}

/// Whether a `?` or `$` in the bytes is followed by digits whose value is beyond
/// `usize::MAX`.
pub fn overflowing_placeholder(b: &[u8]) -> (r: bool)
    ensures
        r == has_overflowing_placeholder(b@),
{
    let mut i: usize = 0;
    while i < b.len()
        invariant
            0 <= i <= b@.len(),
            forall|p: int| 0 <= p < i ==> !#[trigger] overflowing_placeholder_at(b@, p),
        decreases b@.len() - i,
    {
        if overflowing_placeholder_check(b, i) {
            return true;
        }
        i = i + 1;
    }
    false
}

/// Lays out a SQL text with four-space indents, upper-case keywords and one blank
/// line between statements; `Invalid` where a `?` or `$` placeholder index is
/// beyond `usize::MAX`.
pub fn sql_format_text(s: &str) -> (r: String)
    ensures
        r@ == sql_output(s@),
{
    if overflowing_placeholder(s.as_bytes()) {
        "Invalid".to_string()
    } else {
        sql_format_str(s, 4, true, 2)
    }
}

fn date_time_pattern_str() -> (r: &'static str)
    ensures
        r@ == date_time_pattern(),
        plain_pattern(r@),
{
    let p = "%Y-%m-%d %H:%M:%S";
    proof {
        reveal_strlit("%Y-%m-%d %H:%M:%S");
        assert forall|i: int| 0 <= i < p@.len() && #[trigger] p@[i] == '%' implies i + 1 < p@.len()
            && (p@[i + 1] == 'Y' || p@[i + 1] == 'm' || p@[i + 1] == 'd' || p@[i + 1] == 'H'
            || p@[i + 1] == 'M' || p@[i + 1] == 'S') by {
            assert(i == 0 || i == 1 || i == 2 || i == 3 || i == 4 || i == 5 || i == 6 || i == 7
                || i == 8 || i == 9 || i == 10 || i == 11 || i == 12 || i == 13 || i == 14 || i
                == 15 || i == 16);
        }
    }
    p
}

/// A timestamp shown in UTC as `YYYY-MM-DD HH:MM:SS`; `N/A` where it is out of range.
pub fn utc_time_text(ts: i64) -> (r: String)
    ensures
        r@ == utc_time_output(ts),
        utc_formatted(ts, date_time_pattern()) is Some <==> in_chrono_range(ts as int),
{
    let p = date_time_pattern_str();
    text_or(format_utc(ts, p), "N/A")
}

/// A timestamp shifted by a zone offset (seconds east of UTC) and shown as
/// `YYYY-MM-DD HH:MM:SS`; `N/A` where there is no offset or the result is out of
/// range.
pub fn zoned_time_text(ts: i64, offset: Option<i32>) -> (r: String)
    ensures
        r@ == zoned_time_output(ts, offset),
        offset is Some && in_chrono_range(ts + offset->Some_0) ==> offset_formatted(
            ts,
            offset->Some_0,
        ) == Some(r@),
{
    match offset {
        Some(o) => match ts.checked_add(o as i64) {
            Some(shifted) => utc_time_text(shifted),
            None => "N/A".to_string(),
        },
        None => "N/A".to_string(),
    }
}

/// A timestamp shown in this machine's time zone as `YYYY-MM-DD HH:MM:SS`; `N/A`
/// where it is out of range.
pub fn local_time_text(ts: i64) -> (r: String)
    ensures
        is_local_time_output(ts, r@),
{
    let offset = local_offset_at(ts);
    let r = zoned_time_text(ts, offset);
    proof {
        if offset is Some {
            let o = offset->Some_0;
            assert(zoned_time_output(ts, Some(o)) == r@);
            if in_chrono_range(ts - 86399) && in_chrono_range(ts + 86399) {
                assert(offset_formatted(ts, o) == Some(r@));
            }
        }
    }
    r
}

/// The current time in UTC as `YYYY-MM-DD HH:MM:SS`.
pub fn now_utc_text() -> (r: String)
    ensures
        exists|ts: i64| 0 <= ts && #[trigger] utc_formatted(ts, date_time_pattern()) == Some(r@),
{
    let ts = now_seconds();
    utc_time_text(ts)
}

/// Reads an epoch input: an optional sign and decimal digits that fit in an `i64`.
pub fn parse_epoch(s: &str) -> (r: Option<i64>)
    ensures
        r == parsed_i64(s@),
{
    parse_i64(s)
}

/// The UTC and local times that an epoch input shows; both are `N/A` where the
/// input is not an integer.
pub fn unix_time_outputs(input: &str) -> (r: (String, String))
    ensures
        r.0@ == epoch_utc_output(input@),
        parsed_i64(input@) is None ==> r.1@ == missing_marker(),
        parsed_i64(input@) is Some ==> is_local_time_output(parsed_i64(input@)->Some_0, r.1@),
{
    match parse_epoch(input) {
        Some(ts) => (utc_time_text(ts), local_time_text(ts)),
        None => ("N/A".to_string(), "N/A".to_string()),
    }
}

proof fn lemma_hex_lower(n: int)
    requires
        0 <= n < 16,
    ensures
        is_lower_hex(hex_lower(n)),
{
    assert(n == 0 || n == 1 || n == 2 || n == 3 || n == 4 || n == 5 || n == 6 || n == 7 || n == 8
        || n == 9 || n == 10 || n == 11 || n == 12 || n == 13 || n == 14 || n == 15);
}

/// The hyphenated form of bytes with the version 4 nibble and the RFC 4122 variant
/// bits is a canonical version 4 UUID text.
pub proof fn lemma_v4_uuid_text(b: Seq<u8>)
    requires
        b.len() == 16,
        b[6] / 16 == 4,
        8 <= b[8] / 16 <= 11,
    ensures
        is_v4_uuid(uuid_text(b)),
{
    let s = uuid_text(b);
    assert forall|i: int| 0 <= i < 36 implies if i == 8 || i == 13 || i == 18 || i == 23 {
        #[trigger] s[i] == '-'
    } else {
        is_lower_hex(s[i])
    } by {
        if !(i == 8 || i == 13 || i == 18 || i == 23) {
            let j = i - hyphens_before(i);
            assert(0 <= j / 2 < 16);
            let byte = b[j / 2];
            lemma_hex_lower(byte as int / 16);
            lemma_hex_lower(byte as int % 16);
        }
    }
    assert(s[14] == hex_lower(b[6] as int / 16));
    assert(s[19] == hex_lower(b[8] as int / 16));
}

/// The hyphenated lower-case form of sixteen bytes.
pub fn format_uuid(bytes: [u8; 16]) -> (r: String)
    ensures
        r@ == uuid_text(bytes@),
{
    hyphenated(bytes)
}

/// A new random UUID in its canonical text form.
pub fn generate_uuid() -> (r: String)
    ensures
        is_v4_uuid(r@),
{
    let b = random_v4_bytes();
    proof {
        lemma_v4_uuid_text(b@);
    }
    format_uuid(b)
}

} // verus!

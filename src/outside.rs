//! Calls into the codec, formatting, clock and identifier crates, each with the
//! contract that the library relies on.
use vstd::prelude::*;
use vstd::utf8::*;

verus! {

/// The Base64 text (standard alphabet, padded) of a byte string.
pub uninterp spec fn base64_text(b: Seq<u8>) -> Seq<char>;

/// The bytes that a Base64 text (standard alphabet, padded) stands for, if it is one.
pub uninterp spec fn base64_bytes(s: Seq<char>) -> Option<Seq<u8>>;

/// Whether a text is one well-formed JSON value, with optional surrounding whitespace.
pub uninterp spec fn json_valid(s: Seq<char>) -> bool;

/// The pretty-printed form of a JSON text, where the printer accepts it.
pub uninterp spec fn json_pretty(s: Seq<char>) -> Option<Seq<char>>;

/// A SQL text laid out with the given indent width, keyword case and blank lines
/// between statements.
pub uninterp spec fn sql_layout(s: Seq<char>, indent: u8, uppercase: bool, gap: u8) -> Seq<char>;

/// A Unix timestamp (in seconds) formatted in UTC by a strftime pattern, if the
/// timestamp is in the representable range.
pub uninterp spec fn utc_formatted(ts: i64, pattern: Seq<char>) -> Option<Seq<char>>;

/// Relies on base64::encode (standard alphabet, padded).
#[verifier::external_body]
pub(crate) fn base64_encode_bytes(b: &[u8]) -> (r: String)
    ensures
        r@ == base64_text(b@),
{
    base64::encode(b)
}

/// Relies on base64::decode (standard alphabet, padded): it fails on a character
/// outside the alphabet or on bad padding, and it gives back the bytes of every
/// text that base64::encode produced.
#[verifier::external_body]
pub(crate) fn base64_decode_str(s: &str) -> (r: Option<Vec<u8>>)
    ensures
        r is Some <==> base64_bytes(s@) is Some,
        r is Some ==> base64_bytes(s@) == Some(r->Some_0@),
        forall|b: Seq<u8>| #[trigger] base64_text(b) == s@ ==> r is Some && r->Some_0@ == b,
{
    match base64::decode(s) {
        Ok(v) => Some(v),
        Err(_) => None,
    }
}

/// Relies on std::str::from_utf8: it succeeds exactly on valid UTF-8, and the
/// text it gives has those bytes.
#[verifier::external_body]
pub(crate) fn utf8_text(b: &[u8]) -> (r: Option<String>)
    ensures
        r is Some <==> valid_utf8(b@),
        r is Some ==> encode_utf8(r->Some_0@) == b@,
{
    match std::str::from_utf8(b) {
        Ok(t) => Some(t.to_owned()),
        Err(_) => None,
    }
}

/// Relies on serde_json::from_str parsing the text as a serde_json::Value.
#[verifier::external_body]
pub(crate) fn json_is_valid(s: &str) -> (r: bool)
    ensures
        r == json_valid(s@),
{
    match serde_json::from_str::<serde_json::Value>(s) {
        Ok(_) => true,
        Err(_) => false,
    }
}

/// Relies on jsonxf::pretty_print: two-space indents, one member or element per
/// line, keys in their input order. It checks little of the syntax, and fails
/// only on some malformed input.
#[verifier::external_body]
pub(crate) fn json_pretty_str(s: &str) -> (r: Option<String>)
    ensures
        r is Some <==> json_pretty(s@) is Some,
        r is Some ==> json_pretty(s@) == Some(r->Some_0@),
{
    match jsonxf::pretty_print(s) {
        Ok(t) => Some(t),
        Err(_) => None,
    }
}

pub open spec fn is_digit_byte(b: u8) -> bool {
    0x30 <= b <= 0x39
}

/// The value of the decimal digits `b[start..end]`.
pub open spec fn digits_value_bytes(b: Seq<u8>, start: int, end: int) -> int
    decreases end - start,
{
    if end <= start {
        0
    } else {
        digits_value_bytes(b, start, end - 1) * 10 + (b[end - 1] - 0x30)
    }
}

/// Byte `p` is `?` or `$` and the digits right after it have a value beyond
/// `usize::MAX`: sqlformat reads such a run as a placeholder index and panics.
pub open spec fn overflowing_placeholder_at(b: Seq<u8>, p: int) -> bool {
    &&& 0 <= p < b.len()
    &&& (b[p] == 0x3f || b[p] == 0x24)
    &&& exists|e: int|
        #![trigger digits_value_bytes(b, p + 1, e)]
        p + 1 <= e <= b.len() && (forall|k: int| p + 1 <= k < e ==> is_digit_byte(#[trigger] b[k]))
            && digits_value_bytes(b, p + 1, e) > usize::MAX
}

pub open spec fn has_overflowing_placeholder(b: Seq<u8>) -> bool {
    exists|p: int| #[trigger] overflowing_placeholder_at(b, p)
}

/// Relies on sqlformat::format with no query parameters, `indent` spaces per
/// level, keywords upper-cased when `uppercase` holds, and `gap` line breaks
/// after each `;`. Its tokenizer unwraps the `usize` index of a `?` or `$`
/// placeholder, so an index beyond `usize::MAX` is left out.
#[verifier::external_body]
pub(crate) fn sql_format_str(s: &str, indent: u8, uppercase: bool, gap: u8) -> (r: String)
    requires
        !has_overflowing_placeholder(encode_utf8(s@)),
    ensures
        r@ == sql_layout(s@, indent, uppercase, gap),
{
    let options = sqlformat::FormatOptions {
        indent: sqlformat::Indent::Spaces(indent),
        uppercase,
        lines_between_queries: gap,
    };
    sqlformat::format(s, &sqlformat::QueryParams::None, options)
}

/// The timestamps (in seconds) that chrono's DateTime::from_timestamp turns into
/// a date: from the first second of NaiveDate::MIN (year -262143) to the last
/// second of NaiveDate::MAX (year 262142).
pub open spec fn in_chrono_range(ts: int) -> bool {
    -8334601228800 <= ts <= 8210266876799
}

/// A strftime pattern whose every `%` starts one of `%Y %m %d %H %M %S`: chrono
/// formats such a pattern without error.
pub open spec fn plain_pattern(p: Seq<char>) -> bool {
    forall|i: int|
        0 <= i < p.len() && #[trigger] p[i] == '%' ==> i + 1 < p.len() && (p[i + 1] == 'Y'
            || p[i + 1] == 'm' || p[i + 1] == 'd' || p[i + 1] == 'H' || p[i + 1] == 'M' || p[i
            + 1] == 'S')
}

/// Relies on chrono::DateTime::from_timestamp, which gives `None` out of range,
/// and on formatting the UTC date and time by `pattern`.
#[verifier::external_body]
pub(crate) fn format_utc(ts: i64, pattern: &str) -> (r: Option<String>)
    requires
        plain_pattern(pattern@),
    ensures
        r is Some <==> in_chrono_range(ts as int),
        r is Some <==> utc_formatted(ts, pattern@) is Some,
        r is Some ==> utc_formatted(ts, pattern@) == Some(r->Some_0@),
{
    match chrono::DateTime::from_timestamp(ts, 0) {
        Some(d) => Some(d.format(pattern).to_string()),
        None => None,
    }
}

/// Relies on chrono::DateTime::from_timestamp and on chrono::Local's
/// offset_from_utc_datetime with FixedOffset::local_minus_utc: the seconds that
/// this machine's time zone adds to UTC at that instant, `None` where the
/// timestamp is out of range. It depends on the machine; a FixedOffset always
/// lies strictly within one day.
#[verifier::external_body]
pub(crate) fn local_offset_at(ts: i64) -> (r: Option<i32>)
    ensures
        r is Some <==> in_chrono_range(ts as int),
        r is Some ==> -86400 < r->Some_0 < 86400,
{
    match chrono::DateTime::from_timestamp(ts, 0) {
        Some(d) => Some(
            chrono::TimeZone::offset_from_utc_datetime(&chrono::Local, &d.naive_utc())
                .local_minus_utc(),
        ),
        None => None,
    }
}

/// Relies on chrono::Utc::now and DateTime::timestamp: the current time as a Unix
/// timestamp in seconds. Utc::now panics on a clock before 1970 and unwraps
/// DateTime::from_timestamp, so what it returns is in range and not negative.
#[verifier::external_body]
pub(crate) fn now_seconds() -> (r: i64)
    ensures
        0 <= r,
        in_chrono_range(r as int),
{
    chrono::Utc::now().timestamp()
}

/// Relies on uuid::Uuid::new_v4: sixteen random bytes with the version nibble
/// (high half of byte 6) set to 4 and the variant bits (top two of byte 8) set
/// to `10`. It panics only where the system offers no random source.
#[verifier::external_body]
pub(crate) fn random_v4_bytes() -> (r: [u8; 16])
    ensures
        r@[6] / 16 == 4,
        8 <= r@[8] / 16 <= 11,
{
    *uuid::Uuid::new_v4().as_bytes()
}

/// Lower-case hexadecimal digit of a nibble.
pub open spec fn hex_lower(n: int) -> char {
    seq!['0', '1', '2', '3', '4', '5', '6', '7', '8', '9', 'a', 'b', 'c', 'd', 'e', 'f'][n]
}

/// The number of hyphens before position `i` of the hyphenated form.
pub open spec fn hyphens_before(i: int) -> int {
    if i < 8 {
        0
    } else if i < 13 {
        1
    } else if i < 18 {
        2
    } else if i < 23 {
        3
    } else {
        4
    }
}

/// Character `i` of the hyphenated form: a hyphen at 8, 13, 18 and 23, else
/// the high then the low nibble of each byte in order.
pub open spec fn uuid_char(b: Seq<u8>, i: int) -> char {
    if i == 8 || i == 13 || i == 18 || i == 23 {
        '-'
    } else {
        let j = i - hyphens_before(i);
        let byte = b[j / 2];
        if j % 2 == 0 {
            hex_lower(byte as int / 16)
        } else {
            hex_lower(byte as int % 16)
        }
    }
}

/// The 36-character lower-case hyphenated form of sixteen bytes.
pub open spec fn uuid_text(b: Seq<u8>) -> Seq<char> {
    Seq::new(36, |i: int| uuid_char(b, i))
}

/// Relies on uuid::Uuid::to_hyphenated: lower-case hex digits in groups of 8, 4,
/// 4, 4 and 12, joined by hyphens.
#[verifier::external_body]
pub(crate) fn hyphenated(b: [u8; 16]) -> (r: String)
    ensures
        r@ == uuid_text(b@),
{
    uuid::Uuid::from_bytes(b).to_hyphenated().to_string()
}

pub open spec fn is_digit(c: char) -> bool {
    '0' <= c <= '9'
}

/// The value of a string of decimal digits.
pub open spec fn digits_value(s: Seq<char>) -> int
    decreases s.len(),
{
    if s.len() == 0 {
        0
    } else {
        digits_value(s.drop_last()) * 10 + (s.last() as int - '0' as int)
    }
}

/// An optional `+` or `-` sign, then one or more decimal digits, whose value fits
/// in an `i64`.
pub open spec fn parsed_i64(s: Seq<char>) -> Option<i64> {
    let signed = s.len() > 0 && (s[0] == '-' || s[0] == '+');
    let body = if signed {
        s.drop_first()
    } else {
        s
    };
    let v = if s.len() > 0 && s[0] == '-' {
        -digits_value(body)
    } else {
        digits_value(body)
    };
    if body.len() > 0 && (forall|i: int| 0 <= i < body.len() ==> is_digit(#[trigger] body[i]))
        && i64::MIN <= v <= i64::MAX {
        Some(v as i64)
    } else {
        None
    }
}

/// Relies on `str::parse::<i64>`: an optional sign, then decimal digits only, in
/// range; anything else (spaces included) is an error.
#[verifier::external_body]
pub(crate) fn parse_i64(s: &str) -> (r: Option<i64>)
    ensures
        r == parsed_i64(s@),
{
    s.parse::<i64>().ok()
}

} // verus!

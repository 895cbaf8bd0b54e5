use dev_toolbox::{
    base64_decode_text, base64_encode_text, format_uuid, generate_uuid, json_format_text, local_time_text,
    now_utc_text, overflowing_placeholder, parse_epoch, sql_format_text, text_from_decoded, text_or, unix_time_outputs,
    url_decode_text, url_encode_text, utc_time_text, zoned_time_text,
};

fn is_v4_uuid(s: &str) -> bool {
    let c: Vec<char> = s.chars().collect();
    if c.len() != 36 {
        return false;
    }
    for (i, ch) in c.iter().enumerate() {
        if i == 8 || i == 13 || i == 18 || i == 23 {
            if *ch != '-' {
                return false;
            }
        } else if !(ch.is_ascii_digit() || ('a'..='f').contains(ch)) {
            return false;
        }
    }
    c[14] == '4' && matches!(c[19], '8' | '9' | 'a' | 'b')
}

#[test]
fn url_encode_escapes_reserved_bytes() {
    assert_eq!(url_encode_text("a b&c=d/e"), "a%20b%26c%3Dd%2Fe");
    assert_eq!(url_encode_text("Az09-._~"), "Az09-._~");
    assert_eq!(url_encode_text("é"), "%C3%A9");
    assert_eq!(url_encode_text(""), "");
}

#[test]
fn url_decode_reads_escapes() {
    assert_eq!(url_decode_text("a%20b%2fc"), "a b/c");
    assert_eq!(url_decode_text("a+b"), "a+b");
    assert_eq!(url_decode_text("100%"), "100%");
    assert_eq!(url_decode_text("%zz%4"), "%zz%4");
    assert_eq!(url_decode_text("%C3%A9"), "é");
}

#[test]
fn url_decode_of_invalid_utf8_is_marked() {
    assert_eq!(url_decode_text("%FF"), "Invalid");
    assert_eq!(url_decode_text("%C3"), "Invalid");
}

#[test]
fn url_round_trip_on_samples() {
    for t in ["", "plain", "a b&c", "100% sure?", "héllo wörld ✓", "%41%"] {
        assert_eq!(url_decode_text(&url_encode_text(t)), t);
    }
}

#[test]
fn base64_encode_known_values() {
    assert_eq!(base64_encode_text("hello"), "aGVsbG8=");
    assert_eq!(base64_encode_text(""), "");
    assert_eq!(base64_encode_text("é"), "w6k=");
}

#[test]
fn base64_decode_known_values() {
    assert_eq!(base64_decode_text("aGVsbG8="), "hello");
    assert_eq!(base64_decode_text("w6k="), "é");
}

#[test]
fn base64_decode_of_invalid_input_is_empty() {
    assert_eq!(base64_decode_text("%%%"), "");
    assert_eq!(base64_decode_text(" aGVsbG8="), "");
}

#[test]
fn base64_decode_of_non_utf8_bytes_is_empty() {
    assert_eq!(base64_decode_text("/w=="), "");
}

#[test]
fn base64_round_trip_on_samples() {
    for t in ["", "a", "ab", "abc", "héllo wörld ✓", "line\nbreak"] {
        assert_eq!(base64_decode_text(&base64_encode_text(t)), t);
    }
}

#[test]
fn uuid_generate_matches_v4_form() {
    for _ in 0..50 {
        let u = generate_uuid();
        assert!(is_v4_uuid(&u), "{}", u);
    }
}

#[test]
fn uuid_generate_differs_between_calls() {
    assert_ne!(generate_uuid(), generate_uuid());
}

#[test]
fn uuid_format_of_known_bytes() {
    let b: [u8; 16] = [0, 1, 2, 3, 4, 5, 6, 7, 8, 9, 10, 11, 12, 13, 14, 255];
    assert_eq!(format_uuid(b), "00010203-0405-0607-0809-0a0b0c0d0eff");
}

#[test]
fn unix_time_epoch_zero() {
    let (utc, local) = unix_time_outputs("0");
    assert_eq!(utc, "1970-01-01 00:00:00");
    assert_eq!(local.len(), 19);
}

#[test]
fn unix_time_not_a_number() {
    assert_eq!(
        unix_time_outputs("not-a-number"),
        ("N/A".to_string(), "N/A".to_string())
    );
}

#[test]
fn unix_time_known_timestamp() {
    assert_eq!(utc_time_text(1431648000), "2015-05-15 00:00:00");
    assert_eq!(utc_time_text(-1), "1969-12-31 23:59:59");
}

#[test]
fn unix_time_out_of_range_is_missing() {
    assert_eq!(utc_time_text(i64::MAX), "N/A");
    assert_eq!(unix_time_outputs("9223372036854775807").1, "N/A");
}

#[test]
fn epoch_parse_accepts_sign_and_digits_only() {
    assert_eq!(parse_epoch("42"), Some(42));
    assert_eq!(parse_epoch("+42"), Some(42));
    assert_eq!(parse_epoch("-42"), Some(-42));
    assert_eq!(parse_epoch(""), None);
    assert_eq!(parse_epoch("-"), None);
    assert_eq!(parse_epoch(" 1"), None);
    assert_eq!(parse_epoch("1.5"), None);
    assert_eq!(parse_epoch("9223372036854775808"), None);
    assert_eq!(parse_epoch("-9223372036854775808"), Some(i64::MIN));
}

#[test]
fn now_is_formatted() {
    let now = now_utc_text();
    assert_eq!(now.len(), 19);
    assert_eq!(&now[4..5], "-");
}

#[test]
fn json_pretty_prints() {
    assert_eq!(json_format_text("{\"a\":1}"), "{\n  \"a\": 1\n}");
    assert_eq!(
        json_format_text("{\"b\":[1,2],\"a\":{}}"),
        "{\n  \"b\": [\n    1,\n    2\n  ],\n  \"a\": {}\n}"
    );
}

#[test]
fn json_invalid_is_marked() {
    assert_eq!(json_format_text("{invalid"), "Invalid");
}

#[test]
fn sql_is_laid_out() {
    let out = sql_format_text("select * from t where a=1");
    assert_eq!(out, "SELECT\n    *\nFROM\n    t\nWHERE\n    a = 1");
}

#[test]
fn sql_statements_are_separated() {
    let out = sql_format_text("select 1; select 2");
    assert_eq!(out, "SELECT\n    1;\n\nSELECT\n    2");
}

#[test]
fn text_or_picks_result_or_fallback() {
    assert_eq!(text_or(Some("x".to_string()), "N/A"), "x");
    assert_eq!(text_or(None, "N/A"), "N/A");
}

#[test]
fn decoded_bytes_become_text_when_utf8() {
    assert_eq!(text_from_decoded(Some(vec![104, 105])), "hi");
    assert_eq!(text_from_decoded(Some(vec![0xff])), "");
    assert_eq!(text_from_decoded(None), "");
}

#[test]
fn zoned_time_shifts_by_offset() {
    assert_eq!(zoned_time_text(0, Some(3600)), "1970-01-01 01:00:00");
    assert_eq!(zoned_time_text(0, Some(-1)), "1969-12-31 23:59:59");
    assert_eq!(zoned_time_text(0, None), "N/A");
    assert_eq!(zoned_time_text(i64::MAX, Some(1)), "N/A");
}

#[test]
fn sql_placeholder_index_beyond_usize_is_marked() {
    assert_eq!(sql_format_text("select ?99999999999999999999"), "Invalid");
    assert_eq!(sql_format_text("select * from t where a = $18446744073709551616"), "Invalid");
}

#[test]
fn sql_placeholder_index_within_usize_is_laid_out() {
    assert_eq!(sql_format_text("select ?00000000000000000001"), "SELECT\n    ?00000000000000000001");
    assert_eq!(sql_format_text("select $18446744073709551615"), "SELECT\n    $18446744073709551615");
}

#[test]
fn overflowing_placeholder_detection() {
    assert!(overflowing_placeholder(b"?18446744073709551616"));
    assert!(!overflowing_placeholder(b"?18446744073709551615"));
    assert!(!overflowing_placeholder(b"99999999999999999999"));
    assert!(!overflowing_placeholder(b"?"));
    assert!(!overflowing_placeholder(b""));
}

#[test]
fn utc_time_at_range_ends() {
    assert_ne!(utc_time_text(8210266876799), "N/A");
    assert_eq!(utc_time_text(8210266876800), "N/A");
    assert_ne!(utc_time_text(-8334601228800), "N/A");
    assert_eq!(utc_time_text(-8334601228801), "N/A");
}

#[test]
fn local_time_is_shown_in_range() {
    assert_eq!(local_time_text(0).len(), 19);
    assert_eq!(local_time_text(8210266876800), "N/A");
}

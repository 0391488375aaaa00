use discord_bot::text::{
    byte_length, chars_of, decimal, escape_quotes, parse_u128, remove_quotes, replace,
    replace_tail, string_of, truncate_bytes,
};

#[test]
fn replace_matches_std_replace() {
    let cases = [
        ("aaa", "aa", "b"),
        ("abcabc", "bc", ""),
        ("no match here", "xyz", "!"),
        ("\"quoted\"", "\"", ""),
        ("héllo wörld", "ö", "oe"),
        ("", "a", "b"),
        ("}}}}", "}}", ""),
        ("ab", "", "x"),
        ("", "", "x"),
        ("é", "", "-"),
    ];
    for (s, pat, rep) in cases {
        assert_eq!(replace(s, pat, rep), s.replace(pat, rep));
    }
}

#[test]
fn replace_scans_from_the_left_without_overlap() {
    assert_eq!(replace("aaa", "aa", "b"), "ba");
}

#[test]
fn chars_round_trip() {
    let s = "Tu dois 30€ à mon créateur";
    let cs = chars_of(s);
    assert_eq!(cs.len(), s.chars().count());
    assert_eq!(string_of(&cs), s);
}

#[test]
fn byte_length_counts_utf8_bytes() {
    assert_eq!(byte_length("abc"), 3);
    assert_eq!(byte_length("é"), 2);
    assert_eq!(byte_length("€"), 3);
    assert_eq!(byte_length(""), 0);
}

#[test]
fn truncate_cuts_at_a_byte_boundary() {
    assert_eq!(truncate_bytes("héllo", 3), "hé");
    assert_eq!(truncate_bytes("hello", 2), "he");
    assert_eq!(truncate_bytes("hello", 0), "");
}

#[test]
fn truncate_leaves_short_text_unchanged() {
    assert_eq!(truncate_bytes("hello", 5), "hello");
    assert_eq!(truncate_bytes("hello", 1900), "hello");
}

#[test]
fn truncate_agrees_with_string_truncate() {
    let mut s = "x".repeat(2100);
    let t = truncate_bytes(&s, 1900);
    s.truncate(1900);
    assert_eq!(t, s);
}

#[test]
fn replace_tail_agrees_with_replace_range() {
    let s = "{\"op\":10,\"d\":{\"heartbeat_interval\":41250,\"_trace\":[]}}";
    let mut expected = s.to_string();
    expected.replace_range(40.., "}}");
    assert_eq!(replace_tail(s, 40, "}}"), expected);
}

#[test]
fn parse_accepts_what_std_accepts() {
    let cases = ["0", "41250", "+7", "007", "340282366920938463463374607431768211455"];
    for s in cases {
        assert_eq!(parse_u128(s), s.parse::<u128>().ok());
    }
    assert_eq!(parse_u128("41250"), Some(41250));
    assert_eq!(parse_u128("+7"), Some(7));
    assert_eq!(parse_u128("340282366920938463463374607431768211455"), Some(u128::MAX));
}

#[test]
fn parse_rejects_what_std_rejects() {
    let cases = [
        "",
        "+",
        "-1",
        "12a",
        " 12",
        "1 2",
        "++1",
        "340282366920938463463374607431768211456",
        "99999999999999999999999999999999999999999",
    ];
    for s in cases {
        assert_eq!(parse_u128(s), None);
        assert!(s.parse::<u128>().is_err());
    }
}

#[test]
fn decimal_matches_format() {
    for n in [0usize, 7, 10, 99, 100, 1234567, usize::MAX] {
        assert_eq!(decimal(n), format!("{}", n));
    }
}

#[test]
fn decimal_reads_back() {
    for n in [0usize, 9, 10, 41250, 987654321] {
        assert_eq!(parse_u128(&decimal(n)), Some(n as u128));
    }
}

#[test]
fn escape_quotes_matches_std() {
    let s = "name \"a\", \"b\"";
    assert_eq!(escape_quotes(s), s.replace("\"", r#"\""#));
    assert_eq!(escape_quotes("\""), "\\\"");
}

#[test]
fn escaped_quotes_are_preceded_by_backslash() {
    let e = escape_quotes("\"\"x\"");
    let b = e.as_bytes();
    for i in 0..b.len() {
        if b[i] == b'"' {
            assert!(i > 0 && b[i - 1] == b'\\');
        }
    }
}

#[test]
fn remove_quotes_leaves_no_quote() {
    let r = remove_quotes("\"!test\"\"");
    assert_eq!(r, "!test");
    assert!(!r.contains('"'));
    assert_eq!(remove_quotes(&r), r);
}

use helios_api::text::{
    contains_str, decimal_string, ends_with_str, eq_ignore_ascii_case, find_char_from, is_ws_char, lines_of,
    lower_char, owned, parse_u64, push_decimal, push_signed_decimal, rfind_char, seq_eq, split_char,
    split_once_char, split_once_pattern, starts_with_str, substring, to_lower, to_upper, trim_str,
    upper_char, words_of,
};

const SAMPLES: [&str; 14] = [
    "",
    " ",
    "abc",
    "  padded\t",
    "a,b,,c",
    ",",
    "line one\nline two\r\nlast",
    "trailing\n",
    "\n\n",
    "MiXeD Case 123",
    "\u{a0}nbsp\u{3000}",
    "key=value=more",
    "x\r",
    "a--b--c",
];

#[test]
fn trim_matches_std() {
    for s in SAMPLES {
        assert_eq!(trim_str(s), s.trim(), "{:?}", s);
    }
}

#[test]
fn whitespace_matches_std() {
    for c in [' ', '\t', '\n', '\r', '\u{b}', '\u{c}', '\u{85}', '\u{a0}', '\u{2000}', '\u{3000}', 'a', '_', '\u{200b}'] {
        assert_eq!(is_ws_char(c), c.is_whitespace(), "{:?}", c);
    }
}

#[test]
fn ascii_case_matches_std() {
    for c in ['a', 'z', 'A', 'Z', '0', '@', '[', '`', '{', 'é', 'É'] {
        assert_eq!(lower_char(c), c.to_ascii_lowercase());
        assert_eq!(upper_char(c), c.to_ascii_uppercase());
    }
    for s in SAMPLES {
        assert_eq!(to_lower(s), s.to_ascii_lowercase());
        assert_eq!(to_upper(s), s.to_ascii_uppercase());
    }
    assert!(eq_ignore_ascii_case("MJPG", "mjpg"));
    assert!(!eq_ignore_ascii_case("mjpg", "mjpeg"));
    assert!(!eq_ignore_ascii_case("É", "é"));
}

#[test]
fn comparisons_match_std() {
    for s in SAMPLES {
        for p in ["", "a", "abc", "\n", "--", "case", "x\r"] {
            assert_eq!(starts_with_str(s, p), s.starts_with(p));
            assert_eq!(ends_with_str(s, p), s.ends_with(p));
            assert_eq!(contains_str(s, p), s.contains(p));
        }
        assert!(seq_eq(s, s));
        assert!(!seq_eq(s, "not a sample"));
    }
}

#[test]
fn splitting_matches_std() {
    for s in SAMPLES {
        let parts: Vec<String> = s.split(',').map(|x| x.to_string()).collect();
        assert_eq!(split_char(s, ','), parts);
        let lines: Vec<String> = s.lines().map(|x| x.to_string()).collect();
        assert_eq!(lines_of(s), lines, "{:?}", s);
        let words: Vec<String> = s.split_whitespace().map(|x| x.to_string()).collect();
        assert_eq!(words_of(s), words, "{:?}", s);
        let once = s.split_once('=').map(|(a, b)| (a.to_string(), b.to_string()));
        assert_eq!(split_once_char(s, '='), once);
        let once_pat = s.split_once("--").map(|(a, b)| (a.to_string(), b.to_string()));
        assert_eq!(split_once_pattern(s, "--"), once_pat);
    }
}

#[test]
fn char_search_on_ascii_matches_std() {
    for s in SAMPLES.iter().filter(|s| s.is_ascii()) {
        assert_eq!(rfind_char(s, ','), s.rfind(','));
        assert_eq!(find_char_from(s, 'b', 0), s.find('b').unwrap_or(s.len()));
    }
    assert_eq!(find_char_from("a,b,c", ',', 2), 3);
    assert_eq!(find_char_from("a,b,c", ',', 4), 5);
}

#[test]
fn decimals_match_std() {
    for n in [0u64, 7, 10, 42, 1_000_000, u64::MAX] {
        assert_eq!(decimal_string(n), n.to_string());
        let mut out = owned("n=");
        push_decimal(&mut out, n);
        assert_eq!(out, format!("n={}", n));
    }
    for n in [0i64, -1, 15, -15, i64::MIN, i64::MAX] {
        let mut out = String::new();
        push_signed_decimal(&mut out, n);
        assert_eq!(out, n.to_string());
    }
}

#[test]
fn parse_u64_matches_std() {
    for s in ["0", "42", "+42", "", "+", "-1", " 1", "1 ", "18446744073709551615", "18446744073709551616", "00012", "1a"] {
        assert_eq!(parse_u64(s), s.parse::<u64>().ok(), "{:?}", s);
    }
}

#[test]
fn substrings_and_pushes_count_characters() {
    assert_eq!(substring("héllo", 1, 3), "él");
    assert_eq!(substring("abc", 3, 3), "");
    let mut s = owned("ab");
    push_decimal(&mut s, 7);
    assert_eq!(s, "ab7");
}

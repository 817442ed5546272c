use sgs::text::{
    chars_of, str_concat, i32_to_string, is_whitespace, parse_u64_str, split_lines, split_once_str,
    split_whitespace, str_eq, strip_prefix_str, trim_str, u64_to_string,
};

const SAMPLES: &[&str] = &[
    "",
    " ",
    "a",
    "  hello world  ",
    "\t\n tab\tand\nnewline \r\n",
    "\u{a0}nbsp\u{3000}ideographic\u{2029}",
    "one",
    "x\u{85}y",
    "a\r\nb\r\n",
    "a\r",
    "\n",
    "\n\n",
    "line one\nline two\n\nlast",
    "workspace>>2",
    ">>",
    "a>>b>>c",
    "é ü ö",
];

#[test]
fn whitespace_matches_std_for_every_char() {
    for u in 0u32..=0x10FFFF {
        if let Some(c) = char::from_u32(u) {
            assert_eq!(is_whitespace(c), c.is_whitespace(), "char {u:#x}");
        }
    }
}

#[test]
fn trim_matches_std() {
    for s in SAMPLES {
        assert_eq!(trim_str(s), s.trim(), "{s:?}");
    }
}

#[test]
fn split_whitespace_matches_std() {
    for s in SAMPLES {
        let std: Vec<String> = s.split_whitespace().map(|w| w.to_string()).collect();
        assert_eq!(split_whitespace(s), std, "{s:?}");
    }
}

#[test]
fn lines_match_std() {
    for s in SAMPLES {
        let std: Vec<String> = s.lines().map(|w| w.to_string()).collect();
        assert_eq!(split_lines(s), std, "{s:?}");
    }
}

#[test]
fn split_once_matches_std() {
    for s in SAMPLES {
        let std = s.split_once(">>").map(|(a, b)| (a.to_string(), b.to_string()));
        assert_eq!(split_once_str(s, ">>"), std, "{s:?}");
        let std_ws = s.split_once(' ').map(|(a, b)| (a.to_string(), b.to_string()));
        assert_eq!(split_once_str(s, " "), std_ws, "{s:?}");
    }
}

#[test]
fn strip_prefix_matches_std() {
    let cases = [("MemTotal: 5 kB", "MemTotal:"), ("Mem", "MemTotal:"), ("abc", ""), ("", "a"), ("abc", "abc")];
    for (s, p) in cases {
        assert_eq!(strip_prefix_str(s, p), s.strip_prefix(p).map(|r| r.to_string()), "{s:?} {p:?}");
    }
}

#[test]
fn parse_u64_matches_std() {
    let cases = [
        "", "+", "-", "0", "+0", "-0", "42", "+42", "0042", " 1", "1 ", "1a", "18446744073709551615",
        "18446744073709551616", "99999999999999999999999", "+18446744073709551615", "٣",
    ];
    for s in cases {
        assert_eq!(parse_u64_str(s), s.parse::<u64>().ok(), "{s:?}");
    }
}

#[test]
fn decimal_rendering_matches_std() {
    for n in [0u64, 1, 9, 10, 99, 100, 12345, u64::MAX] {
        assert_eq!(u64_to_string(n), n.to_string());
    }
    for n in [0i32, 1, -1, 10, -10, 2147483647, -2147483648, 5, -77] {
        assert_eq!(i32_to_string(n), n.to_string());
    }
}

#[test]
fn decimal_roundtrip_law() {
    for n in [0u64, 7, 10, 1000, 123456789, u64::MAX] {
        assert_eq!(parse_u64_str(&u64_to_string(n)), Some(n));
    }
}

#[test]
fn trim_is_idempotent_law() {
    for s in SAMPLES {
        let once = trim_str(s);
        assert_eq!(trim_str(&once), once);
        if let (Some(first), Some(last)) = (once.chars().next(), once.chars().last()) {
            assert!(!first.is_whitespace() && !last.is_whitespace());
        }
    }
}

#[test]
fn small_helpers() {
    assert_eq!(chars_of("héllo"), vec!['h', 'é', 'l', 'l', 'o']);
    assert_eq!(str_concat("ab", "cd"), "abcd");
    assert!(str_eq("abc", "abc"));
    assert!(!str_eq("abc", "abd"));
    assert!(!str_eq("abc", "ab"));
}

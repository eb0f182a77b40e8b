use wrappa_core::text::{
    chars_of, is_whitespace, parse_u32, parse_u64, push_decimal, split_chars, split_words,
    starts_with, trim_chars,
};

fn cs(s: &str) -> Vec<char> {
    chars_of(s)
}

fn st(v: &Vec<char>) -> String {
    v.iter().collect()
}

#[test]
fn parse_u64_reads_plain_and_plus_numbers() {
    assert_eq!(parse_u64(&cs("42")), Some(42));
    assert_eq!(parse_u64(&cs("+7")), Some(7));
    assert_eq!(parse_u64(&cs("007")), Some(7));
    assert_eq!(parse_u64(&cs("18446744073709551615")), Some(u64::MAX));
}

#[test]
fn parse_u64_refuses_what_from_str_refuses() {
    assert_eq!(parse_u64(&cs("")), None);
    assert_eq!(parse_u64(&cs("+")), None);
    assert_eq!(parse_u64(&cs("-1")), None);
    assert_eq!(parse_u64(&cs("1 2")), None);
    assert_eq!(parse_u64(&cs("12a")), None);
    assert_eq!(parse_u64(&cs("18446744073709551616")), None);
    assert_eq!(parse_u64(&cs("99999999999999999999999")), None);
}

#[test]
fn parse_u32_agrees_with_std() {
    for s in ["0", "4294967295", "4294967296", "+12", "x", "", "-0", "١٢"] {
        assert_eq!(parse_u32(&cs(s)), s.parse::<u32>().ok(), "{:?}", s);
    }
}

#[test]
fn whitespace_is_unicode_white_space() {
    for c in [' ', '\t', '\n', '\r', '\u{b}', '\u{c}', '\u{85}', '\u{a0}', '\u{2003}', '\u{3000}'] {
        assert!(is_whitespace(c));
        assert_eq!(is_whitespace(c), c.is_whitespace());
    }
    for c in ['a', '0', '\u{200b}', '_'] {
        assert!(!is_whitespace(c));
    }
}

#[test]
fn trim_agrees_with_std() {
    for s in ["", "   ", " a b ", "\u{a0}x\u{3000}", "abc", "\n\t y\r\n"] {
        assert_eq!(st(&trim_chars(&cs(s))), s.trim());
    }
}

#[test]
fn split_words_agrees_with_std() {
    for s in ["", "  ", "a", " 0   0 1\n1000 1000 1\n", "a\u{a0}b\tc"] {
        let got: Vec<String> = split_words(&cs(s)).iter().map(st).collect();
        let want: Vec<String> = s.split_whitespace().map(|w| w.to_string()).collect();
        assert_eq!(got, want);
    }
}

#[test]
fn split_chars_agrees_with_std() {
    for s in ["", ",", "a,,b", "setuid, setgid", "6.13.0"] {
        let got: Vec<String> = split_chars(&cs(s), ',').iter().map(st).collect();
        let want: Vec<String> = s.split(',').map(|w| w.to_string()).collect();
        assert_eq!(got, want);
    }
}

#[test]
fn decimal_writing() {
    for n in [0u64, 7, 10, 1000, 4294967295, u64::MAX] {
        let mut v = Vec::new();
        push_decimal(&mut v, n);
        assert_eq!(st(&v), n.to_string());
        assert_eq!(parse_u64(&v), Some(n));
    }
}

#[test]
fn prefix_test() {
    assert!(starts_with(&cs("Groups:\t1"), &cs("Groups:")));
    assert!(!starts_with(&cs("Group"), &cs("Groups:")));
    assert!(starts_with(&cs("x"), &cs("")));
}

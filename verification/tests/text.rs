use imk::text::{ends_with, is_whitespace, parse_u64, split_whitespace, to_decimal};

fn words_of(s: &str) -> Vec<String> {
    s.split_whitespace().map(|w| w.to_string()).collect()
}

#[test]
fn whitespace_agrees_with_std_on_every_char() {
    let mut n: u32 = 0;
    while n <= 0x10FFFF {
        if let Some(c) = char::from_u32(n) {
            assert_eq!(is_whitespace(c), c.is_whitespace(), "U+{:04X}", n);
        }
        n += 1;
    }
}

#[test]
fn whitespace_named_cases() {
    assert!(is_whitespace(' '));
    assert!(is_whitespace('\t'));
    assert!(is_whitespace('\n'));
    assert!(is_whitespace('\u{A0}'));
    assert!(is_whitespace('\u{3000}'));
    assert!(!is_whitespace('a'));
    assert!(!is_whitespace('\u{200B}'));
    assert!(!is_whitespace('\u{8}'));
}

#[test]
fn split_of_a_plain_command() {
    assert_eq!(split_whitespace("make -j 4 all"), vec!["make", "-j", "4", "all"]);
}

#[test]
fn split_drops_leading_trailing_and_repeated_space() {
    assert_eq!(split_whitespace("  cargo \t build\n"), vec!["cargo", "build"]);
    assert_eq!(split_whitespace("one"), vec!["one"]);
}

#[test]
fn split_of_nothing_is_empty() {
    assert_eq!(split_whitespace(""), Vec::<String>::new());
    assert_eq!(split_whitespace(" \t\r\n "), Vec::<String>::new());
}

#[test]
fn split_agrees_with_std() {
    let samples = [
        "",
        " ",
        "a",
        " a",
        "a ",
        "a b",
        "a  b",
        "\u{3000}x\u{2028}y\u{A0}z",
        "échec  et\tmat",
        "日本語 テキスト",
        "tab\tseparated\tvalues",
        "zero\u{200B}width stays",
        "x\u{85}y",
        "trailing newline\n",
    ];
    for s in samples.iter() {
        assert_eq!(split_whitespace(s), words_of(s), "{:?}", s);
    }
}

#[test]
fn ends_with_cases() {
    assert!(ends_with("src/.git", "/.git"));
    assert!(ends_with("/.git", "/.git"));
    assert!(ends_with("anything", ""));
    assert!(ends_with("", ""));
    assert!(!ends_with(".git", "/.git"));
    assert!(!ends_with("src/.gitx", "/.git"));
    assert!(!ends_with("src/.git/", "/.git"));
    assert!(!ends_with("", "a"));
    assert!(ends_with("naïve/é", "/é"));
    assert!(!ends_with("naïve/e", "/é"));
}

#[test]
fn ends_with_agrees_with_std() {
    let texts = ["", "a", "ab", "abc", "a/b/c", "日本語", "x/日本語", "/target", "a/target"];
    let suffixes = ["", "a", "c", "bc", "/c", "語", "/日本語", "/target", "target"];
    for t in texts.iter() {
        for s in suffixes.iter() {
            assert_eq!(ends_with(t, s), t.ends_with(s), "{:?} {:?}", t, s);
        }
    }
}

#[test]
fn parse_u64_reads_plain_numbers() {
    assert_eq!(parse_u64("0"), Some(0));
    assert_eq!(parse_u64("7"), Some(7));
    assert_eq!(parse_u64("200"), Some(200));
    assert_eq!(parse_u64("0005"), Some(5));
    assert_eq!(parse_u64("+15"), Some(15));
}

#[test]
fn parse_u64_bounds() {
    assert_eq!(parse_u64("18446744073709551615"), Some(u64::MAX));
    assert_eq!(parse_u64("18446744073709551616"), None);
    assert_eq!(parse_u64("99999999999999999999999"), None);
    assert_eq!(parse_u64("000000000000000000000000000001"), Some(1));
}

#[test]
fn parse_u64_rejects_what_is_no_number() {
    assert_eq!(parse_u64(""), None);
    assert_eq!(parse_u64("+"), None);
    assert_eq!(parse_u64("-"), None);
    assert_eq!(parse_u64("-5"), None);
    assert_eq!(parse_u64("++5"), None);
    assert_eq!(parse_u64(" 5"), None);
    assert_eq!(parse_u64("5 "), None);
    assert_eq!(parse_u64("5s"), None);
    assert_eq!(parse_u64("1.5"), None);
    assert_eq!(parse_u64("0x10"), None);
    assert_eq!(parse_u64("١٢"), None);
}

#[test]
fn parse_u64_agrees_with_std() {
    let samples = [
        "", "0", "1", "+1", "-1", "+", "-", "+-1", "12345678901234567890", "18446744073709551615",
        "18446744073709551616", "184467440737095516150", "00", "+00", "1_000", "1e3", "٣", "9 ",
        "99999999999999999999x",
    ];
    for s in samples.iter() {
        assert_eq!(parse_u64(s), s.parse::<u64>().ok(), "{:?}", s);
    }
}

#[test]
fn to_decimal_writes_exact_digits() {
    assert_eq!(to_decimal(0), "0");
    assert_eq!(to_decimal(9), "9");
    assert_eq!(to_decimal(10), "10");
    assert_eq!(to_decimal(200), "200");
    assert_eq!(to_decimal(1234567890), "1234567890");
    assert_eq!(to_decimal(u64::MAX), "18446744073709551615");
}

#[test]
fn to_decimal_and_parse_u64_are_inverse() {
    let samples = [0u64, 1, 9, 10, 99, 100, 101, 65535, 4294967296, u64::MAX - 1, u64::MAX];
    for n in samples.iter() {
        assert_eq!(to_decimal(*n), n.to_string());
        assert_eq!(parse_u64(&to_decimal(*n)), Some(*n));
    }
}

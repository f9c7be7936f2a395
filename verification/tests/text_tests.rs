use rvm::text::{decimal, is_whitespace, parse_u64, signed_decimal, split_whitespace, to_chars};

#[test]
fn whitespace_is_what_std_says() {
    let mut code = 0u32;
    while code <= 0x3100 {
        if let Some(c) = char::from_u32(code) {
            assert_eq!(is_whitespace(c), c.is_whitespace(), "U+{:04X}", code);
        }
        code += 1;
    }
    assert!(!is_whitespace('\u{10FFFF}'));
}

#[test]
fn to_chars_keeps_every_character() {
    assert_eq!(to_chars(""), Vec::<char>::new());
    assert_eq!(to_chars("a\u{e9}\u{4e2d}!"), vec!['a', '\u{e9}', '\u{4e2d}', '!']);
}

#[test]
fn split_whitespace_gives_the_words_in_order() {
    assert_eq!(split_whitespace("@main push 5 print"), vec!["@main", "push", "5", "print"]);
    assert_eq!(split_whitespace("  a\t\tb\n\nc  "), vec!["a", "b", "c"]);
    assert_eq!(split_whitespace("one"), vec!["one"]);
}

#[test]
fn split_whitespace_of_blank_text_is_empty() {
    assert!(split_whitespace("").is_empty());
    assert!(split_whitespace(" \t\r\n").is_empty());
}

#[test]
fn split_whitespace_agrees_with_std() {
    let samples = [
        "@adder pop_ret @main push 10 push 20 call @adder 0 print",
        "x\u{a0}y\u{2003}z\u{3000}w",
        "\u{85}lead and trail\u{2028}",
        "caf\u{e9} \u{4e2d}\u{6587}\t\u{1f600}",
        "a\u{b}b\u{c}c",
    ];
    for sample in samples {
        let expected: Vec<String> = sample.split_whitespace().map(String::from).collect();
        assert_eq!(split_whitespace(sample), expected);
    }
}

#[test]
fn parse_u64_reads_decimal_literals() {
    assert_eq!(parse_u64("0"), Some(0));
    assert_eq!(parse_u64("5"), Some(5));
    assert_eq!(parse_u64("007"), Some(7));
    assert_eq!(parse_u64("1234567890"), Some(1234567890));
    assert_eq!(parse_u64("+42"), Some(42));
    assert_eq!(parse_u64("18446744073709551615"), Some(u64::MAX));
}

#[test]
fn parse_u64_rejects_everything_else() {
    assert_eq!(parse_u64(""), None);
    assert_eq!(parse_u64("+"), None);
    assert_eq!(parse_u64("-1"), None);
    assert_eq!(parse_u64("++1"), None);
    assert_eq!(parse_u64("12a"), None);
    assert_eq!(parse_u64("a12"), None);
    assert_eq!(parse_u64("1 2"), None);
    assert_eq!(parse_u64("0x10"), None);
    assert_eq!(parse_u64("\u{663}"), None);
    assert_eq!(parse_u64("18446744073709551616"), None);
    assert_eq!(parse_u64("99999999999999999999"), None);
    assert_eq!(parse_u64("184467440737095516150"), None);
}

#[test]
fn parse_u64_agrees_with_std() {
    let samples = ["0", "+0", "-0", "1", "+", "", "42", "4 2", "18446744073709551615",
        "18446744073709551616", "0018446744073709551615", "12345678901234567890123", "1_000"];
    for sample in samples {
        assert_eq!(parse_u64(sample), sample.parse::<u64>().ok(), "{}", sample);
    }
}

#[test]
fn decimal_writes_numbers_without_leading_zeros() {
    assert_eq!(decimal(0), "0");
    assert_eq!(decimal(7), "7");
    assert_eq!(decimal(10), "10");
    assert_eq!(decimal(1024), "1024");
    assert_eq!(decimal(u64::MAX), "18446744073709551615");
}

#[test]
fn signed_decimal_writes_the_sign() {
    assert_eq!(signed_decimal(0), "0");
    assert_eq!(signed_decimal(5), "5");
    assert_eq!(signed_decimal(-5), "-5");
    assert_eq!(signed_decimal(i32::MAX), "2147483647");
    assert_eq!(signed_decimal(i32::MIN), "-2147483648");
}

#[test]
fn decimal_then_parse_is_the_identity() {
    let samples = [0u64, 1, 9, 10, 99, 100, 65535, 1 << 32, u64::MAX - 1, u64::MAX];
    for sample in samples {
        assert_eq!(parse_u64(&decimal(sample)), Some(sample));
    }
}

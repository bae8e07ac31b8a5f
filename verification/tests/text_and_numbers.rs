use gen_nested_iter_yield::decimal::{decimal_string, parse_usize};
use gen_nested_iter_yield::text::{char_is_whitespace, join, split, trim};
use std::str::FromStr;

#[test]
fn whitespace_is_what_the_standard_library_says() {
    let mut code: u32 = 0;
    while code <= 0x10FFFF {
        if let Some(c) = char::from_u32(code) {
            assert_eq!(char_is_whitespace(c), c.is_whitespace(), "U+{:04X}", code);
        }
        code += 1;
    }
}

#[test]
fn whitespace_examples() {
    assert!(char_is_whitespace(' '));
    assert!(char_is_whitespace('\t'));
    assert!(char_is_whitespace('\n'));
    assert!(char_is_whitespace('\u{A0}'));
    assert!(char_is_whitespace('\u{3000}'));
    assert!(!char_is_whitespace('a'));
    assert!(!char_is_whitespace('\u{200B}'));
    assert!(!char_is_whitespace('\u{180E}'));
}

#[test]
fn trim_examples() {
    assert_eq!(trim("  a b  "), "a b");
    assert_eq!(trim("a"), "a");
    assert_eq!(trim(""), "");
    assert_eq!(trim(" \t\r\n"), "");
    assert_eq!(trim("\u{2003}x\u{3000}"), "x");
    assert_eq!(trim(" é ü "), "é ü");
    assert_eq!(trim("x "), "x");
    assert_eq!(trim(" x"), "x");
}

#[test]
fn trim_agrees_with_the_standard_library() {
    let samples = [
        "",
        " ",
        "  ",
        "a",
        " a",
        "a ",
        " a ",
        "a b",
        "  a  b  ",
        "\ta\n",
        "\u{85}a\u{1680}",
        "\u{200B} a \u{200B}",
        " input_vector.iter()",
        " 2 ",
        "日本 語 ",
    ];
    for sample in samples {
        assert_eq!(trim(sample), sample.trim(), "{:?}", sample);
    }
}

#[test]
fn split_examples() {
    assert_eq!(split("a,b,c", ','), vec!["a", "b", "c"]);
    assert_eq!(split("", ','), vec![""]);
    assert_eq!(split(",", ','), vec!["", ""]);
    assert_eq!(split("a,,b,", ','), vec!["a", "", "b", ""]);
    assert_eq!(split("abc", ','), vec!["abc"]);
    assert_eq!(split("é,ü", ','), vec!["é", "ü"]);
    assert_eq!(split("a b", ' '), vec!["a", "b"]);
}

#[test]
fn split_agrees_with_the_standard_library() {
    let samples = ["", ",", ",,", "a", "a,", ",a", "a,b", "x.iter(), 2, *", "a, b ,c,,", "ä,ö"];
    for sample in samples {
        let expected: Vec<&str> = sample.split(',').collect();
        assert_eq!(split(sample, ','), expected, "{:?}", sample);
    }
}

#[test]
fn joining_a_split_gives_the_text_back() {
    let samples = ["", ",", "a", "a,b", ",a,,b,", "x.iter(), 2, *"];
    for sample in samples {
        let pieces: Vec<String> = split(sample, ',').into_iter().map(String::from).collect();
        for piece in &pieces {
            assert!(!piece.contains(','));
        }
        assert_eq!(join(&pieces, ","), sample);
    }
}

#[test]
fn join_examples() {
    let none: Vec<String> = Vec::new();
    assert_eq!(join(&none, ", "), "");
    assert_eq!(join(&vec![String::from("a")], ", "), "a");
    assert_eq!(join(&vec![String::from("a"), String::from("b")], ", "), "a, b");
    assert_eq!(
        join(&vec![String::new(), String::from("b"), String::new()], "\n"),
        "\nb\n"
    );
    assert_eq!(join(&vec![String::from("a"), String::from("b")], ""), "ab");
}

#[test]
fn parse_usize_examples() {
    assert_eq!(parse_usize("0"), Some(0));
    assert_eq!(parse_usize("2"), Some(2));
    assert_eq!(parse_usize("+2"), Some(2));
    assert_eq!(parse_usize("007"), Some(7));
    assert_eq!(parse_usize("1234567890"), Some(1234567890));
    assert_eq!(parse_usize(""), None);
    assert_eq!(parse_usize("+"), None);
    assert_eq!(parse_usize("-"), None);
    assert_eq!(parse_usize("-0"), None);
    assert_eq!(parse_usize("++1"), None);
    assert_eq!(parse_usize("1+"), None);
    assert_eq!(parse_usize(" 1"), None);
    assert_eq!(parse_usize("1 "), None);
    assert_eq!(parse_usize("1_000"), None);
    assert_eq!(parse_usize("0x10"), None);
    assert_eq!(parse_usize("١٢"), None);
    assert_eq!(parse_usize("１"), None);
}

#[test]
fn parse_usize_at_the_limit() {
    let max = usize::MAX.to_string();
    assert_eq!(parse_usize(&max), Some(usize::MAX));
    assert_eq!(parse_usize(&format!("+000{}", max)), Some(usize::MAX));
    // One more than the maximum: the last digit of a power of two minus one
    // is never 9.
    let mut above = max.clone();
    let last = above.pop().unwrap();
    above.push(char::from_digit(last.to_digit(10).unwrap() + 1, 10).unwrap());
    assert_eq!(parse_usize(&above), None);
    assert_eq!(parse_usize(&format!("{}0", max)), None);
    assert_eq!(parse_usize("99999999999999999999999999999999999999999"), None);
}

#[test]
fn parse_usize_agrees_with_the_standard_library() {
    let samples = [
        "", "+", "-", "0", "+0", "-0", "00", "9", "10", "+10", "-10", "4294967295", "4294967296",
        "18446744073709551615", "18446744073709551616", "18446744073709551620", "1e3", "1.0",
        " 7", "7 ", "a", "12a", "+-1", "٣",
    ];
    for sample in samples {
        assert_eq!(parse_usize(sample), usize::from_str(sample).ok(), "{:?}", sample);
    }
}

#[test]
fn decimal_string_examples() {
    assert_eq!(decimal_string(0), "0");
    assert_eq!(decimal_string(9), "9");
    assert_eq!(decimal_string(10), "10");
    assert_eq!(decimal_string(101), "101");
    assert_eq!(decimal_string(65535), "65535");
    assert_eq!(decimal_string(usize::MAX), usize::MAX.to_string());
}

#[test]
fn reading_a_written_number_gives_it_back() {
    let samples = [0usize, 1, 9, 10, 11, 99, 100, 12345, 4294967295, usize::MAX - 1, usize::MAX];
    for n in samples {
        assert_eq!(decimal_string(n), n.to_string());
        assert_eq!(parse_usize(&decimal_string(n)), Some(n));
    }
}

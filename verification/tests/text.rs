use jbot::text::{
    chars_of, digit_text, find_char, is_whitespace, leading_line, push_decimal,
    push_signed_decimal, rfind_char, same_text, split, strip_prefix, trim,
};

#[test]
fn split_cuts_at_the_first_space() {
    assert_eq!(split("memo bob hey there"), ("memo", Some("bob hey there")));
    assert_eq!(split("memo"), ("memo", None));
    assert_eq!(split(""), ("", None));
    assert_eq!(split(" x"), ("", Some("x")));
    assert_eq!(split("x "), ("x", Some("")));
    assert_eq!(split("a  b"), ("a", Some(" b")));
    assert_eq!(split("tab\there now"), ("tab\there", Some("now")));
    assert_eq!(split("für alle"), ("für", Some("alle")));
}

#[test]
fn trim_agrees_with_the_standard_library() {
    for s in [
        "",
        " ",
        "   \t\r\n",
        "a",
        " a",
        "a ",
        "  memo bob hey there \n",
        "\u{a0}x\u{3000}",
        "\u{2003}wide space\u{2009}",
        "\u{200b}zero width is no space\u{200b}",
        "ä ö ü",
        " \u{85}\u{1680}\u{2028}\u{2029}\u{202f}\u{205f}inner \u{b} space\u{c}",
    ] {
        assert_eq!(trim(s), s.trim(), "{:?}", s);
    }
}

#[test]
fn whitespace_agrees_with_the_standard_library() {
    for code in 0..=0x10ffff_u32 {
        if let Some(c) = char::from_u32(code) {
            assert_eq!(is_whitespace(c), c.is_whitespace(), "U+{:04X}", code);
        }
    }
}

#[test]
fn strip_prefix_takes_the_prefix_off() {
    assert_eq!(strip_prefix("j: memo", "j:"), Some(" memo"));
    assert_eq!(strip_prefix("j:", "j:"), Some(""));
    assert_eq!(strip_prefix("j", "j:"), None);
    assert_eq!(strip_prefix("J: memo", "j:"), None);
    assert_eq!(strip_prefix(" j: memo", "j:"), None);
    assert_eq!(strip_prefix("anything", ""), Some("anything"));
    assert_eq!(strip_prefix("", ""), Some(""));
    assert_eq!(strip_prefix("", "j:"), None);
    assert_eq!(strip_prefix("jé: x", "jé:"), Some(" x"));
}

#[test]
fn leading_line_agrees_with_the_standard_library() {
    for s in [
        "one line",
        "first\nsecond",
        "first\r\nsecond",
        "first\rstill first\nsecond",
        "\nstarts empty",
        "\r\nstarts empty",
        "ends with return\r",
        "two\r\r\nreturns",
        "trailing\n",
        "ünïcödé\nsecond",
    ] {
        assert_eq!(leading_line(s), s.lines().next().unwrap(), "{:?}", s);
    }
    assert_eq!(leading_line(""), "");
}

#[test]
fn same_text_compares_characters() {
    assert!(same_text("memo", "memo"));
    assert!(same_text("", ""));
    assert!(!same_text("memo", "Memo"));
    assert!(!same_text("memo", "memo "));
    assert!(!same_text("", " "));
}

#[test]
fn chars_and_searches_count_characters() {
    let chars = chars_of("né à la");
    assert_eq!(chars, vec!['n', 'é', ' ', 'à', ' ', 'l', 'a']);
    assert_eq!(find_char(&chars, ' '), Some(2));
    assert_eq!(find_char(&chars, 'a'), Some(6));
    assert_eq!(find_char(&chars, 'x'), None);
    assert_eq!(rfind_char(&chars, 7, ' '), Some(4));
    assert_eq!(rfind_char(&chars, 4, ' '), Some(2));
    assert_eq!(rfind_char(&chars, 2, ' '), None);
    assert_eq!(rfind_char(&chars, 3, ' '), Some(2));
    assert_eq!(rfind_char(&chars, 0, 'n'), None);
    assert_eq!(chars_of(""), Vec::<char>::new());
}

#[test]
fn decimals_agree_with_the_standard_library() {
    for n in [0u64, 1, 9, 10, 11, 99, 100, 101, 1200, 65_535, 1_000_000, u64::MAX - 1, u64::MAX] {
        let mut out = String::from("n=");
        push_decimal(&mut out, n);
        assert_eq!(out, format!("n={}", n));
    }
    for n in [0i64, 1, -1, 9, -9, 10, -10, 2024, -44, i64::MAX, i64::MIN, i64::MIN + 1] {
        let mut out = String::new();
        push_signed_decimal(&mut out, n);
        assert_eq!(out, format!("{}", n));
    }
    for d in 0..10u64 {
        assert_eq!(digit_text(d), format!("{}", d));
    }
}

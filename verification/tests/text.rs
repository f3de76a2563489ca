use dui::text::{
    contains_ignoring_case, contains_text, decimal_i64, decimal_u64, decimal_usize,
    is_blank, is_white_space, join, lines, parse_u16, same_ignoring_case, same_text, split,
    starts_ignoring_case, text_before, to_lower_char, trim, trim_end_char, trim_start_char,
    without_last,
};

#[test]
fn white_space_is_that_of_unicode() {
    for c in '\0'..=char::MAX {
        assert_eq!(is_white_space(c), c.is_whitespace(), "{:?}", c);
    }
}

#[test]
fn letters_are_lowered_within_ascii() {
    for c in '\0'..=char::MAX {
        assert_eq!(to_lower_char(c), c.to_ascii_lowercase(), "{:?}", c);
    }
}

#[test]
fn texts_are_trimmed() {
    assert_eq!(trim(" \t a b \u{3000}\n"), "a b");
    assert_eq!(trim("   "), "");
    assert!(is_blank(" \u{a0}"));
    assert!(!is_blank(" x"));
    assert_eq!(trim_start_char("//a/", '/'), "a/");
    assert_eq!(trim_end_char("a\n\n", '\n'), "a");
    assert_eq!(without_last("gr\u{fc}"), "gr");
    assert_eq!(without_last(""), "");
}

#[test]
fn texts_are_compared() {
    assert!(same_text("a", "a"));
    assert!(!same_text("a", "A"));
    assert!(same_ignoring_case("Gr\u{fc}n", "gR\u{fc}N"));
    assert!(!same_ignoring_case("\u{fc}", "\u{dc}"));
    assert!(contains_ignoring_case("Hello World", "o w"));
    assert!(contains_ignoring_case("x", ""));
    assert!(!contains_text("Hello", "hello"));
    assert!(starts_ignoring_case("Hello", "hE"));
    assert!(!starts_ignoring_case("Hello", "ello"));
}

#[test]
fn order_of_texts_is_that_of_their_bytes() {
    let samples = ["", "a", "ab", "b", "B", "\u{7f}", "\u{fc}", "\u{ffff}", "\u{1f600}", "z"];
    for a in samples {
        for b in samples {
            assert_eq!(text_before(a, b), a < b, "{:?} {:?}", a, b);
        }
    }
}

#[test]
fn texts_are_split_and_joined() {
    assert_eq!(split("a;;b", ';'), vec!["a", "", "b"]);
    assert_eq!(split("", ';'), vec![""]);
    assert_eq!(lines("a\n\nb"), vec!["a\n", "\n", "b"]);
    assert_eq!(lines("a\n"), vec!["a\n"]);
    assert_eq!(lines(""), Vec::<String>::new());
    assert_eq!(lines("x\ny\r\nz").join(""), "x\ny\r\nz");
    assert_eq!(join(&vec!["a".to_string(), "b".to_string()], ", "), "a, b");
}

#[test]
fn numbers_are_written_and_read() {
    assert_eq!(decimal_u64(0), "0");
    assert_eq!(decimal_u64(u64::MAX), u64::MAX.to_string());
    assert_eq!(decimal_usize(1024), "1024");
    assert_eq!(decimal_i64(i64::MIN), i64::MIN.to_string());
    assert_eq!(decimal_i64(-7), "-7");
    for sample in ["0", "007", "65535", "65536", "", "+", "+12", "-1", "1x", "99999999999"] {
        assert_eq!(parse_u16(sample), sample.parse::<u16>().ok(), "{:?}", sample);
    }
}

use perry::text::{
    after_prefix, before, contains_text, decimal_text, ends_with, join, lines, parse_i32, parse_u64,
    signed_decimal_text, split, split_once, starts_with, trim,
};

#[test]
fn lines_agree_with_the_usual_rules() {
    for s in ["", "\n", "a", "a\n", "a\r\n", "a\r", "\r\n\r\n", "a\nb\rc\n\nd", "ä\r\r\nö"] {
        let expected: Vec<&str> = s.lines().collect();
        assert_eq!(lines(s), expected);
    }
}

#[test]
fn white_space_is_trimmed() {
    for s in ["", " ", "\u{3000}a b\u{85}\t", "\u{200b}x", "x\u{2028}"] {
        assert_eq!(trim(s), s.trim());
    }
}

#[test]
fn numbers_are_read_and_written() {
    for s in ["0", "007", "+1", "-1", "++1", "", "+", "-", "1x", "4294967296", "99999999999999999999", "٣"] {
        assert_eq!(parse_u64(s), s.parse::<u64>().ok());
        assert_eq!(parse_i32(s), s.parse::<i32>().ok());
    }
    assert_eq!(decimal_text(u64::MAX), u64::MAX.to_string());
    assert_eq!(decimal_text(0), "0");
    assert_eq!(signed_decimal_text(i64::MIN), i64::MIN.to_string());
}

#[test]
fn texts_are_cut_and_joined() {
    assert_eq!(split("a,,b", ','), vec!["a", "", "b"]);
    assert_eq!(split("", ','), vec![""]);
    assert_eq!(split_once("k=v=w", '='), Some(("k".to_string(), "v=w".to_string())));
    assert_eq!(split_once("k", '='), None);
    assert_eq!(join(&vec![], ", "), "");
    assert_eq!(join(&vec!["a".into(), "b".into(), "c".into()], ", "), "a, b, c");
    assert_eq!(after_prefix("seccomp=x", "seccomp="), Some("x".to_string()));
    assert_eq!(after_prefix("sec", "seccomp="), None);
}

#[test]
fn texts_are_searched_and_compared() {
    assert!(contains_text("is running now", "running"));
    assert!(contains_text("x", ""));
    assert!(!contains_text("runnin", "running"));
    assert!(starts_with("ab", "a") && !starts_with("a", "ab"));
    assert!(ends_with("ab", "b") && !ends_with("b", "ab"));
    let words = ["", "a", "ab", "b", "Z", "ü", "\u{10000}", "\u{ffff}"];
    for x in words {
        for y in words {
            assert_eq!(before(x, y), x < y);
        }
    }
}

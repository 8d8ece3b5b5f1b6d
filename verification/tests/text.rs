use unity_launcher::text::{
    contains, ends_with, first_word_of, integer_text, is_whitespace, join_lines, lines, parse_i32, push_padded,
    starts_with, tagged_lines, trim,
};

#[test]
fn white_space_is_that_of_unicode() {
    for u in 0..=0x10ffffu32 {
        if let Some(c) = char::from_u32(u) {
            assert_eq!(is_whitespace(c), c.is_whitespace(), "{u:x}");
        }
    }
}

#[test]
fn trimming() {
    for s in ["", " ", "a", "  a b \t", "\r\n\u{a0}x\u{3000}", "\u{2003}", "x ", " x"] {
        assert_eq!(trim(s), s.trim());
    }
}

#[test]
fn searching() {
    for (t, p) in [("", ""), ("abc", ""), ("abc", "abc"), ("abc", "abcd"), ("aab", "ab"), ("aéb", "éb"), ("xaby", "ab"), ("xy", "z")] {
        assert_eq!(contains(t, p), t.contains(p), "{t:?} {p:?}");
        assert_eq!(starts_with(t, p), t.starts_with(p), "{t:?} {p:?}");
        assert_eq!(ends_with(t, p), t.ends_with(p), "{t:?} {p:?}");
    }
}

#[test]
fn splitting_into_lines() {
    for s in ["", "\n", "a", "a\n", "a\r\nb", "a\rb\n\nc", "\r\n", "a\r", "a\n\r\n\n", "é\r\r\n"] {
        let expected: Vec<&str> = s.lines().collect();
        assert_eq!(lines(s), expected, "{s:?}");
    }
}

#[test]
fn first_words() {
    for s in ["", "  ", "Unity", "Unity -projectPath /x", "  a  b", "a\tb", "\u{2003}é ü"] {
        assert_eq!(first_word_of(s), s.split_whitespace().next().unwrap_or(s), "{s:?}");
    }
}

#[test]
fn tags() {
    assert_eq!(tagged_lines("x\nT: 1 \n T:2\nT:\nT:3", "T:"), ["1", "", "3"]);
    assert!(tagged_lines("", "T:").is_empty());
}

#[test]
fn reading_numbers() {
    for s in [
        "", "+", "-", "0", "-0", "+7", "007", "2147483647", "2147483648", "-2147483648",
        "-2147483649", "99999999999999999999", "000000000000000000001", "1 ", " 1", "1_0", "0x1", "--1",
        "+-1", "١",
    ] {
        assert_eq!(parse_i32(s), s.parse::<i32>().ok(), "{s:?}");
    }
}

#[test]
fn numbers_are_read_back() {
    for i in [0, 1, 9, 10, 99, 100, 12345, -1, -10, i32::MAX, i32::MIN] {
        assert_eq!(integer_text(i), i.to_string());
        assert_eq!(parse_i32(&integer_text(i)), Some(i));
        assert_eq!(trim(&integer_text(i)), i.to_string());
    }
}

#[test]
fn padding() {
    let mut out = String::from("x");
    push_padded(&mut out, 7, 2);
    push_padded(&mut out, 1234, 2);
    push_padded(&mut out, 0, 4);
    push_padded(&mut out, 5, 0);
    assert_eq!(out, "x07123400005");
    let mut most = String::new();
    push_padded(&mut most, u64::MAX, 4);
    assert_eq!(most, u64::MAX.to_string());
}

#[test]
fn joining_lines() {
    let all = vec!["a".to_string(), "".to_string(), "b c".to_string()];
    assert_eq!(join_lines(&all, 0), "a\n\nb c");
    assert_eq!(join_lines(&all, 1), "\nb c");
    assert_eq!(join_lines(&all, 2), "b c");
}

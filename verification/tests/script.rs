use unity_launcher::error::{show_error, AppError};
use unity_launcher::script::{escape, focus_process, show_alert};

/// Reads a string literal the way AppleScript does, and returns what follows it.
fn read_literal(s: &str) -> (String, String) {
    let mut out = String::new();
    let mut it = s.chars();
    loop {
        match it.next() {
            Some('\\') => out.push(it.next().unwrap()),
            Some('"') => return (out, it.collect()),
            Some(c) => out.push(c),
            None => panic!("literal does not end"),
        }
    }
}

#[test]
fn escaping() {
    assert_eq!(escape(""), "");
    assert_eq!(escape("plain é"), "plain é");
    assert_eq!(escape("a\"b"), "a\\\"b");
    assert_eq!(escape("a\\b"), "a\\\\b");
    for s in ["\\\"", "\"\\", "\\\\\"\"", "x\" & (do shell script \"y\") & \""] {
        let replaced = s.replace('\\', "\\\\").replace('"', "\\\"");
        assert_eq!(escape(s), replaced);
        let (text, rest) = read_literal(&format!("{}\" rest", escape(s)));
        assert_eq!(text, s);
        assert_eq!(rest, " rest");
    }
}

#[test]
fn alerts() {
    assert_eq!(
        show_alert("say \"hi\"", "c:\\x"),
        ["-e", "display alert \"say \\\"hi\\\"\" message \"c:\\\\x\" as critical"]
    );
}

#[test]
fn focusing() {
    assert_eq!(
        focus_process(4711),
        [
            "osascript",
            "-e",
            "tell application \"System Events\" to set frontmost of (first process whose unix id is 4711) to true"
        ]
    );
}

#[test]
fn failures_are_shown() {
    let e = AppError { message: "m".to_string(), detail: Some("d".to_string()) };
    let r = show_error(&e, false);
    assert_eq!(r.lines, ["Error: m", "  d"]);
    assert_eq!(r.alert, None);
    let r = show_error(&e, true);
    assert_eq!(r.alert, Some(show_alert("m", "d")));
    let e = AppError { message: "m".to_string(), detail: None };
    let r = show_error(&e, true);
    assert_eq!(r.lines, ["Error: m"]);
    assert_eq!(r.alert, Some(show_alert("m", "")));
}

//! The AppleScript that the launcher hands to `osascript`.

use vstd::prelude::*;
use vstd::string::StringExecFns;

use crate::text;

verus! {

/// One character inside an AppleScript string literal: a backslash or a double
/// quote gets a backslash in front.
pub open spec fn escaped_char(c: char) -> Seq<char> {
    if c == '\\' || c == '"' {
        seq!['\\', c]
    } else {
        seq![c]
    }
}

/// `s` as it is written inside an AppleScript string literal.
pub open spec fn escaped(s: Seq<char>) -> Seq<char>
    decreases s.len(),
{
    if s.len() == 0 {
        seq![]
    } else {
        escaped(s.drop_last()) + escaped_char(s.last())
    }
}

/// `s` as it is written inside an AppleScript string literal.
pub fn escape(s: &str) -> (r: String)
    ensures
        r@ == escaped(s@),
{
    let t = text::chars(s);
    let mut out = String::new();
    for i in 0..t.len()
        invariant
            t@ == s@,
            out@ == escaped(t@.take(i as int)),
    {
        let c: char = t[i];
        assert(t@.take(i + 1).drop_last() =~= t@.take(i as int));
        if c == '\\' || c == '"' {
            out.push('\\');
        }
        out.push(c);
        assert(out@ =~= escaped(t@.take(i as int)) + escaped_char(c));
    }
    assert(t@.take(t.len() as int) =~= t@);
    out
}

/// The script that shows an alert.
pub open spec fn alert_script(message: Seq<char>, detail: Seq<char>) -> Seq<char> {
    "display alert \""@ + escaped(message) + "\" message \""@ + escaped(detail) + "\" as critical"@
}

/// The arguments for `osascript` that show an alert.
pub open spec fn alert_args(message: Seq<char>, detail: Seq<char>) -> Seq<Seq<char>> {
    seq!["-e"@, alert_script(message, detail)]
}

/// The arguments for `osascript` that show an alert.
pub fn show_alert(message: &str, detail: &str) -> (r: Vec<String>)
    ensures
        r.deep_view() == alert_args(message@, detail@),
{
    let mut script = "display alert \"".to_owned();
    script.append(escape(message).as_str());
    script.append("\" message \"");
    script.append(escape(detail).as_str());
    script.append("\" as critical");
    let r = vec!["-e".to_owned(), script];
    assert(r.deep_view() =~= alert_args(message@, detail@));
    r
}

/// The script that brings the process `pid` to the front.
pub open spec fn focus_script(pid: i32) -> Seq<char> {
    "tell application \"System Events\" to set frontmost of (first process whose unix id is "@
        + text::integer(pid as int) + ") to true"@
}

/// The arguments, from its own name on, for the `osascript` that brings the
/// process `pid` to the front.
pub fn focus_process(pid: i32) -> (r: Vec<String>)
    ensures
        r.deep_view() == seq!["osascript"@, "-e"@, focus_script(pid)],
{
    let script = text::join3(
        "tell application \"System Events\" to set frontmost of (first process whose unix id is ",
        text::integer_text(pid).as_str(),
        ") to true",
    );
    let r = vec!["osascript".to_owned(), "-e".to_owned(), script];
    assert(r.deep_view() =~= seq!["osascript"@, "-e"@, focus_script(pid)]);
    r
}

/// The index of the double quote that ends a string literal, where `s` begins
/// inside it, or the length of `s`.
pub open spec fn literal_end(s: Seq<char>) -> nat
    decreases s.len(),
{
    if s.len() == 0 || s[0] == '"' {
        0
    } else if s[0] == '\\' && s.len() > 1 {
        2 + literal_end(s.skip(2))
    } else {
        1 + literal_end(s.skip(1))
    }
}

/// The text that a string literal stands for, from what is written inside it.
pub open spec fn literal_text(s: Seq<char>) -> Seq<char>
    decreases s.len(),
{
    if s.len() == 0 {
        seq![]
    } else if s[0] == '\\' && s.len() > 1 {
        seq![s[1]] + literal_text(s.skip(2))
    } else {
        seq![s[0]] + literal_text(s.skip(1))
    }
}

proof fn lemma_escaped_front(s: Seq<char>)
    requires
        s.len() > 0,
    ensures
        escaped(s) == escaped_char(s[0]) + escaped(s.skip(1)),
    decreases s.len(),
{
    reveal_with_fuel(escaped, 2);
    if s.len() == 1 {
        assert(s.drop_last() =~= seq![]);
        assert(s.skip(1) =~= seq![]);
        assert(escaped(s) =~= escaped_char(s[0]) + escaped(s.skip(1)));
    } else {
        let front = s.drop_last();
        lemma_escaped_front(front);
        assert(front.skip(1) =~= s.skip(1).drop_last());
        assert(s.skip(1).last() == s.last());
        assert(escaped(s) =~= escaped_char(s[0]) + escaped(s.skip(1)));
    }
}

/// A string literal that holds an escaped text ends right after it, and stands
/// for the text: no message can break out of the script.
pub proof fn escaped_text_stays_inside(s: Seq<char>, rest: Seq<char>)
    ensures
        literal_end(escaped(s) + seq!['"'] + rest) == escaped(s).len(),
        literal_text(escaped(s)) == s,
    decreases s.len(),
{
    reveal_with_fuel(literal_end, 2);
    reveal_with_fuel(literal_text, 2);
    let whole = escaped(s) + seq!['"'] + rest;
    if s.len() == 0 {
        assert(literal_text(escaped(s)) =~= s);
    } else {
        let tail = s.skip(1);
        let k = escaped_char(s[0]).len() as int;
        lemma_escaped_front(s);
        escaped_text_stays_inside(tail, rest);
        assert(whole.skip(k) =~= escaped(tail) + seq!['"'] + rest);
        assert(escaped(s).skip(k) =~= escaped(tail));
        assert(literal_text(escaped(s)) =~= s);
    }
}

/// The script for an alert holds the message and the detail, each inside one
/// string literal that stands for it; the script that brings a process to the
/// front names that process.
pub proof fn scripts_hold_what_they_are_about(message: Seq<char>, detail: Seq<char>, pid: i32)
    ensures
        ({
            let script = alert_script(message, detail);
            let first = script.skip("display alert \""@.len() as int);
            let n = literal_end(first) as int;
            let second = first.skip(n + "\" message \""@.len());
            let m = literal_end(second) as int;
            &&& "display alert \""@.is_prefix_of(script)
            &&& literal_text(first.take(n)) == message
            &&& "\" message \""@.is_prefix_of(first.skip(n))
            &&& literal_text(second.take(m)) == detail
            &&& second.skip(m) == "\" as critical"@
        }),
        alert_args(message, detail) == seq!["-e"@, alert_script(message, detail)],
        focus_script(pid)
            == "tell application \"System Events\" to set frontmost of (first process whose unix id is "@
            + text::integer(pid as int) + ") to true"@,
{
    reveal_strlit("display alert \"");
    reveal_strlit("\" message \"");
    reveal_strlit("\" as critical");
    let script = alert_script(message, detail);
    let head = "display alert \""@;
    let middle = "\" message \""@;
    let tail = "\" as critical"@;
    let first = script.skip(head.len() as int);
    let after = middle.skip(1) + escaped(detail) + tail;
    assert(script.take(head.len() as int) =~= head);
    assert(first =~= escaped(message) + seq!['"'] + after);
    escaped_text_stays_inside(message, after);
    let n = escaped(message).len() as int;
    assert(first.take(n) =~= escaped(message));
    assert(first.skip(n).take(middle.len() as int) =~= middle);
    let second = first.skip(n + middle.len());
    assert(second =~= escaped(detail) + seq!['"'] + tail.skip(1));
    escaped_text_stays_inside(detail, tail.skip(1));
    let m = escaped(detail).len() as int;
    assert(second.take(m) =~= escaped(detail));
    assert(second.skip(m) =~= tail);
}

} // verus!

//! Text as a sequence of characters: searching, trimming, splitting into
//! lines, and decimal numerals.

use vstd::prelude::*;
use vstd::string::StringExecFns;

verus! {

/// `String::push`: appends one character.
pub assume_specification[ String::push ](s: &mut String, ch: char)
    ensures
        final(s)@ == old(s)@.push(ch),
;

/// The characters of `s`, in order.
pub fn chars(s: &str) -> (r: Vec<char>)
    ensures
        r@ == s@,
{
    let mut out: Vec<char> = Vec::new();
    for c in it: s.chars()
        invariant
            out@ == it.seq().take(it.index()),
            it.seq() == s@,
    {
        out.push(c);
    }
    out
}

/// The string made of `text[from..to]`.
pub fn string_of(text: &[char], from: usize, to: usize) -> (r: String)
    requires
        from <= to <= text@.len(),
    ensures
        r@ == text@.subrange(from as int, to as int),
{
    let mut out = String::new();
    for i in from..to
        invariant
            from <= to <= text@.len(),
            out@ == text@.subrange(from as int, i as int),
    {
        out.push(text[i]);
        assert(text@.subrange(from as int, i as int).push(text@[i as int]) =~= text@.subrange(
            from as int,
            i + 1,
        ));
    }
    out
}

/// Two pieces of text, one after the other.
pub fn join2(a: &str, b: &str) -> (r: String)
    ensures
        r@ == a@ + b@,
{
    let mut out = a.to_owned();
    out.append(b);
    out
}

/// Three pieces of text, one after the other.
pub fn join3(a: &str, b: &str, c: &str) -> (r: String)
    ensures
        r@ == a@ + b@ + c@,
{
    let mut out = a.to_owned();
    out.append(b);
    out.append(c);
    out
}

// ---------------------------------------------------------------------------
// Searching
// ---------------------------------------------------------------------------

/// Whether `part` stands in `text` at index `at`.
pub open spec fn occurs_at<T>(text: Seq<T>, part: Seq<T>, at: int) -> bool {
    &&& 0 <= at <= text.len() - part.len()
    &&& text.subrange(at, at + part.len()) == part
}

/// Whether `part` stands anywhere in `text`.
pub open spec fn occurs_in<T>(text: Seq<T>, part: Seq<T>) -> bool {
    exists|at: int| occurs_at(text, part, at)
}

fn matches_at(text: &[char], part: &[char], at: usize) -> (r: bool)
    requires
        at + part@.len() <= text@.len(),
    ensures
        r == occurs_at(text@, part@, at as int),
{
    for i in 0..part.len()
        invariant
            at + part.len() <= text.len(),
            forall|j: int| 0 <= j < i ==> text@[at + j] == part@[j],
    {
        if text[at + i] != part[i] {
            assert(text@.subrange(at as int, at + part@.len())[i as int] != part@[i as int]);
            return false;
        }
    }
    assert(text@.subrange(at as int, at + part@.len()) =~= part@);
    true
}

/// Whether `text` begins with `prefix`.
pub fn starts_with(text: &str, prefix: &str) -> (r: bool)
    ensures
        r == prefix@.is_prefix_of(text@),
{
    let t = chars(text);
    let p = chars(prefix);
    if p.len() > t.len() {
        return false;
    }
    matches_at(t.as_slice(), p.as_slice(), 0)
}

/// Whether `text` ends with `suffix`.
pub fn ends_with(text: &str, suffix: &str) -> (r: bool)
    ensures
        r == suffix@.is_suffix_of(text@),
{
    let t = chars(text);
    let p = chars(suffix);
    if p.len() > t.len() {
        return false;
    }
    matches_at(t.as_slice(), p.as_slice(), t.len() - p.len())
}

/// Whether `part` stands anywhere in `text`.
pub fn contains(text: &str, part: &str) -> (r: bool)
    ensures
        r == occurs_in(text@, part@),
{
    let t = chars(text);
    let p = chars(part);
    if p.len() > t.len() {
        return false;
    }
    let last: usize = t.len() - p.len();
    let mut at: usize = 0;
    while at <= last
        invariant
            p@.len() <= t@.len(),
            last == t@.len() - p@.len(),
            at <= last + 1,
            forall|k: int| 0 <= k < at ==> !occurs_at(t@, p@, k),
            t@ == text@,
            p@ == part@,
        decreases last + 1 - at,
    {
        if matches_at(t.as_slice(), p.as_slice(), at) {
            return true;
        }
        if at == last {
            return false;
        }
        at += 1;
    }
    false
}

// ---------------------------------------------------------------------------
// White space
// ---------------------------------------------------------------------------

/// The characters with Unicode's `White_Space` property.
pub open spec fn whitespace(c: char) -> bool {
    let u = c as u32;
    ||| 0x09 <= u <= 0x0d
    ||| u == 0x20
    ||| u == 0x85
    ||| u == 0xa0
    ||| u == 0x1680
    ||| 0x2000 <= u <= 0x200a
    ||| u == 0x2028
    ||| u == 0x2029
    ||| u == 0x202f
    ||| u == 0x205f
    ||| u == 0x3000
}

/// Whether `c` has Unicode's `White_Space` property.
pub fn is_whitespace(c: char) -> (r: bool)
    ensures
        r == whitespace(c),
{
    let u: u32 = c as u32;
    (0x09 <= u && u <= 0x0d) || u == 0x20 || u == 0x85 || u == 0xa0 || u == 0x1680 || (0x2000 <= u
        && u <= 0x200a) || u == 0x2028 || u == 0x2029 || u == 0x202f || u == 0x205f || u == 0x3000
}

/// `s` without its leading white space.
pub open spec fn trim_start(s: Seq<char>) -> Seq<char>
    decreases s.len(),
{
    if s.len() > 0 && whitespace(s[0]) {
        trim_start(s.skip(1))
    } else {
        s
    }
}

/// `s` without its trailing white space.
pub open spec fn trim_end(s: Seq<char>) -> Seq<char>
    decreases s.len(),
{
    if s.len() > 0 && whitespace(s.last()) {
        trim_end(s.drop_last())
    } else {
        s
    }
}

/// `s` without the white space around it.
pub open spec fn trimmed(s: Seq<char>) -> Seq<char> {
    trim_end(trim_start(s))
}

/// The index of the first character of `t` from `from` on that is not white
/// space, or the length of `t`.
fn skip_whitespace(t: &[char], from: usize) -> (r: usize)
    requires
        from <= t@.len(),
    ensures
        from <= r <= t@.len(),
        trim_start(t@.skip(from as int)) == t@.skip(r as int),
{
    let mut i: usize = from;
    while i < t.len() && is_whitespace(t[i])
        invariant
            from <= i <= t@.len(),
            trim_start(t@.skip(from as int)) == trim_start(t@.skip(i as int)),
        decreases t@.len() - i,
    {
        assert(t@.skip(i as int).skip(1) =~= t@.skip(i + 1));
        i += 1;
    }
    i
}

/// `text[from..]` without the white space around it.
fn trim_from(t: &[char], from: usize) -> (r: String)
    requires
        from <= t@.len(),
    ensures
        r@ == trimmed(t@.skip(from as int)),
{
    let start: usize = skip_whitespace(t, from);
    let mut end: usize = t.len();
    assert(t@.subrange(start as int, end as int) =~= t@.skip(start as int));
    while start < end && is_whitespace(t[end - 1])
        invariant
            start <= end <= t@.len(),
            trimmed(t@.skip(from as int)) == trim_end(t@.subrange(start as int, end as int)),
        decreases end,
    {
        assert(t@.subrange(start as int, end as int).drop_last() =~= t@.subrange(
            start as int,
            end - 1,
        ));
        end -= 1;
    }
    string_of(t, start, end)
}

/// `text` without the white space around it.
pub fn trim(text: &str) -> (r: String)
    ensures
        r@ == trimmed(text@),
{
    let t = chars(text);
    assert(t@.skip(0) =~= t@);
    trim_from(t.as_slice(), 0)
}

/// How many characters of `s` stand before its first white space.
pub open spec fn word_len(s: Seq<char>) -> nat
    decreases s.len(),
{
    if s.len() > 0 && !whitespace(s[0]) {
        1 + word_len(s.skip(1))
    } else {
        0
    }
}

/// The first word of `s`: what stands between its leading white space and the
/// white space that follows. A text without any word is its own first word.
pub open spec fn first_word(s: Seq<char>) -> Seq<char> {
    let body = trim_start(s);
    if body.len() == 0 {
        s
    } else {
        body.take(word_len(body) as int)
    }
}

/// The first word of `text`, or all of `text` where it holds no word.
pub fn first_word_of(text: &str) -> (r: String)
    ensures
        r@ == first_word(text@),
{
    let t = chars(text);
    assert(t@.skip(0) =~= t@);
    let start: usize = skip_whitespace(t.as_slice(), 0);
    let mut end: usize = start;
    let ghost body = t@.skip(start as int);
    if start == t.len() {
        return text.to_owned();
    }
    while end < t.len() && !is_whitespace(t[end])
        invariant
            start <= end <= t@.len(),
            body == t@.skip(start as int),
            word_len(body) == end - start + word_len(t@.skip(end as int)),
        decreases t@.len() - end,
    {
        assert(t@.skip(end as int).skip(1) =~= t@.skip(end + 1));
        end += 1;
    }
    assert(body.take(end - start) =~= t@.subrange(start as int, end as int));
    string_of(t.as_slice(), start, end)
}

// ---------------------------------------------------------------------------
// Lines
// ---------------------------------------------------------------------------

/// The index of the first line feed in `s`, or its length where there is none.
pub open spec fn line_end(s: Seq<char>) -> nat
    decreases s.len(),
{
    if s.len() > 0 && s[0] != '\n' {
        1 + line_end(s.skip(1))
    } else {
        0
    }
}

/// A line without the carriage return before its line feed.
pub open spec fn without_cr(s: Seq<char>) -> Seq<char> {
    if s.len() > 0 && s.last() == '\r' {
        s.drop_last()
    } else {
        s
    }
}

/// The lines of `s`. A line ends at a line feed, or at a carriage return and a
/// line feed; the last one may end with the text.
pub open spec fn lines_of(s: Seq<char>) -> Seq<Seq<char>>
    decreases s.len(),
{
    if s.len() == 0 {
        seq![]
    } else if line_end(s) >= s.len() {
        seq![s]
    } else {
        seq![without_cr(s.take(line_end(s) as int))] + lines_of(s.skip(line_end(s) as int + 1))
    }
}

/// The lines of `text`.
pub fn lines(text: &str) -> (r: Vec<String>)
    ensures
        r.deep_view() == lines_of(text@),
{
    let t = chars(text);
    let mut out: Vec<String> = Vec::new();
    let mut start: usize = 0;
    assert(t@.skip(0) =~= t@);
    assert(out.deep_view() =~= seq![]);
    while start < t.len()
        invariant
            start <= t@.len(),
            lines_of(t@) =~= out.deep_view() + lines_of(t@.skip(start as int)),
        decreases t@.len() - start,
    {
        let ghost rest = t@.skip(start as int);
        let mut end: usize = start;
        while end < t.len() && t[end] != '\n'
            invariant
                start <= end <= t@.len(),
                rest == t@.skip(start as int),
                line_end(rest) == end - start + line_end(t@.skip(end as int)),
            decreases t@.len() - end,
        {
            assert(t@.skip(end as int).skip(1) =~= t@.skip(end + 1));
            end += 1;
        }
        let ghost before = out.deep_view();
        if end == t.len() {
            let line = string_of(t.as_slice(), start, end);
            assert(line@ =~= rest);
            out.push(line);
            assert(out.deep_view() =~= before.push(rest));
            assert(t@.skip(end as int) =~= seq![]);
            start = end;
        } else {
            let stop: usize = if start < end && t[end - 1] == '\r' { end - 1 } else { end };
            let line = string_of(t.as_slice(), start, stop);
            assert(rest.take(end - start) =~= t@.subrange(start as int, end as int));
            assert(line@ =~= without_cr(rest.take(end - start)));
            out.push(line);
            assert(out.deep_view() =~= before.push(without_cr(rest.take(end - start))));
            assert(rest.skip(line_end(rest) as int + 1) =~= t@.skip(end + 1));
            start = end + 1;
        }
    }
    assert(t@.skip(start as int) =~= seq![]);
    out
}

/// What follows `tag` on each line that begins with it, trimmed, in order.
pub open spec fn tagged(lines: Seq<Seq<char>>, tag: Seq<char>) -> Seq<Seq<char>>
    decreases lines.len(),
{
    if lines.len() == 0 {
        seq![]
    } else {
        let before = tagged(lines.drop_last(), tag);
        if tag.is_prefix_of(lines.last()) {
            before.push(trimmed(lines.last().skip(tag.len() as int)))
        } else {
            before
        }
    }
}

/// What follows `tag` on each line of `text` that begins with it, trimmed.
pub fn tagged_lines(text: &str, tag: &str) -> (r: Vec<String>)
    ensures
        r.deep_view() == tagged(lines_of(text@), tag@),
{
    let all = lines(text);
    let mark = chars(tag);
    let ghost seqs = all.deep_view();
    let mut out: Vec<String> = Vec::new();
    assert(out.deep_view() =~= seq![]);
    for i in 0..all.len()
        invariant
            seqs == all.deep_view(),
            mark@ == tag@,
            out.deep_view() == tagged(seqs.take(i as int), tag@),
    {
        let ghost before = out.deep_view();
        assert(seqs.take(i + 1).drop_last() =~= seqs.take(i as int));
        assert(seqs.take(i + 1).last() == all[i as int]@);
        if starts_with(all[i].as_str(), tag) {
            let line = chars(all[i].as_str());
            let value = trim_from(line.as_slice(), mark.len());
            out.push(value);
            assert(out.deep_view() =~= before.push(value@));
        }
    }
    assert(seqs.take(all.len() as int) =~= seqs);
    out
}

/// Some lines, one after the other, with a line feed between each two.
pub open spec fn joined_lines(lines: Seq<Seq<char>>) -> Seq<char>
    decreases lines.len(),
{
    if lines.len() == 0 {
        seq![]
    } else if lines.len() == 1 {
        lines[0]
    } else {
        joined_lines(lines.drop_last()).push('\n') + lines.last()
    }
}

/// The lines from the one at `from` on, with a line feed between each two.
pub fn join_lines(lines: &Vec<String>, from: usize) -> (r: String)
    requires
        from < lines@.len(),
    ensures
        r@ == joined_lines(lines.deep_view().skip(from as int)),
{
    let ghost rest = lines.deep_view().skip(from as int);
    let mut out = lines[from].clone();
    assert(rest.take(1) =~= seq![lines@[from as int]@]);
    for i in from + 1..lines.len()
        invariant
            from < lines@.len(),
            rest == lines.deep_view().skip(from as int),
            out@ == joined_lines(rest.take(i - from)),
    {
        out.push('\n');
        out.append(lines[i].as_str());
        assert(rest.take(i + 1 - from).drop_last() =~= rest.take(i - from));
        assert(rest.take(i + 1 - from).last() == lines@[i as int]@);
    }
    assert(rest.take(lines@.len() - from) =~= rest);
    out
}

/// Each of some joined lines stands in the text that they make.
pub proof fn every_joined_line_occurs(lines: Seq<Seq<char>>, i: int)
    requires
        0 <= i < lines.len(),
    ensures
        occurs_in(joined_lines(lines), lines[i]),
    decreases lines.len(),
{
    let whole = joined_lines(lines);
    if lines.len() == 1 {
        assert(whole.subrange(0, whole.len() as int) =~= lines[i]);
        assert(occurs_at(whole, lines[i], 0));
    } else {
        let front = joined_lines(lines.drop_last());
        if i == lines.len() - 1 {
            let at = front.len() as int + 1;
            assert(whole.subrange(at, at + lines[i].len()) =~= lines[i]);
            assert(occurs_at(whole, lines[i], at));
        } else {
            every_joined_line_occurs(lines.drop_last(), i);
            let at = choose|at: int| occurs_at(front, lines[i], at);
            assert(whole.subrange(at, at + lines[i].len()) =~= front.subrange(
                at,
                at + lines[i].len(),
            ));
            assert(occurs_at(whole, lines[i], at));
        }
    }
}

// ---------------------------------------------------------------------------
// Decimal numerals
// ---------------------------------------------------------------------------

/// The decimal digit for `d`.
pub open spec fn digit(d: int) -> char {
    (0x30 + d) as char
}

/// The shortest decimal numeral for `n`.
pub open spec fn decimal(n: nat) -> Seq<char>
    decreases n,
{
    if n < 10 {
        seq![digit(n as int)]
    } else {
        decimal(n / 10).push(digit((n % 10) as int))
    }
}

/// The shortest decimal numeral for `i`, with a minus sign where it is negative.
pub open spec fn integer(i: int) -> Seq<char> {
    if i < 0 {
        seq!['-'] + decimal((-i) as nat)
    } else {
        decimal(i as nat)
    }
}

/// The decimal numeral for `n`, filled up with leading zeros to `width` digits.
pub open spec fn padded(n: nat, width: nat) -> Seq<char> {
    let d = decimal(n);
    if d.len() < width {
        Seq::new((width - d.len()) as nat, |i: int| '0') + d
    } else {
        d
    }
}

fn push_decimal(out: &mut String, n: u64)
    ensures
        final(out)@ == old(out)@ + decimal(n as nat),
    decreases n,
{
    if n >= 10 {
        push_decimal(out, n / 10);
    }
    let d: u8 = (n % 10) as u8;
    let c: char = (0x30u8 + d) as char;
    assert(c == digit((n % 10) as int));
    out.push(c);
    assert(out@ =~= old(out)@ + decimal(n as nat));
}

/// The shortest decimal numeral for `i`.
pub fn integer_text(i: i32) -> (r: String)
    ensures
        r@ == integer(i as int),
{
    let mut out = String::new();
    let wide: i64 = i as i64;
    if wide < 0 {
        out.push('-');
        push_decimal(&mut out, (-wide) as u64);
    } else {
        push_decimal(&mut out, wide as u64);
    }
    assert(out@ =~= integer(i as int));
    out
}

/// Appends the decimal numeral for `n`, with at least `width` digits.
pub fn push_padded(out: &mut String, n: u64, width: usize)
    ensures
        final(out)@ == old(out)@ + padded(n as nat, width as nat),
{
    let mut digits = String::new();
    push_decimal(&mut digits, n);
    let numeral = chars(digits.as_str());
    assert(numeral@ =~= decimal(n as nat));
    let ghost start = out@;
    let mut have: usize = numeral.len();
    let ghost first = have;
    while have < width
        invariant
            first <= have,
            first <= width ==> have <= width,
            first > width ==> have == first,
            out@ =~= start + Seq::new((have - first) as nat, |i: int| '0'),
        decreases width - have,
    {
        out.push('0');
        have += 1;
    }
    out.append(digits.as_str());
    assert(out@ =~= start + padded(n as nat, width as nat));
}

/// Whether `c` is a decimal digit.
pub open spec fn is_digit(c: char) -> bool {
    0x30 <= c as u32 <= 0x39
}

/// Whether `s` is a run of one or more decimal digits.
pub open spec fn all_digits(s: Seq<char>) -> bool {
    s.len() > 0 && forall|i: int| 0 <= i < s.len() ==> is_digit(#[trigger] s[i])
}

/// The number that a run of decimal digits stands for.
pub open spec fn digits_value(s: Seq<char>) -> nat
    decreases s.len(),
{
    if s.len() == 0 {
        0
    } else {
        (10 * digits_value(s.drop_last()) + (s.last() as u32 - 0x30)) as nat
    }
}

/// The number that `s` stands for: an optional sign and one or more decimal
/// digits, and nothing else.
pub open spec fn parsed(s: Seq<char>) -> Option<int> {
    if s.len() > 0 && s[0] == '-' {
        if all_digits(s.skip(1)) {
            Some(-(digits_value(s.skip(1)) as int))
        } else {
            None
        }
    } else {
        let body = if s.len() > 0 && s[0] == '+' {
            s.skip(1)
        } else {
            s
        };
        if all_digits(body) {
            Some(digits_value(body) as int)
        } else {
            None
        }
    }
}

/// The number that `s` stands for, where it is one of the 32-bit integers.
pub open spec fn parsed_i32(s: Seq<char>) -> Option<i32> {
    match parsed(s) {
        Some(v) if i32::MIN <= v <= i32::MAX => Some(v as i32),
        _ => None,
    }
}

/// The number that `text` stands for, where it is one of the 32-bit integers.
pub fn parse_i32(text: &str) -> (r: Option<i32>)
    ensures
        r == parsed_i32(text@),
{
    let t = chars(text);
    let negative: bool = t.len() > 0 && t[0] == '-';
    let from: usize = if t.len() > 0 && (t[0] == '-' || t[0] == '+') { 1 } else { 0 };
    let ghost body = t@.skip(from as int);
    assert(from == 0 ==> body =~= t@);
    if from == t.len() {
        return None;
    }
    let mut value: i64 = 0;
    let mut over: bool = false;
    let mut i: usize = from;
    while i < t.len()
        invariant
            from <= i <= t@.len(),
            from <= 1,
            body == t@.skip(from as int),
            forall|j: int| 0 <= j < i - from ==> is_digit(#[trigger] body[j]),
            over ==> digits_value(body.take(i - from)) > 0x8000_0000,
            !over ==> value == digits_value(body.take(i - from)) && value <= 0x8000_0000,
            value >= 0,
            text@ == t@,
            negative == (t@.len() > 0 && t@[0] == '-'),
            from == 1 <==> t@.len() > 0 && (t@[0] == '-' || t@[0] == '+'),
        decreases t@.len() - i,
    {
        let u: u32 = t[i] as u32;
        assert(body[i - from] == t@[i as int]);
        if u < 0x30 || u > 0x39 {
            assert(!is_digit(body[i - from]));
            assert(!all_digits(body));
            assert(from == 0 ==> body =~= t@);
            return None;
        }
        let ghost so_far = body.take(i - from);
        let ghost longer = body.take(i + 1 - from);
        assert(longer.drop_last() =~= so_far);
        assert(longer.last() == t@[i as int]);
        if !over {
            value = value * 10 + (u - 0x30) as i64;
            if value > 0x8000_0000 {
                over = true;
            }
        }
        i += 1;
    }
    assert(body.take(i - from) =~= body);
    assert(all_digits(body));
    assert(from == 0 ==> body =~= t@);
    if over {
        return None;
    }
    let signed: i64 = if negative { -value } else { value };
    if signed > 0x7fff_ffff {
        None
    } else {
        Some(signed as i32)
    }
}

proof fn lemma_decimal_digits(n: nat)
    ensures
        all_digits(decimal(n)),
        digits_value(decimal(n)) == n,
    decreases n,
{
    reveal_with_fuel(digits_value, 2);
    if n >= 10 {
        lemma_decimal_digits(n / 10);
        assert(decimal(n).drop_last() =~= decimal(n / 10));
    } else {
        assert(decimal(n).drop_last() =~= seq![]);
    }
}

/// A numeral that is filled up with zeros is a run of digits.
pub proof fn padded_is_digits(n: nat, width: nat)
    ensures
        all_digits(padded(n, width)),
{
    lemma_decimal_digits(n);
}

proof fn lemma_leading_zeros(z: Seq<char>, d: Seq<char>)
    requires
        forall|i: int| 0 <= i < z.len() ==> z[i] == '0',
    ensures
        digits_value(z + d) == digits_value(d),
    decreases z.len() + d.len(),
{
    if d.len() > 0 {
        assert((z + d).drop_last() =~= z + d.drop_last());
        lemma_leading_zeros(z, d.drop_last());
    } else if z.len() > 0 {
        assert(z + d =~= z);
        assert((z + d).drop_last() =~= z.drop_last() + d);
        lemma_leading_zeros(z.drop_last(), d);
    } else {
        assert(z + d =~= d);
    }
}

/// A numeral that is filled up with zeros still stands for its number, and one
/// below a hundred has two digits where two are asked for.
pub proof fn padded_stands_for_its_number(n: nat, width: nat)
    ensures
        digits_value(padded(n, width)) == n,
        n < 100 ==> padded(n, 2).len() == 2,
{
    let d = decimal(n);
    lemma_decimal_digits(n);
    if d.len() < width {
        lemma_leading_zeros(Seq::new((width - d.len()) as nat, |i: int| '0'), d);
    }
    reveal_with_fuel(decimal, 3);
}

/// A number that was written in decimal is read back as itself.
pub proof fn integer_is_read_back(i: i32)
    ensures
        parsed_i32(integer(i as int)) == Some(i),
{
    let s = integer(i as int);
    if i < 0 {
        lemma_decimal_digits((-(i as int)) as nat);
        assert(s.skip(1) =~= decimal((-(i as int)) as nat));
    } else {
        lemma_decimal_digits(i as nat);
        assert(is_digit(s[0]));
    }
}

/// A decimal numeral neither begins nor ends with white space.
pub proof fn integer_is_bare(i: i32)
    ensures
        bare(integer(i as int)),
{
    let n = (if i < 0 {
        -(i as int)
    } else {
        i as int
    }) as nat;
    lemma_decimal_digits(n);
    let s = integer(i as int);
    assert(s.last() == decimal(n).last());
    assert(is_digit(decimal(n)[decimal(n).len() - 1]));
    assert(i >= 0 ==> is_digit(s[0]));
}

/// A decimal numeral has no white space to be trimmed.
pub proof fn integer_has_no_space_around(i: i32)
    ensures
        trimmed(integer(i as int)) == integer(i as int),
{
    let n = (if i < 0 {
        -(i as int)
    } else {
        i as int
    }) as nat;
    lemma_decimal_digits(n);
    let s = integer(i as int);
    assert(s.last() == decimal(n).last());
    assert(is_digit(decimal(n)[decimal(n).len() - 1]));
    assert(i >= 0 ==> is_digit(s[0]));
}

// ---------------------------------------------------------------------------
// What holds of texts and their parts
// ---------------------------------------------------------------------------

/// Whether `s` holds white space only.
pub open spec fn all_white(s: Seq<char>) -> bool {
    forall|i: int| 0 <= i < s.len() ==> whitespace(#[trigger] s[i])
}

/// Whether `s` neither begins nor ends with white space.
pub open spec fn bare(s: Seq<char>) -> bool {
    s.len() > 0 ==> !whitespace(s[0]) && !whitespace(s[s.len() - 1])
}

proof fn lemma_trim_start(a: Seq<char>, s: Seq<char>)
    requires
        all_white(a),
        s.len() > 0 ==> !whitespace(s[0]),
    ensures
        trim_start(a + s) == s,
    decreases a.len(),
{
    if a.len() > 0 {
        assert((a + s).skip(1) =~= a.skip(1) + s);
        assert((a + s)[0] == a[0]);
        lemma_trim_start(a.skip(1), s);
    } else {
        assert(a + s =~= s);
    }
}

proof fn lemma_trim_end(s: Seq<char>, b: Seq<char>)
    requires
        all_white(b),
        s.len() > 0 ==> !whitespace(s[s.len() - 1]),
    ensures
        trim_end(s + b) == s,
    decreases b.len(),
{
    if b.len() > 0 {
        assert((s + b).drop_last() =~= s + b.drop_last());
        assert((s + b).last() == b.last());
        lemma_trim_end(s, b.drop_last());
    } else {
        assert(s + b =~= s);
    }
}

proof fn lemma_all_white_trimmed(a: Seq<char>)
    requires
        all_white(a),
    ensures
        trim_start(a).len() == 0,
    decreases a.len(),
{
    if a.len() > 0 {
        lemma_all_white_trimmed(a.skip(1));
    }
}

/// Trimming a text takes away the white space around it, and nothing else.
pub proof fn trimming_takes_the_white_space_only(a: Seq<char>, s: Seq<char>, b: Seq<char>)
    requires
        all_white(a),
        all_white(b),
        bare(s),
    ensures
        trimmed(a + s + b) == s,
{
    if s.len() == 0 {
        assert(a + s + b =~= a + b);
        lemma_all_white_trimmed(a + b);
        assert(trim_start(a + s + b) =~= s);
    } else {
        assert(a + s + b =~= a + (s + b));
        lemma_trim_start(a, s + b);
        lemma_trim_end(s, b);
    }
}

proof fn lemma_line_end(line: Seq<char>, rest: Seq<char>)
    requires
        !line.contains('\n'),
        rest.len() > 0 ==> rest[0] == '\n',
    ensures
        line_end(line + rest) == line.len(),
    decreases line.len(),
{
    if line.len() > 0 {
        let tail = line.skip(1);
        assert((line + rest).skip(1) =~= tail + rest);
        assert(line.contains(line[0]));
        assert forall|i: int| 0 <= i < tail.len() implies tail[i] != '\n' by {
            assert(line.contains(line[i + 1]));
        }
        lemma_line_end(tail, rest);
    } else {
        assert(line + rest =~= rest);
    }
}

/// A text that begins with a line has that line first, and then the lines of the
/// rest.
pub proof fn first_line_comes_first(line: Seq<char>, rest: Seq<char>)
    requires
        !line.contains('\n'),
        line.len() > 0 ==> line[line.len() - 1] != '\r',
    ensures
        lines_of(line + seq!['\n'] + rest) == seq![line] + lines_of(rest),
        lines_of(line + seq!['\r', '\n'] + rest) == seq![line] + lines_of(rest),
{
    let plain = line + seq!['\n'] + rest;
    assert(plain =~= line + (seq!['\n'] + rest));
    lemma_line_end(line, seq!['\n'] + rest);
    assert(plain.take(line.len() as int) =~= line);
    assert(plain.skip(line.len() as int + 1) =~= rest);
    let long = line.push('\r');
    let other = line + seq!['\r', '\n'] + rest;
    assert forall|i: int| 0 <= i < long.len() implies long[i] != '\n' by {
        if i < line.len() {
            assert(line.contains(line[i]));
        }
    }
    assert(other =~= long + (seq!['\n'] + rest));
    lemma_line_end(long, seq!['\n'] + rest);
    assert(other.take(long.len() as int) =~= long);
    assert(long.drop_last() =~= line);
    assert(other.skip(long.len() as int + 1) =~= rest);
}

/// The first line of a text ends before its first line feed, and before the
/// carriage return that stands in front of that.
pub proof fn first_line_ends_at_its_line_feed(line: Seq<char>, rest: Seq<char>)
    requires
        !line.contains('\n'),
    ensures
        lines_of(line + seq!['\n'] + rest) == seq![
            if line.len() > 0 && line[line.len() - 1] == '\r' {
                line.drop_last()
            } else {
                line
            },
        ] + lines_of(rest),
{
    let plain = line + seq!['\n'] + rest;
    assert(plain =~= line + (seq!['\n'] + rest));
    lemma_line_end(line, seq!['\n'] + rest);
    assert(plain.take(line.len() as int) =~= line);
    assert(plain.skip(line.len() as int + 1) =~= rest);
}

/// A text without a line feed is one line, unless it is empty.
pub proof fn text_without_line_feed_is_one_line(line: Seq<char>)
    requires
        !line.contains('\n'),
    ensures
        lines_of(line) == (if line.len() == 0 {
            seq![]
        } else {
            seq![line]
        }),
{
    lemma_line_end(line, seq![]);
    assert(line + Seq::<char>::empty() =~= line);
}

/// Whether a line has a tag does not depend on the lines around it.
pub proof fn tags_are_read_line_by_line(a: Seq<Seq<char>>, b: Seq<Seq<char>>, tag: Seq<char>)
    ensures
        tagged(a + b, tag) == tagged(a, tag) + tagged(b, tag),
    decreases b.len(),
{
    if b.len() == 0 {
        assert(a + b =~= a);
        assert(tagged(a, tag) + tagged(b, tag) =~= tagged(a, tag));
    } else {
        tags_are_read_line_by_line(a, b.drop_last(), tag);
        assert((a + b).drop_last() =~= a + b.drop_last());
        assert(tagged(a + b, tag) =~= tagged(a, tag) + tagged(b, tag));
    }
}

/// A line with the tag has for its value what stands between the white space
/// after the tag and at the end of the line, and a line without the tag has none.
pub proof fn tagged_line_has_its_value(
    tag: Seq<char>,
    a: Seq<char>,
    value: Seq<char>,
    b: Seq<char>,
    other: Seq<char>,
)
    requires
        all_white(a),
        all_white(b),
        bare(value),
        !tag.is_prefix_of(other),
    ensures
        tagged(seq![tag + a + value + b], tag) == seq![value],
        tagged(seq![other], tag) == Seq::<Seq<char>>::empty(),
{
    reveal_with_fuel(tagged, 2);
    let line = tag + a + value + b;
    trimming_takes_the_white_space_only(a, value, b);
    assert(line.skip(tag.len() as int) =~= a + value + b);
    assert(tag.is_prefix_of(line)) by {
        assert(line.take(tag.len() as int) =~= tag);
    }
    assert(seq![line].drop_last() =~= seq![]);
    assert(seq![other].drop_last() =~= seq![]);
    assert(tagged(seq![line], tag) =~= seq![value]);
}

/// A part stands in a text just where the text is something, then the part, then
/// something again.
pub proof fn occurring_is_standing_between<T>(text: Seq<T>, part: Seq<T>, a: Seq<T>, b: Seq<T>)
    ensures
        text == a + part + b ==> occurs_in(text, part),
        occurs_in(text, part) ==> exists|x: Seq<T>, y: Seq<T>| text == #[trigger] (x + part + y),
{
    if text == a + part + b {
        assert(text.subrange(a.len() as int, a.len() as int + part.len()) =~= part);
        assert(occurs_at(text, part, a.len() as int));
    }
    if occurs_in(text, part) {
        let at = choose|at: int| occurs_at(text, part, at);
        let x = text.take(at);
        let y = text.skip(at + part.len());
        assert(text =~= x + part + y);
    }
}

/// The first word of a text is what stands after its leading white space, up to
/// the next white space or the end.
pub proof fn first_word_stands_between_white_space(
    a: Seq<char>,
    word: Seq<char>,
    rest: Seq<char>,
)
    requires
        all_white(a),
        word.len() > 0,
        forall|i: int| 0 <= i < word.len() ==> !whitespace(#[trigger] word[i]),
        rest.len() > 0 ==> whitespace(rest[0]),
    ensures
        first_word(a + word + rest) == word,
{
    assert(a + word + rest =~= a + (word + rest));
    lemma_trim_start(a, word + rest);
    lemma_word_len(word, rest);
    assert((word + rest).take(word.len() as int) =~= word);
}

proof fn lemma_word_len(word: Seq<char>, rest: Seq<char>)
    requires
        forall|i: int| 0 <= i < word.len() ==> !whitespace(#[trigger] word[i]),
        rest.len() > 0 ==> whitespace(rest[0]),
    ensures
        word_len(word + rest) == word.len(),
    decreases word.len(),
{
    if word.len() > 0 {
        assert((word + rest).skip(1) =~= word.skip(1) + rest);
        assert((word + rest)[0] == word[0]);
        lemma_word_len(word.skip(1), rest);
    } else {
        assert(word + rest =~= rest);
    }
}

/// A numeral is that of the number without its last digit, and then that digit;
/// a number below ten is its digit alone, and a negative one has a minus sign.
pub proof fn numerals_grow_by_a_digit(n: nat, d: nat)
    requires
        d < 10,
    ensures
        integer(d as int) == seq![(0x30 + d) as char],
        n > 0 ==> integer((10 * n + d) as int) == integer(n as int).push((0x30 + d) as char),
        n > 0 ==> integer(-(n as int)) == seq!['-'] + integer(n as int),
{
    if n > 0 {
        let m: nat = 10 * n + d;
        assert(m / 10 == n);
        assert(m % 10 == d);
    }
}

/// Lines that are joined are the first, and then each further one after a line
/// feed.
pub proof fn lines_are_joined_by_line_feeds(lines: Seq<Seq<char>>, next: Seq<char>)
    ensures
        joined_lines(seq![next]) == next,
        lines.len() > 0 ==> joined_lines(lines.push(next)) == joined_lines(lines) + seq!['\n']
            + next,
{
    assert(lines.push(next).drop_last() =~= lines);
    assert(lines.len() > 0 ==> joined_lines(lines.push(next)) =~= joined_lines(lines)
        + seq!['\n'] + next);
}

/// A numeral that is filled up has zeros in front and the asked-for length, or
/// is the numeral as it is where that is as long already.
pub proof fn numerals_are_filled_up_with_zeros(n: nat, width: nat)
    ensures
        ({
            let plain = integer(n as int);
            let full = padded(n, width);
            &&& full.len() == (if plain.len() < width {
                width
            } else {
                plain.len()
            })
            &&& plain.is_suffix_of(full)
            &&& forall|i: int| 0 <= i < full.len() - plain.len() ==> #[trigger] full[i] == '0'
        }),
{
    let plain = integer(n as int);
    let full = padded(n, width);
    assert(full.subrange(full.len() - plain.len(), full.len() as int) =~= plain);
}

proof fn lemma_digit_range(c: char)
    ensures
        is_digit(c) <==> '0' <= c <= '9',
{
}

/// A run of digits is read as the number that it stands for, with a sign or
/// without one, and nothing else is read.
pub proof fn numbers_are_signs_and_digits(s: Seq<char>, c: char, other: Seq<char>)
    requires
        forall|i: int| 0 <= i < s.len() ==> '0' <= #[trigger] s[i] <= '9',
        '0' <= c <= '9',
    ensures
        ({
            let run = s.push(c);
            let value = 10 * (if s.len() == 0 {
                0
            } else {
                parsed(s)->0
            }) + (c as int - '0' as int);
            &&& parsed(run) == Some(value)
            &&& parsed(seq!['+'] + run) == Some(value)
            &&& parsed(seq!['-'] + run) == Some(-value)
        }),
        parsed(other) is Some ==> ({
            let from = if other[0] == '-' || other[0] == '+' {
                1int
            } else {
                0int
            };
            &&& from < other.len()
            &&& forall|i: int| from <= i < other.len() ==> '0' <= #[trigger] other[i] <= '9'
        }),
        parsed_i32(other) == (match parsed(other) {
            Some(v) if -0x8000_0000 <= v <= 0x7fff_ffff => Some(v as i32),
            _ => None,
        }),
{
    let run = s.push(c);
    assert(run.drop_last() =~= s);
    assert(is_digit(run[0])) by {
        if s.len() > 0 {
            assert(run[0] == s[0]);
        }
    }
    assert(all_digits(run)) by {
        assert forall|i: int| 0 <= i < run.len() implies is_digit(#[trigger] run[i]) by {
            if i < s.len() {
                assert(run[i] == s[i]);
            }
        }
    }
    if s.len() > 0 {
        assert(is_digit(s[0]));
        assert(all_digits(s));
    }
    assert(digits_value(run) == 10 * digits_value(s) + (c as u32 - 0x30));
    if s.len() > 0 {
        assert(parsed(s) == Some(digits_value(s) as int));
    }
    assert(parsed(run) == Some(digits_value(run) as int));
    let plus = seq!['+'] + run;
    let minus = seq!['-'] + run;
    assert(plus.skip(1) =~= run);
    assert(minus.skip(1) =~= run);
    assert(parsed(plus) == Some(digits_value(run) as int));
    assert(parsed(minus) == Some(-(digits_value(run) as int)));
    if parsed(other) is Some {
        let from = if other[0] == '-' || other[0] == '+' {
            1int
        } else {
            0int
        };
        let body = other.skip(from);
        assert(other.skip(0) =~= other);
        assert(all_digits(body));
        assert forall|i: int| from <= i < other.len() implies '0' <= #[trigger] other[i]
            <= '9' by {
            assert(is_digit(body[i - from]));
            assert(body[i - from] == other[i]);
            lemma_digit_range(other[i]);
        }
    }
}

} // verus!

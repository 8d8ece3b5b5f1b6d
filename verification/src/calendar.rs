//! Dates and times of day in UTC, and the timestamps in log file names.

use std::time::{Duration, SystemTime, SystemTimeError, UNIX_EPOCH};

use vstd::arithmetic::div_mod::{lemma_fundamental_div_mod, lemma_fundamental_div_mod_converse};
use vstd::prelude::*;

use crate::text;

verus! {

/// Whether the proleptic Gregorian year `y` has a 29th of February.
pub open spec fn leap_year(y: int) -> bool {
    (y % 4 == 0 && y % 100 != 0) || y % 400 == 0
}

/// How many days the month `m` of the year `y` has.
pub open spec fn month_days(y: int, m: int) -> int {
    if m == 2 {
        if leap_year(y) {
            29
        } else {
            28
        }
    } else if m == 4 || m == 6 || m == 9 || m == 11 {
        30
    } else {
        31
    }
}

/// How many days of the year `y` stand before the month `m`; all of them where
/// `m` is 13.
pub open spec fn days_before_month(y: int, m: int) -> int {
    (if m == 2 {
        31int
    } else if m == 3 {
        59
    } else if m == 4 {
        90
    } else if m == 5 {
        120
    } else if m == 6 {
        151
    } else if m == 7 {
        181
    } else if m == 8 {
        212
    } else if m == 9 {
        243
    } else if m == 10 {
        273
    } else if m == 11 {
        304
    } else if m == 12 {
        334
    } else if m == 13 {
        365
    } else {
        0
    }) + (if m > 2 && leap_year(y) {
        1int
    } else {
        0int
    })
}

/// How many days stand between the first of January 1970 and that of `y`.
pub open spec fn days_before_year(y: int) -> int {
    let p = y - 1;
    365 * (y - 1970) + (p / 4 - p / 100 + p / 400) - 477
}

/// A date and a time of day.
pub struct Moment {
    pub year: int,
    pub month: int,
    pub day: int,
    pub hour: int,
    pub minute: int,
    pub second: int,
}

impl Moment {
    /// That the date is one of the calendar, from 1970 on, and the time one of
    /// the clock.
    pub open spec fn valid(self) -> bool {
        &&& 1970 <= self.year
        &&& 1 <= self.month <= 12
        &&& 1 <= self.day <= month_days(self.year, self.month)
        &&& 0 <= self.hour < 24
        &&& 0 <= self.minute < 60
        &&& 0 <= self.second < 60
    }

    /// How many days stand between the first of January 1970 and the date.
    pub open spec fn days(self) -> int {
        days_before_year(self.year) + days_before_month(self.year, self.month) + self.day - 1
    }

    /// How many seconds, leap seconds not counted, stand between the start of
    /// 1970 and the moment.
    pub open spec fn seconds(self) -> int {
        86400 * self.days() + 3600 * self.hour + 60 * self.minute + self.second
    }
}

/// The moment `secs` seconds after the start of 1970.
pub open spec fn moment_at(secs: nat) -> Moment {
    choose|m: Moment| m.valid() && #[trigger] m.seconds() == secs
}

/// Whether `y` has a 29th of February.
pub fn is_leap(y: i64) -> (r: bool)
    ensures
        r == leap_year(y as int),
{
    let by_4: bool = y % 4 == 0;
    assert(by_4 == (y as int % 4 == 0));
    let by_100: bool = y % 100 == 0;
    assert(by_100 == (y as int % 100 == 0));
    let by_400: bool = y % 400 == 0;
    assert(by_400 == (y as int % 400 == 0));
    (by_4 && !by_100) || by_400
}

proof fn lemma_quotient_step(p: int, d: int)
    requires
        d > 1,
    ensures
        (p + 1) / d == p / d + (if (p + 1) % d == 0 {
            1int
        } else {
            0int
        }),
{
    let q = p / d;
    let r = p % d;
    lemma_fundamental_div_mod(p, d);
    if r + 1 < d {
        lemma_fundamental_div_mod_converse(p + 1, d, q, r + 1);
    } else {
        assert(p + 1 == (q + 1) * d) by (nonlinear_arith)
            requires
                p == d * q + r,
                r + 1 == d,
        ;
        lemma_fundamental_div_mod_converse(p + 1, d, q + 1, 0);
    }
}

proof fn lemma_leap_rule(y: int)
    ensures
        (if leap_year(y) {
            1int
        } else {
            0int
        }) == (if y % 4 == 0 {
            1int
        } else {
            0int
        }) - (if y % 100 == 0 {
            1int
        } else {
            0int
        }) + (if y % 400 == 0 {
            1int
        } else {
            0int
        }),
{
    if y % 100 == 0 {
        let k = y / 100;
        assert(y == 4 * (25 * k));
        assert(y % 4 == 0);
    }
    if y % 400 == 0 {
        let k = y / 400;
        assert(y == 100 * (4 * k));
        assert(y % 100 == 0);
    }
}

proof fn lemma_next_year(y: int)
    ensures
        days_before_year(y + 1) == days_before_year(y) + (if leap_year(y) {
            366int
        } else {
            365int
        }),
{
    lemma_quotient_step(y - 1, 4);
    lemma_quotient_step(y - 1, 100);
    lemma_quotient_step(y - 1, 400);
    lemma_leap_rule(y);
}

proof fn lemma_next_month(y: int, m: int)
    requires
        1 <= m <= 12,
    ensures
        days_before_month(y, m + 1) == days_before_month(y, m) + month_days(y, m),
{
}

proof fn lemma_year_span(y: int)
    ensures
        days_before_month(y, 13) == days_before_year(y + 1) - days_before_year(y),
{
    lemma_next_year(y);
}

proof fn lemma_months_in_order(y: int, m: int, n: int)
    requires
        1 <= m < n <= 13,
    ensures
        0 <= days_before_month(y, m),
        days_before_month(y, m) + month_days(y, m) <= days_before_month(y, n),
{
}

proof fn lemma_years_in_order(y: int, z: int)
    requires
        y < z,
    ensures
        days_before_year(y + 1) <= days_before_year(z),
    decreases z - y,
{
    if y + 1 < z {
        lemma_next_year(z - 1);
        lemma_years_in_order(y, z - 1);
    }
}

proof fn lemma_day_in_year(m: Moment)
    requires
        m.valid(),
    ensures
        days_before_year(m.year) <= m.days() < days_before_year(m.year + 1),
{
    lemma_months_in_order(m.year, m.month, 13);
    lemma_year_span(m.year);
}

/// No two moments are the same number of seconds after the start of 1970.
pub proof fn moments_are_distinct(a: Moment, b: Moment)
    requires
        a.valid(),
        b.valid(),
        a.seconds() == b.seconds(),
    ensures
        a == b,
{
    lemma_day_in_year(a);
    lemma_day_in_year(b);
    assert(a.days() == b.days());
    if a.year < b.year {
        lemma_years_in_order(a.year, b.year);
    } else if b.year < a.year {
        lemma_years_in_order(b.year, a.year);
    }
    if a.month < b.month {
        lemma_months_in_order(a.year, a.month, b.month);
    } else if b.month < a.month {
        lemma_months_in_order(a.year, b.month, a.month);
    }
}

/// A valid moment is the one at its number of seconds.
pub proof fn moment_is_found(m: Moment)
    requires
        m.valid(),
    ensures
        m.seconds() >= 0,
        moment_at(m.seconds() as nat) == m,
{
    lemma_day_in_year(m);
    if m.year > 1970 {
        lemma_years_in_order(1969, m.year);
    }
    moments_are_distinct(m, moment_at(m.seconds() as nat));
}

proof fn lemma_find_year(total: int, y: int) -> (z: int)
    requires
        1970 <= y,
        days_before_year(y) <= total,
    ensures
        1970 <= z,
        days_before_year(z) <= total < days_before_year(z + 1),
    decreases total - days_before_year(y),
{
    lemma_next_year(y);
    if total < days_before_year(y + 1) {
        y
    } else {
        lemma_find_year(total, y + 1)
    }
}

proof fn lemma_find_month(y: int, of_year: int, m: int) -> (n: int)
    requires
        1 <= m <= 12,
        days_before_month(y, m) <= of_year < days_before_month(y, 13),
    ensures
        1 <= n <= 12,
        days_before_month(y, n) <= of_year < days_before_month(y, n) + month_days(y, n),
    decreases 12 - m,
{
    lemma_next_month(y, m);
    if of_year < days_before_month(y, m + 1) {
        m
    } else {
        lemma_find_month(y, of_year, m + 1)
    }
}

/// Every second from the start of 1970 on has its moment.
pub proof fn every_second_has_its_moment(secs: nat)
    ensures
        moment_at(secs).valid(),
        moment_at(secs).seconds() == secs,
{
    let total = secs as int / 86400;
    let y = lemma_find_year(total, 1970);
    lemma_year_span(y);
    let of_year = total - days_before_year(y);
    let m = lemma_find_month(y, of_year, 1);
    lemma_assembled(
        secs as int,
        total,
        Moment {
            year: y,
            month: m,
            day: of_year - days_before_month(y, m) + 1,
            hour: (secs as int / 3600) % 24,
            minute: (secs as int / 60) % 60,
            second: secs as int % 60,
        },
    );
}

proof fn lemma_clock(secs: int)
    ensures
        secs == 86400 * (secs / 86400) + 3600 * ((secs / 3600) % 24) + 60 * ((secs / 60) % 60)
            + secs % 60,
{
    assert((secs / 60) / 60 == secs / 3600);
    assert((secs / 3600) / 24 == secs / 86400);
}

proof fn lemma_assembled(secs: int, total: int, m: Moment)
    requires
        0 <= secs,
        m.valid(),
        m.days() == total,
        total == secs / 86400,
        m.hour == (secs / 3600) % 24,
        m.minute == (secs / 60) % 60,
        m.second == secs % 60,
    ensures
        m.seconds() == secs,
        moment_at(secs as nat) == m,
{
    lemma_clock(secs);
    moment_is_found(m);
}

fn month_len(y: i64, m: u32) -> (r: i64)
    requires
        1 <= m <= 12,
    ensures
        r == month_days(y as int, m as int),
{
    if m == 2 {
        if is_leap(y) {
            29
        } else {
            28
        }
    } else if m == 4 || m == 6 || m == 9 || m == 11 {
        30
    } else {
        31
    }
}

/// The year that the `total`th day after the first of January 1970 lies in, and
/// how many days of that year stand before it.
fn year_and_rest(total: i64) -> (r: (i64, i64))
    requires
        0 <= total <= 213_503_982_334_601,
    ensures
        1970 <= r.0 <= 1970 + total,
        days_before_year(r.0 as int) + r.1 == total,
        0 <= r.1 < days_before_year(r.0 + 1) - days_before_year(r.0 as int),
{
    let mut days: i64 = total;
    let mut y: i64 = 1970;
    loop
        invariant
            1970 <= y,
            0 <= days,
            total <= 213_503_982_334_601,
            days + days_before_year(y as int) == total,
            365 * (y - 1970) <= total - days,
        ensures
            days < days_before_year(y + 1) - days_before_year(y as int),
        decreases days,
    {
        proof {
            lemma_next_year(y as int);
        }
        let dy: i64 = if is_leap(y) { 366 } else { 365 };
        if days < dy {
            break;
        }
        days -= dy;
        y += 1;
    }
    (y, days)
}

/// The month that the `of_year`th day after the first of January of `y` lies
/// in, and how many days of that month stand before it.
fn month_and_rest(y: i64, of_year: i64) -> (r: (u32, i64))
    requires
        0 <= of_year < days_before_month(y as int, 13),
    ensures
        1 <= r.0 <= 12,
        days_before_month(y as int, r.0 as int) + r.1 == of_year,
        0 <= r.1 < month_days(y as int, r.0 as int),
{
    let mut days: i64 = of_year;
    let mut mo: u32 = 1;
    while mo < 12 && days >= month_len(y, mo)
        invariant
            1 <= mo <= 12,
            0 <= days,
            days + days_before_month(y as int, mo as int) == of_year,
        decreases 12 - mo,
    {
        proof {
            lemma_next_month(y as int, mo as int);
        }
        days -= month_len(y, mo);
        mo += 1;
    }
    proof {
        lemma_next_month(y as int, 12);
    }
    (mo, days)
}

/// The year as the launcher counts it: modulo two to the power of 32.
pub open spec fn wrapped_year(y: int) -> int {
    y % 0x1_0000_0000
}

/// Year, month, day, hour, minute and second of the moment `secs` seconds after
/// the start of 1970.
pub fn epoch_to_ymdhms(secs: u64) -> (r: (u32, u32, u32, u32, u32, u32))
    ensures
        moment_at(secs as nat).valid(),
        moment_at(secs as nat).seconds() == secs,
        ({
            let m = moment_at(secs as nat);
            &&& r.0 == wrapped_year(m.year)
            &&& r.1 == m.month
            &&& r.2 == m.day
            &&& r.3 == m.hour
            &&& r.4 == m.minute
            &&& r.5 == m.second
        }),
{
    let s: u32 = (secs % 60) as u32;
    let mi: u32 = ((secs / 60) % 60) as u32;
    let h: u32 = ((secs / 3600) % 24) as u32;
    let total: i64 = (secs / 86400) as i64;
    let (y, of_year) = year_and_rest(total);
    proof {
        lemma_year_span(y as int);
    }
    let (mo, of_month) = month_and_rest(y, of_year);
    proof {
        let m = Moment {
            year: y as int,
            month: mo as int,
            day: of_month + 1,
            hour: h as int,
            minute: mi as int,
            second: s as int,
        };
        lemma_assembled(secs as int, total as int, m);
    }
    let wide: u64 = y as u64;
    assert(wide as u32 == wide % 0x1_0000_0000) by (bit_vector);
    (wide as u32, mo, (of_month + 1) as u32, h, mi, s)
}

/// The timestamp of the moment `secs` seconds after the start of 1970, such as
/// `2026-05-28T06-55-40Z`.
pub open spec fn timestamp_text(secs: nat) -> Seq<char> {
    let m = moment_at(secs);
    text::padded(wrapped_year(m.year) as nat, 4) + seq!['-'] + text::padded(m.month as nat, 2) + seq!['-']
        + text::padded(m.day as nat, 2) + seq!['T'] + text::padded(m.hour as nat, 2) + seq!['-']
        + text::padded(m.minute as nat, 2) + seq!['-'] + text::padded(m.second as nat, 2) + seq!['Z']
}

/// A timestamp begins with a decimal digit.
pub proof fn timestamp_begins_with_digit(secs: nat)
    ensures
        timestamp_text(secs).len() > 0,
        text::is_digit(timestamp_text(secs)[0]),
{
    text::padded_is_digits(wrapped_year(moment_at(secs).year) as nat, 4);
}

proof fn lemma_same_year_part(a: Seq<char>, b: Seq<char>, y: Seq<char>, z: Seq<char>)
    requires
        a == b,
        text::all_digits(y),
        text::all_digits(z),
        y.len() < a.len() && a.take(y.len() as int) == y && a[y.len() as int] == '-',
        z.len() < b.len() && b.take(z.len() as int) == z && b[z.len() as int] == '-',
    ensures
        y == z,
{
    if y.len() < z.len() {
        assert(text::is_digit(z[y.len() as int]));
        assert(b.take(z.len() as int)[y.len() as int] == '-');
    } else if z.len() < y.len() {
        assert(text::is_digit(y[z.len() as int]));
        assert(a.take(y.len() as int)[z.len() as int] == '-');
    }
}

proof fn lemma_parts(secs: nat)
    requires
        moment_at(secs).valid(),
    ensures
        ({
            let m = moment_at(secs);
            let y = text::padded(wrapped_year(m.year) as nat, 4);
            let t = timestamp_text(secs);
            let p = y.len() as int;
            &&& t.len() == p + 16
            &&& t.take(p) == y
            &&& t[p] == '-'
            &&& text::digits_value(t.subrange(p + 1, p + 3)) == m.month
            &&& text::digits_value(t.subrange(p + 4, p + 6)) == m.day
            &&& text::digits_value(t.subrange(p + 7, p + 9)) == m.hour
            &&& text::digits_value(t.subrange(p + 10, p + 12)) == m.minute
            &&& text::digits_value(t.subrange(p + 13, p + 15)) == m.second
        }),
{
    let m = moment_at(secs);
    let y = text::padded(wrapped_year(m.year) as nat, 4);
    let t = timestamp_text(secs);
    let p = y.len() as int;
    text::padded_stands_for_its_number(m.month as nat, 2);
    text::padded_stands_for_its_number(m.day as nat, 2);
    text::padded_stands_for_its_number(m.hour as nat, 2);
    text::padded_stands_for_its_number(m.minute as nat, 2);
    text::padded_stands_for_its_number(m.second as nat, 2);
    assert(t.take(p) =~= y);
    assert(t.subrange(p + 1, p + 3) =~= text::padded(m.month as nat, 2));
    assert(t.subrange(p + 4, p + 6) =~= text::padded(m.day as nat, 2));
    assert(t.subrange(p + 7, p + 9) =~= text::padded(m.hour as nat, 2));
    assert(t.subrange(p + 10, p + 12) =~= text::padded(m.minute as nat, 2));
    assert(t.subrange(p + 13, p + 15) =~= text::padded(m.second as nat, 2));
}

/// No two seconds have the same timestamp, as long as the years are below two
/// to the power of 32.
pub proof fn timestamps_are_distinct(a: nat, b: nat)
    requires
        timestamp_text(a) == timestamp_text(b),
        moment_at(a).year < 0x1_0000_0000,
        moment_at(b).year < 0x1_0000_0000,
    ensures
        a == b,
{
    every_second_has_its_moment(a);
    every_second_has_its_moment(b);
    let y = text::padded(wrapped_year(moment_at(a).year) as nat, 4);
    let z = text::padded(wrapped_year(moment_at(b).year) as nat, 4);
    lemma_parts(a);
    lemma_parts(b);
    text::padded_is_digits(wrapped_year(moment_at(a).year) as nat, 4);
    text::padded_is_digits(wrapped_year(moment_at(b).year) as nat, 4);
    lemma_same_year_part(timestamp_text(a), timestamp_text(b), y, z);
    text::padded_stands_for_its_number(wrapped_year(moment_at(a).year) as nat, 4);
    text::padded_stands_for_its_number(wrapped_year(moment_at(b).year) as nat, 4);
    assert(moment_at(a) == moment_at(b));
}

/// The timestamp of the moment `secs` seconds after the start of 1970.
pub fn timestamp_at(secs: u64) -> (r: String)
    ensures
        r@ == timestamp_text(secs as nat),
{
    let (y, mo, d, h, mi, s) = epoch_to_ymdhms(secs);
    let mut out = String::new();
    text::push_padded(&mut out, y as u64, 4);
    out.push('-');
    text::push_padded(&mut out, mo as u64, 2);
    out.push('-');
    text::push_padded(&mut out, d as u64, 2);
    out.push('T');
    text::push_padded(&mut out, h as u64, 2);
    out.push('-');
    text::push_padded(&mut out, mi as u64, 2);
    out.push('-');
    text::push_padded(&mut out, s as u64, 2);
    out.push('Z');
    assert(out@ =~= timestamp_text(secs as nat));
    out
}

/// The seconds to stamp when the clock reads `elapsed` seconds after the start
/// of 1970, or a time before it.
pub fn stamp_seconds(elapsed: Option<u64>) -> (r: u64)
    ensures
        r == elapsed.unwrap_or(0),
{
    match elapsed {
        Some(secs) => secs,
        None => 0,
    }
}

/// A reading of the system clock.
#[verifier::external_type_specification]
#[verifier::external_body]
pub struct ExSystemTime(SystemTime);

/// The error for a reading that lies before another.
#[verifier::external_type_specification]
#[verifier::external_body]
pub struct ExSystemTimeError(SystemTimeError);

/// `SystemTime::now`: some reading of the clock; nothing is promised of it.
pub assume_specification[ SystemTime::now ]() -> (r: SystemTime)
;

/// `Duration::as_secs`: the whole seconds of a duration, whose value is opaque
/// here.
pub assume_specification[ Duration::as_secs ](d: &Duration) -> (r: u64)
;

/// `SystemTime::duration_since` with the start of 1970: how far the reading
/// lies after it, or an error where it lies before it.
#[verifier::external_body]
fn since_epoch(t: &SystemTime) -> (r: Result<Duration, SystemTimeError>) {
    t.duration_since(UNIX_EPOCH)
}

/// The timestamp of the present moment, as the system clock has it.
pub fn timestamp() -> (r: String)
    ensures
        exists|secs: u64| r@ == #[trigger] timestamp_text(secs as nat),
{
    let elapsed = match since_epoch(&SystemTime::now()) {
        Ok(d) => Some(d.as_secs()),
        Err(_) => None,
    };
    timestamp_at(stamp_seconds(elapsed))
}

// ---------------------------------------------------------------------------
// How moments follow each other
// ---------------------------------------------------------------------------

/// The count begins with the first second of 1970.
pub proof fn the_count_begins_in_1970()
    ensures
        moment_at(0) == (Moment { year: 1970, month: 1, day: 1, hour: 0, minute: 0, second: 0 }),
{
    moment_is_found(Moment { year: 1970, month: 1, day: 1, hour: 0, minute: 0, second: 0 });
}

/// A second later the second has gone up by one; after the last one of a minute,
/// an hour, a day, a month or a year the next of these has begun. February has 29
/// days in the years that four divides, save those that a hundred divides and
/// four hundred does not.
pub proof fn next_second_follows(secs: nat)
    ensures
        ({
            let m = moment_at(secs);
            let n = moment_at(secs + 1);
            let leap = m.year % 4 == 0 && (m.year % 100 != 0 || m.year % 400 == 0);
            let last = if m.month == 2 {
                if leap {
                    29int
                } else {
                    28
                }
            } else if m.month == 4 || m.month == 6 || m.month == 9 || m.month == 11 {
                30
            } else {
                31
            };
            if m.second < 59 {
                n == (Moment { second: m.second + 1, ..m })
            } else if m.minute < 59 {
                n == (Moment { second: 0, minute: m.minute + 1, ..m })
            } else if m.hour < 23 {
                n == (Moment { second: 0, minute: 0, hour: m.hour + 1, ..m })
            } else if m.day < last {
                n == (Moment { second: 0, minute: 0, hour: 0, day: m.day + 1, ..m })
            } else if m.month < 12 {
                n == (Moment {
                    second: 0,
                    minute: 0,
                    hour: 0,
                    day: 1,
                    month: m.month + 1,
                    year: m.year,
                })
            } else {
                n == (Moment {
                    second: 0,
                    minute: 0,
                    hour: 0,
                    day: 1,
                    month: 1,
                    year: m.year + 1,
                })
            }
        }),
{
    every_second_has_its_moment(secs);
    let m = moment_at(secs);
    lemma_leap_again(m.year);
    let last = month_days(m.year, m.month);
    let n = if m.second < 59 {
        Moment { second: m.second + 1, ..m }
    } else if m.minute < 59 {
        Moment { second: 0, minute: m.minute + 1, ..m }
    } else if m.hour < 23 {
        Moment { second: 0, minute: 0, hour: m.hour + 1, ..m }
    } else if m.day < last {
        Moment { second: 0, minute: 0, hour: 0, day: m.day + 1, ..m }
    } else if m.month < 12 {
        lemma_next_month(m.year, m.month);
        Moment { second: 0, minute: 0, hour: 0, day: 1, month: m.month + 1, year: m.year }
    } else {
        lemma_next_month(m.year, 12);
        lemma_year_span(m.year);
        Moment { second: 0, minute: 0, hour: 0, day: 1, month: 1, year: m.year + 1 }
    };
    assert(n.valid());
    assert(n.seconds() == secs + 1);
    moment_is_found(n);
}

proof fn lemma_leap_again(y: int)
    ensures
        leap_year(y) == (y % 4 == 0 && (y % 100 != 0 || y % 400 == 0)),
{
    if y % 400 == 0 {
        let k = y / 400;
        assert(y == 4 * (100 * k));
        assert(y % 4 == 0);
    }
}

/// The two decimal digits of a number below a hundred.
pub open spec fn two_digits(n: int) -> Seq<char> {
    seq![(0x30 + n / 10) as char, (0x30 + n % 10) as char]
}

proof fn lemma_two_digits(n: nat)
    requires
        n < 100,
    ensures
        text::padded(n, 2) == two_digits(n as int),
{
    reveal_with_fuel(text::decimal, 3);
    assert(text::padded(n, 2) =~= two_digits(n as int));
}

proof fn lemma_four_digits(n: nat)
    requires
        n < 10000,
    ensures
        text::padded(n, 4) == two_digits(n as int / 100) + two_digits(n as int % 100),
{
    reveal_with_fuel(text::decimal, 5);
    let a = n / 10;
    let b = a / 10;
    let c = b / 10;
    assert(n as int / 100 == b);
    assert(n as int % 100 / 10 == a % 10);
    assert(n as int % 100 % 10 == n % 10);
    assert(text::padded(n, 4) =~= two_digits(n as int / 100) + two_digits(n as int % 100));
}

proof fn lemma_five_digits(n: nat)
    requires
        n >= 10000,
    ensures
        text::padded(n, 4) == text::integer(n as int),
{
    reveal_with_fuel(text::decimal, 5);
}

/// A timestamp is the year, in four digits at least, and two digits for each
/// further part, with the marks between them.
pub proof fn timestamp_shows_the_moment(secs: nat)
    requires
        moment_at(secs).year < 0x1_0000_0000,
    ensures
        ({
            let m = moment_at(secs);
            let year = if m.year < 10000 {
                two_digits(m.year / 100) + two_digits(m.year % 100)
            } else {
                text::integer(m.year)
            };
            timestamp_text(secs) == year + seq!['-'] + two_digits(m.month) + seq!['-'] + two_digits(m.day) + seq!['T']
                + two_digits(m.hour) + seq!['-'] + two_digits(m.minute) + seq!['-']
                + two_digits(m.second) + seq!['Z']
        }),
{
    every_second_has_its_moment(secs);
    let m = moment_at(secs);
    if m.year < 10000 {
        lemma_four_digits(m.year as nat);
    } else {
        lemma_five_digits(m.year as nat);
    }
    lemma_two_digits(m.month as nat);
    lemma_two_digits(m.day as nat);
    lemma_two_digits(m.hour as nat);
    lemma_two_digits(m.minute as nat);
    lemma_two_digits(m.second as nat);
}

} // verus!

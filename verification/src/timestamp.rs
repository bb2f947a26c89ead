//! Wall-clock timestamps at second precision, the shape this library
//! writes into and reads back from SQL `datetime()` literals.

use vstd::prelude::*;
use chrono::{Datelike, TimeZone, Timelike};
use crate::text::{padded_dec, push_u64_padded, is_digit_char, char_to_digit, digit_to_char, dec_rep, digit_value, str_to_chars};

verus! {

/// A calendar date and time of day, read as a wall clock in some fixed
/// time zone; which zone is the caller's context, not part of the value.
#[derive(Clone, Copy, PartialEq, Eq, Structural, Debug)]
pub struct Timestamp {
    pub year: u16,
    pub month: u8,
    pub day: u8,
    pub hour: u8,
    pub minute: u8,
    pub second: u8,
}

pub open spec fn is_leap_year(y: int) -> bool {
    y % 4 == 0 && (y % 100 != 0 || y % 400 == 0)
}

pub open spec fn days_in_month(y: int, m: int) -> int {
    if m == 2 {
        if is_leap_year(y) {
            29
        } else {
            28
        }
    } else if m == 4 || m == 6 || m == 9 || m == 11 {
        30
    } else {
        31
    }
}

impl Timestamp {
    /// The fields denote a real calendar date and clock reading.
    pub open spec fn fields_in_range(self) -> bool {
        &&& 1 <= self.month <= 12
        &&& 1 <= self.day <= days_in_month(self.year as int, self.month as int)
        &&& self.hour < 24
        &&& self.minute < 60
        &&& self.second < 60
    }

    /// Well-formed: a real calendar instant whose year fits the four-digit
    /// text form.
    pub open spec fn wf(self) -> bool {
        self.fields_in_range() && self.year <= 9999
    }

    /// Builds a timestamp, exactly when the fields form a well-formed one.
    pub fn new(year: u16, month: u8, day: u8, hour: u8, minute: u8, second: u8) -> (r: Option<
        Timestamp,
    >)
        ensures
            ({
                let t = (Timestamp { year, month, day, hour, minute, second });
                match r {
                    Some(v) => v == t && t.wf(),
                    None => !t.wf(),
                }
            }),
    {
        let t = Timestamp { year, month, day, hour, minute, second };
        let leap: bool = year % 4 == 0 && (year % 100 != 0 || year % 400 == 0);
        let md: u8 = if month == 2 {
            if leap {
                29
            } else {
                28
            }
        } else if month == 4 || month == 6 || month == 9 || month == 11 {
            30
        } else {
            31
        };
        if year <= 9999 && 1 <= month && month <= 12 && 1 <= day && day <= md && hour < 24
            && minute < 60 && second < 60 {
            Some(t)
        } else {
            None
        }
    }
}

/// The `Y-m-d H:M:S` text of a timestamp: four-digit year and two-digit
/// remaining fields, zero-padded.
pub open spec fn stamp_text(t: Timestamp) -> Seq<char> {
    padded_dec(t.year as nat, 4) + seq!['-'] + padded_dec(t.month as nat, 2) + seq!['-']
        + padded_dec(t.day as nat, 2) + seq![' '] + padded_dec(t.hour as nat, 2) + seq![':']
        + padded_dec(t.minute as nat, 2) + seq![':'] + padded_dec(t.second as nat, 2)
}

/// Appends the `Y-m-d H:M:S` text of `t` to `out`.
pub fn push_stamp_text(out: &mut Vec<char>, t: &Timestamp)
    ensures
        final(out)@ == old(out)@ + stamp_text(*t),
{
    push_u64_padded(out, t.year as u64, 4);
    out.push('-');
    push_u64_padded(out, t.month as u64, 2);
    out.push('-');
    push_u64_padded(out, t.day as u64, 2);
    out.push(' ');
    push_u64_padded(out, t.hour as u64, 2);
    out.push(':');
    push_u64_padded(out, t.minute as u64, 2);
    out.push(':');
    push_u64_padded(out, t.second as u64, 2);
    assert(out@ =~= old(out)@ + stamp_text(*t));
}

/// Shape of `Y-m-d H:M:S` text: nineteen characters, digits in the six
/// field positions and the fixed separators between them.
pub open spec fn stamp_text_shape(s: Seq<char>) -> bool {
    &&& s.len() == 19
    &&& is_digit_char(s[0])
    &&& is_digit_char(s[1])
    &&& is_digit_char(s[2])
    &&& is_digit_char(s[3])
    &&& s[4] == '-'
    &&& is_digit_char(s[5])
    &&& is_digit_char(s[6])
    &&& s[7] == '-'
    &&& is_digit_char(s[8])
    &&& is_digit_char(s[9])
    &&& s[10] == ' '
    &&& is_digit_char(s[11])
    &&& is_digit_char(s[12])
    &&& s[13] == ':'
    &&& is_digit_char(s[14])
    &&& is_digit_char(s[15])
    &&& s[16] == ':'
    &&& is_digit_char(s[17])
    &&& is_digit_char(s[18])
}

pub open spec fn two_digits_at(s: Seq<char>, i: int) -> int {
    char_to_digit(s[i]) * 10 + char_to_digit(s[i + 1])
}

/// The timestamp denoted by `Y-m-d H:M:S` text, when the text has that
/// shape and the fields denote a real calendar instant.
pub open spec fn stamp_of_text(s: Seq<char>) -> Option<Timestamp> {
    if stamp_text_shape(s) {
        let t = Timestamp {
            year: (two_digits_at(s, 0) * 100 + two_digits_at(s, 2)) as u16,
            month: two_digits_at(s, 5) as u8,
            day: two_digits_at(s, 8) as u8,
            hour: two_digits_at(s, 11) as u8,
            minute: two_digits_at(s, 14) as u8,
            second: two_digits_at(s, 17) as u8,
        };
        if t.fields_in_range() {
            Some(t)
        } else {
            None
        }
    } else {
        None
    }
}

/// Reads the two-digit number at position `i`.
fn two_digits(cs: &Vec<char>, i: usize) -> (r: Option<u8>)
    requires
        i + 1 < cs.len(),
    ensures
        match r {
            Some(v) => is_digit_char(cs@[i as int]) && is_digit_char(cs@[i + 1]) && v
                == two_digits_at(cs@, i as int),
            None => !(is_digit_char(cs@[i as int]) && is_digit_char(cs@[i + 1])),
        },
{
    let hi = digit_value(cs[i]);
    let lo = digit_value(cs[i + 1]);
    match (hi, lo) {
        (Some(h), Some(l)) => Some(h * 10 + l),
        _ => None,
    }
}

/// Parses `Y-m-d H:M:S` text as a timestamp, exactly when the text has
/// the fixed shape and denotes a real calendar instant.
pub fn parse_stamp_text(s: &str) -> (r: Option<Timestamp>)
    ensures
        r == stamp_of_text(s@),
{
    let cs = str_to_chars(s);
    if cs.len() != 19 {
        return None;
    }
    if !(cs[4] == '-' && cs[7] == '-' && cs[10] == ' ' && cs[13] == ':' && cs[16] == ':') {
        return None;
    }
    let f0 = two_digits(&cs, 0);
    let f1 = two_digits(&cs, 2);
    let f2 = two_digits(&cs, 5);
    let f3 = two_digits(&cs, 8);
    let f4 = two_digits(&cs, 11);
    let f5 = two_digits(&cs, 14);
    let f6 = two_digits(&cs, 17);
    match (f0, f1, f2, f3, f4, f5, f6) {
        (Some(y_hi), Some(y_lo), Some(month), Some(day), Some(hour), Some(minute), Some(
            second,
        )) => {
            let year: u16 = (y_hi as u16) * 100 + (y_lo as u16);
            Timestamp::new(year, month, day, hour, minute, second)
        },
        _ => None,
    }
}

pub proof fn lemma_digit_char_value(d: int)
    requires
        0 <= d <= 9,
    ensures
        is_digit_char(digit_to_char(d)),
        char_to_digit(digit_to_char(d)) == d,
{
}

proof fn lemma_padded2(n: nat)
    requires
        n < 100,
    ensures
        padded_dec(n, 2) =~= seq![
            digit_to_char(n as int / 10),
            digit_to_char(n as int % 10),
        ],
{
    if n < 10 {
        assert(dec_rep(n) == seq![digit_to_char(n as int)]);
    } else {
        assert(dec_rep(n) == dec_rep(n / 10) + seq![digit_to_char((n % 10) as int)]);
        assert(dec_rep(n / 10) == seq![digit_to_char((n / 10) as int)]);
    }
}

proof fn lemma_padded4(n: nat)
    requires
        n < 10000,
    ensures
        padded_dec(n, 4) =~= seq![
            digit_to_char(n as int / 1000),
            digit_to_char(n as int / 100 % 10),
            digit_to_char(n as int / 10 % 10),
            digit_to_char(n as int % 10),
        ],
{
    if n < 10 {
        assert(dec_rep(n) == seq![digit_to_char(n as int)]);
    } else if n < 100 {
        assert(dec_rep(n) == dec_rep(n / 10) + seq![digit_to_char((n % 10) as int)]);
        assert(dec_rep(n / 10) == seq![digit_to_char((n / 10) as int)]);
    } else if n < 1000 {
        assert(dec_rep(n) == dec_rep(n / 10) + seq![digit_to_char((n % 10) as int)]);
        assert(dec_rep(n / 10) == dec_rep(n / 10 / 10) + seq![digit_to_char((n / 10 % 10) as int)]);
        assert(n / 10 / 10 == n / 100);
        assert(dec_rep(n / 100) == seq![digit_to_char((n / 100) as int)]);
    } else {
        assert(dec_rep(n) == dec_rep(n / 10) + seq![digit_to_char((n % 10) as int)]);
        assert(dec_rep(n / 10) == dec_rep(n / 10 / 10) + seq![digit_to_char((n / 10 % 10) as int)]);
        assert(n / 10 / 10 == n / 100);
        assert(dec_rep(n / 100) == dec_rep(n / 100 / 10) + seq![
            digit_to_char((n / 100 % 10) as int),
        ]);
        assert(n / 100 / 10 == n / 1000);
        assert(dec_rep(n / 1000) == seq![digit_to_char((n / 1000) as int)]);
    }
}

/// Reading back what was written: the `Y-m-d H:M:S` text of a well-formed
/// timestamp parses to exactly that timestamp.
#[verifier::rlimit(100)]
pub proof fn lemma_stamp_text_round_trip(t: Timestamp)
    requires
        t.wf(),
    ensures
        stamp_of_text(stamp_text(t)) == Some(t),
{
    let y = t.year as int;
    let mo = t.month as int;
    let d = t.day as int;
    let h = t.hour as int;
    let mi = t.minute as int;
    let sec = t.second as int;
    lemma_padded4(t.year as nat);
    lemma_padded2(t.month as nat);
    lemma_padded2(t.day as nat);
    lemma_padded2(t.hour as nat);
    lemma_padded2(t.minute as nat);
    lemma_padded2(t.second as nat);
    let s = stamp_text(t);
    assert(s =~= seq![
        digit_to_char(y / 1000),
        digit_to_char(y / 100 % 10),
        digit_to_char(y / 10 % 10),
        digit_to_char(y % 10),
        '-',
        digit_to_char(mo / 10),
        digit_to_char(mo % 10),
        '-',
        digit_to_char(d / 10),
        digit_to_char(d % 10),
        ' ',
        digit_to_char(h / 10),
        digit_to_char(h % 10),
        ':',
        digit_to_char(mi / 10),
        digit_to_char(mi % 10),
        ':',
        digit_to_char(sec / 10),
        digit_to_char(sec % 10),
    ]);
    lemma_digit_char_value(y / 1000);
    lemma_digit_char_value(y / 100 % 10);
    lemma_digit_char_value(y / 10 % 10);
    lemma_digit_char_value(y % 10);
    lemma_digit_char_value(mo / 10);
    lemma_digit_char_value(mo % 10);
    lemma_digit_char_value(d / 10);
    lemma_digit_char_value(d % 10);
    lemma_digit_char_value(h / 10);
    lemma_digit_char_value(h % 10);
    lemma_digit_char_value(mi / 10);
    lemma_digit_char_value(mi % 10);
    lemma_digit_char_value(sec / 10);
    lemma_digit_char_value(sec % 10);
    assert(stamp_text_shape(s));
    assert(two_digits_at(s, 0) == y / 1000 * 10 + y / 100 % 10);
    assert(two_digits_at(s, 2) == y / 10 % 10 * 10 + y % 10);
    assert((y / 1000 * 10 + y / 100 % 10) * 100 + (y / 10 % 10 * 10 + y % 10) == y) by {
        assert(y / 10 % 10 * 10 + y % 10 == y % 100);
        assert(y / 100 % 10 * 100 + y % 100 == y % 1000);
        assert(y / 1000 * 1000 + y % 1000 == y);
    };
    assert(two_digits_at(s, 5) == mo);
    assert(two_digits_at(s, 8) == d);
    assert(two_digits_at(s, 11) == h);
    assert(two_digits_at(s, 14) == mi);
    assert(two_digits_at(s, 17) == sec);
}

/// Days taken by the months of year `y` before month `m`.
pub open spec fn days_in_months_before(y: int, m: int) -> int
    decreases m,
{
    if m <= 1 {
        0
    } else {
        days_in_months_before(y, m - 1) + days_in_month(y, m - 1)
    }
}

/// Leap days in the years before year `y` of the proleptic Gregorian
/// calendar, counting from year 0 (itself a leap year).
pub open spec fn leap_days_before(y: int) -> int {
    if y <= 0 {
        0
    } else {
        (y - 1) / 4 - (y - 1) / 100 + (y - 1) / 400 + 1
    }
}

/// The day of a timestamp, counted from the first day of year 0.
pub open spec fn day_number(t: Timestamp) -> int {
    365 * t.year + leap_days_before(t.year as int) + days_in_months_before(
        t.year as int,
        t.month as int,
    ) + t.day - 1
}

/// A timestamp's place on one linear timeline: seconds since the start of
/// year 0, read as a plain calendar with no zone attached. Two wall-clock
/// readings of one instant in different zones differ here by exactly the
/// zone offset between them.
pub open spec fn epoch_seconds(t: Timestamp) -> int {
    day_number(t) * 86400 + t.hour * 3600 + t.minute * 60 + t.second
}

/// Relies on chrono's `NaiveDate`, `Utc` and `Local`: reads `t` as the UTC
/// wall clock of an instant and returns the same instant's wall clock in
/// this machine's local time zone. A well-formed input from year 1 on
/// always converts, since a zone offset stays under one day. Which offset
/// applies depends on the machine's zone database, so only its bound is
/// claimed: chrono carries every local offset as a `FixedOffset`, whose
/// constructors keep the seconds strictly within one day either way.
#[verifier::external_body]
pub fn utc_wall_to_local_wall(t: &Timestamp) -> (r: Option<Timestamp>)
    requires
        t.wf(),
        t.year >= 1,
    ensures
        r is Some,
        (r matches Some(u) ==> u.fields_in_range() && -86400 < epoch_seconds(u) - epoch_seconds(
            *t,
        ) < 86400),
{
    let date = chrono::NaiveDate::from_ymd_opt(t.year as i32, t.month as u32, t.day as u32)?;
    let ndt = date.and_hms_opt(t.hour as u32, t.minute as u32, t.second as u32)?;
    let loc = chrono::Utc.from_utc_datetime(&ndt).with_timezone(&chrono::Local);
    let year = u16::try_from(loc.year()).ok()?;
    Some(
        Timestamp {
            year,
            month: loc.month() as u8,
            day: loc.day() as u8,
            hour: loc.hour() as u8,
            minute: loc.minute() as u8,
            second: loc.second() as u8,
        },
    )
}

} // verus!

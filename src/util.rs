use vstd::prelude::*;

use crate::path::{pieces, split_char, views};
use crate::pathfinder::{digits_value, is_digit};

verus! {

/// A calendar day.
#[derive(Debug, Clone, Copy, PartialEq, Eq, Structural)]
pub struct Date {
    pub year: i32,
    pub month: u32,
    pub day: u32,
}

/// Whether `s` is one or more decimal digits.
pub open spec fn all_digits(s: Seq<char>) -> bool {
    s.len() > 0 && forall|i: int| 0 <= i < s.len() ==> is_digit(#[trigger] s[i])
}

/// The `i32` that decimal digits name, negated where `neg` holds, if they
/// are digits and it is within range.
pub open spec fn signed_digits(body: Seq<char>, neg: bool) -> Option<i32> {
    let v: int = if neg {
        -digits_value(body)
    } else {
        digits_value(body) as int
    };
    if all_digits(body) && i32::MIN <= v <= i32::MAX {
        Some(v as i32)
    } else {
        None
    }
}

/// The `i32` that std's `str::parse` reads from `s`: an optional `+` or `-`
/// followed by decimal digits, within range.
pub open spec fn i32_text(s: Seq<char>) -> Option<i32> {
    if s.len() > 0 && (s[0] == '-' || s[0] == '+') {
        signed_digits(s.drop_first(), s[0] == '-')
    } else {
        signed_digits(s, false)
    }
}

/// Reads an `i32` written as an optional `+` or `-` followed by decimal
/// digits, as std's `str::parse` does.
pub fn parse_i32(s: &str) -> (r: Option<i32>)
    ensures
        r == i32_text(s@),
{
    let n = s.unicode_len();
    let mut start: usize = 0;
    let mut neg = false;
    if n > 0 {
        let c = s.get_char(0);
        if c == '-' || c == '+' {
            start = 1;
            neg = c == '-';
        }
    }
    let ghost body = s@.subrange(start as int, n as int);
    assert(n > 0 && (s@[0] == '-' || s@[0] == '+') ==> body =~= s@.drop_first());
    assert(!(n > 0 && (s@[0] == '-' || s@[0] == '+')) ==> body =~= s@);
    assert(i32_text(s@) == signed_digits(body, neg));
    if start == n {
        return None;
    }
    let cap: u64 = 2147483648;
    let mut v: u64 = 0;
    let mut i: usize = start;
    while i < n
        invariant
            n == s@.len(),
            start <= i <= n,
            forall|k: int| start <= k < i ==> is_digit(#[trigger] s@[k]),
            v <= cap ==> v == digits_value(s@.subrange(start as int, i as int)),
            v > cap ==> digits_value(s@.subrange(start as int, i as int)) > cap,
            v <= 10 * cap + 9,
            cap == 2147483648,
            body == s@.subrange(start as int, n as int),
            i32_text(s@) == signed_digits(body, neg),
        decreases n - i,
    {
        let c = s.get_char(i);
        if !('0' <= c && c <= '9') {
            assert(!is_digit(body[i - start]));
            return None;
        }
        assert(s@.subrange(start as int, i + 1).drop_last() =~= s@.subrange(start as int, i as int));
        let d = (c as u32 - '0' as u32) as u64;
        if v <= cap {
            v = v * 10 + d;
        } else {
            let ghost prev = digits_value(s@.subrange(start as int, i as int));
            assert(digits_value(s@.subrange(start as int, i + 1)) >= prev) by (nonlinear_arith)
                requires
                    digits_value(s@.subrange(start as int, i + 1)) == prev * 10 + d,
            ;
        }
        i = i + 1;
    }
    assert(s@.subrange(start as int, i as int) == body);
    assert(all_digits(body));
    if neg {
        if v <= cap {
            Some((0 - (v as i64)) as i32)
        } else {
            None
        }
    } else {
        if v < cap {
            Some(v as i32)
        } else {
            None
        }
    }
}

/// Leap years of the proleptic Gregorian calendar.
pub open spec fn is_leap_year(year: int) -> bool {
    year % 4 == 0 && (year % 100 != 0 || year % 400 == 0)
}

pub open spec fn days_in_month(year: int, month: int) -> int {
    if month == 2 {
        if is_leap_year(year) {
            29
        } else {
            28
        }
    } else if month == 4 || month == 6 || month == 9 || month == 11 {
        30
    } else {
        31
    }
}

/// The least and greatest years a chrono date can hold: `(i32::MIN >> 13) + 1`
/// and `(i32::MAX >> 13) - 1`.
pub const MIN_YEAR: i32 = -262143;
pub const MAX_YEAR: i32 = 262142;

/// Whether the year, month and day name a day of the proleptic Gregorian
/// calendar that chrono can represent.
pub open spec fn is_calendar_date(year: int, month: int, day: int) -> bool {
    &&& MIN_YEAR <= year <= MAX_YEAR
    &&& 1 <= month <= 12
    &&& 1 <= day <= days_in_month(year, month)
}

/// Relies on chrono's `NaiveDate::from_ymd_opt`, which gives `None` for a day
/// that does not exist, an invalid month or day, or a year out of its range.
#[verifier::external_body]
fn calendar_date_exists(year: i32, month: u32, day: u32) -> (r: bool)
    ensures
        r == is_calendar_date(year as int, month as int, day as int),
{
    chrono::NaiveDate::from_ymd_opt(year, month, day).is_some()
}

/// A number field of a date: its value, or 0 where it is not a number.
pub open spec fn field_value(s: Seq<char>) -> i32 {
    match i32_text(s) {
        Some(v) => v,
        None => 0,
    }
}

/// The date that day, month and year fields name, where the day is positive
/// and the day exists.
pub open spec fn date_of(day: i32, month: i32, year: i32) -> Option<Date> {
    if day > 0 && is_calendar_date(year as int, (month as u32) as int, (day as u32) as int) {
        Some(Date { year, month: month as u32, day: day as u32 })
    } else {
        None
    }
}

/// The fields of a `dd.mm.yyyy` text, split on `.`.
pub open spec fn dmy_fields(s: Seq<char>) -> Seq<i32> {
    pieces(s, '.').map_values(|f: Seq<char>| field_value(f))
}

/// The part of `s` before its first `-`.
pub open spec fn before_dash(s: Seq<char>) -> Seq<char> {
    pieces(s, '-')[0]
}

/// The fields of a `dd-dd.mm.yyyy` text: of each `.`-separated part, what
/// stands before its first `-`.
pub open spec fn dmy_range_fields(s: Seq<char>) -> Seq<i32> {
    pieces(s, '.').map_values(|f: Seq<char>| field_value(before_dash(f)))
}

/// The date of fields read as day, month, year; with `after_1900`, only a
/// year after 1900 is taken.
pub open spec fn date_of_fields(f: Seq<i32>, after_1900: bool) -> Option<Date> {
    if f.len() >= 3 && (!after_1900 || f[2] > 1900) {
        date_of(f[0], f[1], f[2])
    } else {
        None
    }
}

fn date_from_fields(f: &Vec<i32>, after_1900: bool) -> (r: Option<Date>)
    ensures
        r == date_of_fields(f@, after_1900),
{
    if f.len() < 3 {
        return None;
    }
    let (day, month, year) = (f[0], f[1], f[2]);
    if after_1900 && year <= 1900 {
        return None;
    }
    if day > 0 && calendar_date_exists(year, month as u32, day as u32) {
        Some(Date { year, month: month as u32, day: day as u32 })
    } else {
        None
    }
}

/// Interprets `"25.12.2016"` as a date.
pub fn parse_dmy_date(date_str: &str) -> (r: Option<Date>)
    ensures
        r == date_of_fields(dmy_fields(date_str@), true),
{
    let parts = split_char(date_str, '.');
    let mut fields: Vec<i32> = Vec::new();
    let mut i: usize = 0;
    while i < parts.len()
        invariant
            i <= parts@.len(),
            views(parts@) == pieces(date_str@, '.'),
            fields@ == dmy_fields(date_str@).take(i as int),
        decreases parts@.len() - i,
    {
        let v = match parse_i32(parts[i]) {
            Some(v) => v,
            None => 0,
        };
        fields.push(v);
        assert(fields@ =~= dmy_fields(date_str@).take(i + 1));
        i = i + 1;
    }
    assert(fields@ =~= dmy_fields(date_str@));
    date_from_fields(&fields, true)
}

/// Interprets `"24-25.12.2016"` as the date of its first day; a plain
/// `"25.12.2016"` is read as well.
pub fn parse_dmy_date_range(date_str: &str) -> (r: Option<Date>)
    ensures
        r == date_of_fields(dmy_range_fields(date_str@), false),
{
    let parts = split_char(date_str, '.');
    let mut fields: Vec<i32> = Vec::new();
    let mut i: usize = 0;
    while i < parts.len()
        invariant
            i <= parts@.len(),
            views(parts@) == pieces(date_str@, '.'),
            fields@ == dmy_range_fields(date_str@).take(i as int),
        decreases parts@.len() - i,
    {
        let first = split_char(parts[i], '-');
        assert(views(first@).len() == first@.len());
        assert(views(first@)[0] == first@[0]@);
        let v = match parse_i32(first[0]) {
            Some(v) => v,
            None => 0,
        };
        fields.push(v);
        assert(fields@ =~= dmy_range_fields(date_str@).take(i + 1));
        i = i + 1;
    }
    assert(fields@ =~= dmy_range_fields(date_str@));
    date_from_fields(&fields, false)
}

} // verus!

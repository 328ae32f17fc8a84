//! Calendar dates: year-month-day values with a validity invariant and a
//! total order, as genealogical records carry them.

use vstd::prelude::*;
use crate::text::{digit_val, spec_digit_char, spec_digit_val};

verus! {

/// A calendar date. Genealogical sources record dates as plain
/// year-month-day values, never as timestamps.
#[derive(Clone, Copy, PartialEq, Eq, Structural, Debug)]
pub struct Date {
    pub year: u32,
    pub month: u8,
    pub day: u8,
}

/// Whether `year` is a leap year in the proleptic Gregorian calendar.
pub open spec fn spec_is_leap_year(year: u32) -> bool {
    year % 4 == 0 && (year % 100 != 0 || year % 400 == 0)
}

/// Number of days in `month` of `year`.
pub open spec fn spec_days_in_month(year: u32, month: u8) -> u8 {
    if month == 2 {
        if spec_is_leap_year(year) { 29 } else { 28 }
    } else if month == 4 || month == 6 || month == 9 || month == 11 {
        30
    } else {
        31
    }
}

/// A well-formed date: a real day of a real month, with a year that a
/// four-digit text form can carry.
pub open spec fn valid_date(d: Date) -> bool {
    d.year <= 9999
    && 1 <= d.month && d.month <= 12
    && 1 <= d.day && d.day <= spec_days_in_month(d.year, d.month)
}

impl Date {
    /// Chronological order on dates: year first, then month, then day.
    pub open spec fn spec_le(self, other: Date) -> bool {
        self.year < other.year
        || (self.year == other.year && self.month < other.month)
        || (self.year == other.year && self.month == other.month && self.day <= other.day)
    }

    /// True when `self` is on or before `other`.
    pub fn le(&self, other: &Date) -> (r: bool)
        ensures
            r == self.spec_le(*other),
    {
        self.year < other.year
        || (self.year == other.year && self.month < other.month)
        || (self.year == other.year && self.month == other.month && self.day <= other.day)
    }
}

pub fn is_leap_year(year: u32) -> (r: bool)
    ensures
        r == spec_is_leap_year(year),
{
    year % 4 == 0 && (year % 100 != 0 || year % 400 == 0)
}

pub fn days_in_month(year: u32, month: u8) -> (r: u8)
    ensures
        r == spec_days_in_month(year, month),
{
    if month == 2 {
        if is_leap_year(year) { 29 } else { 28 }
    } else if month == 4 || month == 6 || month == 9 || month == 11 {
        30
    } else {
        31
    }
}

/// True when `d` is a well-formed calendar date.
pub fn is_valid_date(d: &Date) -> (r: bool)
    ensures
        r == valid_date(*d),
{
    d.year <= 9999
    && 1 <= d.month && d.month <= 12
    && 1 <= d.day && d.day <= days_in_month(d.year, d.month)
}

/// What parsing an ISO `YYYY-MM-DD` text yields: the date it spells when
/// it is well-formed, else nothing.
pub open spec fn spec_parse_date(s: Seq<char>) -> Option<Date> {
    if s.len() == 10 && s[4] == '-' && s[7] == '-'
        && spec_digit_val(s[0]) < 10 && spec_digit_val(s[1]) < 10
        && spec_digit_val(s[2]) < 10 && spec_digit_val(s[3]) < 10
        && spec_digit_val(s[5]) < 10 && spec_digit_val(s[6]) < 10
        && spec_digit_val(s[8]) < 10 && spec_digit_val(s[9]) < 10 {
        let d = Date {
            year: (spec_digit_val(s[0]) * 1000 + spec_digit_val(s[1]) * 100
                + spec_digit_val(s[2]) * 10 + spec_digit_val(s[3])) as u32,
            month: (spec_digit_val(s[5]) * 10 + spec_digit_val(s[6])) as u8,
            day: (spec_digit_val(s[8]) * 10 + spec_digit_val(s[9])) as u8,
        };
        if valid_date(d) {
            Some(d)
        } else {
            None
        }
    } else {
        None
    }
}

/// Parses an ISO `YYYY-MM-DD` text into a calendar date.
pub fn parse_date(s: &str) -> (r: Option<Date>)
    ensures
        r == spec_parse_date(s@),
{
    let n = s.unicode_len();
    if n != 10 {
        return None;
    }
    if !(s.get_char(4) == '-') || !(s.get_char(7) == '-') {
        return None;
    }
    let v0 = digit_val(s.get_char(0));
    let v1 = digit_val(s.get_char(1));
    let v2 = digit_val(s.get_char(2));
    let v3 = digit_val(s.get_char(3));
    let v5 = digit_val(s.get_char(5));
    let v6 = digit_val(s.get_char(6));
    let v8 = digit_val(s.get_char(8));
    let v9 = digit_val(s.get_char(9));
    if v0 >= 10 || v1 >= 10 || v2 >= 10 || v3 >= 10
        || v5 >= 10 || v6 >= 10 || v8 >= 10 || v9 >= 10 {
        return None;
    }
    let d = Date {
        year: (v0 as u32) * 1000 + (v1 as u32) * 100 + (v2 as u32) * 10 + (v3 as u32),
        month: v5 * 10 + v6,
        day: v8 * 10 + v9,
    };
    if is_valid_date(&d) {
        Some(d)
    } else {
        None
    }
}

/// The ISO `YYYY-MM-DD` text form of a date.
pub open spec fn spec_format_date(d: Date) -> Seq<char> {
    seq![
        spec_digit_char(d.year as int / 1000),
        spec_digit_char((d.year as int / 100) % 10),
        spec_digit_char((d.year as int / 10) % 10),
        spec_digit_char(d.year as int % 10),
        '-',
        spec_digit_char(d.month as int / 10),
        spec_digit_char(d.month as int % 10),
        '-',
        spec_digit_char(d.day as int / 10),
        spec_digit_char(d.day as int % 10),
    ]
}

fn digit_str(v: u8) -> (r: &'static str)
    requires
        v <= 9,
    ensures
        r@ =~= seq![spec_digit_char(v as int)],
{
    proof {
        reveal_strlit("0");
        reveal_strlit("1");
        reveal_strlit("2");
        reveal_strlit("3");
        reveal_strlit("4");
        reveal_strlit("5");
        reveal_strlit("6");
        reveal_strlit("7");
        reveal_strlit("8");
        reveal_strlit("9");
    }
    match v {
        0 => "0",
        1 => "1",
        2 => "2",
        3 => "3",
        4 => "4",
        5 => "5",
        6 => "6",
        7 => "7",
        8 => "8",
        _ => "9",
    }
}

/// Writes a date in its ISO `YYYY-MM-DD` text form.
pub fn format_date(d: &Date) -> (r: String)
    requires
        valid_date(*d),
    ensures
        r@ == spec_format_date(*d),
{
    let y = d.year;
    let m = d.month;
    let day = d.day;
    let mut out = String::new();
    out.append(digit_str((y / 1000) as u8));
    out.append(digit_str(((y / 100) % 10) as u8));
    out.append(digit_str(((y / 10) % 10) as u8));
    out.append(digit_str((y % 10) as u8));
    out.append("-");
    out.append(digit_str(m / 10));
    out.append(digit_str(m % 10));
    out.append("-");
    out.append(digit_str(day / 10));
    out.append(digit_str(day % 10));
    proof {
        reveal_strlit("-");
        assert(out@ =~= spec_format_date(*d));
    }
    out
}

/// Round-trip law: a well-formed date written in its ISO text form parses
/// back to exactly the same date.
pub proof fn lemma_date_round_trip(d: Date)
    requires
        valid_date(d),
    ensures
        spec_parse_date(spec_format_date(d)) == Some(d),
{
    let s = spec_format_date(d);
    let y = d.year as int;
    let m = d.month as int;
    let dd = d.day as int;
    assert(0 <= y / 1000 <= 9 && 0 <= (y / 100) % 10 <= 9 && 0 <= (y / 10) % 10 <= 9
        && 0 <= y % 10 <= 9 && 0 <= m / 10 <= 9 && 0 <= m % 10 <= 9
        && 0 <= dd / 10 <= 9 && 0 <= dd % 10 <= 9);
    crate::text::lemma_digit_char_val(y / 1000);
    crate::text::lemma_digit_char_val((y / 100) % 10);
    crate::text::lemma_digit_char_val((y / 10) % 10);
    crate::text::lemma_digit_char_val(y % 10);
    crate::text::lemma_digit_char_val(m / 10);
    crate::text::lemma_digit_char_val(m % 10);
    crate::text::lemma_digit_char_val(dd / 10);
    crate::text::lemma_digit_char_val(dd % 10);
    assert((y / 1000) * 1000 + ((y / 100) % 10) * 100 + ((y / 10) % 10) * 10 + y % 10 == y) by {
        vstd::arithmetic::div_mod::lemma_fundamental_div_mod(y, 10);
        vstd::arithmetic::div_mod::lemma_fundamental_div_mod(y / 10, 10);
        vstd::arithmetic::div_mod::lemma_fundamental_div_mod(y / 100, 10);
        vstd::arithmetic::div_mod::lemma_div_denominator(y, 10, 10);
        vstd::arithmetic::div_mod::lemma_div_denominator(y, 100, 10);
    }
    assert((m / 10) * 10 + m % 10 == m) by {
        vstd::arithmetic::div_mod::lemma_fundamental_div_mod(m, 10);
    }
    assert((dd / 10) * 10 + dd % 10 == dd) by {
        vstd::arithmetic::div_mod::lemma_fundamental_div_mod(dd, 10);
    }
}

} // verus!

//! Calendar dates and wall-clock moments as plain values, with the calls into
//! `chrono` that read the clock, parse, step and format them.

use chrono::{Datelike, Local, NaiveDate, Timelike};
use vstd::prelude::*;
use crate::text::{padded_decimal};

verus! {

/// Earliest year that `chrono::NaiveDate` represents.
pub const FIRST_YEAR: i32 = -262143;

/// Latest year that `chrono::NaiveDate` represents.
pub const LAST_YEAR: i32 = 262142;

/// A day of the proleptic Gregorian calendar.
#[derive(Clone, Copy, Debug, PartialEq, Eq, Structural)]
pub struct CalendarDate {
    pub year: i32,
    pub month: u32,
    pub day: u32,
}

/// A date together with a time of day, to the second.
#[derive(Clone, Copy, Debug, PartialEq, Eq, Structural)]
pub struct Moment {
    pub date: CalendarDate,
    pub hour: u32,
    pub minute: u32,
    pub second: u32,
}

pub open spec fn is_leap_year(y: int) -> bool {
    y % 4 == 0 && (y % 100 != 0 || y % 400 == 0)
}

pub open spec fn days_in_month(y: int, m: int) -> int {
    if m == 2 {
        if is_leap_year(y) { 29 } else { 28 }
    } else if m == 4 || m == 6 || m == 9 || m == 11 {
        30
    } else {
        31
    }
}

impl CalendarDate {
    /// A real calendar day within the range that `chrono` represents.
    pub open spec fn wf(self) -> bool {
        &&& FIRST_YEAR <= self.year <= LAST_YEAR
        &&& 1 <= self.month <= 12
        &&& 1 <= self.day <= days_in_month(self.year as int, self.month as int)
    }

    /// The last day that `chrono` represents, which has no successor.
    pub open spec fn is_last(self) -> bool {
        self.year == LAST_YEAR && self.month == 12 && self.day == 31
    }

    /// The calendar day after this one.
    pub open spec fn next(self) -> CalendarDate {
        if self.day < days_in_month(self.year as int, self.month as int) {
            CalendarDate { year: self.year, month: self.month, day: (self.day + 1) as u32 }
        } else if self.month < 12 {
            CalendarDate { year: self.year, month: (self.month + 1) as u32, day: 1 }
        } else {
            CalendarDate { year: (self.year + 1) as i32, month: 1, day: 1 }
        }
    }
}

impl Moment {
    pub open spec fn wf(self) -> bool {
        &&& self.date.wf()
        &&& self.hour < 24
        &&& self.minute < 60
        &&& self.second < 60
    }
}

/// The year as `%Y` writes it: four digits within 0..=9999, else signed.
pub open spec fn year_text(y: int) -> Seq<char> {
    if 0 <= y <= 9999 {
        padded_decimal(y as nat, 4)
    } else if y < 0 {
        seq!['-'] + padded_decimal((-y) as nat, 4)
    } else {
        seq!['+'] + padded_decimal(y as nat, 4)
    }
}

pub open spec fn two_digits(v: int) -> Seq<char> {
    padded_decimal(v as nat, 2)
}

/// `YYYY-MM-DD`.
pub open spec fn date_text(d: CalendarDate) -> Seq<char> {
    year_text(d.year as int) + seq!['-'] + two_digits(d.month as int) + seq!['-'] + two_digits(
        d.day as int,
    )
}

/// `YYYY-MM-DDTHH:MM`, the form in which a scheduled time is stored.
pub open spec fn minute_stamp(m: Moment) -> Seq<char> {
    date_text(m.date) + seq!['T'] + two_digits(m.hour as int) + seq![':'] + two_digits(
        m.minute as int,
    )
}

/// `YYYY-MM-DD HH:MM:SS`, the form in which a creation time is stored.
pub open spec fn second_stamp(m: Moment) -> Seq<char> {
    date_text(m.date) + seq![' '] + two_digits(m.hour as int) + seq![':'] + two_digits(
        m.minute as int,
    ) + seq![':'] + two_digits(m.second as int)
}

pub open spec fn minute_pattern() -> Seq<char> {
    "%Y-%m-%dT%H:%M"@
}

pub open spec fn second_pattern() -> Seq<char> {
    "%Y-%m-%d %H:%M:%S"@
}

/// What `chrono::NaiveDate::parse_from_str` makes of a text under a pattern.
pub uninterp spec fn date_parsed(s: Seq<char>, pattern: Seq<char>) -> Option<CalendarDate>;

/// Relies on `chrono::NaiveDate::parse_from_str`: the date that `s` writes
/// under `pattern`, if any; a `NaiveDate` is always a real day in range.
#[verifier::external_body]
pub(crate) fn parse_date(s: &str, pattern: &str) -> (r: Option<CalendarDate>)
    ensures
        r == date_parsed(s@, pattern@),
        r matches Some(d) ==> d.wf(),
{
    match NaiveDate::parse_from_str(s, pattern) {
        Ok(d) => Some(CalendarDate { year: d.year(), month: d.month(), day: d.day() }),
        Err(_) => None,
    }
}

/// Relies on `chrono::NaiveDate::succ_opt`: the next calendar day, or `None`
/// on the last representable day.
#[verifier::external_body]
pub(crate) fn following_day(d: &CalendarDate) -> (r: Option<CalendarDate>)
    requires
        d.wf(),
    ensures
        r == (if d.is_last() { None } else { Some(d.next()) }),
{
    match NaiveDate::from_ymd_opt(d.year, d.month, d.day) {
        Some(n) => match n.succ_opt() {
            Some(s) => Some(CalendarDate { year: s.year(), month: s.month(), day: s.day() }),
            None => None,
        },
        None => None,
    }
}

/// Relies on `chrono::Local::now`: the local wall-clock time; its fields are
/// always those of a real moment.
#[verifier::external_body]
pub(crate) fn local_now() -> (r: Moment)
    ensures
        r.wf(),
{
    let now = Local::now();
    Moment {
        date: CalendarDate { year: now.year(), month: now.month(), day: now.day() },
        hour: now.hour(),
        minute: now.minute(),
        second: now.second(),
    }
}

/// Relies on `chrono::NaiveDateTime::format`: `%Y` gives four zero-padded
/// digits within 0..=9999 and a sign with at least four digits elsewhere;
/// `%m`, `%d`, `%H`, `%M` and `%S` give two zero-padded digits.
#[verifier::external_body]
pub(crate) fn format_moment(m: &Moment, pattern: &str) -> (r: String)
    requires
        m.wf(),
        pattern@ == minute_pattern() || pattern@ == second_pattern(),
    ensures
        pattern@ == minute_pattern() ==> r@ == minute_stamp(*m),
        pattern@ == second_pattern() ==> r@ == second_stamp(*m),
{
    let date = NaiveDate::from_ymd_opt(m.date.year, m.date.month, m.date.day);
    let moment = match date {
        Some(d) => d.and_hms_opt(m.hour, m.minute, m.second),
        None => None,
    };
    match moment {
        Some(t) => t.format(pattern).to_string(),
        None => String::new(),
    }
}

} // verus!

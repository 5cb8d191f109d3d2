//! Calendar dates and date-times of the proleptic Gregorian calendar, as
//! chrono's `NaiveDate` and `NaiveDateTime` hold them, with the chrono calls
//! the service makes on them.
use chrono::{Datelike, Timelike};
use vstd::prelude::*;

verus! {

/// Earliest year chrono's `NaiveDate` holds.
pub open spec fn min_year() -> int {
    -262143
}

/// Latest year chrono's `NaiveDate` holds.
pub open spec fn max_year() -> int {
    262142
}

/// Leap years of the proleptic Gregorian calendar.
pub open spec fn is_leap_year(year: int) -> bool {
    (year % 4 == 0 && year % 100 != 0) || year % 400 == 0
}

/// Number of days of a month (1 to 12) of a year.
pub open spec fn days_in_month(year: int, month: int) -> int {
    if month == 2 {
        if is_leap_year(year) {
            29
        } else {
            28
        }
    } else if month == 4 || month == 6 || month == 9 || month == 11 {
        30
    } else {
        31
    }
}

/// Whether year, month and day name a day that `NaiveDate` can hold.
pub open spec fn valid_ymd(year: int, month: int, day: int) -> bool {
    &&& min_year() <= year <= max_year()
    &&& 1 <= month <= 12
    &&& 1 <= day <= days_in_month(year, month)
}

/// A calendar day.
#[derive(Clone, Copy, Debug, PartialEq, Eq, Structural)]
pub struct Date {
    pub year: i32,
    pub month: u32,
    pub day: u32,
}

impl Date {
    /// The day exists in the calendar and in chrono's range.
    pub open spec fn wf(&self) -> bool {
        valid_ymd(self.year as int, self.month as int, self.day as int)
    }
}

/// A day and a time of day with nanoseconds; as in chrono, a nanosecond
/// count of one second or more marks a leap second and needs second 59.
#[derive(Clone, Copy, Debug, PartialEq, Eq, Structural)]
pub struct DateTime {
    pub date: Date,
    pub hour: u32,
    pub minute: u32,
    pub second: u32,
    pub nano: u32,
}

impl DateTime {
    /// The date-time is one that `NaiveDateTime` can hold.
    pub open spec fn wf(&self) -> bool {
        &&& self.date.wf()
        &&& self.hour < 24
        &&& self.minute < 60
        &&& self.second < 60
        &&& self.nano < 2_000_000_000
        &&& self.nano >= 1_000_000_000 ==> self.second == 59
    }

    /// The date-time with the hour changed; none for an hour past 23. This is
    /// what chrono's `NaiveDateTime::with_hour` does.
    pub fn with_hour(&self, hour: u32) -> (r: Option<DateTime>)
        ensures
            hour < 24 ==> r == Some(DateTime { hour, ..*self }),
            hour >= 24 ==> r is None,
            self.wf() ==> (r matches Some(t) ==> t.wf()),
    {
        if hour >= 24 {
            None
        } else {
            Some(DateTime { hour, ..*self })
        }
    }

    /// Whether `self` comes strictly before `other` in time.
    pub fn is_before(&self, other: &DateTime) -> (r: bool)
        ensures
            r == before(*self, *other),
    {
        if self.date.year != other.date.year {
            return self.date.year < other.date.year;
        }
        if self.date.month != other.date.month {
            return self.date.month < other.date.month;
        }
        if self.date.day != other.date.day {
            return self.date.day < other.date.day;
        }
        if self.hour != other.hour {
            return self.hour < other.hour;
        }
        if self.minute != other.minute {
            return self.minute < other.minute;
        }
        if self.second != other.second {
            return self.second < other.second;
        }
        self.nano < other.nano
    }
}

/// The time order of date-times: by day, then time of day.
pub open spec fn before(a: DateTime, b: DateTime) -> bool {
    if a.date.year != b.date.year {
        a.date.year < b.date.year
    } else if a.date.month != b.date.month {
        a.date.month < b.date.month
    } else if a.date.day != b.date.day {
        a.date.day < b.date.day
    } else if a.hour != b.hour {
        a.hour < b.hour
    } else if a.minute != b.minute {
        a.minute < b.minute
    } else if a.second != b.second {
        a.second < b.second
    } else {
        a.nano < b.nano
    }
}

/// `before` is a strict total order: no date-time is before itself, it is
/// transitive, and of two different date-times one is before the other.
pub proof fn law_before_is_a_strict_total_order(a: DateTime, b: DateTime, c: DateTime)
    ensures
        !before(a, a),
        before(a, b) && before(b, c) ==> before(a, c),
        a != b ==> before(a, b) || before(b, a),
        before(a, b) ==> !before(b, a),
{
}

/// `before` is chronological order: an earlier year, then month, then day,
/// then hour, minute, second and nanosecond puts a date-time first, whatever
/// the fields after it; equal date-times are not before each other.
pub proof fn law_before_is_chronological(a: DateTime, b: DateTime)
    ensures
        a.date.year < b.date.year ==> before(a, b),
        a.date.year == b.date.year && a.date.month < b.date.month ==> before(a, b),
        a.date.year == b.date.year && a.date.month == b.date.month && a.date.day < b.date.day
            ==> before(a, b),
        a.date == b.date && a.hour < b.hour ==> before(a, b),
        a.date == b.date && a.hour == b.hour && a.minute < b.minute ==> before(a, b),
        a.date == b.date && a.hour == b.hour && a.minute == b.minute && a.second < b.second
            ==> before(a, b),
        a.date == b.date && a.hour == b.hour && a.minute == b.minute && a.second == b.second
            && a.nano < b.nano ==> before(a, b),
        a == b ==> !before(a, b),
{
}

/// Calls chrono's `NaiveDate::from_ymd_opt`. Claimed, as its documentation
/// says: it gives the day with exactly these fields when they name a day in
/// chrono's range, and none otherwise.
#[verifier::external_body]
pub(crate) fn date_from_ymd(year: i32, month: u32, day: u32) -> (r: Option<Date>)
    ensures
        valid_ymd(year as int, month as int, day as int) ==> r == Some(Date { year, month, day }),
        !valid_ymd(year as int, month as int, day as int) ==> r is None,
{
    chrono::NaiveDate::from_ymd_opt(year, month, day).map(
        |d| Date { year: d.year(), month: d.month(), day: d.day() },
    )
}

/// The character of a decimal digit.
pub open spec fn digit_char(d: nat) -> char {
    (48 + d) as char
}

/// Decimal digits of a natural number, without leading zeros.
pub open spec fn decimal(n: nat) -> Seq<char>
    decreases n,
{
    if n < 10 {
        seq![digit_char(n)]
    } else {
        decimal(n / 10).push(digit_char(n % 10))
    }
}

/// The text with zeros in front up to `width` characters.
pub open spec fn zero_padded(s: Seq<char>, width: nat) -> Seq<char> {
    if s.len() >= width {
        s
    } else {
        Seq::new((width - s.len()) as nat, |i: int| '0') + s
    }
}

/// A year as `%Y` writes it: four digits at least, with a sign for years
/// before 0 or after 9999.
pub open spec fn year_text(year: int) -> Seq<char> {
    if 0 <= year <= 9999 {
        zero_padded(decimal(year as nat), 4)
    } else if year < 0 {
        seq!['-'] + zero_padded(decimal((-year) as nat), 4)
    } else {
        seq!['+'] + decimal(year as nat)
    }
}

/// A day as `%Y-%m-%d` writes it.
pub open spec fn ymd_text(d: Date) -> Seq<char> {
    year_text(d.year as int) + seq!['-'] + zero_padded(decimal(d.month as nat), 2) + seq!['-']
        + zero_padded(decimal(d.day as nat), 2)
}

/// Calls chrono's `format("%Y-%m-%d")` on the day. Claimed: the text is the
/// year, month and day as chrono's formatting code writes them (zero padded,
/// the year with a sign outside 0 to 9999).
#[verifier::external_body]
pub(crate) fn format_ymd(date: &Date) -> (text: String)
    requires
        date.wf(),
    ensures
        text@ == ymd_text(*date),
{
    chrono::NaiveDate::from_ymd_opt(date.year, date.month, date.day).unwrap().format(
        "%Y-%m-%d",
    ).to_string()
}

/// The day that chrono's `NaiveDate::parse_from_str(text, "%Y-%m-%d")` reads.
pub uninterp spec fn parsed_ymd(text: Seq<char>) -> Option<Date>;

/// Calls chrono's `NaiveDate::parse_from_str` with format `%Y-%m-%d`.
/// Claimed: the result is `parsed_ymd` of the text, and a day read is a
/// valid day. Not claimed: which texts chrono accepts.
#[verifier::external_body]
pub(crate) fn parse_ymd(text: &str) -> (r: Option<Date>)
    ensures
        r == parsed_ymd(text@),
        r matches Some(d) ==> d.wf(),
{
    chrono::NaiveDate::parse_from_str(text, "%Y-%m-%d").ok().map(
        |d| Date { year: d.year(), month: d.month(), day: d.day() },
    )
}

/// The date-time that chrono's `NaiveDateTime::parse_from_str(text,
/// "%Y-%m-%d %H:%M:%S")` reads.
pub uninterp spec fn parsed_timestamp(text: Seq<char>) -> Option<DateTime>;

/// Calls chrono's `NaiveDateTime::parse_from_str` with format
/// `%Y-%m-%d %H:%M:%S`. Claimed: the result is `parsed_timestamp` of the
/// text, and a date-time read is a valid one. Not claimed: which texts
/// chrono accepts.
#[verifier::external_body]
pub(crate) fn parse_timestamp(text: &str) -> (r: Option<DateTime>)
    ensures
        r == parsed_timestamp(text@),
        r matches Some(t) ==> t.wf(),
{
    chrono::NaiveDateTime::parse_from_str(text, "%Y-%m-%d %H:%M:%S").ok().map(
        |t| DateTime {
            date: Date { year: t.year(), month: t.month(), day: t.day() },
            hour: t.hour(),
            minute: t.minute(),
            second: t.second(),
            nano: t.nanosecond(),
        },
    )
}

/// The fifth day of the month of `today`.
pub fn fifth_of_month(today: &Date) -> (d: Date)
    requires
        today.wf(),
    ensures
        d == (Date { year: today.year, month: today.month, day: 5 }),
        d.wf(),
{
    match date_from_ymd(today.year, today.month, 5) {
        Some(d) => d,
        None => Date { year: today.year, month: today.month, day: 5 },
    }
}

/// The day a summary is asked for: the day written in the query as
/// `%Y-%m-%d`, or today when there is no query or chrono cannot read it.
pub fn resolve_summary_date(query: Option<&str>, today: &Date) -> (d: Date)
    ensures
        d == (match query {
            Some(s) => match parsed_ymd(s@) {
                Some(parsed) => parsed,
                None => *today,
            },
            None => *today,
        }),
{
    match query {
        Some(s) => match parse_ymd(s) {
            Some(parsed) => parsed,
            None => *today,
        },
        None => *today,
    }
}

} // verus!

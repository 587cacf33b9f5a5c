use chrono::Timelike;
use std::fmt::Write;
use crate::text::digit_char;
use vstd::prelude::*;

verus! {

/// A calendar day, as year, month (1 to 12) and day of the month.
#[derive(Clone, Copy, Debug, PartialEq, Eq, Structural)]
pub struct CalendarDate {
    pub year: i32,
    pub month: u32,
    pub day: u32,
}

/// The text of the date `year-month-day` written in the strftime `pattern`,
/// or `None` where no such date exists or the pattern cannot be written.
pub uninterp spec fn date_text(year: int, month: int, day: int, pattern: Seq<char>) -> Option<
    Seq<char>,
>;

/// The hour and minute of the date and time that `text` holds in the
/// strftime `pattern`, or `None` where it does not read in that pattern.
pub uninterp spec fn parsed_clock(text: Seq<char>, pattern: Seq<char>) -> Option<(u32, u32)>;

/// A leap year of the proleptic Gregorian calendar.
pub open spec fn is_leap_year(year: int) -> bool {
    year % 4 == 0 && (year % 100 != 0 || year % 400 == 0)
}

/// The number of days of a month (1 to 12).
pub open spec fn days_in_month(year: int, month: int) -> int {
    if month == 2 {
        if is_leap_year(year) {
            29
        } else {
            28
        }
    } else if month == 4 || month == 6 || month == 9 || month == 11 {
        30
    } else {
        31
    }
}

/// The date `year-month-day` exists.
pub open spec fn is_real_date(year: int, month: int, day: int) -> bool {
    1 <= month <= 12 && 1 <= day <= days_in_month(year, month)
}

/// A number below 100 as two digits.
pub open spec fn two_digits(n: int) -> Seq<char> {
    seq![digit_char(n / 10), digit_char(n % 10)]
}

/// A number below 10000 as four digits.
pub open spec fn four_digits(n: int) -> Seq<char> {
    seq![digit_char(n / 1000), digit_char(n / 100 % 10), digit_char(n / 10 % 10), digit_char(n % 10)]
}

/// A date as `YYYY-MM-DD`.
pub open spec fn day_text(year: int, month: int, day: int) -> Seq<char> {
    four_digits(year) + seq!['-'] + two_digits(month) + seq!['-'] + two_digits(day)
}

/// A month as `YYYY-MM`.
pub open spec fn month_text(year: int, month: int) -> Seq<char> {
    four_digits(year) + seq!['-'] + two_digits(month)
}

/// A date and a clock time as `YYYY-MM-DD HH:MM`.
pub open spec fn clock_stamp(year: int, month: int, day: int, hour: int, minute: int) -> Seq<char> {
    day_text(year, month, day) + seq![' '] + two_digits(hour) + seq![':'] + two_digits(minute)
}

/// The characters of an optional string.
pub open spec fn text_of(t: Option<String>) -> Option<Seq<char>> {
    match t {
        Some(s) => Some(s@),
        None => None,
    }
}

/// Relies on chrono's `NaiveDate::from_ymd_opt` and `NaiveDate::format`:
/// writes an existing date in a strftime pattern. `from_ymd_opt` gives
/// `None` exactly for a month or day out of range (years 0 to 9999 are in
/// chrono's range); `%Y` writes such a year as four digits, `%m` and `%d`
/// two digits each.
#[verifier::external_body]
fn format_date(year: i32, month: u32, day: u32, pattern: &str) -> (r: Option<String>)
    ensures
        text_of(r) == date_text(year as int, month as int, day as int, pattern@),
        r is Some <== 0 <= year <= 9999 && (pattern@ == "%Y-%m-%d"@ || pattern@ == "%Y-%m"@) && is_real_date(year as int, month as int, day as int),
        r is None <== 0 <= year <= 9999 && (pattern@ == "%Y-%m-%d"@ || pattern@ == "%Y-%m"@) && !is_real_date(year as int, month as int, day as int),
        r matches Some(t) ==> (0 <= year <= 9999 && pattern@ == "%Y-%m-%d"@ ==> t@ == day_text(year as int, month as int, day as int)),
        r matches Some(t) ==> (0 <= year <= 9999 && pattern@ == "%Y-%m"@ ==> t@ == month_text(year as int, month as int)),
{
    let date = chrono::NaiveDate::from_ymd_opt(year, month, day)?;
    let mut text = String::new();
    write!(text, "{}", date.format(pattern)).ok()?;
    Some(text)
}

/// Relies on chrono's `NaiveDateTime::parse_from_str`: reads a date and
/// time in a strftime pattern; chrono's hours are below 24 and its minutes
/// below 60. `%Y` reads up to four digits, `%m`, `%d`, `%H` and `%M` up to
/// two, so `YYYY-MM-DD HH:MM` of an existing date and time reads as
/// `(HH, MM)`.
#[verifier::external_body]
pub(crate) fn parse_clock(text: &str, pattern: &str) -> (r: Option<(u32, u32)>)
    ensures
        r == parsed_clock(text@, pattern@),
        r matches Some(c) ==> c.0 < 24 && c.1 < 60,
        forall|year: int, month: int, day: int, hour: int, minute: int|
            0 <= year <= 9999 && is_real_date(year, month, day) && 0 <= hour < 24 && 0 <= minute
                < 60 && pattern@ == "%Y-%m-%d %H:%M"@ && text@ == #[trigger] clock_stamp(
                year,
                month,
                day,
                hour,
                minute,
            ) ==> r == Some((hour as u32, minute as u32)),
{
    chrono::NaiveDateTime::parse_from_str(text, pattern).ok().map(|t| (t.hour(), t.minute()))
}

impl CalendarDate {
    /// The day's key in a month document, `YYYY-MM-DD`; `None` where the
    /// date does not exist.
    pub fn day_label(&self) -> (r: Option<String>)
        ensures
            text_of(r) == date_text(
                self.year as int,
                self.month as int,
                self.day as int,
                "%Y-%m-%d"@,
            ),
            0 <= self.year <= 9999 ==> (r is Some <==> is_real_date(
                self.year as int,
                self.month as int,
                self.day as int,
            )),
            0 <= self.year <= 9999 && is_real_date(self.year as int, self.month as int, self.day as int)
                ==> (r matches Some(t) && t@ == day_text(
                self.year as int,
                self.month as int,
                self.day as int,
            )),
    {
        format_date(self.year, self.month, self.day, "%Y-%m-%d")
    }

    /// The month's label, `YYYY-MM`; `None` where the date does not exist.
    pub fn month_label(&self) -> (r: Option<String>)
        ensures
            text_of(r) == date_text(self.year as int, self.month as int, self.day as int, "%Y-%m"@),
            0 <= self.year <= 9999 ==> (r is Some <==> is_real_date(
                self.year as int,
                self.month as int,
                self.day as int,
            )),
            0 <= self.year <= 9999 && is_real_date(self.year as int, self.month as int, self.day as int)
                ==> (r matches Some(t) && t@ == month_text(self.year as int, self.month as int)),
    {
        format_date(self.year, self.month, self.day, "%Y-%m")
    }
}

} // verus!

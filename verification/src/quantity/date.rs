//! A naive date quantity with opinionated formatting and parsing.

use chrono::{Datelike, NaiveDate};
use vstd::prelude::*;
use crate::calendar::{CalendarDate, is_calendar_date};
use crate::decimal::{decimal, fixed_digits};
use crate::quantity::Quantity;
use crate::variant::Error;

verus! {

/// A naive date quantity.
///
/// A date is read in one of four forms, tried in this order: day/month/year,
/// year-month-day, day-month name-year, and day.month.year. A year below 100
/// is taken to be of the century that starts with 2000. A date is written as
/// day/month/year.
#[derive(Debug)]
pub struct Date;

/// What `chrono::NaiveDate::parse_from_str` makes of `text` under the
/// format string `format`: the year, month and day of the date it returns,
/// or `None` where it returns an error.
pub uninterp spec fn parsed_ymd(text: Seq<char>, format: Seq<char>) -> Option<(i32, u32, u32)>;

/// Read `text` as a date under the `strftime`-like format string `format`,
/// by `chrono::NaiveDate::parse_from_str`. The result is the year, month and
/// day of the date read, which is a day that exists in the calendar, or
/// `None` where `chrono` refuses the text.
#[verifier::external_body]
fn parse_ymd(text: &str, format: &str) -> (ymd: Option<(i32, u32, u32)>)
    ensures
        ymd == parsed_ymd(text@, format@),
        ymd matches Some((year, month, day)) ==> is_calendar_date(
            year as int,
            month as int,
            day as int,
        ),
{
    match NaiveDate::parse_from_str(text, format) {
        Ok(date) => Some((date.year(), date.month(), date.day())),
        Err(_) => None,
    }
}

/// The year as `chrono` writes it for `%Y`: four digits for the years 0 to
/// 9999; otherwise a sign and at least four digits.
pub open spec fn year_text(year: int) -> Seq<char> {
    if 0 <= year <= 9999 {
        fixed_digits(year as nat, 4)
    } else {
        let magnitude = if year < 0 {
            (-year) as nat
        } else {
            year as nat
        };
        seq![if year < 0 {
            '-'
        } else {
            '+'
        }] + if magnitude < 10000 {
            fixed_digits(magnitude, 4)
        } else {
            decimal(magnitude)
        }
    }
}

/// A date written as day/month/year, with two digits for the day and for
/// the month.
pub open spec fn date_text(year: int, month: int, day: int) -> Seq<char> {
    fixed_digits(day as nat, 2) + seq!['/'] + fixed_digits(month as nat, 2) + seq!['/'] + year_text(
        year,
    )
}

/// Write a date as day/month/year, by `chrono`'s `NaiveDate::format` with
/// the format string `%d/%m/%Y`: the day and the month with two digits
/// each, and the year as [`year_text`] says.
#[verifier::external_body]
fn format_ymd(year: i32, month: u32, day: u32) -> (text: String)
    requires
        is_calendar_date(year as int, month as int, day as int),
    ensures
        text@ == date_text(year as int, month as int, day as int),
{
    NaiveDate::from_ymd_opt(year, month, day).unwrap().format("%d/%m/%Y").to_string()
}

/// The number of forms in which a date is read.
pub const FORMS: usize = 4;

/// The format string of the form with the given number.
pub open spec fn date_form(form: int) -> Seq<char> {
    if form == 0 {
        "%d/%m/%Y"@
    } else if form == 1 {
        "%F"@
    } else if form == 2 {
        "%v"@
    } else {
        "%d.%m.%Y"@
    }
}

/// The format string of the form with the given number.
fn form(number: usize) -> (format: &'static str)
    requires
        number < FORMS,
    ensures
        format@ == date_form(number as int),
{
    if number == 0 {
        "%d/%m/%Y"
    } else if number == 1 {
        "%F"
    } else if number == 2 {
        "%v"
    } else {
        "%d.%m.%Y"
    }
}

/// The reading of `text` under the first of the forms from `from` on that
/// accepts it.
pub open spec fn first_reading(text: Seq<char>, from: int) -> Option<(i32, u32, u32)>
    decreases FORMS - from,
{
    if from < 0 || from >= FORMS {
        None
    } else {
        match parsed_ymd(text, date_form(from)) {
            Some(ymd) => Some(ymd),
            None => first_reading(text, from + 1),
        }
    }
}

/// The year that is meant by a year as it was read: a year below 100 is of
/// the century that starts with 2000.
pub open spec fn full_year(year: int) -> int {
    if year < 100 {
        year + 2000
    } else {
        year
    }
}

/// The date that is meant by a date as it was read: the same day and month
/// of the year that [`full_year`] gives.
pub open spec fn full_date(year: i32, month: u32, day: u32) -> CalendarDate {
    CalendarDate::spec_from_ymd(full_year(year as int) as i32, month, day)
}

/// The date that `text` stands for, if it stands for one.
pub open spec fn date_value(text: Seq<char>) -> Option<CalendarDate> {
    match first_reading(text, 0) {
        Some((year, month, day)) => Some(full_date(year, month, day)),
        None => None,
    }
}

/// The date that is meant by a date as it was read: a date of a year below
/// 100 is moved to the century that starts with 2000. Every day of such a
/// year exists in the year 2000 years later, leap days too.
pub fn in_full(read: CalendarDate) -> (date: CalendarDate)
    ensures
        date == full_date(read.spec_year(), read.spec_month(), read.spec_day()),
{
    let year = read.year();
    let month = read.month();
    let day = read.day();
    if year < 100 {
        match CalendarDate::from_ymd(year + 2000, month, day) {
            Some(date) => date,
            None => read,
        }
    } else {
        proof {
            CalendarDate::lemma_same_fields(read, CalendarDate::spec_from_ymd(year, month, day));
        }
        read
    }
}

/// The description of the error that refuses a text as a date.
pub open spec fn date_error() -> Seq<char> {
    "unrecognised date format"@
}

impl Quantity for Date {
    type Repr = CalendarDate;

    open spec fn parsed(text: Seq<char>) -> Option<CalendarDate> {
        date_value(text)
    }

    open spec fn parse_error() -> Seq<char> {
        date_error()
    }

    open spec fn formatted(value: CalendarDate) -> Seq<char> {
        date_text(value.spec_year() as int, value.spec_month() as int, value.spec_day() as int)
    }

    fn parse(text: &str) -> (value: Result<CalendarDate, Error>) {
        let mut number: usize = 0;
        while number < FORMS
            invariant
                number <= FORMS,
                first_reading(text@, 0) == first_reading(text@, number as int),
            decreases FORMS - number,
        {
            if let Some((year, month, day)) = parse_ymd(text, form(number)) {
                if let Some(read) = CalendarDate::from_ymd(year, month, day) {
                    return Ok(in_full(read));
                }
            }
            number += 1;
        }
        Err(Error::new("unrecognised date format"))
    }

    fn format(value: &CalendarDate) -> (text: String) {
        format_ymd(value.year(), value.month(), value.day())
    }
}

} // verus!

//! Plain calendar dates and instants, as the engine stores them.

use vstd::prelude::*;

verus! {

/// The earliest year that a [`CalendarDate`] can hold.
pub const MIN_YEAR: i32 = -262143;

/// The latest year that a [`CalendarDate`] can hold.
pub const MAX_YEAR: i32 = 262142;

/// Whether `year` is a leap year of the proleptic Gregorian calendar.
pub open spec fn is_leap_year(year: int) -> bool {
    year % 4 == 0 && (year % 100 != 0 || year % 400 == 0)
}

/// The number of days of `month` in `year`, for a month from 1 to 12.
pub open spec fn days_in_month(year: int, month: int) -> int {
    if month == 2 {
        if is_leap_year(year) {
            29
        } else {
            28
        }
    } else if month == 4 || month == 6 || month == 9 || month == 11 {
        30
    } else {
        31
    }
}

/// Whether year, month and day name a day of the proleptic Gregorian
/// calendar within the supported years.
pub open spec fn is_calendar_date(year: int, month: int, day: int) -> bool {
    &&& MIN_YEAR <= year <= MAX_YEAR
    &&& 1 <= month <= 12
    &&& 1 <= day <= days_in_month(year, month)
}

/// A day of the proleptic Gregorian calendar, without a time zone.
///
/// Every value names an existing day: see [`is_calendar_date`].
#[derive(Clone, Copy, Debug, PartialEq, Eq, Structural)]
pub struct CalendarDate {
    year: i32,
    month: u32,
    day: u32,
}

impl CalendarDate {
    #[verifier::type_invariant]
    spec fn exists_in_calendar(&self) -> bool {
        is_calendar_date(self.year as int, self.month as int, self.day as int)
    }

    /// The year.
    pub closed spec fn spec_year(&self) -> i32 {
        self.year
    }

    /// The month, from 1 to 12.
    pub closed spec fn spec_month(&self) -> u32 {
        self.month
    }

    /// The day of the month, from 1.
    pub closed spec fn spec_day(&self) -> u32 {
        self.day
    }

    /// The date with the given year, month and day.
    pub closed spec fn spec_from_ymd(year: i32, month: u32, day: u32) -> CalendarDate {
        CalendarDate { year, month, day }
    }

    /// Two dates with the same year, month and day are the same date, and
    /// a date is the one made of its year, month and day.
    pub proof fn lemma_same_fields(a: CalendarDate, b: CalendarDate)
        ensures
            a.spec_year() == b.spec_year() && a.spec_month() == b.spec_month() && a.spec_day()
                == b.spec_day() ==> a == b,
            Self::spec_from_ymd(a.spec_year(), a.spec_month(), a.spec_day()) == a,
    {
    }

    /// Whether `year` is a leap year.
    pub fn leap_year(year: i32) -> (leap: bool)
        requires
            MIN_YEAR <= year <= MAX_YEAR,
        ensures
            leap == is_leap_year(year as int),
    {
        // 262400 is a multiple of 400, so the shift keeps every remainder
        // and makes the year positive.
        let shifted: i32 = year + 262400;
        shifted % 4 == 0 && (shifted % 100 != 0 || shifted % 400 == 0)
    }

    /// The date with the given year, month and day, or `None` if there is no
    /// such day or the year is out of range.
    pub fn from_ymd(year: i32, month: u32, day: u32) -> (date: Option<CalendarDate>)
        ensures
            date is Some <==> is_calendar_date(year as int, month as int, day as int),
            date matches Some(d) ==> d == Self::spec_from_ymd(year, month, day),
            date matches Some(d) ==> d.spec_year() == year && d.spec_month() == month
                && d.spec_day() == day,
    {
        if year < MIN_YEAR || year > MAX_YEAR || month < 1 || month > 12 || day < 1 {
            return None;
        }
        let last: u32 = if month == 2 {
            if Self::leap_year(year) {
                29
            } else {
                28
            }
        } else if month == 4 || month == 6 || month == 9 || month == 11 {
            30
        } else {
            31
        };
        if day > last {
            return None;
        }
        Some(CalendarDate { year, month, day })
    }

    #[verifier::when_used_as_spec(spec_year)]
    pub fn year(&self) -> (year: i32)
        ensures
            year == self.spec_year(),
            MIN_YEAR <= year <= MAX_YEAR,
    {
        proof {
            use_type_invariant(self);
        }
        self.year
    }

    #[verifier::when_used_as_spec(spec_month)]
    pub fn month(&self) -> (month: u32)
        ensures
            month == self.spec_month(),
            1 <= month <= 12,
    {
        proof {
            use_type_invariant(self);
        }
        self.month
    }

    #[verifier::when_used_as_spec(spec_day)]
    pub fn day(&self) -> (day: u32)
        ensures
            day == self.spec_day(),
            1 <= day <= days_in_month(self.spec_year() as int, self.spec_month() as int),
    {
        proof {
            use_type_invariant(self);
        }
        self.day
    }
}

/// An instant on the UTC time line: whole seconds since the Unix epoch and
/// the nanoseconds into that second.
#[derive(Clone, Copy, Debug, PartialEq, Eq, Structural)]
pub struct Timestamp {
    pub seconds: i64,
    pub nanos: u32,
}

} // verus!

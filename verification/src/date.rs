//! Calendar dates of the proleptic Gregorian calendar, years 1 to 9999.

use chrono::Datelike;
use chrono::NaiveDate;
use vstd::prelude::*;

verus! {

/// Whether `year` has a 29th of February.
pub open spec fn is_leap_year(year: int) -> bool {
    year % 4 == 0 && (year % 100 != 0 || year % 400 == 0)
}

/// The number of days of `month` (1 to 12) in `year`.
pub open spec fn days_in_month(year: int, month: int) -> int {
    if month == 2 {
        if is_leap_year(year) {
            29
        } else {
            28
        }
    } else if month == 4 || month == 6 || month == 9 || month == 11 {
        30
    } else {
        31
    }
}

/// Whether the calendar of `year` has a day `day` in a month `month`.
pub open spec fn day_exists(year: int, month: int, day: int) -> bool {
    1 <= month <= 12 && 1 <= day <= days_in_month(year, month)
}

/// Whether the three numbers name a day that this library accepts: a day that exists, in one
/// of the years 1 to 9999.
pub open spec fn is_calendar_date(year: int, month: int, day: int) -> bool {
    1 <= year <= 9999 && day_exists(year, month, day)
}

/// What a [`Date`] stands for: a year, a month and a day of the month.
pub ghost struct DateView {
    pub year: int,
    pub month: int,
    pub day: int,
}

impl DateView {
    /// Whether the date is a real day of the calendar.
    pub open spec fn is_valid(self) -> bool {
        is_calendar_date(self.year, self.month, self.day)
    }
}

/// A day of the calendar. Every value is a real day: there is no 30th of February.
#[derive(Clone, Copy, Debug, PartialEq, Eq, Structural)]
pub struct Date {
    year: i32,
    month: u32,
    day: u32,
}

impl View for Date {
    type V = DateView;

    closed spec fn view(&self) -> DateView {
        DateView { year: self.year as int, month: self.month as int, day: self.day as int }
    }
}

/// Builds the day with chrono's `NaiveDate::from_ymd_opt` and reads it back with `Datelike`'s
/// `year`, `month` and `day`. The contract claims, for the years 1 to 9999, that chrono
/// builds the day exactly when the proleptic Gregorian calendar has it, and that the day
/// reads back as the three numbers it was built from.
#[verifier::external_body]
fn calendar_day(year: i32, month: u32, day: u32) -> (r: Option<(i32, u32, u32)>)
    requires
        1 <= year <= 9999,
    ensures
        r is Some <==> day_exists(year as int, month as int, day as int),
        r is Some ==> r == Some((year, month, day)),
{
    match NaiveDate::from_ymd_opt(year, month, day) {
        Some(date) => Some((date.year(), date.month(), date.day())),
        None => None,
    }
}

impl Date {
    #[verifier::type_invariant]
    spec fn is_real(self) -> bool {
        is_calendar_date(self.year as int, self.month as int, self.day as int)
    }

    /// The date of the given year, month and day of the month, if the calendar has such a day
    /// in the years 1 to 9999.
    pub fn new(year: i32, month: u32, day: u32) -> (r: Option<Date>)
        ensures
            r is Some <==> is_calendar_date(year as int, month as int, day as int),
            r matches Some(date) ==> date@ == (DateView {
                year: year as int,
                month: month as int,
                day: day as int,
            }),
    {
        if year < 1 || year > 9999 {
            return None;
        }
        match calendar_day(year, month, day) {
            Some((y, m, d)) => Some(Date { year: y, month: m, day: d }),
            None => None,
        }
    }

    /// The year, from 1 to 9999.
    pub fn year(&self) -> (y: i32)
        ensures
            y == self@.year,
            self@.is_valid(),
    {
        proof {
            use_type_invariant(self);
        }
        self.year
    }

    /// The month, from 1 to 12.
    pub fn month(&self) -> (m: u32)
        ensures
            m == self@.month,
            self@.is_valid(),
    {
        proof {
            use_type_invariant(self);
        }
        self.month
    }

    /// The day of the month, from 1 to 31.
    pub fn day(&self) -> (d: u32)
        ensures
            d == self@.day,
            self@.is_valid(),
    {
        proof {
            use_type_invariant(self);
        }
        self.day
    }
}

} // verus!

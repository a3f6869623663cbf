//! Calendar dates without a time of day or a time zone.

use chrono::{Datelike, Duration, NaiveDate};
use vstd::prelude::*;

verus! {

/// The earliest year a [`Date`] can lie in.
pub const MIN_YEAR: i32 = -262_143;

/// The latest year a [`Date`] can lie in.
pub const MAX_YEAR: i32 = 262_142;

/// Whether `year` has a 29th of February in the proleptic Gregorian calendar.
pub open spec fn is_leap_year(year: int) -> bool {
    year % 4 == 0 && (year % 100 != 0 || year % 400 == 0)
}

/// The number of days of `month` (1 to 12) in `year`.
pub open spec fn days_in_month(year: int, month: int) -> int {
    if month == 2 {
        if is_leap_year(year) {
            29
        } else {
            28
        }
    } else if month == 4 || month == 6 || month == 9 || month == 11 {
        30
    } else {
        31
    }
}

/// Whether year, month and day name a day that exists and that a [`Date`]
/// can hold.
pub open spec fn is_calendar_date(year: int, month: int, day: int) -> bool {
    &&& MIN_YEAR <= year <= MAX_YEAR
    &&& 1 <= month <= 12
    &&& 1 <= day <= days_in_month(year, month)
}

/// What a [`Date`] stands for: a year, a month and a day of the month.
pub struct Ymd {
    pub year: int,
    pub month: int,
    pub day: int,
}

/// The day that lies `days` days after the given one (before it, where `days`
/// is negative), as `chrono` computes it; `None` where that day is out of
/// range or the given day does not exist.
pub uninterp spec fn date_plus_days(year: int, month: int, day: int, days: int) -> Option<
    (int, int, int),
>;

/// The day `days` days after `start`, where there is one in range.
pub open spec fn days_later(start: Ymd, days: int) -> Option<Ymd> {
    match date_plus_days(start.year, start.month, start.day, days) {
        Some((year, month, day)) => Some(Ymd { year, month, day }),
        None => None,
    }
}

/// A calendar date. Every value is a day that exists.
#[derive(Clone, Copy, Debug, PartialEq, Eq, Structural)]
pub struct Date {
    year: i32,
    month: u32,
    day: u32,
}

impl View for Date {
    type V = Ymd;

    closed spec fn view(&self) -> Ymd {
        Ymd { year: self.year as int, month: self.month as int, day: self.day as int }
    }
}

/// `chrono::NaiveDate::from_ymd_opt`, asked only whether it finds the day.
/// Trusted: it returns a date exactly for the days that exist between
/// `MIN_YEAR` and `MAX_YEAR`, with months from 1 to 12 and days from 1 to the
/// length of the month.
#[verifier::external_body]
fn chrono_date_exists(year: i32, month: u32, day: u32) -> (found: bool)
    ensures
        found == is_calendar_date(year as int, month as int, day as int),
{
    NaiveDate::from_ymd_opt(year, month, day).is_some()
}

/// `chrono::NaiveDate::checked_add_signed` with a whole number of days.
/// Trusted: the outcome depends on the arguments alone, so it has a name,
/// `date_plus_days`; and a date that comes back is a day that exists, as
/// every date of `chrono` is. Nothing is claimed about which day it is.
#[verifier::external_body]
fn chrono_plus_days(start: Date, days: i32) -> (end: Option<Date>)
    ensures
        date_plus_days(start@.year, start@.month, start@.day, days as int) == match end {
            Some(d) => Some((d@.year, d@.month, d@.day)),
            None => None,
        },
        end matches Some(d) ==> is_calendar_date(d@.year, d@.month, d@.day),
{
    let from = NaiveDate::from_ymd_opt(start.year, start.month, start.day)?;
    let to = from.checked_add_signed(Duration::try_days(i64::from(days))?)?;
    Some(Date { year: to.year(), month: to.month(), day: to.day() })
}

impl Date {
    #[verifier::type_invariant]
    spec fn exists_in_calendar(self) -> bool {
        is_calendar_date(self.year as int, self.month as int, self.day as int)
    }

    /// The date of the given year, month and day of the month, if there is
    /// such a day.
    pub fn from_ymd(year: i32, month: u32, day: u32) -> (date: Option<Date>)
        ensures
            date is Some <==> is_calendar_date(year as int, month as int, day as int),
            date matches Some(d) ==> d@ == (Ymd {
                year: year as int,
                month: month as int,
                day: day as int,
            }),
    {
        if chrono_date_exists(year, month, day) {
            Some(Date { year, month, day })
        } else {
            None
        }
    }

    pub fn year(&self) -> (year: i32)
        ensures
            year == self@.year,
            MIN_YEAR <= year <= MAX_YEAR,
    {
        proof {
            use_type_invariant(self);
        }
        self.year
    }

    pub fn month(&self) -> (month: u32)
        ensures
            month == self@.month,
            1 <= month <= 12,
    {
        proof {
            use_type_invariant(self);
        }
        self.month
    }

    pub fn day(&self) -> (day: u32)
        ensures
            day == self@.day,
            1 <= day <= days_in_month(self@.year, self@.month),
    {
        proof {
            use_type_invariant(self);
        }
        self.day
    }

    /// Whether both dates are the same day.
    pub fn same_day(&self, other: &Date) -> (same: bool)
        ensures
            same == (self@ == other@),
    {
        self.year == other.year && self.month == other.month && self.day == other.day
    }

    /// The day `days` days after this one, or before it where `days` is
    /// negative; `None` where that day lies outside the years a date can
    /// hold.
    pub fn plus_days(&self, days: i32) -> (end: Option<Date>)
        ensures
            days_later(self@, days as int) == match end {
                Some(d) => Some(d@),
                None => None,
            },
    {
        chrono_plus_days(*self, days)
    }
}

} // verus!

//! Calendar dates and their conversion to points in time.
//!
//! The library's clock counts seconds from the reference midnight at the
//! start of 2000-01-01; a date is converted by counting the days before it.
//! Reporting periods are months, bounded by the daily cutover hour.

use vstd::prelude::*;

verus! {

use crate::time::{Timestamp, SECS_PER_DAY, SECS_PER_HOUR, SECS_PER_MINUTE};

/// The first year the day count can represent.
pub const BASE_YEAR: u32 = 2000;

/// The last year the library accepts in a date.
pub const MAX_YEAR: u32 = 9999;

pub open spec fn spec_is_leap(y: int) -> bool {
    y % 4 == 0 && (y % 100 != 0 || y % 400 == 0)
}

pub open spec fn spec_days_in_year(y: int) -> int {
    if spec_is_leap(y) {
        366
    } else {
        365
    }
}

pub open spec fn spec_days_in_month(y: int, m: int) -> int {
    if m == 2 {
        if spec_is_leap(y) {
            29
        } else {
            28
        }
    } else if m == 4 || m == 6 || m == 9 || m == 11 {
        30
    } else {
        31
    }
}

/// Days in the years `BASE_YEAR..y`.
pub open spec fn spec_days_before_year(y: int) -> int
    decreases y,
{
    if y <= BASE_YEAR {
        0
    } else {
        spec_days_before_year(y - 1) + spec_days_in_year(y - 1)
    }
}

/// Days of year `y` in the months `1..m`.
pub open spec fn spec_days_before_month(y: int, m: int) -> int
    decreases m,
{
    if m <= 1 {
        0
    } else {
        spec_days_before_month(y, m - 1) + spec_days_in_month(y, m - 1)
    }
}

/// A calendar date.
#[derive(Debug, Clone, Copy, PartialEq, Eq, Structural)]
pub struct Date {
    pub year: u32,
    pub month: u32,
    pub day: u32,
}

impl Date {
    /// A representable calendar date.
    pub open spec fn wf(self) -> bool {
        &&& BASE_YEAR <= self.year <= MAX_YEAR
        &&& 1 <= self.month <= 12
        &&& 1 <= self.day <= spec_days_in_month(self.year as int, self.month as int)
    }

    /// Days from the reference day (the first of `BASE_YEAR`) to this date.
    pub open spec fn spec_day_number(self) -> int {
        spec_days_before_year(self.year as int) + spec_days_before_month(
            self.year as int,
            self.month as int,
        ) + self.day - 1
    }

    /// The point in time at `hour:min:sec` of this date.
    pub open spec fn spec_and_hms(self, hour: int, min: int, sec: int) -> int {
        self.spec_day_number() * SECS_PER_DAY + hour * SECS_PER_HOUR + min * SECS_PER_MINUTE + sec
    }

    /// The following calendar date.
    pub open spec fn spec_succ(self) -> Date {
        if self.day < spec_days_in_month(self.year as int, self.month as int) {
            Date { day: (self.day + 1) as u32, ..self }
        } else if self.month < 12 {
            Date { month: (self.month + 1) as u32, day: 1, ..self }
        } else {
            Date { year: (self.year + 1) as u32, month: 1, day: 1 }
        }
    }

    pub fn from_ymd(year: u32, month: u32, day: u32) -> (r: Date)
        requires
            (Date { year, month, day }).wf(),
        ensures
            r == (Date { year, month, day }),
    {
        Date { year, month, day }
    }

    fn is_leap_year(year: u32) -> (r: bool)
        ensures
            r == spec_is_leap(year as int),
    {
        year % 4 == 0 && (year % 100 != 0 || year % 400 == 0)
    }

    fn days_in_month(year: u32, month: u32) -> (r: u32)
        ensures
            r == spec_days_in_month(year as int, month as int),
    {
        if month == 2 {
            if Date::is_leap_year(year) {
                29
            } else {
                28
            }
        } else if month == 4 || month == 6 || month == 9 || month == 11 {
            30
        } else {
            31
        }
    }

    /// Count the days from the reference day to this date.
    pub fn day_number(self) -> (r: u64)
        requires
            self.wf(),
        ensures
            r == self.spec_day_number(),
            r <= 366 * (MAX_YEAR - BASE_YEAR) + 372,
    {
        let mut days: u64 = 0;
        let mut y: u32 = BASE_YEAR;
        while y < self.year
            invariant
                BASE_YEAR <= y <= self.year <= MAX_YEAR,
                days == spec_days_before_year(y as int),
                days <= 366 * (y - BASE_YEAR),
            decreases self.year - y,
        {
            days = days + (if Date::is_leap_year(y) {
                366
            } else {
                365
            });
            y = y + 1;
        }
        let mut m: u32 = 1;
        while m < self.month
            invariant
                1 <= m <= self.month <= 12,
                BASE_YEAR <= self.year <= MAX_YEAR,
                days == spec_days_before_year(self.year as int) + spec_days_before_month(
                    self.year as int,
                    m as int,
                ),
                days <= 366 * (self.year - BASE_YEAR) + 31 * (m - 1),
            decreases self.month - m,
        {
            days = days + Date::days_in_month(self.year, m) as u64;
            m = m + 1;
        }
        days + (self.day - 1) as u64
    }

    /// The point in time at `hour:min:sec` of this date.
    pub fn and_hms(self, hour: u64, min: u64, sec: u64) -> (r: Timestamp)
        requires
            self.wf(),
            hour < 24,
            min < 60,
            sec < 60,
        ensures
            r.secs == self.spec_and_hms(hour as int, min as int, sec as int),
    {
        let days = self.day_number();
        proof {
            assert(days <= 2928006);
            assert(SECS_PER_DAY == 86400);
            assert(days * (SECS_PER_DAY as int) <= 2928006 * 86400) by (nonlinear_arith)
                requires
                    days <= 2928006,
                    SECS_PER_DAY == 86400,
            ;
        }
        Timestamp {
            secs: days * SECS_PER_DAY + hour * SECS_PER_HOUR + min * SECS_PER_MINUTE + sec,
        }
    }

    /// The following calendar date.
    pub fn succ(self) -> (r: Date)
        requires
            self.wf(),
            !(self.year == MAX_YEAR && self.month == 12 && self.day == 31),
        ensures
            r == self.spec_succ(),
            r.wf(),
    {
        if self.day < Date::days_in_month(self.year, self.month) {
            Date { day: self.day + 1, ..self }
        } else if self.month < 12 {
            Date { month: self.month + 1, day: 1, ..self }
        } else {
            Date { year: self.year + 1, month: 1, day: 1 }
        }
    }
}

/// Month navigation on dates.
pub trait NaiveDateExt where Self: core::marker::Sized {
    /// What `first_dom` returns.
    spec fn spec_first_dom(self) -> Self;

    /// What `last_dom` returns.
    spec fn spec_last_dom(self) -> Self;

    /// The first day of this date's month.
    fn first_dom(self) -> (r: Self)
        ensures
            r == self.spec_first_dom(),
    ;

    /// The last day of this date's month: the day whose number is the
    /// month's true length, 29 for February in a leap year.
    fn last_dom(self) -> (r: Self)
        ensures
            r == self.spec_last_dom(),
    ;
}

impl NaiveDateExt for Date {
    open spec fn spec_first_dom(self) -> Date {
        Date { day: 1, ..self }
    }

    open spec fn spec_last_dom(self) -> Date {
        Date { day: spec_days_in_month(self.year as int, self.month as int) as u32, ..self }
    }

    fn first_dom(self) -> (r: Date) {
        Date { day: 1, ..self }
    }

    fn last_dom(self) -> (r: Date) {
        Date { day: Date::days_in_month(self.year, self.month), ..self }
    }
}

} // verus!

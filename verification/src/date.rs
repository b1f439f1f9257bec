use vstd::prelude::*;

use crate::errors::DomainError;
use crate::text::{push_two_digits, two_digit_chars};
use vstd::string::StringExecFns;

verus! {

/// A calendar date held as plain year, month and day values, so that the
/// term and scheduling rules can be stated and checked directly over it.
/// Years are kept within the four-digit range that the canonical term
/// display uses.
#[derive(Clone, Copy, Debug, PartialEq, Eq, Structural)]
pub struct Date {
    pub year: i32,
    pub month: u8,
    pub day: u8,
}

/// A clock time held as minutes from midnight.
#[derive(Clone, Copy, Debug, PartialEq, Eq, Structural)]
pub struct TimeOfDay {
    pub minutes_from_midnight: u16,
}

pub open spec fn is_leap_year(year: int) -> bool {
    year % 4 == 0 && (year % 100 != 0 || year % 400 == 0)
}

pub open spec fn days_in_month(year: int, month: int) -> int {
    if month == 2 {
        if is_leap_year(year) {
            29
        } else {
            28
        }
    } else if month == 4 || month == 6 || month == 9 || month == 11 {
        30
    } else {
        31
    }
}

/// A well-formed date: a four-digit year, a real month, and a day that
/// the month has in that year.
pub open spec fn valid_ymd(year: int, month: int, day: int) -> bool {
    &&& 0 <= year <= 9999
    &&& 1 <= month <= 12
    &&& 1 <= day <= days_in_month(year, month)
}

impl Date {
    pub open spec fn valid(self) -> bool {
        valid_ymd(self.year as int, self.month as int, self.day as int)
    }

    /// Builds a date, rejecting any year, month and day combination that
    /// is not a well-formed calendar date.
    pub fn new(year: i32, month: u8, day: u8) -> (r: Result<Date, DomainError>)
        ensures
            valid_ymd(year as int, month as int, day as int) ==> r == Ok::<Date, DomainError>(
                Date { year, month, day },
            ),
            !valid_ymd(year as int, month as int, day as int) ==> r == Err::<Date, DomainError>(
                DomainError::Validation,
            ),
    {
        if year < 0 || year > 9999 {
            return Err(DomainError::Validation);
        }
        if month < 1 || month > 12 {
            return Err(DomainError::Validation);
        }
        let limit: u8 = if month == 2 {
            let leap = year % 4 == 0 && (year % 100 != 0 || year % 400 == 0);
            if leap {
                29
            } else {
                28
            }
        } else if month == 4 || month == 6 || month == 9 || month == 11 {
            30
        } else {
            31
        };
        if day < 1 || day > limit {
            return Err(DomainError::Validation);
        }
        Ok(Date { year, month, day })
    }

    /// Whether this value is a well-formed calendar date.
    pub fn is_valid(&self) -> (r: bool)
        ensures
            r == self.valid(),
    {
        if self.year < 0 || self.year > 9999 {
            return false;
        }
        if self.month < 1 || self.month > 12 {
            return false;
        }
        let limit: u8 = if self.month == 2 {
            let leap = self.year % 4 == 0 && (self.year % 100 != 0 || self.year % 400 == 0);
            if leap {
                29
            } else {
                28
            }
        } else if self.month == 4 || self.month == 6 || self.month == 9 || self.month == 11 {
            30
        } else {
            31
        };
        1 <= self.day && self.day <= limit
    }

    /// Strict calendar order: years, then months, then days.
    pub open spec fn spec_before(self, other: Date) -> bool {
        ||| self.year < other.year
        ||| (self.year == other.year && self.month < other.month)
        ||| (self.year == other.year && self.month == other.month && self.day < other.day)
    }

    pub fn before(&self, other: &Date) -> (r: bool)
        ensures
            r == self.spec_before(*other),
    {
        self.year < other.year || (self.year == other.year && (self.month < other.month || (
        self.month == other.month && self.day < other.day)))
    }
}

impl TimeOfDay {
    /// A well-formed clock time lies inside one day.
    pub open spec fn valid(self) -> bool {
        self.minutes_from_midnight < 1440
    }

    /// Builds a clock time from an hour and a minute, rejecting values
    /// outside the clock.
    pub fn new(hour: u8, minute: u8) -> (r: Result<TimeOfDay, DomainError>)
        ensures
            hour < 24 && minute < 60 ==> r == Ok::<TimeOfDay, DomainError>(
                TimeOfDay { minutes_from_midnight: (hour * 60 + minute) as u16 },
            ),
            !(hour < 24 && minute < 60) ==> r == Err::<TimeOfDay, DomainError>(
                DomainError::Validation,
            ),
            r matches Ok(t) ==> t.valid(),
    {
        if hour < 24 && minute < 60 {
            Ok(TimeOfDay { minutes_from_midnight: hour as u16 * 60 + minute as u16 })
        } else {
            Err(DomainError::Validation)
        }
    }

    pub open spec fn spec_before(self, other: TimeOfDay) -> bool {
        self.minutes_from_midnight < other.minutes_from_midnight
    }

    pub fn before(&self, other: &TimeOfDay) -> (r: bool)
        ensures
            r == self.spec_before(*other),
    {
        self.minutes_from_midnight < other.minutes_from_midnight
    }

    /// Renders the time on a zero-padded twenty-four-hour clock.
    pub fn render(&self) -> (r: String)
        requires
            self.valid(),
        ensures
            r@ == time_chars(*self),
    {
        let mut s = String::new();
        push_two_digits(self.minutes_from_midnight / 60, &mut s);
        s.append(":");
        push_two_digits(self.minutes_from_midnight % 60, &mut s);
        proof {
            assert(s@ =~= time_chars(*self));
        }
        s
    }
}

/// The rendered form of a clock time: hours, a colon, minutes, both
/// zero-padded to two digits.
pub open spec fn time_chars(t: TimeOfDay) -> Seq<char> {
    two_digit_chars(t.minutes_from_midnight as int / 60) + ":"@ + two_digit_chars(
        t.minutes_from_midnight as int % 60,
    )
}

} // verus!

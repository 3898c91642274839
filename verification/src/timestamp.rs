//! A civil date and time with second precision, treated as UTC.
//!
//! The catalog orders records chronologically; for valid timestamps the
//! lexicographic order on (year, month, day, hour, minute, second) is exactly
//! the chronological order, so comparisons are stated field by field.

use vstd::prelude::*;

verus! {

/// A civil date and time, second precision, naive (no zone), treated as UTC.
#[derive(Clone, Copy, PartialEq, Eq, Structural, Debug)]
pub struct Timestamp {
    pub year: u16,
    pub month: u8,
    pub day: u8,
    pub hour: u8,
    pub minute: u8,
    pub second: u8,
}

pub open spec fn is_leap_year(y: int) -> bool {
    y % 4 == 0 && (y % 100 != 0 || y % 400 == 0)
}

pub open spec fn days_in_month(y: int, m: int) -> int {
    if m == 2 {
        if is_leap_year(y) {
            29
        } else {
            28
        }
    } else if m == 4 || m == 6 || m == 9 || m == 11 {
        30
    } else {
        31
    }
}

impl Timestamp {
    /// A real calendar date and a real time of day.
    pub open spec fn valid(self) -> bool {
        &&& 1 <= self.month <= 12
        &&& 1 <= self.day <= days_in_month(self.year as int, self.month as int)
        &&& self.hour < 24
        &&& self.minute < 60
        &&& self.second < 60
    }

    /// Strictly earlier: lexicographic on the six fields.
    pub open spec fn spec_lt(self, other: Self) -> bool {
        ||| self.year < other.year
        ||| (self.year == other.year && self.month < other.month)
        ||| (self.year == other.year && self.month == other.month && self.day < other.day)
        ||| (self.year == other.year && self.month == other.month && self.day == other.day
            && self.hour < other.hour)
        ||| (self.year == other.year && self.month == other.month && self.day == other.day
            && self.hour == other.hour && self.minute < other.minute)
        ||| (self.year == other.year && self.month == other.month && self.day == other.day
            && self.hour == other.hour && self.minute == other.minute
            && self.second < other.second)
    }

    /// Earlier or equal.
    pub open spec fn spec_le(self, other: Self) -> bool {
        self.spec_lt(other) || self == other
    }

    /// Decides whether the fields name a real calendar date and time of day.
    pub fn is_valid(&self) -> (r: bool)
        ensures
            r == self.valid(),
    {
        let dim: u8 = if self.month == 2 {
            if self.year % 4 == 0 && (self.year % 100 != 0 || self.year % 400 == 0) {
                29
            } else {
                28
            }
        } else if self.month == 4 || self.month == 6 || self.month == 9 || self.month == 11 {
            30
        } else {
            31
        };
        assert(dim as int == days_in_month(self.year as int, self.month as int));
        1 <= self.month && self.month <= 12 && 1 <= self.day && self.day <= dim && self.hour < 24
            && self.minute < 60 && self.second < 60
    }

    /// Decides whether `self` is strictly earlier than `other`.
    pub fn lt(&self, other: &Self) -> (r: bool)
        ensures
            r == self.spec_lt(*other),
    {
        if self.year != other.year {
            self.year < other.year
        } else if self.month != other.month {
            self.month < other.month
        } else if self.day != other.day {
            self.day < other.day
        } else if self.hour != other.hour {
            self.hour < other.hour
        } else if self.minute != other.minute {
            self.minute < other.minute
        } else {
            self.second < other.second
        }
    }

    /// Decides whether `self` is earlier than or equal to `other`.
    pub fn le(&self, other: &Self) -> (r: bool)
        ensures
            r == self.spec_le(*other),
    {
        !other.lt(self)
    }
}

} // verus!

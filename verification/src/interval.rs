//! Interval units and intervals used for date arithmetic in queries.

use vstd::prelude::*;
use crate::text::{str_eq, std_to_uppercase, to_uppercase};
use crate::date::{
    Date, add_days, add_weeks, add_months, sub_months, chrono_add_days, chrono_add_months,
    chrono_sub_months, shifted_by_months, MAX_DELTA_DAYS, MAX_DELTA_WEEKS,
};

verus! {

/// An interval unit for date arithmetic.
#[derive(Debug, Clone, Copy, PartialEq, Eq, Structural)]
pub enum IntervalUnit {
    /// Days.
    Day,
    /// Weeks.
    Week,
    /// Months.
    Month,
    /// Quarters.
    Quarter,
    /// Years.
    Year,
}

/// The unit named by an already upper-cased unit word.
pub open spec fn unit_of_upper(u: Seq<char>) -> Option<IntervalUnit> {
    if u == "DAY"@ || u == "DAYS"@ || u == "D"@ {
        Some(IntervalUnit::Day)
    } else if u == "WEEK"@ || u == "WEEKS"@ || u == "W"@ {
        Some(IntervalUnit::Week)
    } else if u == "MONTH"@ || u == "MONTHS"@ || u == "M"@ {
        Some(IntervalUnit::Month)
    } else if u == "QUARTER"@ || u == "QUARTERS"@ || u == "Q"@ {
        Some(IntervalUnit::Quarter)
    } else if u == "YEAR"@ || u == "YEARS"@ || u == "Y"@ {
        Some(IntervalUnit::Year)
    } else {
        None
    }
}

impl IntervalUnit {
    /// The unit named by a word that is already in upper case.
    pub fn from_upper(u: &str) -> (res: Option<IntervalUnit>)
        ensures
            res == unit_of_upper(u@),
    {
        if str_eq(u, "DAY") || str_eq(u, "DAYS") || str_eq(u, "D") {
            Some(IntervalUnit::Day)
        } else if str_eq(u, "WEEK") || str_eq(u, "WEEKS") || str_eq(u, "W") {
            Some(IntervalUnit::Week)
        } else if str_eq(u, "MONTH") || str_eq(u, "MONTHS") || str_eq(u, "M") {
            Some(IntervalUnit::Month)
        } else if str_eq(u, "QUARTER") || str_eq(u, "QUARTERS") || str_eq(u, "Q") {
            Some(IntervalUnit::Quarter)
        } else if str_eq(u, "YEAR") || str_eq(u, "YEARS") || str_eq(u, "Y") {
            Some(IntervalUnit::Year)
        } else {
            None
        }
    }

    /// Parse an interval unit from a string, case-insensitively.
    pub fn parse_unit(s: &str) -> (res: Option<IntervalUnit>)
        ensures
            res == unit_of_upper(std_to_uppercase(s@)),
    {
        let upper = to_uppercase(s);
        Self::from_upper(upper.as_str())
    }
}

/// An interval value for date arithmetic.
#[derive(Debug, Clone, Copy, PartialEq, Eq, Structural)]
pub struct Interval {
    /// The count (can be negative).
    pub count: i64,
    /// The unit.
    pub unit: IntervalUnit,
}

/// The approximate number of days in one unit.
pub open spec fn days_per_unit(u: IntervalUnit) -> int {
    match u {
        IntervalUnit::Day => 1,
        IntervalUnit::Week => 7,
        IntervalUnit::Month => 30,
        IntervalUnit::Quarter => 91,
        IntervalUnit::Year => 365,
    }
}

/// The months in one unit, for the month-based units.
pub open spec fn months_per_unit(u: IntervalUnit) -> int {
    match u {
        IntervalUnit::Quarter => 3,
        IntervalUnit::Year => 12,
        _ => 1,
    }
}

/// An integer clamped to the range of `i64`.
pub open spec fn clamp_i64(x: int) -> int {
    if x > i64::MAX {
        i64::MAX as int
    } else if x < i64::MIN {
        i64::MIN as int
    } else {
        x
    }
}

/// Shift a date by a signed number of months. A shift of more months than a
/// `u32` holds leaves the calendar's range (which spans fewer than a million
/// years), so it gives `None`.
pub open spec fn shift_months(d: Date, months: int) -> Option<Date> {
    if months > u32::MAX || -months > u32::MAX {
        None
    } else if months >= 0 {
        chrono_add_months(d, months)
    } else {
        chrono_sub_months(d, -months)
    }
}

/// A shift by a signed number of months as the calendar gives it: the date
/// itself for none, the date that many months later or earlier (the day cut
/// to the month's length) for a count within `i32`, and `None` beyond.
pub open spec fn months_shift(d: Date, months: int) -> Option<Date> {
    if months == 0 {
        Some(d)
    } else if -(i32::MAX as int) <= months <= i32::MAX {
        shifted_by_months(d, months)
    } else {
        None
    }
}

impl Interval {
    /// The approximate length in days, saturating at the bounds of `i64`.
    pub open spec fn approx_days_spec(self) -> int {
        clamp_i64(self.count * days_per_unit(self.unit))
    }

    /// The months the interval spans, for the month-based units.
    pub open spec fn months_spec(self) -> int {
        self.count * months_per_unit(self.unit)
    }

    /// The interval can be applied to a date without an arithmetic fault:
    /// day and week counts within what a time span can hold (a time span
    /// beyond that panics); any month, quarter or year count.
    pub open spec fn applicable(self) -> bool {
        match self.unit {
            IntervalUnit::Day => -MAX_DELTA_DAYS <= self.count <= MAX_DELTA_DAYS,
            IntervalUnit::Week => -MAX_DELTA_WEEKS <= self.count <= MAX_DELTA_WEEKS,
            _ => true,
        }
    }

    /// The date the interval moves a date to, or `None` past the calendar's range.
    pub open spec fn add_to_date_spec(self, d: Date) -> Option<Date> {
        match self.unit {
            IntervalUnit::Day => chrono_add_days(d, self.count as int),
            IntervalUnit::Week => chrono_add_days(d, 7 * self.count),
            _ => shift_months(d, self.months_spec()),
        }
    }

    /// Create a new interval.
    pub fn new(count: i64, unit: IntervalUnit) -> (res: Interval)
        ensures
            res.count == count,
            res.unit == unit,
    {
        Interval { count, unit }
    }

    /// Convert interval to an approximate number of days for comparison.
    /// Uses: Day=1, Week=7, Month=30, Quarter=91, Year=365.
    pub fn to_approx_days(&self) -> (res: i64)
        ensures
            res == self.approx_days_spec(),
    {
        let days_per_unit: i64 = match self.unit {
            IntervalUnit::Day => 1,
            IntervalUnit::Week => 7,
            IntervalUnit::Month => 30,
            IntervalUnit::Quarter => 91,
            IntervalUnit::Year => 365,
        };
        assert(-9223372036854775808 * 365 <= (self.count as int) * (days_per_unit as int)
            <= 9223372036854775807 * 365) by (nonlinear_arith)
            requires
                1 <= days_per_unit <= 365,
                i64::MIN <= self.count <= i64::MAX;
        let product: i128 = (self.count as i128) * (days_per_unit as i128);
        if product > i64::MAX as i128 {
            i64::MAX
        } else if product < i64::MIN as i128 {
            i64::MIN
        } else {
            product as i64
        }
    }

    /// Add this interval to a date.
    pub fn add_to_date(&self, date: Date) -> (res: Option<Date>)
        requires
            date.wf(),
            self.applicable(),
        ensures
            res == self.add_to_date_spec(date),
            res matches Some(r) ==> r.wf(),
            self.count == 0 ==> res == Some(date),
            !(self.unit is Day) && !(self.unit is Week) ==> res == months_shift(date, self.months_spec()),
    {
        match self.unit {
            IntervalUnit::Day => add_days(date, self.count),
            IntervalUnit::Week => add_weeks(date, self.count),
            _ => {
                let months: i128 = match self.unit {
                    IntervalUnit::Quarter => (self.count as i128) * 3,
                    IntervalUnit::Year => (self.count as i128) * 12,
                    _ => self.count as i128,
                };
                if months > 4294967295 || months < -4294967295 {
                    None
                } else if months >= 0 {
                    add_months(date, months as u32)
                } else {
                    sub_months(date, (-months) as u32)
                }
            },
        }
    }
}

} // verus!

//! Calendar dates as plain values, with the date arithmetic of `chrono`.

use vstd::prelude::*;
use crate::dec::Order;
use crate::text::{nat_text, zero_pad};
use chrono::Datelike;

verus! {

/// The smallest year a date can have.
pub const MIN_YEAR: i32 = -262143;

/// The largest year a date can have.
pub const MAX_YEAR: i32 = 262142;

/// A calendar date (proleptic Gregorian).
#[derive(Debug, Clone, Copy, PartialEq, Eq, Structural)]
pub struct Date {
    /// The year.
    pub year: i32,
    /// The month, 1 to 12.
    pub month: u32,
    /// The day of the month, from 1.
    pub day: u32,
}

/// Whether a year has a 29th of February.
pub open spec fn is_leap_year(y: int) -> bool {
    (y % 4 == 0 && y % 100 != 0) || y % 400 == 0
}

/// The number of days in a month of a year.
pub open spec fn days_in_month(y: int, m: int) -> int {
    if m == 2 {
        if is_leap_year(y) { 29 } else { 28 }
    } else if m == 4 || m == 6 || m == 9 || m == 11 {
        30
    } else {
        31
    }
}

impl Date {
    /// A real calendar date within the supported range of years.
    pub open spec fn wf(self) -> bool {
        &&& MIN_YEAR <= self.year <= MAX_YEAR
        &&& 1 <= self.month <= 12
        &&& 1 <= self.day <= days_in_month(self.year as int, self.month as int)
    }

    /// Chronological comparison.
    pub open spec fn order_with(self, other: Date) -> Order {
        if self.year < other.year {
            Order::Less
        } else if self.year > other.year {
            Order::Greater
        } else if self.month < other.month {
            Order::Less
        } else if self.month > other.month {
            Order::Greater
        } else if self.day < other.day {
            Order::Less
        } else if self.day > other.day {
            Order::Greater
        } else {
            Order::Equal
        }
    }

    /// Chronological comparison.
    pub fn compare(&self, other: &Date) -> (res: Order)
        ensures
            res == self.order_with(*other),
    {
        if self.year < other.year {
            Order::Less
        } else if self.year > other.year {
            Order::Greater
        } else if self.month < other.month {
            Order::Less
        } else if self.month > other.month {
            Order::Greater
        } else if self.day < other.day {
            Order::Less
        } else if self.day > other.day {
            Order::Greater
        } else {
            Order::Equal
        }
    }

    /// Whether `self` comes strictly before `other`.
    pub fn before(&self, other: &Date) -> (res: bool)
        ensures
            res == (self.order_with(*other) == Order::Less),
    {
        match self.compare(other) {
            Order::Less => true,
            _ => false,
        }
    }
}

/// The number of days from 1970-01-01 to a date of the proleptic Gregorian
/// calendar (negative before it).
pub open spec fn day_number(d: Date) -> int {
    let y: int = if d.month <= 2 { d.year - 1 } else { d.year as int };
    let era = y / 400;
    let yoe = y - era * 400;
    let mp: int = (d.month + 9) % 12;
    let doy = (153 * mp + 2) / 5 + d.day - 1;
    let doe = yoe * 365 + yoe / 4 - yoe / 100 + doy;
    era * 146097 + doe - 719468
}

/// The day number of a valid date is within a hundred million days of
/// 1970-01-01.
pub proof fn lemma_day_number_bound(d: Date)
    requires
        d.wf(),
    ensures
        -100_000_000 <= day_number(d) <= 100_000_000,
{
    let y: int = if d.month <= 2 { d.year - 1 } else { d.year as int };
    let era = y / 400;
    let yoe = y - era * 400;
    assert(-262144 <= y <= 262142);
    assert(-656 <= era <= 655) by (nonlinear_arith)
        requires
            era == y / 400,
            -262144 <= y <= 262142,
    ;
    assert(0 <= yoe < 400) by (nonlinear_arith)
        requires
            era == y / 400,
            yoe == y - era * 400,
    ;
    let mp: int = (d.month + 9) % 12;
    assert(0 <= mp < 12);
    let doy = (153 * mp + 2) / 5 + d.day - 1;
    assert(0 <= doy <= 400) by (nonlinear_arith)
        requires
            0 <= mp < 12,
            1 <= d.day <= 31,
            doy == (153 * mp + 2) / 5 + d.day - 1,
    ;
    let doe = yoe * 365 + yoe / 4 - yoe / 100 + doy;
    assert(0 <= doe <= 147000) by (nonlinear_arith)
        requires
            0 <= yoe < 400,
            0 <= doy <= 400,
            doe == yoe * 365 + yoe / 4 - yoe / 100 + doy,
    ;
    assert(-96_000_000 <= era * 146097 <= 96_000_000) by (nonlinear_arith)
        requires
            -656 <= era <= 655,
    ;
}

/// The first day of a date's year.
pub open spec fn new_year(d: Date) -> Date {
    Date { year: d.year, month: 1, day: 1 }
}

/// The day number of the first supported date and of the last.
pub open spec fn first_day_number() -> int {
    day_number(Date { year: MIN_YEAR, month: 1, day: 1 })
}

/// The day number of the last supported date.
pub open spec fn last_day_number() -> int {
    day_number(Date { year: MAX_YEAR, month: 12, day: 31 })
}

/// The ISO week number that `NaiveDate::iso_week().week()` gives.
pub uninterp spec fn chrono_iso_week(d: Date) -> u32;

/// What `NaiveDate::parse_from_str` gives for a text and a format: the date,
/// or the text of the parse error.
pub uninterp spec fn chrono_parse_from_str(s: Seq<char>, fmt: Seq<char>) -> Result<Date, Seq<char>>;

/// Calls `NaiveDate::from_ymd_opt`, which chrono documents to give `None`
/// for an invalid month or day or a year out of range, and the date
/// otherwise.
#[verifier::external_body]
pub(crate) fn from_ymd(year: i32, month: u32, day: u32) -> (res: Option<Date>)
    ensures
        res == (if (Date { year, month, day }).wf() {
            Some(Date { year, month, day })
        } else {
            None
        }),
{
    chrono::NaiveDate::from_ymd_opt(year, month, day).map(|r| Date { year: r.year(), month: r.month(), day: r.day() })
}

/// Calls `NaiveDate::signed_duration_since` and `TimeDelta::num_days`: the
/// number of days from `b` to `a`.
#[verifier::external_body]
pub(crate) fn days_between(a: Date, b: Date) -> (res: i64)
    requires
        a.wf(),
        b.wf(),
    ensures
        res == day_number(a) - day_number(b),
{
    chrono::NaiveDate::from_ymd_opt(a.year, a.month, a.day).unwrap().signed_duration_since(chrono::NaiveDate::from_ymd_opt(b.year, b.month, b.day).unwrap()).num_days()
}

/// Calls `Weekday::num_days_from_monday` of `NaiveDate::weekday`: 0 for a
/// Monday to 6 for a Sunday (1970-01-01 was a Thursday).
#[verifier::external_body]
pub(crate) fn weekday_from_monday(d: Date) -> (res: u32)
    requires
        d.wf(),
    ensures
        res == (day_number(d) + 3) % 7,
{
    chrono::NaiveDate::from_ymd_opt(d.year, d.month, d.day).unwrap().weekday().num_days_from_monday()
}

/// Calls `NaiveDate::ordinal`: the day of the year, from 1.
#[verifier::external_body]
pub(crate) fn ordinal(d: Date) -> (res: u32)
    requires
        d.wf(),
    ensures
        res == day_number(d) - day_number(new_year(d)) + 1,
{
    chrono::NaiveDate::from_ymd_opt(d.year, d.month, d.day).unwrap().ordinal()
}

/// Calls `IsoWeek::week` of `NaiveDate::iso_week`; the result is named
/// `chrono_iso_week`, and chrono documents it to be from 1 to 53.
#[verifier::external_body]
pub(crate) fn iso_week(d: Date) -> (res: u32)
    requires
        d.wf(),
    ensures
        res == chrono_iso_week(d),
        1 <= res <= 53,
{
    chrono::NaiveDate::from_ymd_opt(d.year, d.month, d.day).unwrap().iso_week().week()
}

/// Calls `NaiveDate::parse_from_str`; the date, or the error's text, is named
/// `chrono_parse_from_str`. A parsed date is a valid one.
#[verifier::external_body]
pub(crate) fn parse_from_str(s: &str, fmt: &str) -> (res: Result<Date, String>)
    ensures
        match res {
            Ok(d) => chrono_parse_from_str(s@, fmt@) == Ok::<Date, Seq<char>>(d) && d.wf(),
            Err(e) => chrono_parse_from_str(s@, fmt@) == Err::<Date, Seq<char>>(e@),
        },
{
    match chrono::NaiveDate::parse_from_str(s, fmt) {
        Ok(r) => Ok(Date { year: r.year(), month: r.month(), day: r.day() }),
        Err(e) => Err(e.to_string()),
    }
}

/// The date that `NaiveDate::checked_add_signed` gives for a date and a
/// whole number of days.
pub uninterp spec fn chrono_add_days(d: Date, days: int) -> Option<Date>;

/// The date that `NaiveDate::checked_add_months` gives.
pub uninterp spec fn chrono_add_months(d: Date, months: int) -> Option<Date>;

/// The date that `NaiveDate::checked_sub_months` gives.
pub uninterp spec fn chrono_sub_months(d: Date, months: int) -> Option<Date>;

/// The characters that `Display` of `NaiveDate` writes: the year with four
/// digits when it is from 0 to 9999, else with its sign and at least four
/// digits; then `-`, the month and `-`, the day, each with two digits.
pub open spec fn chrono_date_display(d: Date) -> Seq<char> {
    let y = d.year as int;
    let year: Seq<char> = if 0 <= y <= 9999 {
        zero_pad(nat_text(y as nat), 4)
    } else if y < 0 {
        seq!['-'] + zero_pad(nat_text((-y) as nat), 4)
    } else {
        seq!['+'] + zero_pad(nat_text(y as nat), 4)
    };
    year + seq!['-'] + zero_pad(nat_text(d.month as nat), 2) + seq!['-'] + zero_pad(nat_text(d.day as nat), 2)
}

/// The largest number of days that `TimeDelta::days` accepts (either sign).
pub const MAX_DELTA_DAYS: i64 = 106751991167;

/// The largest number of weeks that `TimeDelta::weeks` accepts (either sign).
pub const MAX_DELTA_WEEKS: i64 = 15250284452;

/// Calls `NaiveDate::checked_add_signed` with `TimeDelta::days(days)`. The
/// result is named `chrono_add_days`; it is the date `days` days later, when
/// that date is within the supported range, and `None` otherwise.
#[verifier::external_body]
pub(crate) fn add_days(d: Date, days: i64) -> (res: Option<Date>)
    requires
        d.wf(),
        -MAX_DELTA_DAYS <= days <= MAX_DELTA_DAYS,
    ensures
        res == chrono_add_days(d, days as int),
        days == 0 ==> res == Some(d),
        res matches Some(r) ==> r.wf() && day_number(r) == day_number(d) + days,
        res is None <==> !(first_day_number() <= day_number(d) + days <= last_day_number()),
{
    chrono::NaiveDate::from_ymd_opt(d.year, d.month, d.day).unwrap().checked_add_signed(chrono::TimeDelta::days(days))
        .map(|r| Date { year: r.year(), month: r.month(), day: r.day() })
}

/// Calls `NaiveDate::checked_add_signed` with `TimeDelta::weeks(weeks)`, which
/// chrono documents as the same span as `7 * weeks` days; so the result is
/// `chrono_add_days` of seven times the weeks.
#[verifier::external_body]
pub(crate) fn add_weeks(d: Date, weeks: i64) -> (res: Option<Date>)
    requires
        d.wf(),
        -MAX_DELTA_WEEKS <= weeks <= MAX_DELTA_WEEKS,
    ensures
        res == chrono_add_days(d, 7 * weeks),
        weeks == 0 ==> res == Some(d),
        res matches Some(r) ==> r.wf(),
{
    chrono::NaiveDate::from_ymd_opt(d.year, d.month, d.day).unwrap().checked_add_signed(chrono::TimeDelta::weeks(weeks))
        .map(|r| Date { year: r.year(), month: r.month(), day: r.day() })
}

/// The date `months` months after a date (before it, for a negative count):
/// the day is cut to the length of the month reached; `None` when the year
/// reached is outside the supported years.
pub open spec fn shifted_by_months(d: Date, months: int) -> Option<Date> {
    let total = d.year * 12 + d.month - 1 + months;
    let y = total / 12;
    let m = total % 12 + 1;
    let day = if d.day > days_in_month(y, m) { days_in_month(y, m) } else { d.day as int };
    if MIN_YEAR <= y <= MAX_YEAR {
        Some(Date { year: y as i32, month: m as u32, day: day as u32 })
    } else {
        None
    }
}

/// Calls `NaiveDate::checked_add_months` with `Months::new(months)`. The result
/// is named `chrono_add_months`. As the crate's source shows, zero months
/// gives the date back, a count above `i32::MAX` gives `None`, and any other
/// count moves the date by that many months, the day cut to the month's
/// length (`shifted_by_months`).
#[verifier::external_body]
pub(crate) fn add_months(d: Date, months: u32) -> (res: Option<Date>)
    requires
        d.wf(),
    ensures
        res == chrono_add_months(d, months as int),
        months == 0 ==> res == Some(d),
        months > i32::MAX ==> res is None,
        1 <= months <= i32::MAX ==> res == shifted_by_months(d, months as int),
        res matches Some(r) ==> r.wf(),
{
    chrono::NaiveDate::from_ymd_opt(d.year, d.month, d.day).unwrap().checked_add_months(chrono::Months::new(months))
        .map(|r| Date { year: r.year(), month: r.month(), day: r.day() })
}

/// Calls `NaiveDate::checked_sub_months` with `Months::new(months)`. The result
/// is named `chrono_sub_months`. As the crate's source shows, zero months
/// gives the date back, a count above `i32::MAX` gives `None`, and any other
/// count moves the date back by that many months, the day cut to the month's
/// length (`shifted_by_months`).
#[verifier::external_body]
pub(crate) fn sub_months(d: Date, months: u32) -> (res: Option<Date>)
    requires
        d.wf(),
    ensures
        res == chrono_sub_months(d, months as int),
        months == 0 ==> res == Some(d),
        months > i32::MAX ==> res is None,
        1 <= months <= i32::MAX ==> res == shifted_by_months(d, -(months as int)),
        res matches Some(r) ==> r.wf(),
{
    chrono::NaiveDate::from_ymd_opt(d.year, d.month, d.day).unwrap().checked_sub_months(chrono::Months::new(months))
        .map(|r| Date { year: r.year(), month: r.month(), day: r.day() })
}

/// Calls `ToString::to_string` (the `Display` impl) of `NaiveDate`, whose
/// text the crate's source writes as `chrono_date_display` states.
#[verifier::external_body]
pub(crate) fn to_text(d: Date) -> (res: String)
    requires
        d.wf(),
    ensures
        res@ == chrono_date_display(d),
{
    chrono::NaiveDate::from_ymd_opt(d.year, d.month, d.day).unwrap().to_string()
}

} // verus!

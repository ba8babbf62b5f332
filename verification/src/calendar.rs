//! Calendar dates and whole-day arithmetic.
//!
//! Dates are proleptic Gregorian calendar dates. The calendar itself is
//! `chrono`'s: a [`Date`] is checked and numbered by `chrono::NaiveDate`, and
//! keeps the civil triple together with the day number that `chrono` gave it.
//! Order and distance of dates are order and distance of their day numbers.

use chrono::Datelike;
use chrono::NaiveDate;
use vstd::prelude::*;

verus! {

/// The first year that a [`Date`] can lie in.
pub const MIN_YEAR: i32 = -262_143;

/// The last year that a [`Date`] can lie in.
pub const MAX_YEAR: i32 = 262_142;

/// Whether `year` is a leap year of the proleptic Gregorian calendar.
pub open spec fn is_leap_year(year: int) -> bool {
    year % 4 == 0 && (year % 100 != 0 || year % 400 == 0)
}

/// The number of days of month `month` (1 to 12) in `year`.
pub open spec fn days_in_month(year: int, month: int) -> int {
    if month == 2 {
        if is_leap_year(year) {
            29
        } else {
            28
        }
    } else if month == 4 || month == 6 || month == 9 || month == 11 {
        30
    } else {
        31
    }
}

/// Whether `(year, month, day)` names a day of the calendar that a [`Date`]
/// can hold.
pub open spec fn is_calendar_date(year: int, month: int, day: int) -> bool {
    &&& MIN_YEAR <= year <= MAX_YEAR
    &&& 1 <= month <= 12
    &&& 1 <= day <= days_in_month(year, month)
}

/// The number of the day `(year, month, day)`, counting the days of the
/// proleptic Gregorian calendar with January 1 of year 1 as day 1. This is
/// what `chrono::Datelike::num_days_from_ce` returns for that date.
pub uninterp spec fn days_from_ce(year: int, month: int, day: int) -> int;

/// The day of the week of `(year, month, day)`, counted from Monday as 0 to
/// Sunday as 6. This is what `chrono::Weekday::num_days_from_monday` returns
/// for the weekday of that date.
pub uninterp spec fn weekday_from_monday(year: int, month: int, day: int) -> int;

/// A calendar date as a mathematical value: the model of a [`Date`].
pub struct CivilDate {
    pub year: int,
    pub month: int,
    pub day: int,
}

impl CivilDate {
    /// Whether this is a day of the calendar.
    pub open spec fn is_valid(self) -> bool {
        is_calendar_date(self.year, self.month, self.day)
    }

    /// The position of this day on the line of days.
    pub open spec fn day_number(self) -> int {
        days_from_ce(self.year, self.month, self.day)
    }

    /// The day of the week, from Monday as 0 to Sunday as 6.
    pub open spec fn weekday(self) -> int {
        weekday_from_monday(self.year, self.month, self.day)
    }

    /// The number of days that follow this day in its month.
    pub open spec fn days_remaining_in_month(self) -> int {
        days_in_month(self.year, self.month) - self.day
    }
}

/// The number of whole days from `a` to `b`: negative where `b` comes first.
pub open spec fn days_between(a: CivilDate, b: CivilDate) -> int {
    b.day_number() - a.day_number()
}

/// Asks `chrono` for the day number of a civil date.
///
/// Trusted: `NaiveDate::from_ymd_opt` returns a date exactly for the days
/// that exist in the years `MIN_YEAR` to `MAX_YEAR`, and
/// `Datelike::num_days_from_ce` of that date is the number named
/// [`days_from_ce`].
#[verifier::external_body]
fn chrono_day_number(year: i32, month: u32, day: u32) -> (r: Option<i32>)
    ensures
        r is Some <==> is_calendar_date(year as int, month as int, day as int),
        r matches Some(n) ==> n == days_from_ce(year as int, month as int, day as int),
{
    match NaiveDate::from_ymd_opt(year, month, day) {
        Some(date) => Some(date.num_days_from_ce()),
        None => None,
    }
}

/// Asks `chrono` for the day of the week of a civil date.
///
/// Trusted: `NaiveDate::from_ymd_opt` returns a date exactly for the days
/// that exist in the years `MIN_YEAR` to `MAX_YEAR`, and
/// `Weekday::num_days_from_monday` of `Datelike::weekday` of that date is the
/// number named [`weekday_from_monday`], which is at most 6.
#[verifier::external_body]
fn chrono_weekday(year: i32, month: u32, day: u32) -> (r: Option<u32>)
    ensures
        r is Some <==> is_calendar_date(year as int, month as int, day as int),
        r matches Some(w) ==> w == weekday_from_monday(year as int, month as int, day as int)
            && w <= 6,
{
    match NaiveDate::from_ymd_opt(year, month, day) {
        Some(date) => Some(date.weekday().num_days_from_monday()),
        None => None,
    }
}

/// Asks `chrono` for the length of the month that a civil date lies in.
///
/// Trusted: `NaiveDate::from_ymd_opt` returns a date exactly for the days
/// that exist in the years `MIN_YEAR` to `MAX_YEAR`, and
/// `Datelike::num_days_in_month` of that date is the length of its month:
/// [`days_in_month`].
#[verifier::external_body]
fn chrono_days_in_month(year: i32, month: u32, day: u32) -> (r: Option<u32>)
    ensures
        r is Some <==> is_calendar_date(year as int, month as int, day as int),
        r matches Some(n) ==> n == days_in_month(year as int, month as int),
{
    match NaiveDate::from_ymd_opt(year, month, day) {
        Some(date) => Some(u32::from(date.num_days_in_month())),
        None => None,
    }
}

/// A day of the proleptic Gregorian calendar.
#[derive(Clone, Copy, Debug, PartialEq, Eq, Structural)]
pub struct Date {
    year: i32,
    month: u32,
    day: u32,
    number: i32,
}

impl View for Date {
    type V = CivilDate;

    closed spec fn view(&self) -> CivilDate {
        CivilDate { year: self.year as int, month: self.month as int, day: self.day as int }
    }
}

impl Date {
    /// What holds of every `Date`: it is a day of the calendar, and it knows
    /// its own day number.
    #[verifier::type_invariant]
    pub closed spec fn wf(self) -> bool {
        &&& self@.is_valid()
        &&& self.number == self@.day_number()
    }

    /// The date `year`-`month`-`day`, or `None` where the calendar has no
    /// such day.
    pub fn from_ymd(year: i32, month: u32, day: u32) -> (r: Option<Date>)
        ensures
            r is Some <==> is_calendar_date(year as int, month as int, day as int),
            r matches Some(date) ==> date.wf() && date@ == (CivilDate {
                year: year as int,
                month: month as int,
                day: day as int,
            }),
    {
        match chrono_day_number(year, month, day) {
            Some(number) => Some(Date { year, month, day, number }),
            None => None,
        }
    }

    /// The year of this date.
    pub fn year(&self) -> (r: i32)
        ensures
            r == self@.year,
            MIN_YEAR <= r <= MAX_YEAR,
    {
        proof {
            use_type_invariant(self);
        }
        self.year
    }

    /// The month of this date, from 1 to 12.
    pub fn month(&self) -> (r: u32)
        ensures
            r == self@.month,
            1 <= r <= 12,
    {
        proof {
            use_type_invariant(self);
        }
        self.month
    }

    /// The day of the month of this date, from 1.
    pub fn day(&self) -> (r: u32)
        ensures
            r == self@.day,
            1 <= r <= days_in_month(self@.year, self@.month),
    {
        proof {
            use_type_invariant(self);
        }
        self.day
    }

    /// The number of this day, counting from January 1 of year 1 as day 1.
    pub fn day_number(&self) -> (n: i32)
        ensures
            n == self@.day_number(),
    {
        proof {
            use_type_invariant(self);
        }
        self.number
    }
}

/// Every `Date` is a day of the calendar, and its day number fits in 32 bits.
pub proof fn lemma_date_is_valid(date: Date)
    requires
        date.wf(),
    ensures
        date@.is_valid(),
        i32::MIN <= date@.day_number() <= i32::MAX,
{
}

/// The number of whole days from `a` to `b`. It is negative where `b` comes
/// before `a`.
pub fn whole_days_between(a: Date, b: Date) -> (days: i64)
    ensures
        days == days_between(a@, b@),
        -(u32::MAX as int) <= days <= u32::MAX as int,
{
    b.day_number() as i64 - a.day_number() as i64
}

/// The number of whole days from the start of a period to `date`.
pub fn days_from_period_start_to_date(period_start: Date, date: Date) -> (days: i64)
    ensures
        days == days_between(period_start@, date@),
        -(u32::MAX as int) <= days <= u32::MAX as int,
{
    whole_days_between(period_start, date)
}

/// The number of whole days from `date` to the end of a period.
pub fn days_from_date_to_period_end(date: Date, period_end: Date) -> (days: i64)
    ensures
        days == days_between(date@, period_end@),
        -(u32::MAX as int) <= days <= u32::MAX as int,
{
    whole_days_between(date, period_end)
}

/// The day of the week of `date`: 0 for Monday up to 6 for Sunday.
pub fn day_of_week_index(date: Date) -> (index: u32)
    ensures
        index == date@.weekday(),
        index <= 6,
{
    proof {
        use_type_invariant(date);
    }
    chrono_weekday(date.year, date.month, date.day).unwrap()
}

/// The number of days from `date`, not counted, to the last day of its
/// month, counted.
pub fn days_remaining_in_month(date: Date) -> (days: u32)
    ensures
        days == date@.days_remaining_in_month(),
        days <= 30,
{
    proof {
        use_type_invariant(date);
    }
    let length = chrono_days_in_month(date.year, date.month, date.day).unwrap();
    length - date.day
}

} // verus!

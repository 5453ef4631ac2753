//! Calendar dates in the proleptic Gregorian calendar.
//!
//! A [`Date`] is a plain year/month/day triple. Its mathematical model is a
//! [`CivilDate`] over unbounded integers, on which "the next day" and "the
//! day `n` days later" are defined directly. Day arithmetic itself is
//! delegated to `chrono`; this module states what those calls return in
//! terms of the model and proves the facts about the model that the rest of
//! the crate relies on.

use chrono::{Datelike, NaiveDate, TimeDelta};
use vstd::prelude::*;

verus! {

/// The earliest year a [`Date`] can carry: the year of the first date that
/// `chrono` can hold.
pub const MIN_YEAR: i32 = -262143;

/// The latest year a [`Date`] can carry: the year of the last date that
/// `chrono` can hold.
pub const MAX_YEAR: i32 = 262142;

/// A month of the year.
#[derive(Clone, Copy, Debug, PartialEq, Eq, Structural)]
pub enum Month {
    January,
    February,
    March,
    April,
    May,
    June,
    July,
    August,
    September,
    October,
    November,
    December,
}

/// The month with the given number, counting January as 1.
pub open spec fn month_with_number(n: int) -> Option<Month> {
    if n == 1 {
        Some(Month::January)
    } else if n == 2 {
        Some(Month::February)
    } else if n == 3 {
        Some(Month::March)
    } else if n == 4 {
        Some(Month::April)
    } else if n == 5 {
        Some(Month::May)
    } else if n == 6 {
        Some(Month::June)
    } else if n == 7 {
        Some(Month::July)
    } else if n == 8 {
        Some(Month::August)
    } else if n == 9 {
        Some(Month::September)
    } else if n == 10 {
        Some(Month::October)
    } else if n == 11 {
        Some(Month::November)
    } else if n == 12 {
        Some(Month::December)
    } else {
        None
    }
}

impl Month {
    /// The number of the month, counting January as 1.
    pub open spec fn number_spec(self) -> int {
        match self {
            Month::January => 1,
            Month::February => 2,
            Month::March => 3,
            Month::April => 4,
            Month::May => 5,
            Month::June => 6,
            Month::July => 7,
            Month::August => 8,
            Month::September => 9,
            Month::October => 10,
            Month::November => 11,
            Month::December => 12,
        }
    }

    /// The number of the month, from 1 for January to 12 for December.
    pub fn number(&self) -> (n: u32)
        ensures
            n == self.number_spec(),
            month_with_number(n as int) == Some(*self),
    {
        match self {
            Month::January => 1,
            Month::February => 2,
            Month::March => 3,
            Month::April => 4,
            Month::May => 5,
            Month::June => 6,
            Month::July => 7,
            Month::August => 8,
            Month::September => 9,
            Month::October => 10,
            Month::November => 11,
            Month::December => 12,
        }
    }

    /// The month with number `n`, or `None` when `n` is not in `1..=12`.
    pub fn from_u32(n: u32) -> (month: Option<Month>)
        ensures
            month == month_with_number(n as int),
            month is Some <==> 1 <= n <= 12,
            month matches Some(m) ==> m.number_spec() == n,
    {
        match n {
            1 => Some(Month::January),
            2 => Some(Month::February),
            3 => Some(Month::March),
            4 => Some(Month::April),
            5 => Some(Month::May),
            6 => Some(Month::June),
            7 => Some(Month::July),
            8 => Some(Month::August),
            9 => Some(Month::September),
            10 => Some(Month::October),
            11 => Some(Month::November),
            12 => Some(Month::December),
            _ => None,
        }
    }
}

/// Whether `year` is a leap year of the Gregorian calendar.
pub open spec fn is_leap_year(year: int) -> bool {
    year % 4 == 0 && (year % 100 != 0 || year % 400 == 0)
}

/// The number of days in month `month` (1 to 12) of year `year`.
pub open spec fn days_in_month(year: int, month: int) -> int {
    if month == 2 {
        if is_leap_year(year) {
            29
        } else {
            28
        }
    } else if month == 4 || month == 6 || month == 9 || month == 11 {
        30
    } else {
        31
    }
}

/// The mathematical model of a [`Date`]: a calendar date over unbounded
/// integers.
pub struct CivilDate {
    pub year: int,
    pub month: int,
    pub day: int,
}

impl CivilDate {
    /// The date exists in the calendar.
    pub open spec fn valid(self) -> bool {
        &&& 1 <= self.month <= 12
        &&& 1 <= self.day <= days_in_month(self.year, self.month)
    }

    /// The calendar day that follows `self`.
    pub open spec fn next(self) -> CivilDate {
        if self.day < days_in_month(self.year, self.month) {
            CivilDate { year: self.year, month: self.month, day: self.day + 1 }
        } else if self.month < 12 {
            CivilDate { year: self.year, month: self.month + 1, day: 1 }
        } else {
            CivilDate { year: self.year + 1, month: 1, day: 1 }
        }
    }

    /// The calendar day `n` days after `self`.
    pub open spec fn plus_days(self, n: nat) -> CivilDate
        decreases n,
    {
        if n == 0 {
            self
        } else {
            self.plus_days((n - 1) as nat).next()
        }
    }

    /// `self` is strictly earlier than `other`.
    pub open spec fn before(self, other: CivilDate) -> bool {
        ||| self.year < other.year
        ||| self.year == other.year && self.month < other.month
        ||| self.year == other.year && self.month == other.month && self.day < other.day
    }

    /// The day after `self` falls in another month than `self`.
    pub open spec fn ends_month(self) -> bool {
        self.next().month != self.month
    }
}

/// The number of days from `from` to `to`.
///
/// Meaningful when both dates are valid and `to` is not before `from`:
/// [`lemma_reachable`] shows that `to` is then reached from `from` by
/// stepping forward day by day, and [`lemma_plus_days_unique`] that only one
/// number of steps leads there.
pub open spec fn days_from_to(from: CivilDate, to: CivilDate) -> nat {
    choose|n: nat| from.plus_days(n) == to
}

/// The day after a valid date is valid, later, and never in an earlier year.
pub proof fn lemma_next_valid(d: CivilDate)
    requires
        d.valid(),
    ensures
        d.next().valid(),
        d.before(d.next()),
        d.year <= d.next().year <= d.year + 1,
        d.ends_month() <==> d.day == days_in_month(d.year, d.month),
{
}

/// Stepping forward keeps a date valid and moves it strictly later with
/// every step.
pub proof fn lemma_plus_days_valid(d: CivilDate, n: nat)
    requires
        d.valid(),
    ensures
        d.plus_days(n).valid(),
        n > 0 ==> d.before(d.plus_days(n)),
        d.year <= d.plus_days(n).year,
    decreases n,
{
    if n > 0 {
        let prev = d.plus_days((n - 1) as nat);
        lemma_plus_days_valid(d, (n - 1) as nat);
        lemma_next_valid(prev);
    }
}

/// Stepping `m + n` days is stepping `m` days and then `n` more.
pub proof fn lemma_plus_days_adds(d: CivilDate, m: nat, n: nat)
    ensures
        d.plus_days(m + n) == d.plus_days(m).plus_days(n),
    decreases n,
{
    if n > 0 {
        lemma_plus_days_adds(d, m, (n - 1) as nat);
        assert(d.plus_days(m + n) == d.plus_days((m + n - 1) as nat).next());
    }
}

/// A later step count gives a later date: the dates reached from a valid
/// date are ordered as the step counts are.
pub proof fn lemma_plus_days_increasing(d: CivilDate, m: nat, n: nat)
    requires
        d.valid(),
        m < n,
    ensures
        d.plus_days(m).before(d.plus_days(n)),
        d.plus_days(m).year <= d.plus_days(n).year,
{
    lemma_plus_days_adds(d, m, (n - m) as nat);
    lemma_plus_days_valid(d, m);
    lemma_plus_days_valid(d.plus_days(m), (n - m) as nat);
}

/// Two step counts that lead from a valid date to the same date are equal.
pub proof fn lemma_plus_days_unique(d: CivilDate, m: nat, n: nat)
    requires
        d.valid(),
        d.plus_days(m) == d.plus_days(n),
    ensures
        m == n,
{
    if m < n {
        lemma_plus_days_increasing(d, m, n);
    } else if n < m {
        lemma_plus_days_increasing(d, n, m);
    }
}

/// When `to` lies `n` days after the valid date `from`, `n` is the distance
/// between the two.
pub proof fn lemma_days_from_to(from: CivilDate, to: CivilDate, n: nat)
    requires
        from.valid(),
        from.plus_days(n) == to,
    ensures
        days_from_to(from, to) == n,
{
    lemma_plus_days_unique(from, days_from_to(from, to), n);
}

/// No date lies strictly between a valid date and the day after it: a
/// valid date that is later is that day or later than it.
pub proof fn lemma_next_is_nearest(d: CivilDate, later: CivilDate)
    requires
        d.valid(),
        later.valid(),
        d.before(later),
    ensures
        d.next() == later || d.next().before(later),
{
}

/// The day after keeps the order of two valid dates.
pub proof fn lemma_next_keeps_order(a: CivilDate, b: CivilDate)
    requires
        a.valid(),
        b.valid(),
    ensures
        a.before(b) <==> a.next().before(b.next()),
{
    lemma_next_valid(a);
    lemma_next_valid(b);
    if a.before(b) {
        lemma_next_is_nearest(a, b);
    } else if b.before(a) {
        lemma_next_is_nearest(b, a);
    }
}

/// A number that grows from each valid date to every later one, by less
/// than 372 within a year.
pub open spec fn rank(d: CivilDate) -> int {
    d.year * 372 + (d.month - 1) * 31 + (d.day - 1)
}

/// Every valid date that is not before the valid date `from` is reached
/// from it by stepping forward day by day.
pub proof fn lemma_reachable(from: CivilDate, to: CivilDate)
    requires
        from.valid(),
        to.valid(),
        !to.before(from),
    ensures
        from.plus_days(days_from_to(from, to)) == to,
    decreases rank(to) - rank(from),
{
    if from == to {
        assert(from.plus_days(0) == to);
    } else {
        lemma_next_valid(from);
        lemma_next_is_nearest(from, to);
        lemma_reachable(from.next(), to);
        let rest = days_from_to(from.next(), to);
        assert(from.plus_days(1) == from.next()) by {
            reveal_with_fuel(CivilDate::plus_days, 2);
        }
        lemma_plus_days_adds(from, 1, rest);
        assert(from.plus_days(1 + rest) == to);
    }
}

/// A calendar date: year, month (1 to 12) and day of the month.
#[derive(Clone, Copy, Debug, PartialEq, Eq, Structural)]
pub struct Date {
    pub year: i32,
    pub month: u32,
    pub day: u32,
}

impl View for Date {
    type V = CivilDate;

    open spec fn view(&self) -> CivilDate {
        CivilDate { year: self.year as int, month: self.month as int, day: self.day as int }
    }
}

/// Whether `year` is a leap year.
pub fn leap_year(year: i32) -> (leap: bool)
    ensures
        leap == is_leap_year(year as int),
{
    // Counted from a year that is a multiple of 400 and lies before every
    // `i32`, so that the remainders are taken of a number that is not
    // negative.
    let since: u64 = (year as i64 + 2_147_484_000) as u64;
    assert(since % 4 == year as int % 4 && since % 100 == year as int % 100 && since % 400
        == year as int % 400) by {
        let y = year as int;
        assert((y + 2_147_484_000) % 4 == y % 4) by (nonlinear_arith);
        assert((y + 2_147_484_000) % 100 == y % 100) by (nonlinear_arith);
        assert((y + 2_147_484_000) % 400 == y % 400) by (nonlinear_arith);
    }
    since % 4 == 0 && (since % 100 != 0 || since % 400 == 0)
}

/// The length in days of month `month` of year `year`.
pub fn month_length(year: i32, month: u32) -> (days: u32)
    requires
        1 <= month <= 12,
    ensures
        days == days_in_month(year as int, month as int),
{
    if month == 2 {
        if leap_year(year) {
            29
        } else {
            28
        }
    } else if month == 4 || month == 6 || month == 9 || month == 11 {
        30
    } else {
        31
    }
}

impl Date {
    /// The date exists in the calendar and its year lies between
    /// [`MIN_YEAR`] and [`MAX_YEAR`].
    pub open spec fn wf(self) -> bool {
        &&& self@.valid()
        &&& MIN_YEAR <= self.year <= MAX_YEAR
    }

    /// The date with the given year, month and day, or `None` when no such
    /// day exists or the year is out of range.
    pub fn new(year: i32, month: u32, day: u32) -> (date: Option<Date>)
        ensures
            date is Some <==> (Date { year, month, day }).wf(),
            date matches Some(d) ==> d == (Date { year, month, day }),
    {
        if year < MIN_YEAR || year > MAX_YEAR || month < 1 || month > 12 || day < 1 {
            return None;
        }
        if day > month_length(year, month) {
            return None;
        }
        Some(Date { year, month, day })
    }
}

/// The signed number of days from `from` to `to`, computed by `chrono`:
/// `NaiveDate::signed_duration_since`, read in whole days.
///
/// Trusted, not proved: a result `n` that is not negative means that `to`
/// is the `n`-th day after `from`; a negative result `-n` means that `from`
/// is the `n`-th day after `to`.
#[verifier::external_body]
pub(crate) fn days_between(from: &Date, to: &Date) -> (days: i64)
    requires
        from.wf(),
        to.wf(),
    ensures
        days >= 0 ==> from@.plus_days(days as nat) == to@,
        days < 0 ==> to@.plus_days((-days) as nat) == from@,
{
    let start = NaiveDate::from_ymd_opt(from.year, from.month, from.day).unwrap();
    let end = NaiveDate::from_ymd_opt(to.year, to.month, to.day).unwrap();
    end.signed_duration_since(start).num_days()
}

/// The date `days` days after `date`, computed by `chrono`'s
/// `NaiveDate::checked_add_signed`.
///
/// Trusted, not proved: the result is the `days`-th day after `date`; it is
/// `None` exactly when that day lies after the last day of [`MAX_YEAR`],
/// the last date `chrono` can hold.
#[verifier::external_body]
pub(crate) fn add_days(date: &Date, days: i64) -> (later: Option<Date>)
    requires
        date.wf(),
        days >= 0,
    ensures
        later is Some <==> date@.plus_days(days as nat).year <= MAX_YEAR,
        later matches Some(d) ==> d.wf() && d@ == date@.plus_days(days as nat),
{
    let start = NaiveDate::from_ymd_opt(date.year, date.month, date.day)?;
    let end = start.checked_add_signed(TimeDelta::try_days(days)?)?;
    Some(Date { year: end.year(), month: end.month(), day: end.day() })
}

} // verus!

use vstd::prelude::*;

verus! {

/// The first second for which a date is defined: 0000-01-01 00:00:00 UTC.
pub const FIRST_SECOND: i64 = -62167219200;

/// The last second for which a date is defined: 9999-12-31 23:59:59 UTC.
pub const LAST_SECOND: i64 = 253402300799;

/// Whether the store's engine gives the Unix timestamp `ts` a calendar date:
/// it does for the years 0000 to 9999.
pub open spec fn date_defined(ts: int) -> bool {
    FIRST_SECOND <= ts <= LAST_SECOND
}

/// Whether `year` is a leap year of the Gregorian calendar.
pub open spec fn is_leap_year(year: int) -> bool {
    year % 4 == 0 && (year % 100 != 0 || year % 400 == 0)
}

/// The number of leap years among the years 0 to `year - 1`.
pub open spec fn leap_years_before(year: int) -> int {
    (year + 3) / 4 - (year + 99) / 100 + (year + 399) / 400
}

/// The number of days from 0000-01-01 to the first of January of `year`.
pub open spec fn days_before_year(year: int) -> int {
    365 * year + leap_years_before(year)
}

/// The number of days from the first of January to the first of `month`,
/// in a leap year or another; `month` 13 gives the length of the year.
pub open spec fn days_before_month(leap: bool, month: int) -> int {
    let shift: int = if leap && month > 2 {
        1
    } else {
        0
    };
    let base: int = if month <= 1 {
        0
    } else if month == 2 {
        31
    } else if month == 3 {
        59
    } else if month == 4 {
        90
    } else if month == 5 {
        120
    } else if month == 6 {
        151
    } else if month == 7 {
        181
    } else if month == 8 {
        212
    } else if month == 9 {
        243
    } else if month == 10 {
        273
    } else if month == 11 {
        304
    } else if month == 12 {
        334
    } else {
        365
    };
    shift + base
}

/// The number of whole days from 0000-01-01 to the second `ts` of Unix time.
pub open spec fn day_number(ts: int) -> int {
    (ts - FIRST_SECOND) / 86400
}

/// Whether the day `day`, counted from 0000-01-01, falls in `year`.
pub open spec fn in_year(day: int, year: int) -> bool {
    0 <= year <= 9999 && days_before_year(year) <= day < days_before_year(year + 1)
}

/// The calendar year (UTC) of the second `ts` of Unix time.
pub open spec fn year_of(ts: int) -> int {
    choose|year: int| in_year(day_number(ts), year)
}

/// The day of the year of `ts`, counted from zero.
pub open spec fn day_of_year(ts: int) -> int {
    day_number(ts) - days_before_year(year_of(ts))
}

/// Whether the day `day` of a year, counted from zero, falls in `month`.
pub open spec fn in_month(leap: bool, day: int, month: int) -> bool {
    1 <= month <= 12 && days_before_month(leap, month) <= day < days_before_month(
        leap,
        month + 1,
    )
}

/// The calendar month (UTC), 1 to 12, of the second `ts` of Unix time.
pub open spec fn month_of(ts: int) -> int {
    choose|month: int| in_month(is_leap_year(year_of(ts)), day_of_year(ts), month)
}

/// The day of the month (UTC), from 1, of the second `ts` of Unix time.
pub open spec fn day_of(ts: int) -> int {
    day_of_year(ts) - days_before_month(is_leap_year(year_of(ts)), month_of(ts)) + 1
}

/// A year has 365 or 366 days, and 366 exactly when it is a leap year.
pub proof fn lemma_year_length(year: int)
    requires
        0 <= year,
    ensures
        days_before_year(year + 1) - days_before_year(year) == if is_leap_year(year) {
            366int
        } else {
            365int
        },
{
}

/// Later years begin on later days.
pub proof fn lemma_years_increase(a: int, b: int)
    requires
        0 <= a <= b,
    ensures
        days_before_year(a) + 365 * (b - a) <= days_before_year(b),
    decreases b - a,
{
    if a < b {
        lemma_years_increase(a, b - 1);
        lemma_year_length(b - 1);
    }
}

/// A day falls in one year only.
pub proof fn lemma_year_unique(day: int, y1: int, y2: int)
    requires
        in_year(day, y1),
        in_year(day, y2),
    ensures
        y1 == y2,
{
    if y1 < y2 {
        lemma_years_increase(y1 + 1, y2);
    } else if y2 < y1 {
        lemma_years_increase(y2 + 1, y1);
    }
}

/// A second has the date whose year holds its day and whose month holds its
/// day of the year: the year, the month and the day are what `year_of`,
/// `month_of` and `day_of` give.
pub proof fn lemma_date_is(ts: int, year: int, month: int, day: int)
    requires
        in_year(day_number(ts), year),
        in_month(is_leap_year(year), day_number(ts) - days_before_year(year), month),
        day == day_number(ts) - days_before_year(year) - days_before_month(
            is_leap_year(year),
            month,
        ) + 1,
    ensures
        year_of(ts) == year,
        month_of(ts) == month,
        day_of(ts) == day,
{
    lemma_year_unique(day_number(ts), year, year_of(ts));
    let leap = is_leap_year(year);
    let chosen = month_of(ts);
    assert(in_month(leap, day_of_year(ts), chosen));
}

/// The number of days from 0000-01-01 to the first of January of `year`.
fn year_start(year: i64) -> (days: i64)
    requires
        0 <= year <= 10000,
    ensures
        days == days_before_year(year as int),
        0 <= days <= 3652425,
{
    365 * year + ((year + 3) / 4 - (year + 99) / 100 + (year + 399) / 400)
}

/// Whether `year` is a leap year.
fn leap_year(year: i64) -> (leap: bool)
    requires
        0 <= year,
    ensures
        leap == is_leap_year(year as int),
{
    year % 4 == 0 && (year % 100 != 0 || year % 400 == 0)
}

/// The number of days from the first of January to the first of `month`.
fn month_start(leap: bool, month: i64) -> (days: i64)
    requires
        1 <= month <= 13,
    ensures
        days == days_before_month(leap, month as int),
{
    let shift: i64 = if leap && month > 2 {
        1
    } else {
        0
    };
    let base: i64 = if month == 1 {
        0
    } else if month == 2 {
        31
    } else if month == 3 {
        59
    } else if month == 4 {
        90
    } else if month == 5 {
        120
    } else if month == 6 {
        151
    } else if month == 7 {
        181
    } else if month == 8 {
        212
    } else if month == 9 {
        243
    } else if month == 10 {
        273
    } else if month == 11 {
        304
    } else if month == 12 {
        334
    } else {
        365
    };
    shift + base
}

/// A calendar date.
#[derive(Debug, Clone, Copy, PartialEq, Eq, Structural)]
pub struct CivilDate {
    pub year: i64,
    pub month: i64,
    pub day: i64,
}

/// The calendar date (UTC) of the second `ts` of Unix time, where one is
/// defined.
pub fn civil_date(ts: i64) -> (date: Option<CivilDate>)
    ensures
        date is Some <==> date_defined(ts as int),
        date matches Some(d) ==> {
            &&& d.year == year_of(ts as int)
            &&& d.month == month_of(ts as int)
            &&& d.day == day_of(ts as int)
            &&& 0 <= d.year <= 9999
            &&& 1 <= d.month <= 12
            &&& 1 <= d.day <= 31
        },
{
    if ts < FIRST_SECOND || ts > LAST_SECOND {
        return None;
    }
    let day: i64 = (ts - FIRST_SECOND) / 86400;
    assert(day == day_number(ts as int));
    assert(0 <= day <= 3652424);
    let mut year: i64 = day / 366;
    proof {
        lemma_years_increase(0, year as int);
        assert(days_before_year(0) == 0);
        assert(days_before_year(10000) == 3652425);
        lemma_upper_estimate(year as int);
    }
    loop
        invariant
            0 <= year <= 9999,
            0 <= day <= 3652424,
            days_before_year(year as int) <= day,
        ensures
            day < days_before_year(year + 1),
        decreases 10000 - year,
    {
        let next: i64 = year_start(year + 1);
        if next > day {
            break ;
        }
        proof {
            if year + 1 >= 10000 {
                lemma_years_increase(10000, year + 1);
            }
        }
        year += 1;
    }
    proof {
        assert(in_year(day as int, year as int));
        lemma_year_length(year as int);
    }
    let start: i64 = year_start(year);
    let in_the_year: i64 = day - start;
    let leap: bool = leap_year(year);
    let mut month: i64 = 1;
    while month < 12 && month_start(leap, month + 1) <= in_the_year
        invariant
            1 <= month <= 12,
            0 <= in_the_year,
            in_the_year < days_before_month(leap, 13),
            days_before_month(leap, month as int) <= in_the_year,
        decreases 12 - month,
    {
        month += 1;
    }
    let first: i64 = month_start(leap, month);
    proof {
        lemma_date_is(ts as int, year as int, month as int, in_the_year - first + 1);
    }
    Some(CivilDate { year, month, day: in_the_year - first + 1 })
}

/// A year reckoned at 366 days each is not begun too late.
proof fn lemma_upper_estimate(year: int)
    requires
        0 <= year,
    ensures
        days_before_year(year) <= 366 * year,
    decreases year,
{
    if year > 0 {
        lemma_upper_estimate(year - 1);
        lemma_year_length(year - 1);
    }
}

/// Whether the calendar year (UTC) of `ts` is the `wanted` one. The two are
/// compared as they stand when each is written with four digits, so the
/// year 999 is found by a wanted 999. A second that has no date is in no
/// year.
pub open spec fn year_matches(ts: i64, wanted: i64) -> bool {
    date_defined(ts as int) && year_of(ts as int) == wanted
}

/// Whether the calendar month (UTC) of `ts` is the `wanted` one. The two
/// are compared as they stand when each is written with two digits, so
/// March is found by a wanted 3. A second that has no date is in no month.
pub open spec fn month_matches(ts: i64, wanted: i64) -> bool {
    date_defined(ts as int) && month_of(ts as int) == wanted
}

/// Whether the day of the month (UTC) of `ts` is the `wanted` one. The two
/// are compared as they stand when each is written with two digits, so the
/// first of a month is found by a wanted 1. A second that has no date is on
/// no day.
pub open spec fn day_matches(ts: i64, wanted: i64) -> bool {
    date_defined(ts as int) && day_of(ts as int) == wanted
}

/// Whether the year of `ts` is the `wanted` one.
pub fn is_year(ts: i64, wanted: i64) -> (matched: bool)
    ensures
        matched == year_matches(ts, wanted),
{
    match civil_date(ts) {
        Some(date) => date.year == wanted,
        None => false,
    }
}

/// Whether the month of `ts` is the `wanted` one.
pub fn is_month(ts: i64, wanted: i64) -> (matched: bool)
    ensures
        matched == month_matches(ts, wanted),
{
    match civil_date(ts) {
        Some(date) => date.month == wanted,
        None => false,
    }
}

/// Whether the day of the month of `ts` is the `wanted` one.
pub fn is_day(ts: i64, wanted: i64) -> (matched: bool)
    ensures
        matched == day_matches(ts, wanted),
{
    match civil_date(ts) {
        Some(date) => date.day == wanted,
        None => false,
    }
}

} // verus!

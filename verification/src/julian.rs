//! Julian day and Julian century value types, and the calendar conversion
//! that anchors them: a calendar date is interpreted at UTC midnight and
//! mapped to days since the Unix epoch, then onto the Julian day scale.

use crate::angle::{rad_to_deg, Angle, ANGLE_MAX};
use crate::fixed::{divf, lemma_sdiv_cancel, lemma_sdiv_fundamental, mag, sdiv, SCALE};
use vstd::arithmetic::mul::lemma_mul_is_commutative;
use vstd::prelude::*;

verus! {

/// Fixed-point days between the Julian epoch and the Unix epoch (2440587.5).
pub const JD_UNIX_EPOCH: i64 = 2_440_587_500_000_000;

/// Days in a Julian century.
pub const DAYS_PER_CENTURY: i64 = 36525;

/// Widest calendar year accepted by the date conversion; it keeps every
/// derived fixed-point quantity far from the 64-bit range.
pub const YEAR_LIMIT: i32 = 100_000;

/// A proleptic Gregorian leap year.
pub open spec fn is_leap_year(y: int) -> bool {
    y % 4 == 0 && (y % 100 != 0 || y % 400 == 0)
}

/// Days in a month of the proleptic Gregorian calendar.
pub open spec fn days_in_month(y: int, m: int) -> int {
    if m == 2 {
        if is_leap_year(y) {
            29
        } else {
            28
        }
    } else if m == 4 || m == 6 || m == 9 || m == 11 {
        30
    } else {
        31
    }
}

/// A well-formed proleptic Gregorian calendar date.
pub open spec fn valid_date(y: int, m: int, d: int) -> bool {
    1 <= m <= 12 && 1 <= d <= days_in_month(y, m)
}

/// Days from the Unix epoch to a proleptic Gregorian date, by the civil
/// calendar arithmetic: years are regrouped to start in March so that the
/// leap day falls at the end of the shifted year.
pub open spec fn days_from_civil(y: int, m: int, d: int) -> int {
    let yy = if m <= 2 {
        y - 1
    } else {
        y
    };
    let era = yy / 400;
    let yoe = yy - era * 400;
    let mp = if m > 2 {
        m - 3
    } else {
        m + 9
    };
    let doy = (153 * mp + 2) / 5 + d - 1;
    let doe = yoe * 365 + yoe / 4 - yoe / 100 + doy;
    era * 146097 + doe - 719468
}

/// The fixed-point Julian day of a date's UTC midnight.
pub open spec fn julian_day_of_date(y: int, m: int, d: int) -> int {
    days_from_civil(y, m, d) * SCALE + JD_UNIX_EPOCH
}

/// Fixed-point Julian centuries of a fixed-point Julian day count.
pub open spec fn century_of_day(d: int) -> int {
    sdiv(d, DAYS_PER_CENTURY as int)
}

/// Fixed-point Julian days of a fixed-point Julian century count.
pub open spec fn day_of_century(c: int) -> int {
    c * DAYS_PER_CENTURY
}

/// A day-fraction read as a signed whole number of seconds, rounded toward
/// negative infinity; flooring (not truncation) is what keeps pre-midnight
/// fractions on the correct side.
pub open spec fn duration_secs_of_day(n: int) -> int {
    (n * 86400) / (SCALE as int)
}

/// The day-fraction offset of an angle, reading its degrees as a share of a
/// full 360-degree turn.
pub open spec fn day_of_angle(rad: int) -> int {
    sdiv(rad_to_deg(rad), 360)
}

/// Relies on `chrono::NaiveDate::from_ymd_opt` and
/// `chrono::DateTime::timestamp`: the returned instant is the UTC midnight
/// of the proleptic Gregorian date, counted in whole seconds from the Unix
/// epoch, which is 86400 times the civil day number.
#[verifier::external_body]
pub(crate) fn utc_midnight_timestamp(year: i32, month: u32, day: u32) -> (r: i64)
    requires
        valid_date(year as int, month as int, day as int),
        -YEAR_LIMIT <= year <= YEAR_LIMIT,
    ensures
        r == 86400 * days_from_civil(year as int, month as int, day as int),
{
    let date = chrono::NaiveDate::from_ymd_opt(year, month, day).unwrap();
    date.and_time(chrono::NaiveTime::default()).and_utc().timestamp()
}

/// A calendar date, read in the proleptic Gregorian calendar at UTC.
#[derive(Clone, Copy, PartialEq, Eq, Structural, Debug)]
pub struct CalendarDate {
    pub year: i32,
    pub month: u32,
    pub day: u32,
}

impl CalendarDate {
    /// The date, where year, month and day form a real calendar day.
    pub fn new(year: i32, month: u32, day: u32) -> (r: Option<CalendarDate>)
        ensures
            match r {
                Some(date) => valid_date(year as int, month as int, day as int)
                    && date == (CalendarDate { year, month, day }),
                None => !valid_date(year as int, month as int, day as int),
            },
    {
        let leap = year % 4 == 0 && (year % 100 != 0 || year % 400 == 0);
        let dim: u32 = if month == 2 {
            if leap {
                29
            } else {
                28
            }
        } else if month == 4 || month == 6 || month == 9 || month == 11 {
            30
        } else {
            31
        };
        if 1 <= month && month <= 12 && 1 <= day && day <= dim {
            Some(CalendarDate { year, month, day })
        } else {
            None
        }
    }

    /// Whether the date is a real proleptic Gregorian calendar day.
    pub open spec fn is_valid(&self) -> bool {
        valid_date(self.year as int, self.month as int, self.day as int)
    }

    /// Days from the Unix epoch to this date.
    pub fn days_since_epoch(&self) -> (r: i64)
        requires
            self.is_valid(),
            -YEAR_LIMIT <= self.year <= YEAR_LIMIT,
        ensures
            r == days_from_civil(self.year as int, self.month as int, self.day as int),
            mag(r as int) <= 38_000_000,
    {
        let ts = utc_midnight_timestamp(self.year, self.month, self.day);
        proof {
            let y = self.year as int;
            let m = self.month as int;
            let yy = if m <= 2 {
                y - 1
            } else {
                y
            };
            vstd::arithmetic::div_mod::lemma_fundamental_div_mod(yy, 400);
            vstd::arithmetic::div_mod::lemma_mod_bound(yy, 400);
            let yoe = yy - (yy / 400) * 400;
            vstd::arithmetic::div_mod::lemma_fundamental_div_mod(yoe, 4);
            vstd::arithmetic::div_mod::lemma_mod_bound(yoe, 4);
            vstd::arithmetic::div_mod::lemma_fundamental_div_mod(yoe, 100);
            vstd::arithmetic::div_mod::lemma_mod_bound(yoe, 100);
            let mp = if m > 2 {
                m - 3
            } else {
                m + 9
            };
            vstd::arithmetic::div_mod::lemma_fundamental_div_mod(153 * mp + 2, 5);
            vstd::arithmetic::div_mod::lemma_mod_bound(153 * mp + 2, 5);
            let dd = days_from_civil(self.year as int, self.month as int, self.day as int);
            lemma_mul_is_commutative(86400, dd);
            lemma_sdiv_cancel(dd, 86400);
        }
        ts / 86400
    }
}

/// A scalar count of fixed-point days since the Julian epoch; fractional
/// days are simply fractional fixed-point values.
#[derive(Clone, Copy, PartialEq, Eq, Structural, Debug)]
pub struct JulianDay {
    pub nanos: i64,
}

/// A scalar count of fixed-point Julian centuries since the Julian epoch.
#[derive(Clone, Copy, PartialEq, Eq, Structural, Debug)]
pub struct JulianCentury {
    pub nanos: i64,
}

impl JulianDay {
    /// The Julian day of a date's UTC midnight.
    pub fn from_date(date: CalendarDate) -> (r: JulianDay)
        requires
            date.is_valid(),
            -YEAR_LIMIT <= date.year <= YEAR_LIMIT,
        ensures
            r.nanos == julian_day_of_date(date.year as int, date.month as int, date.day as int),
            mag(r.nanos as int) <= 41_000_000_000_000_000,
    {
        let days = date.days_since_epoch();
        JulianDay { nanos: days * SCALE + JD_UNIX_EPOCH }
    }

    /// A day-fraction from an angle: degrees over a full turn.
    pub fn from_angle(a: Angle) -> (r: JulianDay)
        requires
            mag(a.nanorad as int) <= ANGLE_MAX as int,
        ensures
            r.nanos == day_of_angle(a.nanorad as int),
    {
        let d = a.deg();
        JulianDay { nanos: d / 360 }
    }

    /// The whole seconds of this day count, rounded toward negative
    /// infinity, so that negative fractions floor instead of truncating.
    pub fn duration_secs(&self) -> (r: i64)
        ensures
            r == duration_secs_of_day(self.nanos as int),
            mag(r as int) * (SCALE as int) <= mag(self.nanos as int) * 86400 + SCALE,
    {
        let p: i128 = (self.nanos as i128) * 86400;
        let q = divf(p, SCALE as i128);
        proof {
            vstd::arithmetic::div_mod::lemma_fundamental_div_mod(p as int, SCALE as int);
            vstd::arithmetic::div_mod::lemma_mod_bound(p as int, SCALE as int);
        }
        q as i64
    }

    /// The same instant on the Julian century scale.
    pub fn to_century(&self) -> (r: JulianCentury)
        ensures
            r.nanos == century_of_day(self.nanos as int),
    {
        JulianCentury { nanos: self.nanos / DAYS_PER_CENTURY }
    }
}

impl JulianCentury {
    /// The Julian century of a date's UTC midnight.
    pub fn from_date(date: CalendarDate) -> (r: JulianCentury)
        requires
            date.is_valid(),
            -YEAR_LIMIT <= date.year <= YEAR_LIMIT,
        ensures
            r.nanos == century_of_day(
                julian_day_of_date(date.year as int, date.month as int, date.day as int),
            ),
    {
        JulianDay::from_date(date).to_century()
    }

    /// The same instant on the Julian day scale.
    pub fn to_day(&self) -> (r: JulianDay)
        requires
            i64::MIN <= self.nanos * DAYS_PER_CENTURY <= i64::MAX,
        ensures
            r.nanos == day_of_century(self.nanos as int),
    {
        JulianDay { nanos: self.nanos * DAYS_PER_CENTURY }
    }

    /// Century-scale sum of two century counts.
    pub fn plus(self, rhs: JulianCentury) -> (r: JulianCentury)
        requires
            i64::MIN <= self.nanos + rhs.nanos <= i64::MAX,
        ensures
            r.nanos == self.nanos + rhs.nanos,
    {
        JulianCentury { nanos: self.nanos + rhs.nanos }
    }

    /// Century-scale difference of two century counts.
    pub fn minus(self, rhs: JulianCentury) -> (r: JulianCentury)
        requires
            i64::MIN <= self.nanos - rhs.nanos <= i64::MAX,
        ensures
            r.nanos == self.nanos - rhs.nanos,
    {
        JulianCentury { nanos: self.nanos - rhs.nanos }
    }

    /// Sum with a day count, converted to the century scale first.
    pub fn plus_day(self, rhs: JulianDay) -> (r: JulianCentury)
        requires
            i64::MIN <= self.nanos + century_of_day(rhs.nanos as int) <= i64::MAX,
        ensures
            r.nanos == self.nanos + century_of_day(rhs.nanos as int),
    {
        let c = rhs.to_century();
        JulianCentury { nanos: self.nanos + c.nanos }
    }

    /// Difference with a day count, converted to the century scale first.
    pub fn minus_day(self, rhs: JulianDay) -> (r: JulianCentury)
        requires
            i64::MIN <= self.nanos - century_of_day(rhs.nanos as int) <= i64::MAX,
        ensures
            r.nanos == self.nanos - century_of_day(rhs.nanos as int),
    {
        let c = rhs.to_century();
        JulianCentury { nanos: self.nanos - c.nanos }
    }
}

/// A date within a few thousand years of the epoch has a day count well
/// inside the range the solar solvers accept.
pub proof fn lemma_days_window(y: int, m: int, d: int)
    requires
        valid_date(y, m, d),
        -6000 <= y <= 6000,
    ensures
        mag(days_from_civil(y, m, d)) <= 3_100_000,
{
    let yy = if m <= 2 {
        y - 1
    } else {
        y
    };
    vstd::arithmetic::div_mod::lemma_fundamental_div_mod(yy, 400);
    vstd::arithmetic::div_mod::lemma_mod_bound(yy, 400);
    let yoe = yy - (yy / 400) * 400;
    vstd::arithmetic::div_mod::lemma_fundamental_div_mod(yoe, 4);
    vstd::arithmetic::div_mod::lemma_mod_bound(yoe, 4);
    vstd::arithmetic::div_mod::lemma_fundamental_div_mod(yoe, 100);
    vstd::arithmetic::div_mod::lemma_mod_bound(yoe, 100);
    let mp = if m > 2 {
        m - 3
    } else {
        m + 9
    };
    vstd::arithmetic::div_mod::lemma_fundamental_div_mod(153 * mp + 2, 5);
    vstd::arithmetic::div_mod::lemma_mod_bound(153 * mp + 2, 5);
}

/// A Julian day taken to the century scale and back lands within one
/// century quantum (36525 fixed-point day units, about three milliseconds)
/// of where it started, for every fixed-point day count.
pub proof fn lemma_day_century_round_trip(d: int)
    ensures
        mag(day_of_century(century_of_day(d)) - d) < DAYS_PER_CENTURY as int,
{
    lemma_sdiv_fundamental(d, DAYS_PER_CENTURY as int);
    lemma_mul_is_commutative(century_of_day(d), DAYS_PER_CENTURY as int);
}

} // verus!

use vstd::prelude::*;

use crate::text::{day_text, push_day_text};

use crate::calendar::{
    civil_fields, date_key, day_count, is_valid_civil, lemma_day_count_increasing,
    lemma_day_round_trip, lemma_fields_round_trip, time_of_day, FIRST_AGREEING_DATE, FIRST_AGREEING_DAY, LAST_AGREEING_DAY, JD_LIMIT, LAST_AGREEING_DATE,
    MJD_EPOCH_SECONDS, SOLAR_EPOCH_MILLIS,
};

verus! {

/// An instant in UTC, given by its civil calendar fields.
///
/// No field is checked on construction: a time with out-of-range fields still
/// has a (meaningless but deterministic) Julian Date.
#[derive(Debug, Clone, Copy, PartialEq, Eq, Structural)]
pub struct Time {
    pub year: i32,
    pub month: u32,
    pub day: u32,
    pub hour: u32,
    pub minute: u32,
    pub second: u32,
}

/// A Julian Date held exactly as a count of seconds: the date is `seconds / 86400` days.
#[derive(Debug, Clone, Copy, PartialEq, Eq, Structural)]
pub struct JulianDate {
    pub seconds: i64,
}

/// A modified Julian Date (`JD - 2400000.5`) held exactly as a count of seconds.
#[derive(Debug, Clone, Copy, PartialEq, Eq, Structural)]
pub struct ModifiedJulianDate {
    pub seconds: i64,
}

impl Time {
    /// The Julian Date of this instant in seconds (`JD * 86400`).
    pub open spec fn jd_seconds(self) -> int {
        day_count(self.year as int, self.month as int, self.day as int) * 86400 + 43200
            + time_of_day(self.hour as int, self.minute as int, self.second as int)
    }

    /// The fields as mathematical integers.
    pub open spec fn fields(self) -> (int, int, int, int, int, int) {
        (
            self.year as int,
            self.month as int,
            self.day as int,
            self.hour as int,
            self.minute as int,
            self.second as int,
        )
    }

    /// Whether the fields name a real instant of the Gregorian calendar.
    pub open spec fn valid(self) -> bool {
        is_valid_civil(
            self.year as int,
            self.month as int,
            self.day as int,
            self.hour as int,
            self.minute as int,
            self.second as int,
        )
    }

    /// Whether `self` comes before `other` in calendar order (year, month, day,
    /// hour, minute, second).
    pub open spec fn precedes(self, other: Time) -> bool {
        if self.year != other.year {
            self.year < other.year
        } else if self.month != other.month {
            self.month < other.month
        } else if self.day != other.day {
            self.day < other.day
        } else if self.hour != other.hour {
            self.hour < other.hour
        } else if self.minute != other.minute {
            self.minute < other.minute
        } else {
            self.second < other.second
        }
    }

    /// Whether the date lies where the closed-form day number agrees with the
    /// Gregorian calendar (1900-03-01 to 2100-02-28).
    pub open spec fn in_agreeing_range(self) -> bool {
        FIRST_AGREEING_DATE <= date_key(self.year as int, self.month as int, self.day as int)
            <= LAST_AGREEING_DATE
    }

    /// A time with the given fields, taken as they are.
    pub fn new(year: i32, month: u32, day: u32, hour: u32, minute: u32, second: u32) -> (r: Time)
        ensures
            r == (Time { year, month, day, hour, minute, second }),
    {
        Time { year, month, day, hour, minute, second }
    }

    /// Converts to a Julian Date with the closed-form day-number formula
    /// `367Y - floor(floor(Y + floor((M+9)/12)) * 7/4) + floor(275M/9) + D + 1721013.5`
    /// plus the fraction of the day.
    pub fn to_jd(&self) -> (r: JulianDate)
        ensures
            r.seconds == self.jd_seconds(),
    {
        let y = self.year as i64;
        let m = self.month as i64;
        let k: i64 = (m + 9) / 12;
        let leap_part = floor_div(7 * (y + k), 4);
        let days = 367 * y - leap_part + (275 * m) / 9 + self.day as i64 + 1721013;
        let clock = self.hour as i64 * 3600 + self.minute as i64 * 60 + self.second as i64;
        JulianDate { seconds: days * 86400 + 43200 + clock }
    }

    /// Converts a Julian Date to civil time, truncating to the whole second
    /// (the Fliegel-Van Flandern / Meeus algorithm, see `civil_fields`).
    pub fn from_jd(jd: JulianDate) -> (r: Time)
        requires
            -JD_LIMIT * 86400 <= jd.seconds <= JD_LIMIT * 86400,
        ensures
            r.fields() == civil_fields(jd.seconds as int),
    {
        let shifted = jd.seconds + 43200;
        let z = floor_div(shifted, 86400);
        let f = shifted - z * 86400;
        let a = if z > 2299161 {
            let alpha = floor_div(4 * z - 7468865, 146097);
            z + 1 + alpha - alpha / 4
        } else {
            z
        };
        let b = a + 1524;
        let c = floor_div(20 * b - 2442, 7305);
        let d = floor_div(1461 * c, 4);
        let e = floor_div(10000 * (b - d), 306001);
        let day = b - d - floor_div(306001 * e, 10000);
        let month = if e < 14 {
            e - 1
        } else {
            e - 13
        };
        let year = if month > 2 {
            c - 4716
        } else {
            c - 4715
        };
        Time {
            year: year as i32,
            month: month as u32,
            day: day as u32,
            hour: (f / 3600) as u32,
            minute: ((f % 3600) / 60) as u32,
            second: (f % 60) as u32,
        }
    }

    /// Converts to a modified Julian Date, `JD - 2400000.5`.
    pub fn to_mjd(&self) -> (r: ModifiedJulianDate)
        ensures
            r.seconds == self.jd_seconds() - MJD_EPOCH_SECONDS,
    {
        self.to_jd().to_mjd()
    }

    /// Converts a modified Julian Date to civil time, truncating to the whole second.
    pub fn from_mjd(mjd: ModifiedJulianDate) -> (r: Time)
        requires
            -JD_LIMIT * 86400 <= mjd.seconds + MJD_EPOCH_SECONDS <= JD_LIMIT * 86400,
        ensures
            r.fields() == civil_fields(mjd.seconds + MJD_EPOCH_SECONDS),
    {
        Time::from_jd(mjd.to_jd())
    }

    /// Tells whether the fields name a real instant of the Gregorian calendar.
    pub fn is_valid(&self) -> (r: bool)
        ensures
            r == self.valid(),
    {
        let leap = (self.year % 4 == 0 && self.year % 100 != 0) || self.year % 400 == 0;
        let month_days: u32 = if self.month == 2 {
            if leap {
                29
            } else {
                28
            }
        } else if self.month == 4 || self.month == 6 || self.month == 9 || self.month == 11 {
            30
        } else {
            31
        };
        1 <= self.month && self.month <= 12 && 1 <= self.day && self.day <= month_days
            && self.hour < 24 && self.minute < 60 && self.second < 60
    }
}

impl JulianDate {
    /// Whether the date falls on a day from 1900-03-01 to 2100-02-28, where the
    /// closed-form day number agrees with the Gregorian calendar.
    pub open spec fn in_agreeing_range(self) -> bool {
        FIRST_AGREEING_DAY <= (self.seconds + 43200) / 86400 <= LAST_AGREEING_DAY
    }

    /// The same instant as a modified Julian Date.
    pub fn to_mjd(&self) -> (r: ModifiedJulianDate)
        requires
            self.seconds >= i64::MIN + MJD_EPOCH_SECONDS,
        ensures
            r.seconds == self.seconds - MJD_EPOCH_SECONDS,
    {
        ModifiedJulianDate { seconds: self.seconds - MJD_EPOCH_SECONDS }
    }

    /// The Julian Date in decimal: whole days, then up to nine decimals
    /// truncated towards zero, trailing zeros dropped (`"2458849.5"`).
    pub fn to_string(&self) -> (r: String)
        ensures
            r@ == day_text(self.seconds as int),
    {
        let mut s = String::new();
        push_day_text(&mut s, self.seconds);
        s
    }

    /// The day number `n` of the Sunrise Equation for the first solar transit
    /// at or after this instant: the least integer with
    /// `n >= JD - 2451545.0009 - 69.184 / 86400` (the 0.0009-day transit lead
    /// and 69.184 s of terrestrial-time offset), counted here in milliseconds.
    pub fn solar_cycle(&self) -> (n: i64)
        ensures
            n * 86400000 >= self.seconds * 1000 - SOLAR_EPOCH_MILLIS,
            (n - 1) * 86400000 < self.seconds * 1000 - SOLAR_EPOCH_MILLIS,
    {
        let x: i128 = self.seconds as i128 * 1000 - SOLAR_EPOCH_MILLIS as i128;
        let d: i128 = 86400000;
        let q: i128 = if x >= 0 {
            (x + d - 1) / d
        } else {
            -((-x) / d)
        };
        proof {
            let xi = x as int;
            if x >= 0 {
                vstd::arithmetic::div_mod::lemma_fundamental_div_mod(xi + 86399999, 86400000);
            } else {
                vstd::arithmetic::div_mod::lemma_fundamental_div_mod(-xi, 86400000);
            }
        }
        q as i64
    }
}

impl ModifiedJulianDate {
    /// The same instant as a Julian Date.
    pub fn to_jd(&self) -> (r: JulianDate)
        requires
            self.seconds <= i64::MAX - MJD_EPOCH_SECONDS,
        ensures
            r.seconds == self.seconds + MJD_EPOCH_SECONDS,
    {
        JulianDate { seconds: self.seconds + MJD_EPOCH_SECONDS }
    }

    /// The modified Julian Date in decimal, written as `JulianDate::to_string` does.
    pub fn to_string(&self) -> (r: String)
        ensures
            r@ == day_text(self.seconds as int),
    {
        let mut s = String::new();
        push_day_text(&mut s, self.seconds);
        s
    }
}

/// A valid civil time converted to a Julian Date and back is the same time, to the
/// second, for dates from 1900-03-01 to 2100-02-28 (outside that range the
/// closed-form day number and the Gregorian calendar part ways).
pub proof fn lemma_round_trip(t: Time)
    requires
        t.valid(),
        t.in_agreeing_range(),
    ensures
        -JD_LIMIT * 86400 <= t.jd_seconds() <= JD_LIMIT * 86400,
        civil_fields(t.jd_seconds()) == t.fields(),
{
    lemma_fields_round_trip(
        t.year as int,
        t.month as int,
        t.day as int,
        t.hour as int,
        t.minute as int,
        t.second as int,
    );
}

/// A Julian Date converted to civil time and back is the same Julian Date (it
/// holds whole seconds, so nothing is lost), for days from 1900-03-01 to
/// 2100-02-28; the civil time in between is valid and in that range.
pub proof fn lemma_jd_round_trip(j: JulianDate)
    requires
        j.in_agreeing_range(),
    ensures
        -JD_LIMIT * 86400 <= j.seconds <= JD_LIMIT * 86400,
        forall|t: Time| #[trigger]
            t.fields() == civil_fields(j.seconds as int) ==> t.valid() && t.in_agreeing_range()
                && t.jd_seconds() == j.seconds,
{
    let s = j.seconds as int;
    let z = (s + 43200) / 86400;
    let f = (s + 43200) % 86400;
    lemma_day_round_trip(z);
    assert((f / 3600) * 3600 + ((f % 3600) / 60) * 60 + f % 60 == f);
    assert forall|t: Time| #[trigger]
        t.fields() == civil_fields(s) implies t.valid() && t.in_agreeing_range()
            && t.jd_seconds() == s by {
        assert(time_of_day(t.hour as int, t.minute as int, t.second as int) == f);
    }
}

/// Of two valid civil times, the earlier one has the smaller Julian Date.
pub proof fn lemma_to_jd_strictly_increasing(t1: Time, t2: Time)
    requires
        t1.valid(),
        t2.valid(),
        t1.precedes(t2),
    ensures
        t1.jd_seconds() < t2.jd_seconds(),
{
    let x1 = day_count(t1.year as int, t1.month as int, t1.day as int);
    let x2 = day_count(t2.year as int, t2.month as int, t2.day as int);
    if t1.year != t2.year || t1.month != t2.month || t1.day != t2.day {
        lemma_day_count_increasing(
            t1.year as int,
            t1.month as int,
            t1.day as int,
            t2.year as int,
            t2.month as int,
            t2.day as int,
        );
        assert(x1 * 86400 + 86400 <= x2 * 86400);
    }
}

/// `a / b` rounded towards negative infinity.
fn floor_div(a: i64, b: i64) -> (q: i64)
    requires
        b > 0,
    ensures
        q == a as int / b as int,
{
    if a >= 0 {
        a / b
    } else {
        let n = -(a + 1);
        let q = n / b;
        proof {
            let ai = a as int;
            let bi = b as int;
            let qi = q as int;
            assert(qi * bi <= n && n < qi * bi + bi) by (nonlinear_arith)
                requires qi == n as int / bi, bi > 0, n >= 0;
            assert((-qi - 1) * bi <= ai && ai < (-qi - 1) * bi + bi) by (nonlinear_arith)
                requires qi * bi <= n, n < qi * bi + bi, n == -(ai + 1);
            vstd::arithmetic::div_mod::lemma_fundamental_div_mod_converse(ai, bi, -qi - 1, ai - (-qi - 1) * bi);
        }
        -q - 1
    }
}

} // verus!

use vstd::prelude::*;

verus! {

/// The Julian Date of the modified Julian Date epoch (`2400000.5`), in seconds.
pub const MJD_EPOCH_SECONDS: i64 = 207360043200;

/// JD 2451545.0009 plus 69.184 s, in milliseconds: where the Sunrise Equation
/// counts its days from.
pub const SOLAR_EPOCH_MILLIS: i64 = 211813488146944;

/// Largest magnitude, in days, of a Julian Date that can be turned into civil fields.
pub const JD_LIMIT: i64 = 700000000000;

/// The whole part of `JD - 0.5` for a calendar date, by the closed-form formula.
pub open spec fn day_count(y: int, m: int, d: int) -> int {
    367 * y - (7 * (y + (m + 9) / 12)) / 4 + (275 * m) / 9 + d + 1721013
}

/// Seconds since midnight.
pub open spec fn time_of_day(h: int, mi: int, s: int) -> int {
    h * 3600 + mi * 60 + s
}

/// Civil date `(year, month, day)` of the day whose midnight is JD `z - 0.5`, by
/// the Fliegel-Van Flandern / Meeus algorithm in exact arithmetic: the Gregorian
/// calendar after day number 2299161, the Julian calendar up to it.
pub open spec fn civil_date(z: int) -> (int, int, int) {
    let a = if z > 2299161 {
        let alpha = (4 * z - 7468865) / 146097;
        z + 1 + alpha - alpha / 4
    } else {
        z
    };
    let b = a + 1524;
    let c = (20 * b - 2442) / 7305;
    let d = (1461 * c) / 4;
    let e = (10000 * (b - d)) / 306001;
    let day = b - d - (306001 * e) / 10000;
    let month = if e < 14 {
        e - 1
    } else {
        e - 13
    };
    let year = if month > 2 {
        c - 4716
    } else {
        c - 4715
    };
    (year, month, day)
}

/// Civil fields `(year, month, day, hour, minute, second)` of a Julian Date given
/// in seconds: the date of `floor(JD + 0.5)`, and the time of day truncated to
/// the whole second.
pub open spec fn civil_fields(s: int) -> (int, int, int, int, int, int) {
    let z = (s + 43200) / 86400;
    let f = (s + 43200) % 86400;
    let date = civil_date(z);
    (date.0, date.1, date.2, f / 3600, (f % 3600) / 60, f % 60)
}

/// Whether `y` is a leap year of the Gregorian calendar.
pub open spec fn is_leap_year(y: int) -> bool {
    (y % 4 == 0 && y % 100 != 0) || y % 400 == 0
}

/// Number of days of month `m` of year `y` in the Gregorian calendar.
pub open spec fn days_in_month(y: int, m: int) -> int {
    if m == 2 {
        if is_leap_year(y) {
            29
        } else {
            28
        }
    } else if m == 4 || m == 6 || m == 9 || m == 11 {
        30
    } else {
        31
    }
}

/// Whether the fields name a real instant of the Gregorian calendar.
pub open spec fn is_valid_civil(y: int, m: int, d: int, h: int, mi: int, s: int) -> bool {
    1 <= m <= 12 && 1 <= d <= days_in_month(y, m) && 0 <= h < 24 && 0 <= mi < 60 && 0 <= s < 60
}

/// `yyyymmdd` as one number, ordering valid dates as the calendar does.
pub open spec fn date_key(y: int, m: int, d: int) -> int {
    y * 10000 + m * 100 + d
}

/// First and last date on which the closed-form day number agrees with the
/// Gregorian calendar: between them every year divisible by 4 is a leap year.
pub const FIRST_AGREEING_DATE: i64 = 19000301;

pub const LAST_AGREEING_DATE: i64 = 21000228;

/// Day numbers (`floor(JD + 0.5)`) of 1900-03-01 and 2100-02-28.
pub const FIRST_AGREEING_DAY: i64 = 2415080;

pub const LAST_AGREEING_DAY: i64 = 2488128;

/// Converting valid civil fields to a Julian Date and back gives the same fields,
/// for dates from 1900-03-01 to 2100-02-28.
pub(crate) proof fn lemma_fields_round_trip(y: int, m: int, d: int, h: int, mi: int, s: int)
    requires
        is_valid_civil(y, m, d, h, mi, s),
        FIRST_AGREEING_DATE <= date_key(y, m, d) <= LAST_AGREEING_DATE,
    ensures
        civil_fields(day_count(y, m, d) * 86400 + 43200 + time_of_day(h, mi, s)) == (y, m, d, h, mi, s),
{
    let x = day_count(y, m, d);
    let sod = time_of_day(h, mi, s);
    let total = x * 86400 + 43200 + sod + 43200;
    vstd::arithmetic::div_mod::lemma_fundamental_div_mod_converse(total, 86400, x + 1, sod);
    vstd::arithmetic::div_mod::lemma_fundamental_div_mod_converse(sod, 3600, h, mi * 60 + s);
    vstd::arithmetic::div_mod::lemma_fundamental_div_mod_converse(mi * 60 + s, 60, mi, s);
    vstd::arithmetic::div_mod::lemma_fundamental_div_mod_converse(sod, 60, h * 60 + mi, s);
    lemma_date_round_trip(y, m, d);
    assert(total / 86400 == x + 1 && total % 86400 == sod);
}

#[verifier::rlimit(50)]
proof fn lemma_date_round_trip(y: int, m: int, d: int)
    requires
        1 <= m <= 12,
        1 <= d <= days_in_month(y, m),
        FIRST_AGREEING_DATE <= date_key(y, m, d) <= LAST_AGREEING_DATE,
    ensures
        civil_date(day_count(y, m, d) + 1) == (y, m, d),
{
    let k: int = if m >= 3 { 1 } else { 0 };
    assert((m + 9) / 12 == k);
    let p = y + k;
    let q = p / 4;
    let r = p % 4;
    assert(p == 4 * q + r && 0 <= r < 4);
    assert((7 * p) / 4 == 7 * q + (7 * r) / 4) by {
        vstd::arithmetic::div_mod::lemma_fundamental_div_mod_converse(7 * p, 4, 7 * q + (7 * r) / 4, (7 * r) % 4);
    }
    let cm = (275 * m) / 9;
    let z = day_count(y, m, d) + 1;
    assert(z == 1461 * q + 367 * r - (7 * r) / 4 - 367 * k + cm + d + 1721014);
    assert(1900 <= y <= 2100);
    assert(2415080 <= z <= 2488128);
    let alpha = (4 * z - 7468865) / 146097;
    assert(alpha == 15 || alpha == 16);
    let b = z + 1537;
    let w = 398 - 367 * k + cm + d;
    let fl = (1461 * (r + 4715)) / 4;
    assert(b == 1461 * q + fl + w);
    assert(m == 2 && d == 29 ==> r == 0);
    let cexp = p + 4715;
    assert((20 * b - 2442) / 7305 == cexp);
    assert((1461 * cexp) / 4 == 1461 * q + fl) by {
        vstd::arithmetic::div_mod::lemma_fundamental_div_mod_converse(1461 * cexp, 4, 1461 * q + fl, (1461 * (r + 4715)) % 4);
    }
    let eexp = if m >= 3 { m + 1 } else { m + 13 };
    assert((10000 * w) / 306001 == eexp);
    assert(w - (306001 * eexp) / 10000 == d);
}

/// Each month of the closed-form day number is at least as long as the same
/// month of the Gregorian calendar.
proof fn lemma_month_fits(y: int, m: int)
    requires
        1 <= m <= 12,
    ensures
        m < 12 ==> day_count(y, m, days_in_month(y, m)) < day_count(y, m + 1, 1),
        m == 12 ==> day_count(y, 12, 31) + 1 == day_count(y + 1, 1, 1),
{
    if m == 2 && is_leap_year(y) {
        assert(y % 4 == 0);
        let q = y / 4;
        assert(y == 4 * q);
        assert((7 * y) / 4 == 7 * q);
        assert((7 * (y + 1)) / 4 == 7 * q + 1);
    }
}

/// A valid date of an earlier month has a smaller day number than the first
/// day of any later month of the same year.
proof fn lemma_month_before(y: int, m1: int, d1: int, m2: int)
    requires
        1 <= m1 < m2 <= 12,
        1 <= d1 <= days_in_month(y, m1),
    ensures
        day_count(y, m1, d1) < day_count(y, m2, 1),
    decreases m2 - m1,
{
    lemma_month_fits(y, m1);
    if m1 + 1 < m2 {
        lemma_month_before(y, m1 + 1, 1, m2);
    }
}

/// The day number grows with the date, over valid dates.
pub(crate) proof fn lemma_day_count_increasing(y1: int, m1: int, d1: int, y2: int, m2: int, d2: int)
    requires
        1 <= m1 <= 12,
        1 <= d1 <= days_in_month(y1, m1),
        1 <= m2 <= 12,
        1 <= d2 <= days_in_month(y2, m2),
        y1 < y2 || (y1 == y2 && (m1 < m2 || (m1 == m2 && d1 < d2))),
    ensures
        day_count(y1, m1, d1) < day_count(y2, m2, d2),
{
    if y1 < y2 {
        if m1 < 12 {
            lemma_month_before(y1, m1, d1, 12);
        }
        lemma_month_fits(y1, 12);
        assert(day_count(y1 + 1, 1, 1) <= day_count(y2, 1, 1));
        if m2 > 1 {
            lemma_month_before(y2, 1, 1, m2);
        }
    } else if m1 < m2 {
        lemma_month_before(y1, m1, d1, m2);
    }
}

/// Within the agreeing range, the civil date of a day number is a valid date of
/// that range whose closed-form day number is the one it came from.
#[verifier::rlimit(50)]
pub(crate) proof fn lemma_day_round_trip(z: int)
    requires
        FIRST_AGREEING_DAY <= z <= LAST_AGREEING_DAY,
    ensures
        ({
            let (y, m, d) = civil_date(z);
            &&& 1 <= m <= 12
            &&& 1 <= d <= days_in_month(y, m)
            &&& FIRST_AGREEING_DATE <= date_key(y, m, d) <= LAST_AGREEING_DATE
            &&& day_count(y, m, d) + 1 == z
        }),
{
    let alpha = (4 * z - 7468865) / 146097;
    assert(alpha == 15 || alpha == 16);
    let b = z + 1537;
    let c = (20 * b - 2442) / 7305;
    assert(6616 <= c <= 6815);
    let dd = (1461 * c) / 4;
    let w = b - dd;
    assert(123 <= w <= 488);
    let e = (10000 * w) / 306001;
    assert(4 <= e <= 15);
    let (y, m, d) = civil_date(z);
    let k: int = if m >= 3 { 1 } else { 0 };
    assert((m + 9) / 12 == k);
    let p = c - 4715;
    assert(y + k == p);
    let q = p / 4;
    let r = p % 4;
    assert(p == 4 * q + r && 0 <= r < 4);
    assert((7 * p) / 4 == 7 * q + (7 * r) / 4) by {
        vstd::arithmetic::div_mod::lemma_fundamental_div_mod_converse(7 * p, 4, 7 * q + (7 * r) / 4, (7 * r) % 4);
    }
    let fl = (1461 * (r + 4715)) / 4;
    assert(dd == 1461 * q + fl) by {
        vstd::arithmetic::div_mod::lemma_fundamental_div_mod_converse(1461 * c, 4, 1461 * q + fl, (1461 * (r + 4715)) % 4);
    }
    assert(w == 398 - 367 * k + (275 * m) / 9 + d);
    assert(day_count(y, m, d) + 1 == z);
    assert(m == 2 && d == 29 ==> r == 0);
    assert(1 <= d <= days_in_month(y, m));
}

} // verus!
//! Text forms of civil time that chrono writes and reads.

use vstd::prelude::*;

use chrono::{Datelike, TimeZone, Timelike};

use crate::calendar::{is_valid_civil, MJD_EPOCH_SECONDS};
use crate::text::{day_text, four_or_more, padded, same_text};
use crate::time::Time;

verus! {

/// Earliest and latest year that chrono's dates can hold.
pub const CHRONO_MIN_YEAR: i32 = -262143;

pub const CHRONO_MAX_YEAR: i32 = 262142;

/// The year as chrono writes it: four digits within 0..=9999, otherwise a sign
/// and at least four digits.
pub open spec fn year_text(y: int) -> Seq<char> {
    if 0 <= y <= 9999 {
        padded(y as nat, 4)
    } else if y < 0 {
        seq!['-'] + four_or_more((-y) as nat)
    } else {
        seq!['+'] + four_or_more(y as nat)
    }
}

/// `YYYY-MM-DD`.
pub open spec fn date_text(y: int, m: int, d: int) -> Seq<char> {
    year_text(y) + seq!['-'] + padded(m as nat, 2) + seq!['-'] + padded(d as nat, 2)
}

/// `HH:MM:SS`.
pub open spec fn clock_text(h: int, mi: int, s: int) -> Seq<char> {
    padded(h as nat, 2) + seq![':'] + padded(mi as nat, 2) + seq![':'] + padded(s as nat, 2)
}

/// `YYYY-MM-DD HH:MM:SS UTC`.
pub open spec fn utc_text(t: Time) -> Seq<char> {
    date_text(t.year as int, t.month as int, t.day as int) + seq![' '] + clock_text(
        t.hour as int,
        t.minute as int,
        t.second as int,
    ) + seq![' ', 'U', 'T', 'C']
}

/// `YYYY-MM-DDTHH:MM:SS+00:00`.
pub open spec fn rfc3339_text(t: Time) -> Seq<char> {
    date_text(t.year as int, t.month as int, t.day as int) + seq!['T'] + clock_text(
        t.hour as int,
        t.minute as int,
        t.second as int,
    ) + seq!['+', '0', '0', ':', '0', '0']
}

/// The date and time fields, as written, of an RFC 3339 timestamp; `None` when
/// chrono refuses the text.
pub uninterp spec fn rfc3339_fields(s: Seq<char>) -> Option<(i32, u32, u32, u32, u32, u32)>;

impl Time {
    /// Whether chrono can hold this time: a valid instant within chrono's years.
    pub open spec fn representable(self) -> bool {
        self.valid() && CHRONO_MIN_YEAR <= self.year <= CHRONO_MAX_YEAR
    }
}

/// Relies on chrono's `Utc.with_ymd_and_hms` (a valid date and time within
/// chrono's years gives a single instant) and on `Display` for `DateTime<Utc>`
/// (the naive date and time, a space, `UTC`).
#[verifier::external_body]
fn utc_display(t: &Time) -> (r: String)
    requires
        t.representable(),
    ensures
        r@ == utc_text(*t),
{
    chrono::Utc.with_ymd_and_hms(t.year, t.month, t.day, t.hour, t.minute, t.second).unwrap().to_string()
}

/// Relies on chrono's `Utc.with_ymd_and_hms` (as above) and on
/// `DateTime::to_rfc3339`, which writes a zero offset as `+00:00` and no
/// fraction for whole seconds.
#[verifier::external_body]
fn rfc3339_display(t: &Time) -> (r: String)
    requires
        t.representable(),
    ensures
        r@ == rfc3339_text(*t),
{
    chrono::Utc.with_ymd_and_hms(t.year, t.month, t.day, t.hour, t.minute, t.second).unwrap().to_rfc3339()
}

/// Relies on chrono's `DateTime::parse_from_rfc3339`: the fields are those
/// written in the text (its offset is not applied), and they always form a
/// valid date and time with a four-digit year.
#[verifier::external_body]
fn parse_rfc3339(s: &str) -> (r: Option<(i32, u32, u32, u32, u32, u32)>)
    ensures
        r == rfc3339_fields(s@),
        r matches Some(f) ==> 0 <= f.0 <= 9999 && is_valid_civil(
            f.0 as int,
            f.1 as int,
            f.2 as int,
            f.3 as int,
            f.4 as int,
            f.5 as int,
        ),
{
    match chrono::DateTime::parse_from_rfc3339(s) {
        Ok(d) => Some((d.year(), d.month(), d.day(), d.hour(), d.minute(), d.second())),
        Err(_) => None,
    }
}

impl Time {
    /// Reads an RFC 3339 timestamp such as `2020-01-01T00:00:00Z`, keeping the
    /// date and time as written; `None` when the text is not one.
    pub fn from_isot_str(isot: &str) -> (r: Option<Time>)
        ensures
            rfc3339_fields(isot@) is None ==> r is None,
            rfc3339_fields(isot@) matches Some(f) ==> r == Some(
                Time { year: f.0, month: f.1, day: f.2, hour: f.3, minute: f.4, second: f.5 },
            ),
            r matches Some(t) ==> t.valid(),
    {
        match parse_rfc3339(isot) {
            Some(f) => Some(Time { year: f.0, month: f.1, day: f.2, hour: f.3, minute: f.4, second: f.5 }),
            None => None,
        }
    }

    /// Writes the time as `"jd"`, `"mjd"`, `"utc"` or `"isot"`; `None` means
    /// `"utc"`, and any other format gives `"Invalid format"`.
    pub fn to_string(&self, format: Option<&str>) -> (r: String)
        requires
            format matches Some(f) && (f@ == "utc"@ || f@ == "isot"@) ==> self.representable(),
            format is None ==> self.representable(),
        ensures
            format is None ==> r@ == utc_text(*self),
            format matches Some(f) && f@ == "jd"@ ==> r@ == day_text(self.jd_seconds()),
            format matches Some(f) && f@ == "mjd"@ ==> r@ == day_text(self.jd_seconds() - MJD_EPOCH_SECONDS),
            format matches Some(f) && f@ == "utc"@ ==> r@ == utc_text(*self),
            format matches Some(f) && f@ == "isot"@ ==> r@ == rfc3339_text(*self),
            format matches Some(f) && f@ != "jd"@ && f@ != "mjd"@ && f@ != "utc"@ && f@ != "isot"@
                ==> r@ == "Invalid format"@,
    {
        match format {
            None => utc_display(self),
            Some(f) => match format_of(f) {
                TextFormat::Jd => self.to_jd().to_string(),
                TextFormat::Mjd => self.to_mjd().to_string(),
                TextFormat::Utc => utc_display(self),
                TextFormat::Isot => rfc3339_display(self),
                TextFormat::Unknown => String::from_str("Invalid format"),
            },
        }
    }
}

/// The text forms that `Time::to_string` knows.
enum TextFormat {
    Jd,
    Mjd,
    Utc,
    Isot,
    Unknown,
}

fn format_of(f: &str) -> (r: TextFormat)
    ensures
        r is Jd <==> f@ == "jd"@,
        r is Mjd <==> f@ == "mjd"@,
        r is Utc <==> f@ == "utc"@,
        r is Isot <==> f@ == "isot"@,
{
    proof {
        reveal_strlit("jd");
        reveal_strlit("mjd");
        reveal_strlit("utc");
        reveal_strlit("isot");
        assert("jd"@.len() == 2 && "mjd"@.len() == 3 && "utc"@.len() == 3 && "isot"@.len() == 4);
        assert("mjd"@[0] != "utc"@[0]);
    }
    if same_text(f, "jd") {
        TextFormat::Jd
    } else if same_text(f, "mjd") {
        TextFormat::Mjd
    } else if same_text(f, "utc") {
        TextFormat::Utc
    } else if same_text(f, "isot") {
        TextFormat::Isot
    } else {
        TextFormat::Unknown
    }
}

} // verus!

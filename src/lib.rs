//! Astronomical time keeping on exact integers: civil UTC time, Julian and
//! modified Julian dates counted in seconds, and their text forms.

mod calendar;
mod text;
mod time;
mod utc;

pub use calendar::{
    civil_date, civil_fields, date_key, day_count, days_in_month, is_leap_year, is_valid_civil,
    time_of_day, FIRST_AGREEING_DATE, FIRST_AGREEING_DAY, JD_LIMIT, LAST_AGREEING_DATE, LAST_AGREEING_DAY, MJD_EPOCH_SECONDS,
    SOLAR_EPOCH_MILLIS,
};
pub use time::{lemma_jd_round_trip, lemma_round_trip, lemma_to_jd_strictly_increasing, JulianDate, ModifiedJulianDate, Time};

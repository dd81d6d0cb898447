use flare::{JulianDate, ModifiedJulianDate, Time, MJD_EPOCH_SECONDS};

fn jd_seconds(t: &Time) -> i64 {
    t.to_jd().seconds
}

#[test]
fn new_keeps_fields() {
    let date = Time::new(2020, 1, 1, 0, 0, 0);
    assert!(date.year == 2020);
    assert!(date.month == 1);
    assert!(date.day == 1);
    assert!(date.hour == 0);
    assert!(date.minute == 0);
    assert!(date.second == 0);
}

#[test]
fn new_accepts_out_of_range_fields() {
    let t = Time::new(2024, 13, 40, 25, 61, 61);
    assert_eq!(t.month, 13);
    assert!(!t.is_valid());
    // still a deterministic Julian Date
    assert_eq!(t.to_jd(), t.to_jd());
}

#[test]
fn to_jd_reference_value() {
    let date = Time::new(2024, 8, 24, 6, 35, 34);
    let jd = date.to_jd();
    assert_eq!(jd.seconds, 212591241334);
    assert_eq!(jd.to_string(), "2460546.774699074");
}

#[test]
fn to_jd_midnight_is_half_day() {
    let jd = Time::new(2020, 1, 1, 0, 0, 0).to_jd();
    assert_eq!(jd.seconds, 212444596800);
    assert_eq!(jd.seconds % 86400, 43200);
}

#[test]
fn to_mjd_is_jd_minus_offset() {
    let date = Time::new(2024, 8, 24, 6, 35, 34);
    let mjd = date.to_mjd();
    assert_eq!(mjd.seconds, date.to_jd().seconds - 207360043200);
    assert_eq!(mjd.seconds, date.to_jd().seconds - MJD_EPOCH_SECONDS);
    assert_eq!(mjd.to_string(), "60546.274699074");
    assert_eq!(date.to_jd().to_mjd(), mjd);
    assert_eq!(mjd.to_jd(), date.to_jd());
}

#[test]
fn from_jd_sunrise_instant() {
    // JD 2460564.0569609753, truncated to the second
    let date = Time::from_jd(JulianDate { seconds: 212592734521 });
    assert_eq!(date, Time::new(2024, 9, 10, 13, 22, 1));
    assert_eq!(date.to_string(None), "2024-09-10 13:22:01 UTC");
}

#[test]
fn from_jd_epoch() {
    assert_eq!(Time::from_jd(JulianDate { seconds: 0 }), Time::new(-4712, 1, 1, 12, 0, 0));
    assert_eq!(Time::from_jd(JulianDate { seconds: -1 }), Time::new(-4712, 1, 1, 11, 59, 59));
}

#[test]
fn from_jd_uses_julian_calendar_before_reform() {
    // day number 2299158 is 1582-10-02 in the Julian calendar
    let t = Time::from_jd(JulianDate { seconds: 2299157 * 86400 + 43200 });
    assert_eq!(t, Time::new(1582, 10, 2, 0, 0, 0));
    // day number 2299161 still takes the Julian branch: 1582-10-05 (Gregorian 10-15)
    let t = Time::from_jd(JulianDate { seconds: 2299160 * 86400 + 43200 });
    assert_eq!(t, Time::new(1582, 10, 5, 0, 0, 0));
    // the day after it is the first one named in the Gregorian calendar
    let t = Time::from_jd(JulianDate { seconds: 2299161 * 86400 + 43200 });
    assert_eq!(t, Time::new(1582, 10, 16, 0, 0, 0));
}

#[test]
fn from_mjd_epoch_2020() {
    let date = Time::from_mjd(ModifiedJulianDate { seconds: 58849 * 86400 });
    assert_eq!(date, Time::new(2020, 1, 1, 0, 0, 0));
}

#[test]
fn round_trip_inside_agreeing_range() {
    let times = [
        Time::new(1900, 3, 1, 0, 0, 0),
        Time::new(1999, 12, 31, 23, 59, 59),
        Time::new(2000, 2, 29, 12, 30, 45),
        Time::new(2024, 8, 24, 6, 35, 34),
        Time::new(2100, 2, 28, 23, 59, 59),
    ];
    for t in times.iter() {
        assert_eq!(Time::from_jd(t.to_jd()), *t);
        assert_eq!(Time::from_mjd(t.to_mjd()), *t);
    }
}

#[test]
fn round_trip_leaves_agreeing_range() {
    assert_eq!(Time::from_jd(Time::new(2100, 3, 1, 0, 0, 0).to_jd()), Time::new(2100, 3, 2, 0, 0, 0));
    assert_eq!(Time::from_jd(Time::new(1900, 2, 28, 0, 0, 0).to_jd()), Time::new(1900, 2, 27, 0, 0, 0));
}

#[test]
fn to_jd_increases_with_time() {
    let seq = [
        Time::new(1899, 12, 31, 23, 59, 59),
        Time::new(1900, 1, 1, 0, 0, 0),
        Time::new(1900, 2, 28, 23, 59, 59),
        Time::new(1900, 3, 1, 0, 0, 0),
        Time::new(2024, 2, 29, 0, 0, 0),
        Time::new(2024, 2, 29, 0, 0, 1),
        Time::new(2024, 3, 1, 0, 0, 0),
        Time::new(2024, 12, 31, 23, 59, 59),
        Time::new(2025, 1, 1, 0, 0, 0),
    ];
    for w in seq.windows(2) {
        assert!(jd_seconds(&w[0]) < jd_seconds(&w[1]));
    }
}

#[test]
fn validity_follows_gregorian_calendar() {
    assert!(Time::new(2024, 2, 29, 0, 0, 0).is_valid());
    assert!(Time::new(2000, 2, 29, 0, 0, 0).is_valid());
    assert!(!Time::new(1900, 2, 29, 0, 0, 0).is_valid());
    assert!(!Time::new(2023, 2, 29, 0, 0, 0).is_valid());
    assert!(!Time::new(2023, 4, 31, 0, 0, 0).is_valid());
    assert!(!Time::new(2023, 0, 1, 0, 0, 0).is_valid());
    assert!(!Time::new(2023, 1, 1, 24, 0, 0).is_valid());
    assert!(!Time::new(2023, 1, 1, 0, 60, 0).is_valid());
    assert!(!Time::new(2023, 1, 1, 0, 0, 60).is_valid());
    assert!(Time::new(-1, 12, 31, 23, 59, 59).is_valid());
}

#[test]
fn to_string_formats() {
    let date = Time::new(2020, 1, 1, 0, 0, 0);
    assert_eq!(date.to_string(Some("jd")), "2458849.5");
    assert_eq!(date.to_string(Some("mjd")), "58849");
    assert_eq!(date.to_string(Some("utc")), "2020-01-01 00:00:00 UTC");
    assert_eq!(date.to_string(Some("isot")), "2020-01-01T00:00:00+00:00");
    assert_eq!(date.to_string(None), "2020-01-01 00:00:00 UTC");
    assert_eq!(date.to_string(Some("JD")), "Invalid format");
    assert_eq!(date.to_string(Some("")), "Invalid format");
}

#[test]
fn to_string_utc_reference() {
    let date = Time::new(2024, 8, 24, 6, 35, 34);
    assert_eq!(date.to_string(Some("utc")), "2024-08-24 06:35:34 UTC");
    assert_eq!(date.to_string(Some("isot")), "2024-08-24T06:35:34+00:00");
}

#[test]
fn to_string_years_outside_four_digits() {
    assert_eq!(Time::new(10000, 1, 1, 0, 0, 0).to_string(None), "+10000-01-01 00:00:00 UTC");
    assert_eq!(Time::new(-1, 12, 31, 23, 59, 59).to_string(None), "-0001-12-31 23:59:59 UTC");
    assert_eq!(Time::new(-1, 12, 31, 23, 59, 59).to_string(Some("isot")), "-0001-12-31T23:59:59+00:00");
    assert_eq!(Time::new(7, 3, 4, 5, 6, 7).to_string(None), "0007-03-04 05:06:07 UTC");
}

#[test]
fn day_text_of_negative_and_whole_values() {
    assert_eq!(JulianDate { seconds: 0 }.to_string(), "0");
    assert_eq!(JulianDate { seconds: -43200 }.to_string(), "-0.5");
    assert_eq!(JulianDate { seconds: 86400 * 3 }.to_string(), "3");
    assert_eq!(JulianDate { seconds: 1 }.to_string(), "0.000011574");
    assert_eq!(ModifiedJulianDate { seconds: -86400 - 21600 }.to_string(), "-1.25");
    assert_eq!(JulianDate { seconds: i64::MIN }.to_string(), "-106751991167300.645925925");
}

#[test]
fn from_isot_str_reads_fields() {
    let date = Time::from_isot_str("2020-01-01T00:00:00Z").unwrap();
    assert_eq!(date, Time::new(2020, 1, 1, 0, 0, 0));
    let date = Time::from_isot_str("2024-09-10T13:22:01.75+02:00").unwrap();
    assert_eq!(date, Time::new(2024, 9, 10, 13, 22, 1));
}

#[test]
fn from_isot_str_refuses_other_text() {
    assert_eq!(Time::from_isot_str("2020-01-01"), None);
    assert_eq!(Time::from_isot_str("2023-02-29T00:00:00Z"), None);
    assert_eq!(Time::from_isot_str("not a time"), None);
}

#[test]
fn solar_cycle_of_reference_instant() {
    // JD 2460563.625 - 2451545.0009 - 69.184 / 86400 = 9018.623...
    let jd = Time::new(2024, 9, 10, 3, 0, 0).to_jd();
    assert_eq!(jd.seconds, 212592697200);
    assert_eq!(jd.solar_cycle(), 9019);
    // before the epoch the count rounds towards zero: ceil(-2451545.0017) = -2451545
    assert_eq!(JulianDate { seconds: 0 }.solar_cycle(), -2451545);
    // an instant just under a day boundary belongs to that day
    let on = JulianDate { seconds: (211813488146944 + 86400000 * 5) / 1000 };
    assert_eq!(on.seconds * 1000, 211813488146944 + 86400000 * 5 - 944);
    assert_eq!(on.solar_cycle(), 5);
}

#[test]
fn jd_round_trip_inside_agreeing_range() {
    let first = Time::new(1900, 3, 1, 0, 0, 0).to_jd();
    let last = Time::new(2100, 2, 28, 23, 59, 59).to_jd();
    assert_eq!((first.seconds + 43200) / 86400, flare::FIRST_AGREEING_DAY);
    assert_eq!((last.seconds + 43200) / 86400, flare::LAST_AGREEING_DAY);
    let samples = [
        first.seconds,
        first.seconds + 1,
        212444596800,
        212591241334,
        212592734521,
        last.seconds - 86399,
        last.seconds,
    ];
    for s in samples.iter() {
        let j = JulianDate { seconds: *s };
        let t = Time::from_jd(j);
        assert!(t.is_valid());
        assert_eq!(t.to_jd(), j);
    }
}

#[test]
fn jd_round_trip_leaves_agreeing_range() {
    // the day after 2100-02-28 is named 2100-03-01, whose closed-form day number skips one
    let j = JulianDate { seconds: Time::new(2100, 2, 28, 0, 0, 0).to_jd().seconds + 86400 };
    let t = Time::from_jd(j);
    assert_eq!(t, Time::new(2100, 3, 1, 0, 0, 0));
    assert_eq!(t.to_jd().seconds, j.seconds + 86400);
}

use suntimes::angle::Angle;
use suntimes::events::{get_sun_times2, get_sun_times_r, SunTimes};
use suntimes::julian::{CalendarDate, JulianCentury, JulianDay};
use suntimes::solar::equation_of_time;

fn date(y: i32, m: u32, d: u32) -> CalendarDate {
    CalendarDate::new(y, m, d).unwrap()
}

fn times(lat_nanodeg: i64, lon_nanodeg: i64, y: i32, m: u32, d: u32) -> SunTimes {
    get_sun_times2(
        Angle::from_deg(lat_nanodeg),
        Angle::from_deg(lon_nanodeg),
        date(y, m, d),
    )
}

#[test]
fn calendar_date_validation() {
    assert!(CalendarDate::new(2021, 2, 29).is_none());
    assert!(CalendarDate::new(2020, 2, 29).is_some());
    assert!(CalendarDate::new(2000, 2, 29).is_some());
    assert!(CalendarDate::new(1900, 2, 29).is_none());
    assert!(CalendarDate::new(2022, 0, 1).is_none());
    assert!(CalendarDate::new(2022, 13, 1).is_none());
    assert!(CalendarDate::new(2022, 4, 31).is_none());
}

// The calendar conversion leans on chrono; this pins the classical epoch
// value 2451544.5 for 2000-01-01 exactly, which fails if the conversion
// returned anything but the real civil day number.
#[test]
fn julian_day_epoch_value() {
    let jd = JulianDay::from_date(date(2000, 1, 1));
    assert_eq!(jd.nanos, 2_451_544_500_000_000);
    let jd2 = JulianDay::from_date(date(1970, 1, 1));
    assert_eq!(jd2.nanos, 2_440_587_500_000_000);
}

#[test]
fn julian_century_round_trip_stays_close() {
    for nanos in [
        0i64,
        123_456_789_012_345,
        -123_456_789_012_345,
        2_451_545_000_000_000,
        -7,
    ] {
        let back = JulianDay { nanos }.to_century().to_day();
        assert!((back.nanos - nanos).abs() < 36525);
    }
}

#[test]
fn duration_seconds_floor_not_truncation() {
    assert_eq!(JulianDay { nanos: -500_000_000 }.duration_secs(), -43200);
    assert_eq!(JulianDay { nanos: -1 }.duration_secs(), -1);
    assert_eq!(JulianDay { nanos: 500_000_000 }.duration_secs(), 43200);
    assert_eq!(JulianDay { nanos: 0 }.duration_secs(), 0);
}

#[test]
fn angle_trig_values() {
    let third = Angle::from_deg(30_000_000_000);
    assert!((third.sin() - 500_000_000).abs() <= 120);
    let sixtieth = Angle::from_deg(60_000_000_000);
    assert!((sixtieth.cos() - 500_000_000).abs() <= 120);
    let right = Angle::from_deg(90_000_000_000);
    assert!((right.sin() - 1_000_000_000).abs() <= 120);
    let zero = Angle::from_deg(0);
    assert_eq!(zero.sin(), 0);
    assert!((zero.cos() - 1_000_000_000).abs() <= 120);
}

#[test]
fn angle_day_fraction() {
    let quarter = Angle::from_deg(90_000_000_000);
    let d = JulianDay::from_angle(quarter);
    assert!((d.nanos - 250_000_000).abs() <= 5);
}

// Solar noon lands a few minutes after 11:10 UTC for this longitude and
// date: the longitude shifts apparent noon by about 34 minutes and the
// mid-October equation of time by another 14.
#[test]
fn solar_noon_scenario() {
    let st = times(52_021_820_000, 8_535_090_000, 2022, 10, 15);
    let day_start = 19280i64 * 86400;
    assert!(st.noon >= day_start + 11 * 3600);
    assert!(st.noon <= day_start + 11 * 3600 + 15 * 60);
    assert_eq!(st.noon, 1_665_832_297);
}

#[test]
fn event_ordering_mid_latitude() {
    let st = times(52_021_820_000, 8_535_090_000, 2022, 10, 15);
    let astro_dawn = st.astro_dawn.unwrap();
    let naut_dawn = st.naut_dawn.unwrap();
    let civil_dawn = st.civil_dawn.unwrap();
    let sunrise = st.sunrise.unwrap();
    let sunset = st.sunset.unwrap();
    let civil_dusk = st.civil_dusk.unwrap();
    let naut_dusk = st.naut_dusk.unwrap();
    let astro_dusk = st.astro_dusk.unwrap();
    assert!(astro_dawn < naut_dawn);
    assert!(naut_dawn < civil_dawn);
    assert!(civil_dawn < sunrise);
    assert!(sunrise < st.noon);
    assert!(st.noon < sunset);
    assert!(sunset < civil_dusk);
    assert!(civil_dusk < naut_dusk);
    assert!(naut_dusk < astro_dusk);
    assert_eq!(st.midnight, st.noon + 43200);
}

// At the equator the sunrise and sunset offsets from solar noon agree in
// magnitude to within the float-level tolerance of one part in a million of
// a radian, about fourteen seconds of time.
#[test]
fn equator_symmetry() {
    let st = times(0, 0, 2022, 3, 1);
    let before = st.noon - st.sunrise.unwrap();
    let after = st.sunset.unwrap() - st.noon;
    assert!((before - after).abs() <= 14);
    let st2 = times(0, 0, 2022, 9, 20);
    let before2 = st2.noon - st2.sunrise.unwrap();
    let after2 = st2.sunset.unwrap() - st2.noon;
    assert!((before2 - after2).abs() <= 14);
}

// Continuous polar day at 80 degrees north around the June solstice: the
// sun crosses none of the thresholds, so every optional event is absent.
#[test]
fn polar_day_no_events() {
    let st = times(80_000_000_000, 0, 2022, 6, 21);
    assert!(st.astro_dawn.is_none());
    assert!(st.naut_dawn.is_none());
    assert!(st.civil_dawn.is_none());
    assert!(st.sunrise.is_none());
    assert!(st.sunset.is_none());
    assert!(st.civil_dusk.is_none());
    assert!(st.naut_dusk.is_none());
    assert!(st.astro_dusk.is_none());
    assert_eq!(st.midnight, st.noon + 43200);
}

#[test]
fn flattened_struct_uses_zero_sentinel() {
    let tp = 19164i64 * 86400 + 7200;
    let st = get_sun_times_r(Angle::from_deg(80_000_000_000), Angle::from_deg(0), tp);
    assert_eq!(st.astro_dawn, 0);
    assert_eq!(st.naut_dawn, 0);
    assert_eq!(st.civil_dawn, 0);
    assert_eq!(st.sunrise, 0);
    assert_eq!(st.sunset, 0);
    assert_eq!(st.civil_dusk, 0);
    assert_eq!(st.naut_dusk, 0);
    assert_eq!(st.astro_dusk, 0);
    assert_eq!(st.midnight, st.noon + 43200);
    let st2 = times(80_000_000_000, 0, 2022, 6, 21);
    assert_eq!(st.noon, st2.noon);
}

// The equation of time stays well within twenty minutes of time (87266463
// fixed-point radians of time angle) across several centuries around the
// epoch.
#[test]
fn equation_of_time_stays_bounded() {
    for nanos in [
        0i64,
        227_000_000,
        -1_000_000_000,
        2_000_000_000,
        5_000_000_000,
        -5_000_000_000,
        1_234_567_890,
    ] {
        let et = equation_of_time(JulianCentury { nanos });
        assert!(et.rad().abs() <= 87_266_463);
    }
}

#[test]
fn polar_winter_short_day() {
    // Vostok station in mid-October: the sun rises and sets, but civil and
    // deeper twilights never end on the dusk side of that UTC day.
    let st = times(-78_463_889_000, 106_837_570_000, 2022, 10, 15);
    assert!(st.sunrise.is_some());
    assert!(st.sunset.is_some());
    assert!(st.astro_dawn.is_none());
    assert!(st.astro_dusk.is_none());
    let sunrise = st.sunrise.unwrap();
    let sunset = st.sunset.unwrap();
    assert!(sunrise < sunset);
}

#[test]
fn tangent_values() {
    let eighth = Angle::from_deg(45_000_000_000);
    let t = eighth.tan().unwrap();
    assert!((t - 1_000_000_000).abs() <= 300);
    // At a quarter turn the fixed-point cosine is exactly zero and the
    // tangent is undefined.
    let quarter = Angle::from_rad(1_570_796_327);
    assert!(quarter.tan().is_none());
}

#[test]
fn degree_round_trip() {
    let half_turn = Angle::from_deg(180_000_000_000);
    let back = half_turn.deg();
    assert!((back - 180_000_000_000).abs() <= 100);
    assert_eq!(Angle::from_rad(7).rad(), 7);
}

#[test]
fn julian_century_from_date_value() {
    let c = JulianCentury::from_date(date(2000, 1, 1));
    assert_eq!(c.nanos, 67_119_630_390);
}

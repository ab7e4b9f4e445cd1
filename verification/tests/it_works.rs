use chrono::{DateTime, Datelike, FixedOffset, Local, NaiveDate, NaiveDateTime, NaiveTime, TimeZone, Utc};
use suntimes::angle::Angle;
use suntimes::events::{get_sun_times2, SunTimes};
use suntimes::julian::CalendarDate;

fn make_tp(year: i32, month: u32, day: u32, hour: u32) -> NaiveDateTime {
    let date = NaiveDate::from_ymd_opt(year, month, day).unwrap();
    let time = NaiveTime::from_hms_opt(hour, 0, 0).unwrap();
    NaiveDateTime::new(date, time)
}

fn sun_times_for(latitude: f64, longitude: f64, date: NaiveDate) -> SunTimes {
    let lat = Angle::from_deg((latitude * 1e9) as i64);
    let lon = Angle::from_deg((longitude * 1e9) as i64);
    let cal = CalendarDate::new(date.year(), date.month(), date.day()).unwrap();
    assert!(cal.year >= -6000 && cal.year <= 6000);
    get_sun_times2(lat, lon, cal)
}

fn utc_of(secs: i64) -> DateTime<Utc> {
    DateTime::from_timestamp(secs, 0).unwrap()
}

#[test]
fn it_works() {
    let dates = vec![
        make_tp(2022, 10, 15, 4),
        make_tp(2022, 10, 15, 12),
        make_tp(2022, 10, 15, 20),
        make_tp(2022, 10, 15, 22),
        make_tp(2022, 10, 15, 23),
        make_tp(2022, 10, 16, 0),
        make_tp(2022, 10, 17, 0),
        make_tp(2022, 10, 18, 0),
        make_tp(2022, 10, 19, 0),
        make_tp(2022, 10, 20, 0),
        make_tp(2022, 10, 21, 0),
        make_tp(2022, 10, 22, 0),
    ];

    struct Location {
        latitude: f64,
        longitude: f64,
        zone: FixedOffset,
    }

    let locations = vec![Location {
        latitude: -78.463889,
        longitude: 106.83757,
        zone: FixedOffset::east_opt(6 * 60 * 60).unwrap(),
    }];

    fn print_time<T: TimeZone>(s: &str, time: Option<DateTime<T>>)
    where
        T::Offset: std::fmt::Display,
    {
        let my_str = if let Some(time) = time {
            format!("{}", time.format("%c %z"))
        } else {
            String::from("       does not happen        ")
        };
        println!("{}: {} UTC", s, my_str);
    }

    for l in &locations {
        let lat = l.latitude;
        let lon = l.longitude;
        for d in &dates {
            let tp = l.zone.from_local_datetime(d).unwrap();
            let utc = Utc.from_utc_datetime(&tp.naive_local());

            let times = sun_times_for(lat, lon, utc.date_naive());

            let map_zone = |opt: Option<i64>| opt.map(|v| l.zone.from_utc_datetime(&utc_of(v).naive_utc()));

            println!("==== check at {} ====", tp.format("%c %z"));
            print_time(" a. dawn", map_zone(times.astro_dawn));
            print_time(" n. dawn", map_zone(times.naut_dawn));
            print_time(" c. dawn", map_zone(times.civil_dawn));
            print_time(" sunrise", map_zone(times.sunrise));
            print_time("    noon", map_zone(Some(times.noon)));
            print_time("  sunset", map_zone(times.sunset));
            print_time(" c. dusk", map_zone(times.civil_dusk));
            print_time(" n. dusk", map_zone(times.naut_dusk));
            print_time(" a. dusk", map_zone(times.astro_dusk));
            print_time("midnight", map_zone(Some(times.midnight)));
        }
    }

    let lat = 52.02182;
    let lon = 8.53509;
    let now = Local::now();
    let utc = Utc.from_utc_datetime(&now.naive_local());

    let times = sun_times_for(lat, lon, utc.date_naive());

    let map_zone = |opt: Option<i64>| opt.map(|v| Local.from_utc_datetime(&utc_of(v).naive_utc()));

    println!("==== check at {} ====", now.format("%c %z"));
    print_time(" a. dawn", map_zone(times.astro_dawn));
    print_time(" n. dawn", map_zone(times.naut_dawn));
    print_time(" c. dawn", map_zone(times.civil_dawn));
    print_time(" sunrise", map_zone(times.sunrise));
    print_time("    noon", map_zone(Some(times.noon)));
    print_time("  sunset", map_zone(times.sunset));
    print_time(" c. dusk", map_zone(times.civil_dusk));
    print_time(" n. dusk", map_zone(times.naut_dusk));
    print_time(" a. dusk", map_zone(times.astro_dusk));
    print_time("midnight", map_zone(Some(times.midnight)));
}

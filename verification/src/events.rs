//! The ten named solar events of a day: true solar noon and midnight,
//! sunrise and sunset, and the three graded twilight boundaries on each
//! side, each mapped to its target elevation and computed from the solvers.

use crate::angle::{deg_to_rad, Angle};
use crate::fixed::{lemma_sdiv_lower, lemma_sdiv_quotient_bound, lemma_sdiv_window, mag, SCALE};
use crate::julian::{
    century_of_day, days_from_civil, duration_secs_of_day, lemma_days_window, CalendarDate,
    JulianDay, JD_UNIX_EPOCH,
};
use crate::solar::{
    spec_time_of_solar_elevation, spec_time_of_solar_noon, time_of_solar_elevation,
    time_of_solar_noon,
};
use vstd::prelude::*;

verus! {

/// Elevation of the sun at the astronomical twilight boundary, fixed-point
/// degrees from the horizon.
pub const ASTRO_TWILIGHT_ELEV: i64 = -18_000_000_000;

/// Elevation of the sun at the nautical twilight boundary.
pub const NAUT_TWILIGHT_ELEV: i64 = -12_000_000_000;

/// Elevation of the sun at the civil twilight boundary.
pub const CIVIL_TWILIGHT_ELEV: i64 = -6_000_000_000;

/// Elevation of the sun's center at sunrise and sunset: the solar disc
/// radius plus standard atmospheric refraction.
pub const DAYTIME_ELEV: i64 = -833_000_000;

/// The fixed-point Julian day of the epoch the solvers measure from.
pub const JD_BASELINE: i64 = 2_451_545_000_000_000;

/// Largest day count from the Unix epoch the event functions accept.
pub const DAYS_LIMIT: i64 = 3_100_000;

/// The ten named solar events of a day.
#[derive(Clone, Copy, PartialEq, Eq, Structural, Debug)]
pub enum SunTime {
    Noon,
    Midnight,
    AstroDawn,
    NautDawn,
    CivilDawn,
    Sunrise,
    Sunset,
    CivilDusk,
    NautDusk,
    AstroDusk,
}

/// The target angle of an elevation-crossing event: the zenith distance of
/// its threshold, negated on the dawn side so that the hour angle's sign
/// convention serves both sides. Zero for noon and midnight, which have no
/// elevation target.
pub open spec fn spec_time_angle(ty: SunTime) -> int {
    match ty {
        SunTime::AstroDawn => deg_to_rad(-90_000_000_000 + ASTRO_TWILIGHT_ELEV),
        SunTime::NautDawn => deg_to_rad(-90_000_000_000 + NAUT_TWILIGHT_ELEV),
        SunTime::CivilDawn => deg_to_rad(-90_000_000_000 + CIVIL_TWILIGHT_ELEV),
        SunTime::Sunrise => deg_to_rad(-90_000_000_000 + DAYTIME_ELEV),
        SunTime::Sunset => deg_to_rad(90_000_000_000 - DAYTIME_ELEV),
        SunTime::CivilDusk => deg_to_rad(90_000_000_000 - CIVIL_TWILIGHT_ELEV),
        SunTime::NautDusk => deg_to_rad(90_000_000_000 - NAUT_TWILIGHT_ELEV),
        SunTime::AstroDusk => deg_to_rad(90_000_000_000 - ASTRO_TWILIGHT_ELEV),
        _ => 0,
    }
}

/// The UTC-second instant of one event on the day `days` after the Unix
/// epoch, or `None` where the event does not occur that day. Noon and
/// midnight always occur; midnight is noon plus exactly twelve hours.
pub open spec fn spec_sun_time_for_day(lat: int, lon: int, days: int, ty: SunTime) -> Option<int> {
    let jc = century_of_day(days * SCALE + JD_UNIX_EPOCH) - century_of_day(JD_BASELINE as int);
    let noon_off = spec_time_of_solar_noon(jc, lon);
    let noon_ts = days * 86400 + duration_secs_of_day(noon_off);
    match ty {
        SunTime::Noon => Some(noon_ts),
        SunTime::Midnight => Some(noon_ts + 43200),
        _ => {
            let j_noon = jc + century_of_day(noon_off);
            match spec_time_of_solar_elevation(j_noon, lat, lon, spec_time_angle(ty)) {
                None => None,
                Some(off) => Some(days * 86400 + duration_secs_of_day(off)),
            }
        },
    }
}

/// The UTC-second instant of one event on a calendar date.
pub open spec fn spec_get_sun_time(lat: int, lon: int, date: CalendarDate, ty: SunTime) -> Option<
    int,
> {
    spec_sun_time_for_day(
        lat,
        lon,
        days_from_civil(date.year as int, date.month as int, date.day as int),
        ty,
    )
}

/// An optional second count, widened to the ghost integers.
pub open spec fn opt_ts(o: Option<i64>) -> Option<int> {
    match o {
        Some(v) => Some(v as int),
        None => None,
    }
}

/// An optional second count flattened with zero (the Unix epoch) standing
/// for an event that does not occur.
pub open spec fn spec_sentinel(o: Option<int>) -> int {
    match o {
        Some(v) => v,
        None => 0,
    }
}

/// The ten events of one day as UTC-second instants; noon and midnight
/// always exist, the elevation-crossing events are optional.
#[derive(Clone, Copy, Debug)]
pub struct SunTimes {
    pub noon: i64,
    pub midnight: i64,
    pub astro_dawn: Option<i64>,
    pub naut_dawn: Option<i64>,
    pub civil_dawn: Option<i64>,
    pub sunrise: Option<i64>,
    pub sunset: Option<i64>,
    pub civil_dusk: Option<i64>,
    pub naut_dusk: Option<i64>,
    pub astro_dusk: Option<i64>,
}

/// The ten events flattened to plain integers for a foreign-call boundary:
/// an event that does not occur carries the sentinel timestamp zero.
#[derive(Clone, Copy, PartialEq, Eq, Structural, Debug)]
pub struct SunTimesC {
    pub noon: i64,
    pub midnight: i64,
    pub astro_dawn: i64,
    pub naut_dawn: i64,
    pub civil_dawn: i64,
    pub sunrise: i64,
    pub sunset: i64,
    pub civil_dusk: i64,
    pub naut_dusk: i64,
    pub astro_dusk: i64,
}

/// The target angle of an elevation-crossing event.
pub fn time_angle(time_type: SunTime) -> (r: Angle)
    requires
        !(time_type is Noon),
        !(time_type is Midnight),
    ensures
        r.nanorad == spec_time_angle(time_type),
        mag(r.nanorad as int) <= 2_000_000_000,
{
    let deg: i64 = match time_type {
        SunTime::AstroDawn => -90_000_000_000 + ASTRO_TWILIGHT_ELEV,
        SunTime::NautDawn => -90_000_000_000 + NAUT_TWILIGHT_ELEV,
        SunTime::CivilDawn => -90_000_000_000 + CIVIL_TWILIGHT_ELEV,
        SunTime::Sunrise => -90_000_000_000 + DAYTIME_ELEV,
        SunTime::Sunset => 90_000_000_000 - DAYTIME_ELEV,
        SunTime::CivilDusk => 90_000_000_000 - CIVIL_TWILIGHT_ELEV,
        SunTime::NautDusk => 90_000_000_000 - NAUT_TWILIGHT_ELEV,
        SunTime::AstroDusk => 90_000_000_000 - ASTRO_TWILIGHT_ELEV,
        _ => 0,
    };
    proof {
        crate::fixed::lemma_mul_mag(
            deg as int,
            crate::angle::DEG_RAD_NUM as int,
            109_000_000_000,
            crate::angle::DEG_RAD_NUM as int,
        );
        lemma_sdiv_quotient_bound(
            deg as int * crate::angle::DEG_RAD_NUM as int,
            crate::angle::DEG_RAD_DEN as int,
            2_000_000_000,
        );
    }
    Angle::from_deg(deg)
}

/// One event's UTC-second instant on the day `days` after the Unix epoch.
pub fn sun_time_for_day(latitude: Angle, longitude: Angle, days: i64, ty: SunTime) -> (r: Option<
    i64,
>)
    requires
        mag(days as int) <= DAYS_LIMIT as int,
        mag(latitude.nanorad as int) <= crate::solar::INPUT_ANGLE_MAX as int,
        mag(longitude.nanorad as int) <= crate::solar::INPUT_ANGLE_MAX as int,
    ensures
        opt_ts(r) == spec_sun_time_for_day(
            latitude.nanorad as int,
            longitude.nanorad as int,
            days as int,
            ty,
        ),
{
    let jd = JulianDay { nanos: days * SCALE + JD_UNIX_EPOCH };
    proof {
        lemma_sdiv_window(jd.nanos as int, 36525, 18_100_000_000, 151_800_000_000);
        lemma_sdiv_quotient_bound(JD_BASELINE as int, 36525, 67_120_000_000);
        lemma_sdiv_lower(JD_BASELINE as int, 36525, 67_119_000_000);
    }
    let j_day = jd.to_century().minus_day(JulianDay { nanos: JD_BASELINE });
    let a_noon = time_of_solar_noon(j_day, longitude);
    let noon_secs = a_noon.duration_secs();
    let base_ts = days * 86400;
    let noon_ts = base_ts + noon_secs;
    match ty {
        SunTime::Noon => Some(noon_ts),
        SunTime::Midnight => Some(noon_ts + 43200),
        _ => {
            proof {
                lemma_sdiv_quotient_bound(a_noon.nanos as int, 36525, 83_000_000);
            }
            let j_noon = j_day.plus_day(a_noon);
            let target = time_angle(ty);
            let off = time_of_solar_elevation(j_noon, latitude, longitude, target);
            match off {
                None => None,
                Some(d) => Some(base_ts + d.duration_secs()),
            }
        },
    }
}

/// One event's UTC-second instant on a calendar date, read at UTC midnight.
pub fn get_sun_time(latitude: Angle, longitude: Angle, date: CalendarDate, ty: SunTime) -> (r:
    Option<i64>)
    requires
        date.is_valid(),
        -6000 <= date.year <= 6000,
        mag(latitude.nanorad as int) <= crate::solar::INPUT_ANGLE_MAX as int,
        mag(longitude.nanorad as int) <= crate::solar::INPUT_ANGLE_MAX as int,
    ensures
        opt_ts(r) == spec_get_sun_time(latitude.nanorad as int, longitude.nanorad as int, date, ty),
{
    let days = date.days_since_epoch();
    proof {
        lemma_days_window(date.year as int, date.month as int, date.day as int);
    }
    sun_time_for_day(latitude, longitude, days, ty)
}

/// All ten events of the day `days` after the Unix epoch. Midnight is noon
/// plus exactly twelve hours.
pub fn sun_times_for_day(latitude: Angle, longitude: Angle, days: i64) -> (r: SunTimes)
    requires
        mag(days as int) <= DAYS_LIMIT as int,
        mag(latitude.nanorad as int) <= crate::solar::INPUT_ANGLE_MAX as int,
        mag(longitude.nanorad as int) <= crate::solar::INPUT_ANGLE_MAX as int,
    ensures
        Some(r.noon as int) == spec_sun_time_for_day(
            latitude.nanorad as int,
            longitude.nanorad as int,
            days as int,
            SunTime::Noon,
        ),
        Some(r.midnight as int) == spec_sun_time_for_day(
            latitude.nanorad as int,
            longitude.nanorad as int,
            days as int,
            SunTime::Midnight,
        ),
        r.midnight == r.noon + 43200,
        opt_ts(r.astro_dawn) == spec_sun_time_for_day(
            latitude.nanorad as int,
            longitude.nanorad as int,
            days as int,
            SunTime::AstroDawn,
        ),
        opt_ts(r.naut_dawn) == spec_sun_time_for_day(
            latitude.nanorad as int,
            longitude.nanorad as int,
            days as int,
            SunTime::NautDawn,
        ),
        opt_ts(r.civil_dawn) == spec_sun_time_for_day(
            latitude.nanorad as int,
            longitude.nanorad as int,
            days as int,
            SunTime::CivilDawn,
        ),
        opt_ts(r.sunrise) == spec_sun_time_for_day(
            latitude.nanorad as int,
            longitude.nanorad as int,
            days as int,
            SunTime::Sunrise,
        ),
        opt_ts(r.sunset) == spec_sun_time_for_day(
            latitude.nanorad as int,
            longitude.nanorad as int,
            days as int,
            SunTime::Sunset,
        ),
        opt_ts(r.civil_dusk) == spec_sun_time_for_day(
            latitude.nanorad as int,
            longitude.nanorad as int,
            days as int,
            SunTime::CivilDusk,
        ),
        opt_ts(r.naut_dusk) == spec_sun_time_for_day(
            latitude.nanorad as int,
            longitude.nanorad as int,
            days as int,
            SunTime::NautDusk,
        ),
        opt_ts(r.astro_dusk) == spec_sun_time_for_day(
            latitude.nanorad as int,
            longitude.nanorad as int,
            days as int,
            SunTime::AstroDusk,
        ),
{
    let noon = sun_time_for_day(latitude, longitude, days, SunTime::Noon);
    let midnight = sun_time_for_day(latitude, longitude, days, SunTime::Midnight);
    SunTimes {
        noon: noon.unwrap(),
        midnight: midnight.unwrap(),
        astro_dawn: sun_time_for_day(latitude, longitude, days, SunTime::AstroDawn),
        naut_dawn: sun_time_for_day(latitude, longitude, days, SunTime::NautDawn),
        civil_dawn: sun_time_for_day(latitude, longitude, days, SunTime::CivilDawn),
        sunrise: sun_time_for_day(latitude, longitude, days, SunTime::Sunrise),
        sunset: sun_time_for_day(latitude, longitude, days, SunTime::Sunset),
        civil_dusk: sun_time_for_day(latitude, longitude, days, SunTime::CivilDusk),
        naut_dusk: sun_time_for_day(latitude, longitude, days, SunTime::NautDusk),
        astro_dusk: sun_time_for_day(latitude, longitude, days, SunTime::AstroDusk),
    }
}

/// All ten events of a calendar day.
pub fn get_sun_times2(latitude: Angle, longitude: Angle, date: CalendarDate) -> (r: SunTimes)
    requires
        date.is_valid(),
        -6000 <= date.year <= 6000,
        mag(latitude.nanorad as int) <= crate::solar::INPUT_ANGLE_MAX as int,
        mag(longitude.nanorad as int) <= crate::solar::INPUT_ANGLE_MAX as int,
    ensures
        Some(r.noon as int) == spec_get_sun_time(
            latitude.nanorad as int,
            longitude.nanorad as int,
            date,
            SunTime::Noon,
        ),
        r.midnight == r.noon + 43200,
        opt_ts(r.astro_dawn) == spec_get_sun_time(
            latitude.nanorad as int,
            longitude.nanorad as int,
            date,
            SunTime::AstroDawn,
        ),
        opt_ts(r.naut_dawn) == spec_get_sun_time(
            latitude.nanorad as int,
            longitude.nanorad as int,
            date,
            SunTime::NautDawn,
        ),
        opt_ts(r.civil_dawn) == spec_get_sun_time(
            latitude.nanorad as int,
            longitude.nanorad as int,
            date,
            SunTime::CivilDawn,
        ),
        opt_ts(r.sunrise) == spec_get_sun_time(
            latitude.nanorad as int,
            longitude.nanorad as int,
            date,
            SunTime::Sunrise,
        ),
        opt_ts(r.sunset) == spec_get_sun_time(
            latitude.nanorad as int,
            longitude.nanorad as int,
            date,
            SunTime::Sunset,
        ),
        opt_ts(r.civil_dusk) == spec_get_sun_time(
            latitude.nanorad as int,
            longitude.nanorad as int,
            date,
            SunTime::CivilDusk,
        ),
        opt_ts(r.naut_dusk) == spec_get_sun_time(
            latitude.nanorad as int,
            longitude.nanorad as int,
            date,
            SunTime::NautDusk,
        ),
        opt_ts(r.astro_dusk) == spec_get_sun_time(
            latitude.nanorad as int,
            longitude.nanorad as int,
            date,
            SunTime::AstroDusk,
        ),
{
    let days = date.days_since_epoch();
    proof {
        lemma_days_window(date.year as int, date.month as int, date.day as int);
    }
    sun_times_for_day(latitude, longitude, days)
}

/// All ten events of the UTC day containing the timestamp `tp`, flattened
/// with the sentinel zero for an event that does not occur.
pub fn get_sun_times_r(latitude: Angle, longitude: Angle, tp: i64) -> (r: SunTimesC)
    requires
        mag(tp as int) <= 215_000_000_000,
        mag(latitude.nanorad as int) <= crate::solar::INPUT_ANGLE_MAX as int,
        mag(longitude.nanorad as int) <= crate::solar::INPUT_ANGLE_MAX as int,
    ensures
        ({
            let days = (tp as int) / 86400;
            let lat = latitude.nanorad as int;
            let lon = longitude.nanorad as int;
            &&& Some(r.noon as int) == spec_sun_time_for_day(lat, lon, days, SunTime::Noon)
            &&& r.midnight == r.noon + 43200
            &&& r.astro_dawn == spec_sentinel(
                spec_sun_time_for_day(lat, lon, days, SunTime::AstroDawn),
            )
            &&& r.naut_dawn == spec_sentinel(
                spec_sun_time_for_day(lat, lon, days, SunTime::NautDawn),
            )
            &&& r.civil_dawn == spec_sentinel(
                spec_sun_time_for_day(lat, lon, days, SunTime::CivilDawn),
            )
            &&& r.sunrise == spec_sentinel(spec_sun_time_for_day(lat, lon, days, SunTime::Sunrise))
            &&& r.sunset == spec_sentinel(spec_sun_time_for_day(lat, lon, days, SunTime::Sunset))
            &&& r.civil_dusk == spec_sentinel(
                spec_sun_time_for_day(lat, lon, days, SunTime::CivilDusk),
            )
            &&& r.naut_dusk == spec_sentinel(
                spec_sun_time_for_day(lat, lon, days, SunTime::NautDusk),
            )
            &&& r.astro_dusk == spec_sentinel(
                spec_sun_time_for_day(lat, lon, days, SunTime::AstroDusk),
            )
        }),
{
    proof {
        vstd::arithmetic::div_mod::lemma_fundamental_div_mod(tp as int, 86400);
        vstd::arithmetic::div_mod::lemma_mod_bound(tp as int, 86400);
    }
    let days = crate::fixed::divf(tp as i128, 86400) as i64;
    let res = sun_times_for_day(latitude, longitude, days);
    SunTimesC {
        noon: res.noon,
        midnight: res.midnight,
        astro_dawn: match res.astro_dawn {
            Some(v) => v,
            None => 0,
        },
        naut_dawn: match res.naut_dawn {
            Some(v) => v,
            None => 0,
        },
        civil_dawn: match res.civil_dawn {
            Some(v) => v,
            None => 0,
        },
        sunrise: match res.sunrise {
            Some(v) => v,
            None => 0,
        },
        sunset: match res.sunset {
            Some(v) => v,
            None => 0,
        },
        civil_dusk: match res.civil_dusk {
            Some(v) => v,
            None => 0,
        },
        naut_dusk: match res.naut_dusk {
            Some(v) => v,
            None => 0,
        },
        astro_dusk: match res.astro_dusk {
            Some(v) => v,
            None => 0,
        },
    }
}

} // verus!

//! The solar position model: empirically fitted polynomial approximations of
//! the sun's orbital elements as functions of a Julian-century time
//! parameter, and the two-pass iterative solvers for solar noon and for the
//! crossing time of a target elevation.
//!
//! Every executable function computes exactly the ghost model bearing its
//! name with a `spec_` prefix; the model is the fixed-point transcription of
//! the classical degree-valued polynomials.

use crate::angle::{deg_to_rad, rad_to_deg, Angle};
use crate::fixed::{
    lemma_mul_mag, lemma_muldiv_bound, lemma_sdiv_lower, lemma_sdiv_mag, lemma_sdiv_quotient_bound,
    lemma_sdiv_window, mag, muldiv, mulscale, remt, sdiv, smod, SCALE,
};
use crate::julian::{century_of_day, day_of_angle, JulianCentury, JulianDay};
use crate::trig::{acos_fx, cos_fx, sin_fx, PI_N};
use vstd::prelude::*;

verus! {

/// Largest Julian-century magnitude the model accepts (one hundred
/// centuries on either side of the Julian epoch origin used by callers).
pub const CENTURY_MAX: i64 = 100_000_000_000;

/// Largest Julian-century magnitude the solvers accept; the margin below
/// `CENTURY_MAX` absorbs the day-fraction corrections of the passes.
pub const SOLVER_CENTURY_MAX: i64 = 99_000_000_000;

/// Largest latitude, longitude or elevation angle magnitude the solvers
/// accept, in fixed-point radians (several full turns).
pub const INPUT_ANGLE_MAX: i64 = 10_000_000_000;

/// Geometric mean longitude of the sun, fixed-point radians. The 360-degree
/// reduction applies to the polynomial term only, not to the leading
/// constant; downstream consumers apply periodic functions, so the partial
/// reduction is harmless and is kept exactly as stated.
pub open spec fn spec_mean_longitude(t: int) -> int {
    deg_to_rad(
        280_466_460_000 + smod(
            sdiv(t * (36_000_769_830_000 + mulscale(t, 303_200)), SCALE as int),
            360_000_000_000,
        ),
    )
}

/// Geometric mean anomaly of the sun, fixed-point radians.
pub open spec fn spec_mean_anomaly(t: int) -> int {
    deg_to_rad(357_529_110_000 + sdiv(t * (35_999_050_290_000 - mulscale(t, 153_700)), SCALE as int))
}

/// Eccentricity of the earth's orbit, a fixed-point ratio.
pub open spec fn spec_eccentricity(t: int) -> int {
    16_708_634 - sdiv(t * (42_037 + sdiv(t * 1_267, 10_000_000_000)), SCALE as int)
}

/// Equation of center of the sun, fixed-point radians.
pub open spec fn spec_equation_of_center(t: int) -> int {
    let m = spec_mean_anomaly(t);
    let c1 = mulscale(
        sin_fx(m),
        1_914_602_000 - sdiv(t * (4_817_000 + mulscale(t, 14_000)), SCALE as int),
    );
    let c2 = mulscale(sin_fx(2 * m), 19_993_000 - mulscale(t, 101_000));
    let c3 = mulscale(sin_fx(3 * m), 289_000);
    deg_to_rad(c1 + c2 + c3)
}

/// Longitude of the ascending node of the moon's orbit, the argument of the
/// nutation correction, fixed-point radians.
pub open spec fn spec_omega(t: int) -> int {
    deg_to_rad(125_040_000_000 - mulscale(t, 1_934_136_000_000))
}

/// Apparent longitude of the sun: true longitude corrected for nutation and
/// aberration, fixed-point radians.
pub open spec fn spec_apparent_longitude(t: int) -> int {
    spec_mean_longitude(t) + spec_equation_of_center(t) - deg_to_rad(
        5_690_000 + mulscale(4_780_000, sin_fx(spec_omega(t))),
    )
}

/// Mean obliquity of the ecliptic, fixed-point radians.
pub open spec fn spec_mean_obliquity(t: int) -> int {
    deg_to_rad(
        23_000_000_000 + sdiv(
            26_000_000_000 + sdiv(
                21_448_000_000 - sdiv(
                    t * (46_815_000_000 + mulscale(t, 590_000 - mulscale(t, 1_813_000))),
                    SCALE as int,
                ),
                60,
            ),
            60,
        ),
    )
}

/// Obliquity of the ecliptic corrected for nutation, fixed-point radians.
pub open spec fn spec_obliquity_correction(t: int) -> int {
    spec_mean_obliquity(t) + deg_to_rad(mulscale(2_560_000, cos_fx(spec_omega(t))))
}

/// Declination of the sun, fixed-point radians.
pub open spec fn spec_declination(t: int) -> int {
    crate::trig::asin_fx(mulscale(sin_fx(spec_obliquity_correction(t)), sin_fx(spec_apparent_longitude(t))))
}

/// The axial factor of the equation of time: the squared tangent of half
/// the corrected obliquity, a fixed-point ratio. Zero in the guarded case
/// where the fixed-point cosine of the half-obliquity is close to zero,
/// which no time parameter within the model's validity range produces.
pub open spec fn spec_tilt_factor(t: int) -> int {
    let half = sdiv(spec_obliquity_correction(t), 2);
    let ch = cos_fx(half);
    if mag(ch) < 500_000_000 {
        0
    } else {
        let tanh = sdiv(sin_fx(half) * SCALE, ch);
        mulscale(tanh, tanh)
    }
}

/// Equation of time: the difference between apparent and mean solar time,
/// as a fixed-point radian time angle (a full turn is one day). Zero in the
/// same guarded case as `spec_tilt_factor`.
pub open spec fn spec_equation_of_time(t: int) -> int {
    let half = sdiv(spec_obliquity_correction(t), 2);
    let ch = cos_fx(half);
    if mag(ch) < 500_000_000 {
        0
    } else {
        let y = spec_tilt_factor(t);
        let ml = spec_mean_longitude(t);
        let ma = spec_mean_anomaly(t);
        let e = spec_eccentricity(t);
        let term1 = mulscale(y, sin_fx(2 * ml));
        let term2 = 2 * mulscale(e, sin_fx(ma));
        let term3 = 4 * mulscale(e, mulscale(y, mulscale(sin_fx(ma), cos_fx(2 * ml))));
        let term4 = sdiv(mulscale(mulscale(y, y), sin_fx(4 * ml)), 2);
        let term5 = sdiv(5 * mulscale(mulscale(e, e), sin_fx(2 * ma)), 4);
        term1 - term2 + term3 - term4 - term5
    }
}

/// Hour angle at which the sun crosses the target elevation, fixed-point
/// radians, signed oppositely to the elevation argument. `None` where the
/// fixed-point arc-cosine argument leaves the unit interval (the elevation
/// is never reached that day: continuous polar day or night), or where a
/// cosine denominator vanishes (a pole).
pub open spec fn spec_hour_angle(t: int, lat: int, elev: int) -> Option<int> {
    let decl = spec_declination(t);
    let cl = cos_fx(lat);
    let cd = cos_fx(decl);
    let denom = mulscale(cl, cd);
    if denom == 0 {
        None
    } else {
        let tl = sdiv(sin_fx(lat) * SCALE, cl);
        let td = sdiv(sin_fx(decl) * SCALE, cd);
        let arg = sdiv(cos_fx(elev) * SCALE, denom) - sdiv(tl * td, SCALE as int);
        if arg > SCALE || arg < -SCALE {
            None
        } else {
            if elev >= 0 {
                Some(-acos_fx(arg))
            } else {
                Some(acos_fx(arg))
            }
        }
    }
}

/// Day-fraction offset of solar noon from the day baseline: the longitude
/// offset from the half turn, refined twice through the equation of time.
pub open spec fn spec_time_of_solar_noon(day: int, lon: int) -> int {
    let tp1 = day + century_of_day(day_of_angle(PI_N - lon));
    let e1 = spec_equation_of_time(tp1);
    let tp2 = day + century_of_day(day_of_angle(PI_N - lon - e1));
    let e2 = spec_equation_of_time(tp2);
    day_of_angle(PI_N - lon - e2)
}

/// Day-fraction offset of the instant the sun crosses the target elevation,
/// or `None` where no such instant exists that day. A first hour angle at
/// noon gives an approximate time; the equation of time and the hour angle
/// are then recomputed there for the final offset.
pub open spec fn spec_time_of_solar_elevation(noon: int, lat: int, lon: int, elev: int) -> Option<
    int,
> {
    match spec_hour_angle(noon, lat, elev) {
        None => None,
        Some(a1) => {
            let tp = noon - century_of_day(day_of_angle(a1));
            match spec_hour_angle(tp, lat, elev) {
                None => None,
                Some(a2) => Some(day_of_angle(PI_N - lon - spec_equation_of_time(tp) - a2)),
            }
        },
    }
}

/// Geometric mean longitude of the sun at `tp`.
pub fn sun_geometric_mean_longitude(tp: JulianCentury) -> (r: Angle)
    requires
        mag(tp.nanos as int) <= CENTURY_MAX as int,
    ensures
        r.nanorad == spec_mean_longitude(tp.nanos as int),
        mag(r.nanorad as int) <= 12_000_000_000,
{
    let t = tp.nanos;
    proof {
        lemma_muldiv_bound(t as int, 303_200, SCALE as int, CENTURY_MAX as int, 303_200);
    }
    let m1 = muldiv(t, 303_200, SCALE);
    proof {
        lemma_muldiv_bound(
            t as int,
            36_000_769_830_000 + m1 as int,
            SCALE as int,
            CENTURY_MAX as int,
            36_100_000_000_000,
        );
    }
    let m2 = muldiv(t, 36_000_769_830_000 + m1, SCALE);
    let m3 = remt(m2, 360_000_000_000);
    let deg = 280_466_460_000 + m3;
    proof {
        lemma_muldiv_bound(
            deg as int,
            crate::angle::DEG_RAD_NUM as int,
            crate::angle::DEG_RAD_DEN as int,
            641_000_000_000,
            crate::angle::DEG_RAD_NUM as int,
        );
    }
    Angle::from_deg(deg)
}

/// Geometric mean anomaly of the sun at `tp`.
pub fn sun_geometric_mean_anomaly(tp: JulianCentury) -> (r: Angle)
    requires
        mag(tp.nanos as int) <= CENTURY_MAX as int,
    ensures
        r.nanorad == spec_mean_anomaly(tp.nanos as int),
        mag(r.nanorad as int) <= 64_000_000_000_000,
{
    let t = tp.nanos;
    proof {
        lemma_muldiv_bound(t as int, 153_700, SCALE as int, CENTURY_MAX as int, 153_700);
    }
    let m1 = muldiv(t, 153_700, SCALE);
    proof {
        lemma_muldiv_bound(
            t as int,
            35_999_050_290_000 - m1 as int,
            SCALE as int,
            CENTURY_MAX as int,
            36_100_000_000_000,
        );
    }
    let m2 = muldiv(t, 35_999_050_290_000 - m1, SCALE);
    let deg = 357_529_110_000 + m2;
    proof {
        lemma_muldiv_bound(
            deg as int,
            crate::angle::DEG_RAD_NUM as int,
            crate::angle::DEG_RAD_DEN as int,
            3_611_000_000_000_000,
            crate::angle::DEG_RAD_NUM as int,
        );
    }
    Angle::from_deg(deg)
}

/// Eccentricity of the earth's orbit at `tp`, a fixed-point ratio.
pub fn earth_orbit_eccentricity(tp: JulianCentury) -> (r: i64)
    requires
        mag(tp.nanos as int) <= CENTURY_MAX as int,
    ensures
        r == spec_eccentricity(tp.nanos as int),
        mag(r as int) <= 23_000_000,
{
    let t = tp.nanos;
    proof {
        lemma_muldiv_bound(t as int, 1_267, 10_000_000_000, CENTURY_MAX as int, 1_267);
    }
    let m1 = muldiv(t, 1_267, 10_000_000_000);
    proof {
        lemma_muldiv_bound(t as int, 42_037 + m1 as int, SCALE as int, CENTURY_MAX as int, 55_037);
    }
    let m2 = muldiv(t, 42_037 + m1, SCALE);
    16_708_634 - m2
}

/// Equation of center of the sun at `tp`.
#[verifier::rlimit(100)]
pub fn sun_equation_of_center(tp: JulianCentury) -> (r: Angle)
    requires
        mag(tp.nanos as int) <= CENTURY_MAX as int,
    ensures
        r.nanorad == spec_equation_of_center(tp.nanos as int),
        mag(r.nanorad as int) <= 100_000_000,
{
    let t = tp.nanos;
    let an = sun_geometric_mean_anomaly(tp);
    let s1 = an.sin();
    let s2 = an.scaled(2).sin();
    let s3 = an.scaled(3).sin();
    proof {
        lemma_muldiv_bound(t as int, 14_000, SCALE as int, CENTURY_MAX as int, 14_000);
    }
    let m1 = muldiv(t, 14_000, SCALE);
    proof {
        lemma_muldiv_bound(t as int, 4_817_000 + m1 as int, SCALE as int, CENTURY_MAX as int, 6_217_000);
    }
    let m2 = muldiv(t, 4_817_000 + m1, SCALE);
    proof {
        lemma_muldiv_bound(s1 as int, 1_914_602_000 - m2 as int, SCALE as int, SCALE as int, 2_536_302_000);
    }
    let c1 = muldiv(s1, 1_914_602_000 - m2, SCALE);
    proof {
        lemma_muldiv_bound(t as int, 101_000, SCALE as int, CENTURY_MAX as int, 101_000);
    }
    let m3 = muldiv(t, 101_000, SCALE);
    proof {
        lemma_muldiv_bound(s2 as int, 19_993_000 - m3 as int, SCALE as int, SCALE as int, 30_093_000);
    }
    let c2 = muldiv(s2, 19_993_000 - m3, SCALE);
    proof {
        lemma_muldiv_bound(s3 as int, 289_000, SCALE as int, SCALE as int, 289_000);
    }
    let c3 = muldiv(s3, 289_000, SCALE);
    let deg = c1 + c2 + c3;
    proof {
        lemma_muldiv_bound(
            deg as int,
            crate::angle::DEG_RAD_NUM as int,
            crate::angle::DEG_RAD_DEN as int,
            2_567_000_000,
            crate::angle::DEG_RAD_NUM as int,
        );
    }
    Angle::from_deg(deg)
}

/// Ascending-node longitude, the nutation argument, at `tp`.
fn nutation_argument(tp: JulianCentury) -> (r: Angle)
    requires
        mag(tp.nanos as int) <= CENTURY_MAX as int,
    ensures
        r.nanorad == spec_omega(tp.nanos as int),
        mag(r.nanorad as int) <= 3_400_000_000_000,
{
    let t = tp.nanos;
    proof {
        lemma_muldiv_bound(
            t as int,
            1_934_136_000_000,
            SCALE as int,
            CENTURY_MAX as int,
            1_934_136_000_000,
        );
    }
    let m1 = muldiv(t, 1_934_136_000_000, SCALE);
    let deg = 125_040_000_000 - m1;
    proof {
        lemma_muldiv_bound(
            deg as int,
            crate::angle::DEG_RAD_NUM as int,
            crate::angle::DEG_RAD_DEN as int,
            193_540_000_000_000,
            crate::angle::DEG_RAD_NUM as int,
        );
    }
    Angle::from_deg(deg)
}

/// Apparent longitude of the sun at `tp`.
#[verifier::rlimit(100)]
pub fn sun_apparent_longitude(tp: JulianCentury) -> (r: Angle)
    requires
        mag(tp.nanos as int) <= CENTURY_MAX as int,
    ensures
        r.nanorad == spec_apparent_longitude(tp.nanos as int),
        mag(r.nanorad as int) <= 13_000_000_000,
{
    let tl = sun_geometric_mean_longitude(tp).plus(sun_equation_of_center(tp));
    let a = nutation_argument(tp);
    let sa = a.sin();
    proof {
        lemma_muldiv_bound(4_780_000, sa as int, SCALE as int, 4_780_000, SCALE as int);
    }
    let corr = 5_690_000 + muldiv(4_780_000, sa, SCALE);
    proof {
        lemma_muldiv_bound(
            corr as int,
            crate::angle::DEG_RAD_NUM as int,
            crate::angle::DEG_RAD_DEN as int,
            10_470_000,
            crate::angle::DEG_RAD_NUM as int,
        );
    }
    tl.minus(Angle::from_deg(corr))
}

/// Mean obliquity of the ecliptic at `tp`.
#[verifier::rlimit(100)]
pub fn mean_ecliptic_obliquity(tp: JulianCentury) -> (r: Angle)
    requires
        mag(tp.nanos as int) <= CENTURY_MAX as int,
    ensures
        r.nanorad == spec_mean_obliquity(tp.nanos as int),
        mag(r.nanorad as int) <= 3_000_000_000,
{
    let t = tp.nanos;
    proof {
        lemma_muldiv_bound(t as int, 1_813_000, SCALE as int, CENTURY_MAX as int, 1_813_000);
    }
    let m1 = muldiv(t, 1_813_000, SCALE);
    proof {
        lemma_muldiv_bound(
            t as int,
            590_000 - m1 as int,
            SCALE as int,
            CENTURY_MAX as int,
            181_890_000,
        );
    }
    let m2 = muldiv(t, 590_000 - m1, SCALE);
    proof {
        lemma_muldiv_bound(
            t as int,
            46_815_000_000 + m2 as int,
            SCALE as int,
            CENTURY_MAX as int,
            65_004_000_000,
        );
    }
    let m3 = muldiv(t, 46_815_000_000 + m2, SCALE);
    let sec = 21_448_000_000 - m3;
    let sq = sec / 60;
    proof {
        lemma_sdiv_quotient_bound(sec as int, 60, 108_697_466_667);
    }
    let mins = 26_000_000_000 + sq;
    let mq = mins / 60;
    proof {
        lemma_sdiv_quotient_bound(mins as int, 60, 2_244_957_778);
    }
    let deg = 23_000_000_000 + mq;
    proof {
        lemma_muldiv_bound(
            deg as int,
            crate::angle::DEG_RAD_NUM as int,
            crate::angle::DEG_RAD_DEN as int,
            26_000_000_000,
            crate::angle::DEG_RAD_NUM as int,
        );
    }
    Angle::from_deg(deg)
}

/// Obliquity of the ecliptic corrected for nutation at `tp`.
pub fn obliquity_correction(tp: JulianCentury) -> (r: Angle)
    requires
        mag(tp.nanos as int) <= CENTURY_MAX as int,
    ensures
        r.nanorad == spec_obliquity_correction(tp.nanos as int),
        mag(r.nanorad as int) <= 3_100_000_000,
{
    let mean_obliq = mean_ecliptic_obliquity(tp);
    let a = nutation_argument(tp);
    let ca = a.cos();
    proof {
        lemma_muldiv_bound(2_560_000, ca as int, SCALE as int, 2_560_000, SCALE as int);
    }
    let corr = muldiv(2_560_000, ca, SCALE);
    proof {
        lemma_muldiv_bound(
            corr as int,
            crate::angle::DEG_RAD_NUM as int,
            crate::angle::DEG_RAD_DEN as int,
            2_560_000,
            crate::angle::DEG_RAD_NUM as int,
        );
    }
    mean_obliq.plus(Angle::from_deg(corr))
}

/// Declination of the sun at `tp`.
pub fn sun_declination(tp: JulianCentury) -> (r: Angle)
    requires
        mag(tp.nanos as int) <= CENTURY_MAX as int,
    ensures
        r.nanorad == spec_declination(tp.nanos as int),
        mag(r.nanorad as int) <= crate::trig::HALF_PI_N as int,
{
    let al = sun_apparent_longitude(tp);
    let oc = obliquity_correction(tp);
    let so = oc.sin();
    let sa = al.sin();
    proof {
        lemma_muldiv_bound(so as int, sa as int, SCALE as int, SCALE as int, SCALE as int);
    }
    let arg = muldiv(so, sa, SCALE);
    let asv = crate::trig::asin_fx_eval(arg);
    Angle::from_rad(asv)
}

/// Equation of time at `tp`, as a fixed-point radian time angle.
#[verifier::rlimit(80)]
pub fn equation_of_time(tp: JulianCentury) -> (r: Angle)
    requires
        mag(tp.nanos as int) <= CENTURY_MAX as int,
    ensures
        r.nanorad == spec_equation_of_time(tp.nanos as int),
        mag(r.nanorad as int) <= 21_000_000_000,
{
    let t = tp.nanos;
    let oc = obliquity_correction(tp);
    let half = oc.halved();
    proof {
        lemma_sdiv_mag(oc.nanorad as int, 2, 3_100_000_000);
    }
    let sh = half.sin();
    let ch = half.cos();
    if -500_000_000 < ch && ch < 500_000_000 {
        Angle::from_rad(0)
    } else {
        proof {
            lemma_mul_mag(sh as int, SCALE as int, SCALE as int, SCALE as int);
            lemma_sdiv_quotient_bound(sh as int * SCALE as int, ch as int, 2_000_000_000);
        }
        let tanh = crate::fixed::divt(sh as i128 * SCALE as i128, ch as i128) as i64;
        proof {
            lemma_muldiv_bound(tanh as int, tanh as int, SCALE as int, 2_000_000_000, 2_000_000_000);
        }
        let y = muldiv(tanh, tanh, SCALE);
        let ml = sun_geometric_mean_longitude(tp);
        let ma = sun_geometric_mean_anomaly(tp);
        let e = earth_orbit_eccentricity(tp);
        let s2l = ml.scaled(2).sin();
        let c2l = ml.scaled(2).cos();
        let s4l = ml.scaled(4).sin();
        let sm = ma.sin();
        let s2m = ma.scaled(2).sin();
        proof {
            lemma_muldiv_bound(y as int, s2l as int, SCALE as int, 4_000_000_000, SCALE as int);
            lemma_muldiv_bound(e as int, sm as int, SCALE as int, 23_000_000, SCALE as int);
            lemma_muldiv_bound(sm as int, c2l as int, SCALE as int, SCALE as int, SCALE as int);
        }
        let term1 = muldiv(y, s2l, SCALE);
        let term2 = 2 * muldiv(e, sm, SCALE);
        let u1 = muldiv(sm, c2l, SCALE);
        proof {
            lemma_muldiv_bound(y as int, u1 as int, SCALE as int, 4_000_000_000, SCALE as int);
        }
        let u2 = muldiv(y, u1, SCALE);
        proof {
            lemma_muldiv_bound(e as int, u2 as int, SCALE as int, 23_000_000, 4_000_000_000);
        }
        let term3 = 4 * muldiv(e, u2, SCALE);
        proof {
            lemma_muldiv_bound(y as int, y as int, SCALE as int, 4_000_000_000, 4_000_000_000);
        }
        let y2 = muldiv(y, y, SCALE);
        proof {
            lemma_muldiv_bound(y2 as int, s4l as int, SCALE as int, 16_000_000_000, SCALE as int);
        }
        let v = muldiv(y2, s4l, SCALE);
        let term4 = v / 2;
        proof {
            lemma_sdiv_mag(v as int, 2, 16_000_000_000);
            lemma_muldiv_bound(e as int, e as int, SCALE as int, 23_000_000, 23_000_000);
        }
        let e2 = muldiv(e, e, SCALE);
        proof {
            lemma_muldiv_bound(e2 as int, s2m as int, SCALE as int, 529_000, SCALE as int);
        }
        let w = muldiv(e2, s2m, SCALE);
        let term5 = (5 * w) / 4;
        proof {
            lemma_sdiv_mag(5 * w as int, 4, 2_645_000);
        }
        let et = term1 - term2 + term3 - term4 - term5;
        Angle::from_rad(et)
    }
}

/// Hour angle of the sun's crossing of `elevation` at `tp` and `latitude`,
/// signed oppositely to the elevation so that one formula serves both the
/// dawn side and the dusk side. `None` encodes "never reached that day".
#[verifier::rlimit(80)]
pub fn hour_angle(tp: JulianCentury, latitude: Angle, elevation: Angle) -> (r: Option<Angle>)
    requires
        mag(tp.nanos as int) <= CENTURY_MAX as int,
        mag(latitude.nanorad as int) <= INPUT_ANGLE_MAX as int,
        mag(elevation.nanorad as int) <= INPUT_ANGLE_MAX as int,
    ensures
        match r {
            Some(a) => spec_hour_angle(tp.nanos as int, latitude.nanorad as int, elevation.nanorad as int)
                == Some(a.nanorad as int) && mag(a.nanorad as int) <= PI_N as int,
            None => spec_hour_angle(tp.nanos as int, latitude.nanorad as int, elevation.nanorad as int)
                is None,
        },
{
    let decli = sun_declination(tp);
    let sl = latitude.sin();
    let cl = latitude.cos();
    let sd = decli.sin();
    let cd = decli.cos();
    let ce = elevation.cos();
    proof {
        lemma_muldiv_bound(cl as int, cd as int, SCALE as int, SCALE as int, SCALE as int);
    }
    let denom = muldiv(cl, cd, SCALE);
    if denom == 0 {
        None
    } else {
        proof {
            if cl as int == 0 {
                assert(cl as int * cd as int == 0);
                assert(denom as int == 0);
            }
            if cd as int == 0 {
                assert(cl as int * cd as int == 0);
                assert(denom as int == 0);
            }
            lemma_mul_mag(ce as int, SCALE as int, SCALE as int, SCALE as int);
            lemma_sdiv_mag(ce as int * SCALE as int, denom as int, 1_000_000_000_000_000_000);
            lemma_mul_mag(sl as int, SCALE as int, SCALE as int, SCALE as int);
            lemma_sdiv_mag(sl as int * SCALE as int, cl as int, 1_000_000_000_000_000_000);
            lemma_mul_mag(sd as int, SCALE as int, SCALE as int, SCALE as int);
            lemma_sdiv_mag(sd as int * SCALE as int, cd as int, 1_000_000_000_000_000_000);
        }
        let q1 = crate::fixed::divt(ce as i128 * SCALE as i128, denom as i128);
        let tl = crate::fixed::divt(sl as i128 * SCALE as i128, cl as i128);
        let td = crate::fixed::divt(sd as i128 * SCALE as i128, cd as i128);
        proof {
            lemma_mul_mag(
                tl as int,
                td as int,
                1_000_000_000_000_000_000,
                1_000_000_000_000_000_000,
            );
            lemma_sdiv_mag(
                tl as int * td as int,
                SCALE as int,
                1_000_000_000_000_000_000_000_000_000_000_000_000,
            );
        }
        let prod = crate::fixed::divt(tl * td, SCALE as i128);
        let arg = q1 - prod;
        if arg > SCALE as i128 || arg < -(SCALE as i128) {
            None
        } else {
            let omega = crate::trig::acos_fx_eval(arg as i64);
            let signed: i64 = if elevation.nanorad >= 0 {
                -omega
            } else {
                omega
            };
            Some(Angle::from_rad(signed))
        }
    }
}

/// Day-fraction offset of solar noon from the day baseline `day`, found by
/// a longitude estimate refined twice through the equation of time.
#[verifier::rlimit(100)]
pub fn time_of_solar_noon(day: JulianCentury, longitude: Angle) -> (r: JulianDay)
    requires
        mag(day.nanos as int) <= SOLVER_CENTURY_MAX as int,
        mag(longitude.nanorad as int) <= INPUT_ANGLE_MAX as int,
    ensures
        r.nanos == spec_time_of_solar_noon(day.nanos as int, longitude.nanorad as int),
        mag(r.nanos as int) <= 3_000_000_000_000,
{
    let noon_angle = Angle::from_rad(PI_N);
    let a1 = noon_angle.minus(longitude);
    proof {
        lemma_day_of_angle_bound(a1.nanorad as int, 14_000_000_000, 802_200_000_000);
    }
    let o1 = JulianDay::from_angle(a1);
    proof {
        lemma_sdiv_quotient_bound(o1.nanos as int, 36525, 21_964_000);
    }
    let tp1 = day.plus_day(o1);
    let e1 = equation_of_time(tp1);
    let a2 = noon_angle.minus(longitude).minus(e1);
    proof {
        lemma_day_of_angle_bound(a2.nanorad as int, 35_000_000_000, 2_005_400_000_000);
    }
    let o2 = JulianDay::from_angle(a2);
    proof {
        lemma_sdiv_quotient_bound(o2.nanos as int, 36525, 54_905_000);
    }
    let tp2 = day.plus_day(o2);
    let e2 = equation_of_time(tp2);
    let a3 = noon_angle.minus(longitude).minus(e2);
    proof {
        lemma_day_of_angle_bound(a3.nanorad as int, 35_000_000_000, 2_005_400_000_000);
    }
    JulianDay::from_angle(a3)
}

/// Day-fraction offset of the sun's crossing of `elevation`, refined once
/// through a recomputed equation of time and hour angle, or `None` where
/// the crossing does not occur that day.
#[verifier::rlimit(100)]
pub fn time_of_solar_elevation(
    noon: JulianCentury,
    latitude: Angle,
    longitude: Angle,
    elevation: Angle,
) -> (r: Option<JulianDay>)
    requires
        mag(noon.nanos as int) <= SOLVER_CENTURY_MAX as int,
        mag(latitude.nanorad as int) <= INPUT_ANGLE_MAX as int,
        mag(longitude.nanorad as int) <= INPUT_ANGLE_MAX as int,
        mag(elevation.nanorad as int) <= INPUT_ANGLE_MAX as int,
    ensures
        match r {
            Some(d) => spec_time_of_solar_elevation(
                noon.nanos as int,
                latitude.nanorad as int,
                longitude.nanorad as int,
                elevation.nanorad as int,
            ) == Some(d.nanos as int) && mag(d.nanos as int) <= 3_100_000_000_000,
            None => spec_time_of_solar_elevation(
                noon.nanos as int,
                latitude.nanorad as int,
                longitude.nanorad as int,
                elevation.nanorad as int,
            ) is None,
        },
{
    let first = hour_angle(noon, latitude, elevation);
    match first {
        None => None,
        Some(a1) => {
            proof {
                lemma_day_of_angle_bound(a1.nanorad as int, 3_150_000_000, 180_482_000_000);
            }
            let o1 = JulianDay::from_angle(a1);
            proof {
                lemma_sdiv_quotient_bound(o1.nanos as int, 36525, 4_942_000);
            }
            let tp = noon.minus_day(o1);
            let e = equation_of_time(tp);
            let second = hour_angle(tp, latitude, elevation);
            match second {
                None => None,
                Some(a2) => {
                    let a3 = Angle::from_rad(PI_N).minus(longitude).minus(e).minus(a2);
                    proof {
                        lemma_day_of_angle_bound(a3.nanorad as int, 38_000_000_000, 2_177_300_000_000);
                    }
                    Some(JulianDay::from_angle(a3))
                },
            }
        },
    }
}

/// Twenty minutes of time as a fixed-point radian time angle: a full turn
/// of 2 pi stands for one day, so this is the turn divided by 72.
pub const TWENTY_MINUTES_TIME_ANGLE: i64 = 87_266_463;

/// The equation of time stays within twenty minutes of time for any time
/// parameter within five centuries of the epoch, whenever the axial tilt
/// factor lies within its physical range; `lemma_tilt_factor_bounded`
/// discharges that premise, and the two combine in
/// `lemma_equation_of_time_within_five_centuries`.
#[verifier::rlimit(100)]
pub proof fn lemma_equation_of_time_bounded(t: int)
    requires
        mag(t) <= 5_000_000_000,
        mag(spec_tilt_factor(t)) <= 45_000_000,
    ensures
        mag(spec_equation_of_time(t)) <= TWENTY_MINUTES_TIME_ANGLE as int,
{
    let half = sdiv(spec_obliquity_correction(t), 2);
    let ch = cos_fx(half);
    if mag(ch) < 500_000_000 {
    } else {
        let y = spec_tilt_factor(t);
        let ml = spec_mean_longitude(t);
        let ma = spec_mean_anomaly(t);
        let e = spec_eccentricity(t);
        lemma_mul_mag(t, 1_267, 5_000_000_000, 1_267);
        lemma_sdiv_quotient_bound(t * 1_267, 10_000_000_000, 634);
        let inner = 42_037 + sdiv(t * 1_267, 10_000_000_000);
        lemma_mul_mag(t, inner, 5_000_000_000, 42_671);
        lemma_sdiv_quotient_bound(t * inner, SCALE as int, 213_355);
        assert(mag(e) <= 16_922_000);
        crate::trig::lemma_sin_fx_bounded(2 * ml);
        crate::trig::lemma_sin_fx_bounded(4 * ml);
        crate::trig::lemma_sin_fx_bounded(ma);
        crate::trig::lemma_sin_fx_bounded(2 * ma);
        crate::trig::lemma_sin_fx_bounded(2 * ml + crate::trig::HALF_PI_N);
        let s2l = sin_fx(2 * ml);
        let sm = sin_fx(ma);
        let c2l = cos_fx(2 * ml);
        let s4l = sin_fx(4 * ml);
        let s2m = sin_fx(2 * ma);
        lemma_mul_mag(y, s2l, 45_000_000, SCALE as int);
        lemma_sdiv_quotient_bound(y * s2l, SCALE as int, 45_000_000);
        lemma_mul_mag(e, sm, 16_922_000, SCALE as int);
        lemma_sdiv_quotient_bound(e * sm, SCALE as int, 16_922_000);
        lemma_mul_mag(sm, c2l, SCALE as int, SCALE as int);
        lemma_sdiv_quotient_bound(sm * c2l, SCALE as int, SCALE as int);
        let u1 = mulscale(sm, c2l);
        lemma_mul_mag(y, u1, 45_000_000, SCALE as int);
        lemma_sdiv_quotient_bound(y * u1, SCALE as int, 45_000_000);
        let u2 = mulscale(y, u1);
        lemma_mul_mag(e, u2, 16_922_000, 45_000_000);
        lemma_sdiv_quotient_bound(e * u2, SCALE as int, 761_490);
        lemma_mul_mag(y, y, 45_000_000, 45_000_000);
        lemma_sdiv_quotient_bound(y * y, SCALE as int, 2_025_000);
        let y2 = mulscale(y, y);
        lemma_mul_mag(y2, s4l, 2_025_000, SCALE as int);
        lemma_sdiv_quotient_bound(y2 * s4l, SCALE as int, 2_025_000);
        let v = mulscale(y2, s4l);
        lemma_sdiv_quotient_bound(v, 2, 1_012_500);
        lemma_mul_mag(e, e, 16_922_000, 16_922_000);
        lemma_sdiv_quotient_bound(e * e, SCALE as int, 286_355);
        let e2 = mulscale(e, e);
        lemma_mul_mag(e2, s2m, 286_355, SCALE as int);
        lemma_sdiv_quotient_bound(e2 * s2m, SCALE as int, 286_355);
        let w = mulscale(e2, s2m);
        lemma_sdiv_quotient_bound(5 * w, 4, 357_944);
    }
}

/// A bound on an angle's radians bounds its degree reading and so its
/// day-fraction offset: any `degq` with `bound * RAD_DEG_NUM <= degq *
/// RAD_DEG_DEN` bounds both.
proof fn lemma_day_of_angle_bound(rad: int, bound: int, degq: int)
    requires
        0 <= bound,
        0 <= degq,
        mag(rad) <= bound,
        bound * crate::angle::RAD_DEG_NUM <= degq * crate::angle::RAD_DEG_DEN,
    ensures
        mag(rad_to_deg(rad)) <= degq,
        mag(day_of_angle(rad)) <= degq,
{
    let num = crate::angle::RAD_DEG_NUM as int;
    let den = crate::angle::RAD_DEG_DEN as int;
    lemma_muldiv_bound(rad, num, den, bound, num);
    vstd::arithmetic::mul::lemma_mul_nonnegative(bound, num);
    vstd::arithmetic::mul::lemma_mul_nonnegative(degq, den);
    vstd::arithmetic::div_mod::lemma_div_is_ordered(bound * num, degq * den, den);
    vstd::arithmetic::div_mod::lemma_fundamental_div_mod_converse(degq * den, den, degq, 0);
    lemma_sdiv_mag(rad_to_deg(rad), 360, degq);
}


/// The sine polynomial on the narrow band where half the corrected
/// obliquity lives, bounded by interval propagation through its terms.
#[verifier::rlimit(100)]
proof fn lemma_sin_poly_half_obliquity(x: int)
    requires
        203956062 <= x <= 205136742,
    ensures
        202520268 <= crate::trig::sin_poly(x) <= 203725740,
{
    let x2 = mulscale(x, x);
    assert(203956062 * 203956062 <= x * x <= 205136742 * 205136742) by (nonlinear_arith)
        requires
            203956062 <= x <= 205136742,
    ;
    lemma_sdiv_lower(x * x, SCALE as int, 41598075);
    lemma_sdiv_quotient_bound(x * x, SCALE as int, 42081083);
    assert(203956062 * 41598075 <= x * x2 <= 205136742 * 42081083) by (nonlinear_arith)
        requires
            203956062 <= x <= 205136742,
            41598075 <= x2 <= 42081083,
    ;
    lemma_sdiv_lower(x * x2, SCALE as int, 8484179);
    lemma_sdiv_quotient_bound(x * x2, SCALE as int, 8632377);
    let t3 = sdiv(mulscale(x, x2), 6);
    lemma_sdiv_lower(mulscale(x, x2), 6, 1414029);
    lemma_sdiv_quotient_bound(mulscale(x, x2), 6, 1438730);
    assert(1414029 * 41598075 <= t3 * x2 <= 1438730 * 42081083) by (nonlinear_arith)
        requires
            1414029 <= t3 <= 1438730,
            41598075 <= x2 <= 42081083,
    ;
    lemma_sdiv_lower(t3 * x2, SCALE as int, 58820);
    lemma_sdiv_quotient_bound(t3 * x2, SCALE as int, 60544);
    let t5 = sdiv(mulscale(t3, x2), 20);
    lemma_sdiv_lower(mulscale(t3, x2), 20, 2941);
    lemma_sdiv_quotient_bound(mulscale(t3, x2), 20, 3028);
    assert(2941 * 41598075 <= t5 * x2 <= 3028 * 42081083) by (nonlinear_arith)
        requires
            2941 <= t5 <= 3028,
            41598075 <= x2 <= 42081083,
    ;
    lemma_sdiv_lower(t5 * x2, SCALE as int, 122);
    lemma_sdiv_quotient_bound(t5 * x2, SCALE as int, 128);
    let t7 = sdiv(mulscale(t5, x2), 42);
    lemma_sdiv_lower(mulscale(t5, x2), 42, 2);
    lemma_sdiv_quotient_bound(mulscale(t5, x2), 42, 4);
    assert(2 * 41598075 <= t7 * x2 <= 4 * 42081083) by (nonlinear_arith)
        requires
            2 <= t7 <= 4,
            41598075 <= x2 <= 42081083,
    ;
    lemma_sdiv_lower(t7 * x2, SCALE as int, 0);
    lemma_sdiv_quotient_bound(t7 * x2, SCALE as int, 1);
    let t9 = sdiv(mulscale(t7, x2), 72);
    lemma_sdiv_lower(mulscale(t7, x2), 72, 0);
    lemma_sdiv_quotient_bound(mulscale(t7, x2), 72, 1);
    assert(0 * 41598075 <= t9 * x2 <= 1 * 42081083) by (nonlinear_arith)
        requires
            0 <= t9 <= 1,
            41598075 <= x2 <= 42081083,
    ;
    lemma_sdiv_lower(t9 * x2, SCALE as int, 0);
    lemma_sdiv_quotient_bound(t9 * x2, SCALE as int, 1);
    let t11 = sdiv(mulscale(t9, x2), 110);
    lemma_sdiv_lower(mulscale(t9, x2), 110, 0);
    lemma_sdiv_quotient_bound(mulscale(t9, x2), 110, 1);
}

/// The sine polynomial on the band complementary to the half-obliquity,
/// which carries its cosine, bounded the same way.
#[verifier::rlimit(100)]
proof fn lemma_sin_poly_half_obliquity_cos(x: int)
    requires
        1365659585 <= x <= 1366840265,
    ensures
        977920503 <= crate::trig::sin_poly(x) <= 980385580,
{
    let x2 = mulscale(x, x);
    assert(1365659585 * 1365659585 <= x * x <= 1366840265 * 1366840265) by (nonlinear_arith)
        requires
            1365659585 <= x <= 1366840265,
    ;
    lemma_sdiv_lower(x * x, SCALE as int, 1865026102);
    lemma_sdiv_quotient_bound(x * x, SCALE as int, 1868252311);
    assert(1365659585 * 1865026102 <= x * x2 <= 1366840265 * 1868252311) by (nonlinear_arith)
        requires
            1365659585 <= x <= 1366840265,
            1865026102 <= x2 <= 1868252311,
    ;
    lemma_sdiv_lower(x * x2, SCALE as int, 2546990772);
    lemma_sdiv_quotient_bound(x * x2, SCALE as int, 2553602484);
    let t3 = sdiv(mulscale(x, x2), 6);
    lemma_sdiv_lower(mulscale(x, x2), 6, 424498462);
    lemma_sdiv_quotient_bound(mulscale(x, x2), 6, 425600414);
    assert(424498462 * 1865026102 <= t3 * x2 <= 425600414 * 1868252311) by (nonlinear_arith)
        requires
            424498462 <= t3 <= 425600414,
            1865026102 <= x2 <= 1868252311,
    ;
    lemma_sdiv_lower(t3 * x2, SCALE as int, 791700711);
    lemma_sdiv_quotient_bound(t3 * x2, SCALE as int, 795128958);
    let t5 = sdiv(mulscale(t3, x2), 20);
    lemma_sdiv_lower(mulscale(t3, x2), 20, 39585035);
    lemma_sdiv_quotient_bound(mulscale(t3, x2), 20, 39756448);
    assert(39585035 * 1865026102 <= t5 * x2 <= 39756448 * 1868252311) by (nonlinear_arith)
        requires
            39585035 <= t5 <= 39756448,
            1865026102 <= x2 <= 1868252311,
    ;
    lemma_sdiv_lower(t5 * x2, SCALE as int, 73827123);
    lemma_sdiv_quotient_bound(t5 * x2, SCALE as int, 74275076);
    let t7 = sdiv(mulscale(t5, x2), 42);
    lemma_sdiv_lower(mulscale(t5, x2), 42, 1757788);
    lemma_sdiv_quotient_bound(mulscale(t5, x2), 42, 1768455);
    assert(1757788 * 1865026102 <= t7 * x2 <= 1768455 * 1868252311) by (nonlinear_arith)
        requires
            1757788 <= t7 <= 1768455,
            1865026102 <= x2 <= 1868252311,
    ;
    lemma_sdiv_lower(t7 * x2, SCALE as int, 3278320);
    lemma_sdiv_quotient_bound(t7 * x2, SCALE as int, 3303921);
    let t9 = sdiv(mulscale(t7, x2), 72);
    lemma_sdiv_lower(mulscale(t7, x2), 72, 45532);
    lemma_sdiv_quotient_bound(mulscale(t7, x2), 72, 45888);
    assert(45532 * 1865026102 <= t9 * x2 <= 45888 * 1868252311) by (nonlinear_arith)
        requires
            45532 <= t9 <= 45888,
            1865026102 <= x2 <= 1868252311,
    ;
    lemma_sdiv_lower(t9 * x2, SCALE as int, 84918);
    lemma_sdiv_quotient_bound(t9 * x2, SCALE as int, 85731);
    let t11 = sdiv(mulscale(t9, x2), 110);
    lemma_sdiv_lower(mulscale(t9, x2), 110, 771);
    lemma_sdiv_quotient_bound(mulscale(t9, x2), 110, 780);
}

/// The axial tilt factor of the equation of time stays within its physical
/// range for any time parameter within five centuries of the epoch: the
/// corrected obliquity stays near 23.4 degrees, whose half has a cosine
/// close to one, so the squared tangent stays near 0.043.
#[verifier::rlimit(100)]
pub proof fn lemma_tilt_factor_bounded(t: int)
    requires
        mag(t) <= 5_000_000_000,
    ensures
        mag(spec_tilt_factor(t)) <= 45_000_000,
{
    lemma_mul_mag(t, 1_813_000, 5_000_000_000, 1_813_000);
    lemma_sdiv_quotient_bound(t * 1_813_000, SCALE as int, 9_065_000);
    let i3 = 590_000 - mulscale(t, 1_813_000);
    lemma_mul_mag(t, i3, 5_000_000_000, 9_655_000);
    lemma_sdiv_quotient_bound(t * i3, SCALE as int, 48_275_000);
    let i2 = 46_815_000_000 + mulscale(t, i3);
    lemma_mul_mag(t, i2, 5_000_000_000, 46_863_275_000);
    lemma_sdiv_quotient_bound(t * i2, SCALE as int, 234_316_375_000);
    let sec = 21_448_000_000 - sdiv(t * i2, SCALE as int);
    lemma_sdiv_window(sec, 60, 3_547_806_250, 4_262_739_584);
    let mins = 26_000_000_000 + sdiv(sec, 60);
    lemma_sdiv_lower(mins, 60, 374_203_229);
    lemma_sdiv_quotient_bound(mins, 60, 504_378_994);
    let deg = 23_000_000_000 + sdiv(mins, 60);
    lemma_mul_mag(deg, 17_453_292_519_943, 23_504_378_994, 17_453_292_519_943);
    lemma_sdiv_lower(deg * 17_453_292_519_943, 1_000_000_000_000_000, 407_956_806);
    lemma_sdiv_quotient_bound(deg * 17_453_292_519_943, 1_000_000_000_000_000, 410_228_803);
    crate::trig::lemma_sin_fx_bounded(spec_omega(t) + crate::trig::HALF_PI_N);
    let ca = cos_fx(spec_omega(t));
    lemma_mul_mag(2_560_000, ca, 2_560_000, SCALE as int);
    lemma_sdiv_quotient_bound(2_560_000 * ca, SCALE as int, 2_560_000);
    let cdeg = mulscale(2_560_000, ca);
    lemma_mul_mag(cdeg, 17_453_292_519_943, 2_560_000, 17_453_292_519_943);
    lemma_sdiv_quotient_bound(cdeg * 17_453_292_519_943, 1_000_000_000_000_000, 44_681);
    let oc = spec_obliquity_correction(t);
    assert(407_912_125 <= oc <= 410_273_484);
    lemma_sdiv_lower(oc, 2, 203956062);
    lemma_sdiv_quotient_bound(oc, 2, 205136742);
    let half = sdiv(oc, 2);
    crate::trig::lemma_fold_small(half);
    lemma_sin_poly_half_obliquity(half);
    let sh = sin_fx(half);
    assert(202520268 <= sh <= 203725740);
    crate::trig::lemma_fold_flip(half + crate::trig::HALF_PI_N);
    lemma_sin_poly_half_obliquity_cos(crate::trig::PI_N - (half + crate::trig::HALF_PI_N));
    let ch = cos_fx(half);
    assert(977920503 <= ch <= 980385580);
    lemma_mul_mag(sh, SCALE as int, 203725740, SCALE as int);
    lemma_sdiv_quotient_bound(sh * SCALE, ch, 208_325_462);
    let tanh = sdiv(sh * SCALE, ch);
    lemma_mul_mag(tanh, tanh, 208_325_462, 208_325_462);
    lemma_sdiv_quotient_bound(tanh * tanh, SCALE as int, 43_399_499);
}

/// The equation of time stays within twenty minutes of time for any time
/// parameter within five centuries of the epoch.
pub proof fn lemma_equation_of_time_within_five_centuries(t: int)
    requires
        mag(t) <= 5_000_000_000,
    ensures
        mag(spec_equation_of_time(t)) <= TWENTY_MINUTES_TIME_ANGLE as int,
{
    lemma_tilt_factor_bounded(t);
    lemma_equation_of_time_bounded(t);
}

} // verus!

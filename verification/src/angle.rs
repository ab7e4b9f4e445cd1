//! A plane angle as a fixed-point scalar. The canonical unit is the radian,
//! held in billionths; degrees are a distinct construction and accessor path,
//! never an implicit coercion.

use crate::fixed::{lemma_muldiv_bound, lemma_sdiv_mag, mag, muldiv, sdiv, SCALE};
use crate::trig::{cos_fx, sin_fx, sin_fx_eval, HALF_PI_N};
use vstd::prelude::*;

verus! {

/// The ratio pi/180 as `DEG_RAD_NUM / DEG_RAD_DEN`.
pub const DEG_RAD_NUM: i64 = 17_453_292_519_943;

/// Denominator of the degree-to-radian ratio (1e15).
pub const DEG_RAD_DEN: i64 = 1_000_000_000_000_000;

/// The ratio 180/pi as `RAD_DEG_NUM / RAD_DEG_DEN`.
pub const RAD_DEG_NUM: i64 = 57_295_779_513_082;

/// Denominator of the radian-to-degree ratio (1e12).
pub const RAD_DEG_DEN: i64 = 1_000_000_000_000;

/// Largest radian magnitude accepted where a quarter-turn shift or a degree
/// conversion must still fit in 64 bits.
pub const ANGLE_MAX: i64 = 100_000_000_000_000_000;

/// Degrees to radians in fixed point.
pub open spec fn deg_to_rad(d: int) -> int {
    sdiv(d * DEG_RAD_NUM, DEG_RAD_DEN as int)
}

/// Radians to degrees in fixed point.
pub open spec fn rad_to_deg(r: int) -> int {
    sdiv(r * RAD_DEG_NUM, RAD_DEG_DEN as int)
}

/// Quotient of a sine by a cosine, both fixed-point ratios.
pub open spec fn tan_fx(x: int) -> int {
    sdiv(sin_fx(x) * SCALE, cos_fx(x))
}

/// An angle backed by fixed-point radians. Values are never normalized:
/// accumulated turns and negative angles are meaningful.
#[derive(Clone, Copy, PartialEq, Eq, Structural, Debug)]
pub struct Angle {
    pub nanorad: i64,
}

impl Angle {
    /// The angle of a fixed-point radian count.
    pub fn from_rad(rad: i64) -> (r: Angle)
        ensures
            r.nanorad == rad,
    {
        Angle { nanorad: rad }
    }

    /// The angle of a fixed-point degree count.
    pub fn from_deg(deg: i64) -> (r: Angle)
        ensures
            r.nanorad == deg_to_rad(deg as int),
            mag(r.nanorad as int) <= 161_000_000_000_000_000,
    {
        proof {
            lemma_muldiv_bound(
                deg as int,
                DEG_RAD_NUM as int,
                DEG_RAD_DEN as int,
                0x8000_0000_0000_0000,
                DEG_RAD_NUM as int,
            );
        }
        Angle { nanorad: muldiv(deg, DEG_RAD_NUM, DEG_RAD_DEN) }
    }

    /// The fixed-point radian count of the angle.
    pub fn rad(&self) -> (r: i64)
        ensures
            r == self.nanorad,
    {
        self.nanorad
    }

    /// The fixed-point degree count of the angle.
    pub fn deg(&self) -> (r: i64)
        requires
            mag(self.nanorad as int) <= ANGLE_MAX as int,
        ensures
            r == rad_to_deg(self.nanorad as int),
    {
        proof {
            lemma_muldiv_bound(
                self.nanorad as int,
                RAD_DEG_NUM as int,
                RAD_DEG_DEN as int,
                ANGLE_MAX as int,
                RAD_DEG_NUM as int,
            );
        }
        muldiv(self.nanorad, RAD_DEG_NUM, RAD_DEG_DEN)
    }

    /// Fixed-point sine of the angle.
    pub fn sin(&self) -> (r: i64)
        ensures
            r == sin_fx(self.nanorad as int),
            mag(r as int) <= SCALE as int,
    {
        sin_fx_eval(self.nanorad)
    }

    /// Fixed-point cosine of the angle.
    pub fn cos(&self) -> (r: i64)
        requires
            mag(self.nanorad as int) <= ANGLE_MAX as int,
        ensures
            r == cos_fx(self.nanorad as int),
            mag(r as int) <= SCALE as int,
    {
        sin_fx_eval(self.nanorad + HALF_PI_N)
    }

    /// Fixed-point tangent of the angle, or nothing where the fixed-point
    /// cosine vanishes and the ratio is undefined.
    pub fn tan(&self) -> (r: Option<i64>)
        requires
            mag(self.nanorad as int) <= ANGLE_MAX as int,
        ensures
            match r {
                Some(v) => cos_fx(self.nanorad as int) != 0 && v == tan_fx(self.nanorad as int),
                None => cos_fx(self.nanorad as int) == 0,
            },
    {
        let s = self.sin();
        let c = self.cos();
        if c == 0 {
            None
        } else {
            proof {
                lemma_sdiv_mag(
                    s as int * SCALE as int,
                    c as int,
                    1_000_000_000_000_000_000,
                );
            }
            let q = crate::fixed::divt(s as i128 * SCALE as i128, c as i128);
            Some(q as i64)
        }
    }

    /// The sum of two angles.
    pub fn plus(self, rhs: Angle) -> (r: Angle)
        requires
            i64::MIN <= self.nanorad + rhs.nanorad <= i64::MAX,
        ensures
            r.nanorad == self.nanorad + rhs.nanorad,
    {
        Angle { nanorad: self.nanorad + rhs.nanorad }
    }

    /// The difference of two angles.
    pub fn minus(self, rhs: Angle) -> (r: Angle)
        requires
            i64::MIN <= self.nanorad - rhs.nanorad <= i64::MAX,
        ensures
            r.nanorad == self.nanorad - rhs.nanorad,
    {
        Angle { nanorad: self.nanorad - rhs.nanorad }
    }

    /// The angle scaled by a plain integer factor.
    pub fn scaled(self, k: i64) -> (r: Angle)
        requires
            i64::MIN <= self.nanorad * k <= i64::MAX,
        ensures
            r.nanorad == self.nanorad * k,
    {
        Angle { nanorad: self.nanorad * k }
    }

    /// Half the angle, truncated toward zero.
    pub fn halved(self) -> (r: Angle)
        ensures
            r.nanorad == sdiv(self.nanorad as int, 2),
    {
        Angle { nanorad: self.nanorad / 2 }
    }
}

} // verus!

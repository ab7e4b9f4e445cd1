//! Trigonometric kernels on fixed-point radians. The sine is a degree-11
//! Taylor polynomial after range reduction to a quarter period; the arc
//! functions invert it by bisection, which is exact with respect to the
//! polynomial. Each executable function computes precisely its ghost model.

use crate::fixed::{
    lemma_muldiv_bound, lemma_sdiv_mag, mag, muldiv, mulscale, remt, sdiv, smod, SCALE,
};
use vstd::prelude::*;

verus! {

/// The half turn in fixed-point radians (pi scaled by 1e9, rounded).
pub const PI_N: i64 = 3_141_592_654;

/// The quarter turn in fixed-point radians.
pub const HALF_PI_N: i64 = 1_570_796_327;

/// The full turn in fixed-point radians (tau scaled by 1e9, rounded).
pub const TAU_N: i64 = 6_283_185_307;

/// Restrict a ratio to the unit interval; the sine polynomial may poke a few
/// billionths past one at the ends of its range, and a sine never exceeds one.
pub open spec fn clamp_unit(v: int) -> int {
    if v > SCALE {
        SCALE as int
    } else if v < -SCALE {
        -SCALE as int
    } else {
        v
    }
}

/// Taylor polynomial for the sine on a quarter period, in fixed point:
/// x - x^3/3! + x^5/5! - x^7/7! + x^9/9! - x^11/11!, each term derived from
/// the previous one, then clamped to the unit interval.
pub open spec fn sin_poly(x: int) -> int {
    let x2 = mulscale(x, x);
    let t3 = sdiv(mulscale(x, x2), 6);
    let t5 = sdiv(mulscale(t3, x2), 20);
    let t7 = sdiv(mulscale(t5, x2), 42);
    let t9 = sdiv(mulscale(t7, x2), 72);
    let t11 = sdiv(mulscale(t9, x2), 110);
    clamp_unit(x - t3 + t5 - t7 + t9 - t11)
}

/// Reduce an angle to the quarter period [-pi/2, pi/2] on which the sine
/// polynomial is accurate, using the symmetries of the sine.
pub open spec fn fold_quarter(x: int) -> int {
    let r0 = smod(x, TAU_N as int);
    let r1 = if r0 > PI_N {
        r0 - TAU_N
    } else if r0 < -PI_N {
        r0 + TAU_N
    } else {
        r0
    };
    if r1 > HALF_PI_N {
        PI_N - r1
    } else if r1 < -HALF_PI_N {
        -PI_N - r1
    } else {
        r1
    }
}

/// Fixed-point sine of a fixed-point radian angle.
pub open spec fn sin_fx(x: int) -> int {
    sin_poly(fold_quarter(x))
}

/// Fixed-point cosine, as the sine shifted by a quarter turn.
pub open spec fn cos_fx(x: int) -> int {
    sin_fx(x + HALF_PI_N)
}

/// Bisection search for the angle in [lo, hi] whose polynomial sine meets
/// `y`; `n` halvings pin the answer to within one fixed-point unit.
pub open spec fn asin_iter(y: int, lo: int, hi: int, n: nat) -> int
    decreases n,
{
    let mid = sdiv(lo + hi, 2);
    if n == 0 {
        mid
    } else if sin_poly(mid) <= y {
        asin_iter(y, mid, hi, (n - 1) as nat)
    } else {
        asin_iter(y, lo, mid, (n - 1) as nat)
    }
}

/// Fixed-point arcsine on the unit interval, with values in [-pi/2, pi/2].
pub open spec fn asin_fx(y: int) -> int {
    asin_iter(y, -HALF_PI_N as int, HALF_PI_N as int, 48)
}

/// Fixed-point arccosine on the unit interval, with values in [0, pi].
pub open spec fn acos_fx(y: int) -> int {
    HALF_PI_N - asin_fx(y)
}

/// The fixed-point sine never leaves the unit interval: the final clamp of
/// the polynomial guarantees it for every angle.
pub proof fn lemma_sin_fx_bounded(x: int)
    ensures
        mag(sin_fx(x)) <= SCALE as int,
{
}

/// An angle already inside the quarter period folds to itself.
pub proof fn lemma_fold_small(x: int)
    requires
        0 <= x <= HALF_PI_N,
    ensures
        fold_quarter(x) == x,
{
    vstd::arithmetic::div_mod::lemma_fundamental_div_mod_converse(x, TAU_N as int, 0, x);
}

/// An angle in the second quarter of the period folds to its supplement.
pub proof fn lemma_fold_flip(x: int)
    requires
        HALF_PI_N < x <= PI_N,
    ensures
        fold_quarter(x) == PI_N - x,
{
    vstd::arithmetic::div_mod::lemma_fundamental_div_mod_converse(x, TAU_N as int, 0, x);
}

/// The midpoint used by bisection stays inside the bracket.
proof fn lemma_mid_between(lo: int, hi: int)
    requires
        lo <= hi,
    ensures
        lo <= sdiv(lo + hi, 2) <= hi,
{
    let s = lo + hi;
    if s >= 0 {
        assert(sdiv(s, 2) == s / 2);
        assert(2 * (s / 2) <= s < 2 * (s / 2) + 2) by (nonlinear_arith);
    } else {
        assert(sdiv(s, 2) == -((-s) / 2));
        assert(2 * ((-s) / 2) <= -s < 2 * ((-s) / 2) + 2) by (nonlinear_arith);
    }
}

/// Evaluate the sine polynomial on the reduced quarter period.
#[verifier::rlimit(60)]
pub fn sin_poly_eval(x: i64) -> (r: i64)
    requires
        mag(x as int) <= HALF_PI_N as int + 2,
    ensures
        r == sin_poly(x as int),
        mag(r as int) <= SCALE as int,
{
    proof {
        lemma_muldiv_bound(x as int, x as int, SCALE as int, 1_600_000_000, 1_600_000_000);
    }
    let x2 = muldiv(x, x, SCALE);
    proof {
        lemma_muldiv_bound(x as int, x2 as int, SCALE as int, 1_600_000_000, 2_560_000_000);
    }
    let m3 = muldiv(x, x2, SCALE);
    let t3 = m3 / 6;
    proof {
        lemma_sdiv_mag(m3 as int, 6, 4_096_000_000);
        lemma_muldiv_bound(t3 as int, x2 as int, SCALE as int, 4_096_000_000, 2_560_000_000);
    }
    let m5 = muldiv(t3, x2, SCALE);
    let t5 = m5 / 20;
    proof {
        lemma_sdiv_mag(m5 as int, 20, 10_485_760_000);
        lemma_muldiv_bound(t5 as int, x2 as int, SCALE as int, 10_485_760_000, 2_560_000_000);
    }
    let m7 = muldiv(t5, x2, SCALE);
    let t7 = m7 / 42;
    proof {
        lemma_sdiv_mag(m7 as int, 42, 26_843_545_600);
        lemma_muldiv_bound(t7 as int, x2 as int, SCALE as int, 26_843_545_600, 2_560_000_000);
    }
    let m9 = muldiv(t7, x2, SCALE);
    let t9 = m9 / 72;
    proof {
        lemma_sdiv_mag(m9 as int, 72, 68_719_476_736);
        lemma_muldiv_bound(t9 as int, x2 as int, SCALE as int, 68_719_476_736, 2_560_000_000);
    }
    let m11 = muldiv(t9, x2, SCALE);
    let t11 = m11 / 110;
    proof {
        lemma_sdiv_mag(m11 as int, 110, 175_921_860_444);
    }
    let s = x - t3 + t5 - t7 + t9 - t11;
    if s > SCALE {
        SCALE
    } else if s < -SCALE {
        -SCALE
    } else {
        s
    }
}

/// Reduce an arbitrary fixed-point angle to the quarter period.
pub fn fold_quarter_eval(x: i64) -> (r: i64)
    ensures
        r == fold_quarter(x as int),
        mag(r as int) <= HALF_PI_N as int,
{
    let r0 = remt(x, TAU_N);
    let r1 = if r0 > PI_N {
        r0 - TAU_N
    } else if r0 < -PI_N {
        r0 + TAU_N
    } else {
        r0
    };
    if r1 > HALF_PI_N {
        PI_N - r1
    } else if r1 < -HALF_PI_N {
        -PI_N - r1
    } else {
        r1
    }
}

/// Fixed-point sine of any 64-bit fixed-point angle.
pub fn sin_fx_eval(x: i64) -> (r: i64)
    ensures
        r == sin_fx(x as int),
        mag(r as int) <= SCALE as int,
{
    let f = fold_quarter_eval(x);
    sin_poly_eval(f)
}

fn asin_rec(y: i64, lo: i64, hi: i64, n: u32) -> (r: i64)
    requires
        -(HALF_PI_N as int) <= lo as int <= hi as int <= HALF_PI_N as int,
    ensures
        r == asin_iter(y as int, lo as int, hi as int, n as nat),
        lo <= r <= hi,
    decreases n,
{
    let mid = (lo + hi) / 2;
    proof {
        lemma_mid_between(lo as int, hi as int);
    }
    if n == 0 {
        mid
    } else {
        let s = sin_poly_eval(mid);
        if s <= y {
            asin_rec(y, mid, hi, n - 1)
        } else {
            asin_rec(y, lo, mid, n - 1)
        }
    }
}

/// Fixed-point arcsine, by bisection over the sine polynomial.
pub fn asin_fx_eval(y: i64) -> (r: i64)
    ensures
        r == asin_fx(y as int),
        mag(r as int) <= HALF_PI_N as int,
{
    asin_rec(y, -HALF_PI_N, HALF_PI_N, 48)
}

/// Fixed-point arccosine, with values in [0, pi].
pub fn acos_fx_eval(y: i64) -> (r: i64)
    ensures
        r == acos_fx(y as int),
        0 <= r as int <= PI_N as int,
{
    let a = asin_fx_eval(y);
    HALF_PI_N - a
}

} // verus!

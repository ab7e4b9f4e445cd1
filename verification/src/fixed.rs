//! Fixed-point integer arithmetic: every value carries an implicit scale of
//! 1e-9, so the `i64` value `1_000_000_000` stands for the real number one.
//! Division truncates toward zero, matching the hardware semantics the
//! executable helpers use.

use vstd::arithmetic::div_mod::{
    lemma_div_is_ordered, lemma_div_nonincreasing, lemma_div_pos_is_pos,
    lemma_fundamental_div_mod, lemma_fundamental_div_mod_converse, lemma_mod_bound,
};
use vstd::arithmetic::mul::{lemma_mul_is_commutative, lemma_mul_nonnegative};
use vstd::prelude::*;

verus! {

/// One whole unit in fixed-point representation.
pub const SCALE: i64 = 1_000_000_000;

/// Magnitude (absolute value) of a mathematical integer.
pub open spec fn mag(a: int) -> int {
    if a >= 0 {
        a
    } else {
        -a
    }
}

/// Division truncating toward zero, for any nonzero divisor.
pub open spec fn sdiv(a: int, d: int) -> int {
    if (a >= 0) == (d >= 0) {
        mag(a) / mag(d)
    } else {
        -(mag(a) / mag(d))
    }
}

/// Remainder of truncating division by a positive divisor; it carries the
/// sign of the dividend.
pub open spec fn smod(a: int, d: int) -> int {
    a - d * sdiv(a, d)
}

/// `a * b`, rescaled back down by `SCALE` with truncation.
pub open spec fn mulscale(a: int, b: int) -> int {
    sdiv(a * b, SCALE as int)
}

/// Truncating division agrees with Euclidean division on a nonnegative
/// dividend and is its mirror image on a negative one.
pub proof fn lemma_sdiv_fundamental(a: int, d: int)
    requires
        d > 0,
    ensures
        a == d * sdiv(a, d) + smod(a, d),
        mag(smod(a, d)) < d,
        mag(d * sdiv(a, d)) <= mag(a),
        mag(sdiv(a, d)) <= mag(a) / d,
        a >= 0 ==> sdiv(a, d) >= 0 && smod(a, d) >= 0,
        a < 0 ==> sdiv(a, d) <= 0 && smod(a, d) <= 0,
{
    if a >= 0 {
        lemma_fundamental_div_mod(a, d);
        lemma_mod_bound(a, d);
        lemma_div_pos_is_pos(a, d);
        assert(smod(a, d) == a % d);
    } else {
        let m = -a;
        lemma_fundamental_div_mod(m, d);
        lemma_mod_bound(m, d);
        lemma_div_pos_is_pos(m, d);
        assert(sdiv(a, d) == -(m / d));
        assert(d * sdiv(a, d) == -(d * (m / d))) by (nonlinear_arith)
            requires
                sdiv(a, d) == -(m / d),
        ;
        assert(smod(a, d) == -(m % d));
    }
}

/// The magnitude of a truncating quotient never exceeds that of the
/// dividend, nor any bound on it.
pub proof fn lemma_sdiv_mag(a: int, d: int, bound: int)
    requires
        d != 0,
        mag(a) <= bound,
    ensures
        mag(sdiv(a, d)) <= mag(a) / mag(d),
        mag(sdiv(a, d)) <= mag(a),
        mag(sdiv(a, d)) <= bound,
        mag(sdiv(a, d)) <= bound / mag(d),
{
    lemma_div_pos_is_pos(mag(a), mag(d));
    lemma_div_nonincreasing(mag(a), mag(d));
    lemma_div_is_ordered(mag(a), bound, mag(d));
}

/// A dividend within `q` times the divisor has a quotient within `q`.
pub proof fn lemma_sdiv_quotient_bound(a: int, d: int, q: int)
    requires
        d != 0,
        0 <= q,
        mag(a) <= q * mag(d),
    ensures
        mag(sdiv(a, d)) <= q,
        a >= 0 && d > 0 ==> sdiv(a, d) >= 0,
        a < 0 && d > 0 ==> sdiv(a, d) <= 0,
{
    lemma_mul_nonnegative(q, mag(d));
    lemma_div_is_ordered(mag(a), q * mag(d), mag(d));
    lemma_fundamental_div_mod_converse(q * mag(d), mag(d), q, 0);
    lemma_div_pos_is_pos(mag(a), mag(d));
}

/// A dividend inside a window of multiples of the positive divisor has its
/// quotient inside the window of the factors.
pub proof fn lemma_sdiv_window(a: int, d: int, qneg: int, qpos: int)
    requires
        d > 0,
        0 <= qneg,
        0 <= qpos,
        -(qneg * d) <= a <= qpos * d,
    ensures
        -qneg <= sdiv(a, d) <= qpos,
{
    if a >= 0 {
        lemma_sdiv_quotient_bound(a, d, qpos);
    } else {
        lemma_sdiv_quotient_bound(a, d, qneg);
    }
}

/// A dividend of at least `q` times the positive divisor has a quotient of
/// at least `q`.
pub proof fn lemma_sdiv_lower(a: int, d: int, q: int)
    requires
        d > 0,
        0 <= q,
        q * d <= a,
    ensures
        q <= sdiv(a, d),
{
    lemma_mul_nonnegative(q, d);
    lemma_div_is_ordered(q * d, a, d);
    lemma_fundamental_div_mod_converse(q * d, d, q, 0);
}

/// Bounds on both factors bound the product.
pub proof fn lemma_mul_mag(a: int, b: int, aa: int, bb: int)
    requires
        -aa <= a <= aa,
        -bb <= b <= bb,
    ensures
        -(aa * bb) <= a * b <= aa * bb,
{
    assert(-(aa * bb) <= a * b <= aa * bb) by (nonlinear_arith)
        requires
            -aa <= a <= aa,
            -bb <= b <= bb,
    ;
}

/// Bounds on the operands of a rescaling product bound the result.
pub proof fn lemma_muldiv_bound(a: int, b: int, d: int, aa: int, bb: int)
    requires
        d > 0,
        mag(a) <= aa,
        mag(b) <= bb,
    ensures
        mag(a * b) <= aa * bb,
        mag(sdiv(a * b, d)) <= (aa * bb) / d,
        mag(sdiv(a * b, d)) <= aa * bb,
{
    lemma_mul_mag(a, b, aa, bb);
    lemma_sdiv_mag(a * b, d, aa * bb);
    lemma_div_is_ordered(mag(a * b), aa * bb, d);
    lemma_div_pos_is_pos(mag(a * b), d);
}

/// Dividing an exact multiple of the divisor recovers the factor.
pub proof fn lemma_sdiv_cancel(q: int, d: int)
    requires
        d > 0,
    ensures
        sdiv(q * d, d) == q,
{
    if q >= 0 {
        lemma_mul_nonnegative(q, d);
        lemma_fundamental_div_mod_converse(q * d, d, q, 0);
    } else {
        lemma_mul_nonnegative(-q, d);
        assert((-q) * d == -(q * d)) by (nonlinear_arith);
        lemma_fundamental_div_mod_converse((-q) * d, d, -q, 0);
    }
}

/// Truncating division toward zero, computed through unsigned division.
pub fn divt(a: i128, d: i128) -> (r: i128)
    requires
        d != 0,
        a > i128::MIN,
        d > i128::MIN,
    ensures
        r == sdiv(a as int, d as int),
{
    let an: u128 = if a >= 0 {
        a as u128
    } else {
        (-a) as u128
    };
    let dn: u128 = if d >= 0 {
        d as u128
    } else {
        (-d) as u128
    };
    let q = an / dn;
    proof {
        lemma_div_nonincreasing(an as int, dn as int);
        lemma_div_pos_is_pos(an as int, dn as int);
    }
    if (a < 0) != (d < 0) {
        -(q as i128)
    } else {
        q as i128
    }
}

/// Flooring division by a positive divisor; it differs from truncation only
/// on a negative dividend that is not an exact multiple.
pub fn divf(a: i128, d: i128) -> (r: i128)
    requires
        d > 0,
        a > i128::MIN,
    ensures
        r == (a as int) / (d as int),
{
    let q = divt(a, d);
    proof {
        lemma_sdiv_fundamental(a as int, d as int);
        lemma_mul_is_commutative(q as int, d as int);
    }
    if a >= 0 {
        proof {
            lemma_fundamental_div_mod(a as int, d as int);
            lemma_mod_bound(a as int, d as int);
        }
        q
    } else {
        if q * d == a {
            proof {
                lemma_fundamental_div_mod_converse(a as int, d as int, q as int, 0);
            }
            q
        } else {
            proof {
                let r0 = smod(a as int, d as int);
                assert(a as int == (q as int - 1) * d + (d + r0)) by (nonlinear_arith)
                    requires
                        a as int == d * (q as int) + r0,
                ;
                lemma_fundamental_div_mod_converse(a as int, d as int, q as int - 1, d + r0);
            }
            q - 1
        }
    }
}

/// `a * b / d` with truncation, on 64-bit fixed-point values, carried out in
/// 128-bit intermediate arithmetic.
pub fn muldiv(a: i64, b: i64, d: i64) -> (r: i64)
    requires
        d > 0,
        mag(sdiv(a as int * b as int, d as int)) <= i64::MAX as int,
    ensures
        r == sdiv(a as int * b as int, d as int),
{
    proof {
        lemma_mul_mag(a as int, b as int, 0x8000_0000_0000_0000, 0x8000_0000_0000_0000);
    }
    let p: i128 = (a as i128) * (b as i128);
    let q = divt(p, d as i128);
    q as i64
}

/// Truncating remainder by a positive modulus; the result carries the sign
/// of the dividend and its magnitude stays below the modulus.
pub fn remt(a: i64, m: i64) -> (r: i64)
    requires
        m > 0,
    ensures
        r == smod(a as int, m as int),
        mag(r as int) < m,
{
    let q: i128 = divt(a as i128, m as i128);
    proof {
        lemma_sdiv_fundamental(a as int, m as int);
        lemma_mul_is_commutative(q as int, m as int);
    }
    let r128: i128 = (a as i128) - q * (m as i128);
    r128 as i64
}

} // verus!

//! Fixed-point arithmetic shared by every component.
//!
//! Prices, indicator values and fractions such as strengths and confidences
//! are signed 64-bit integers counting millionths: the integer `1_500_000`
//! stands for `1.5`.

use vstd::prelude::*;
use vstd::arithmetic::div_mod::lemma_fundamental_div_mod;
use vstd::arithmetic::div_mod::lemma_fundamental_div_mod_converse;

verus! {

/// The integer that stands for `1.0`.
pub const SCALE: i64 = 1_000_000;

/// Largest magnitude a price of a well-formed candle may have.
pub const PRICE_LIMIT: i64 = 1_000_000_000_000_000_000;

/// Absolute value of a mathematical integer.
pub open spec fn magnitude(x: int) -> int {
    if x >= 0 {
        x
    } else {
        -x
    }
}

/// The smaller of two integers.
pub open spec fn lesser(a: int, b: int) -> int {
    if a <= b {
        a
    } else {
        b
    }
}

/// The larger of two integers.
pub open spec fn greater(a: int, b: int) -> int {
    if a >= b {
        a
    } else {
        b
    }
}

/// `|a - b|`, which always fits in 64 unsigned bits.
pub fn abs_diff(a: i64, b: i64) -> (d: u64)
    ensures
        d == magnitude(a - b),
{
    if a >= b {
        (a as i128 - b as i128) as u64
    } else {
        (b as i128 - a as i128) as u64
    }
}

/// The smaller of two fixed-point values.
pub fn min_of(a: i64, b: i64) -> (m: i64)
    ensures
        m == lesser(a as int, b as int),
{
    if a <= b {
        a
    } else {
        b
    }
}

/// The larger of two fixed-point values.
pub fn max_of(a: i64, b: i64) -> (m: i64)
    ensures
        m == greater(a as int, b as int),
{
    if a >= b {
        a
    } else {
        b
    }
}

/// A magnitude capped at `1.0`.
pub open spec fn clamp_unit(x: int) -> int {
    lesser(magnitude(x), SCALE as int)
}

/// The fraction `num / den` as a fixed-point value capped at `1.0`, rounded
/// down. A zero denominator gives `1.0`.
pub open spec fn unit_ratio(num: int, den: int) -> int {
    if den == 0 {
        SCALE as int
    } else {
        lesser((num * SCALE) / den, SCALE as int)
    }
}

/// `|x|` capped at `1.0`.
pub fn clamp_to_unit(x: i128) -> (r: i64)
    requires
        x > i128::MIN,
    ensures
        r == clamp_unit(x as int),
        0 <= r <= SCALE,
{
    let m: i128 = if x >= 0 {
        x
    } else {
        -x
    };
    if m >= SCALE as i128 {
        SCALE
    } else {
        m as i64
    }
}

/// `num / den` as a fixed-point value capped at `1.0`.
pub fn clamped_ratio(num: u64, den: u64) -> (r: i64)
    ensures
        r == unit_ratio(num as int, den as int),
        0 <= r <= SCALE,
{
    if den == 0 {
        SCALE
    } else {
        assert(num * SCALE <= 0xffff_ffff_ffff_ffff * 1_000_000) by (nonlinear_arith)
            requires
                0 <= num <= 0xffff_ffff_ffff_ffff,
                SCALE == 1_000_000,
        ;
        let q: u128 = (num as u128 * SCALE as u128) / (den as u128);
        if q >= SCALE as u128 {
            SCALE
        } else {
            q as i64
        }
    }
}

/// The mean of two fixed-point values, rounded down.
pub fn mean_of(a: i64, b: i64) -> (m: i64)
    ensures
        m == (a + b) / 2,
{
    div_floor(a as i128 + b as i128, 2) as i64
}

/// Floor division by a positive divisor: the quotient rounds toward
/// negative infinity, as `/` does on mathematical integers.
pub fn div_floor(a: i128, b: i128) -> (q: i128)
    requires
        b > 0,
        a > i128::MIN,
    ensures
        q == a as int / b as int,
{
    if a >= 0 {
        a / b
    } else {
        let m: i128 = -a;
        let q: i128 = m / b;
        let r: i128 = m % b;
        proof {
            lemma_fundamental_div_mod(m as int, b as int);
            assert(b * q == q * b) by (nonlinear_arith);
        }
        if r == 0 {
            proof {
                assert(a == (-q) * b + 0) by (nonlinear_arith)
                    requires
                        m == q * b + r,
                        r == 0,
                        a == -m,
                ;
                lemma_fundamental_div_mod_converse(a as int, b as int, -q as int, 0);
            }
            -q
        } else {
            proof {
                assert(a == (-q - 1) * b + (b - r)) by (nonlinear_arith)
                    requires
                        m == q * b + r,
                        a == -m,
                ;
                lemma_fundamental_div_mod_converse(a as int, b as int, -q - 1, b - r);
            }
            -q - 1
        }
    }
}

} // verus!

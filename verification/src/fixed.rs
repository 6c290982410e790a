//! Fixed-point arithmetic helpers.
//!
//! Quantities are carried in thousandths of the engine unit.  Division
//! truncates toward zero, as the corresponding machine operation does.

use vstd::prelude::*;

verus! {

/// Division truncated toward zero (the machine semantics of `/` on
/// signed integers), for a positive divisor.
pub open spec fn div_trunc(a: int, b: int) -> int
    recommends
        b > 0,
{
    if a >= 0 {
        a / b
    } else {
        -((-a) / b)
    }
}

/// The product of two thousandths-valued quantities, itself in
/// thousandths: `a * b / 1000`, truncated toward zero.
pub open spec fn mul_milli(a: int, b: int) -> int {
    div_trunc(a * b, 1000)
}

/// Truncating division never grows the magnitude of the dividend.
pub proof fn lemma_div_trunc_bound(a: int, b: int)
    requires
        b >= 1,
    ensures
        a >= 0 ==> 0 <= div_trunc(a, b) <= a,
        a < 0 ==> a <= div_trunc(a, b) <= 0,
{
    if a >= 0 {
        vstd::arithmetic::div_mod::lemma_div_nonincreasing(a, b);
        vstd::arithmetic::div_mod::lemma_div_pos_is_pos(a, b);
    } else {
        vstd::arithmetic::div_mod::lemma_div_nonincreasing(-a, b);
        vstd::arithmetic::div_mod::lemma_div_pos_is_pos(-a, b);
    }
}

/// Truncating division is monotone in the dividend for nonnegative
/// dividends.
pub proof fn lemma_div_trunc_ordered(a: int, b: int, c: int)
    requires
        0 <= a <= b,
        c >= 1,
    ensures
        0 <= div_trunc(a, c) <= div_trunc(b, c),
{
    vstd::arithmetic::div_mod::lemma_div_is_ordered(a, b, c);
    vstd::arithmetic::div_mod::lemma_div_pos_is_pos(a, c);
}

/// Truncating division of `i64` values with a positive divisor.
pub fn div_i64(a: i64, b: i64) -> (r: i64)
    requires
        b > 0,
    ensures
        r == div_trunc(a as int, b as int),
{
    a / b
}

/// The product of two thousandths-valued quantities, in thousandths,
/// computed without overflow through a wider intermediate.
pub fn mul_milli_i64(a: i64, b: i64) -> (r: i64)
    requires
        mul_milli(a as int, b as int) <= i64::MAX,
        mul_milli(a as int, b as int) >= i64::MIN,
    ensures
        r == mul_milli(a as int, b as int),
{
    proof {
        assert(a * b <= i128::MAX && a * b >= i128::MIN) by (nonlinear_arith)
            requires
                i64::MIN <= a <= i64::MAX,
                i64::MIN <= b <= i64::MAX,
        ;
    }
    let wide: i128 = (a as i128) * (b as i128);
    let q: i128 = wide / 1000;
    q as i64
}

/// Truncating division is monotone in the dividend.
pub proof fn lemma_div_trunc_ordered_signed(a: int, b: int, c: int)
    requires
        a <= b,
        c >= 1,
    ensures
        div_trunc(a, c) <= div_trunc(b, c),
{
    if a >= 0 {
        vstd::arithmetic::div_mod::lemma_div_is_ordered(a, b, c);
    } else if b < 0 {
        vstd::arithmetic::div_mod::lemma_div_is_ordered(-b, -a, c);
    } else {
        lemma_div_trunc_bound(a, c);
        lemma_div_trunc_bound(b, c);
    }
}

/// The product of two values scaled back by one thousand,
/// `a * b / 1000` truncated toward zero, computed through a wider
/// intermediate.
pub fn mul_div_thousand(a: i64, b: i64) -> (r: i64)
    requires
        div_trunc(a * b, 1000) <= i64::MAX,
        div_trunc(a * b, 1000) >= i64::MIN,
    ensures
        r == div_trunc(a * b, 1000),
{
    proof {
        assert(a * b <= i128::MAX && a * b >= i128::MIN) by (nonlinear_arith)
            requires
                i64::MIN <= a <= i64::MAX,
                i64::MIN <= b <= i64::MAX,
        ;
    }
    let wide: i128 = (a as i128) * (b as i128);
    let q: i128 = wide / 1000;
    q as i64
}

/// The larger of two values.
pub fn max_i64(a: i64, b: i64) -> (r: i64)
    ensures
        r == if a >= b { a as int } else { b as int },
{
    if a >= b {
        a
    } else {
        b
    }
}

/// The smaller of two values.
pub fn min_i64(a: i64, b: i64) -> (r: i64)
    ensures
        r == if a <= b { a as int } else { b as int },
{
    if a <= b {
        a
    } else {
        b
    }
}

} // verus!

//! Fixed-point sine and cosine on one period, via Bhaskara's rational
//! approximation `sin x ~ 16 x (pi - x) / (5 pi^2 - 4 x (pi - x))` on
//! `[0, pi]`.  The approximation never leaves `[-1, 1]`: in exact integer
//! arithmetic `16 p <= 5 pi^2 - 4 p` because `4 x (pi - x) <= pi^2`.

use crate::fixed::{HALF_PI_FP, ONE, PI_FP, TWO_PI_FP};
use vstd::arithmetic::div_mod::{
    lemma_div_is_ordered, lemma_div_multiples_vanish, lemma_div_pos_is_pos,
};
use vstd::prelude::*;

verus! {

/// Bhaskara's approximation on the half period, in fixed point.
pub open spec fn spec_sin_half(x: int) -> int {
    16 * (x * (PI_FP - x)) * ONE / (5 * PI_FP * PI_FP - 4 * (x * (PI_FP - x)))
}

/// Sine on one period `[0, 2 pi)`, in fixed point: the half-period
/// approximation, mirrored and negated on `(pi, 2 pi)`.
pub open spec fn spec_sin_fp(t: int) -> int {
    if t <= PI_FP {
        spec_sin_half(t)
    } else {
        -spec_sin_half(t - PI_FP)
    }
}

/// Cosine on one period `[0, 2 pi)`: the sine a quarter period ahead.
pub open spec fn spec_cos_fp(t: int) -> int {
    if t + HALF_PI_FP < TWO_PI_FP {
        spec_sin_fp(t + HALF_PI_FP)
    } else {
        spec_sin_fp(t + HALF_PI_FP - TWO_PI_FP)
    }
}

/// The product `x * (pi - x)` is nonnegative and at most `pi^2 / 4` on
/// `[0, pi]`; both facts follow from `(pi - 2 x)^2 >= 0`.
proof fn lemma_half_period_product_bounds(x: int)
    by (nonlinear_arith)
    requires
        0 <= x <= PI_FP,
    ensures
        0 <= x * (PI_FP - x),
        4 * (x * (PI_FP - x)) <= PI_FP * PI_FP,
{
}

fn sin_half(x: i64) -> (r: i64)
    requires
        0 <= x <= PI_FP,
    ensures
        r == spec_sin_half(x as int),
        0 <= r <= ONE,
        x == 0 ==> r == 0,
        x == PI_FP ==> r == 0,
{
    proof {
        lemma_half_period_product_bounds(x as int);
    }
    let p: i64 = x * (PI_FP - x);
    let num: i64 = 16 * p;
    let den: i64 = 5 * PI_FP * PI_FP - 4 * p;
    proof {
        assert(num <= den);
        assert(num * ONE <= den * ONE) by (nonlinear_arith)
            requires
                0 <= num <= den,
                ONE == 1_000_000i64,
        ;
        assert(0 <= num * ONE) by (nonlinear_arith)
            requires
                0 <= num,
                ONE == 1_000_000i64,
        ;
        lemma_div_is_ordered(num * ONE, den * ONE, den as int);
        lemma_div_multiples_vanish(ONE as int, den as int);
        lemma_div_pos_is_pos(num * ONE, den as int);
        assert(num * ONE / (den as int) <= ONE);
    }
    let q: i64 = ((num as u128) * (ONE as u128) / (den as u128)) as i64;
    q
}

/// Fixed-point sine of an angle already reduced to one period.
pub fn sin_fp(t: i64) -> (r: i64)
    requires
        0 <= t < TWO_PI_FP,
    ensures
        r == spec_sin_fp(t as int),
        -ONE <= r <= ONE,
        t == 0 ==> r == 0,
{
    if t <= PI_FP {
        sin_half(t)
    } else {
        let s = sin_half(t - PI_FP);
        -s
    }
}

/// Fixed-point cosine of an angle already reduced to one period.
pub fn cos_fp(t: i64) -> (r: i64)
    requires
        0 <= t < TWO_PI_FP,
    ensures
        r == spec_cos_fp(t as int),
        -ONE <= r <= ONE,
{
    let u: i64 = t + HALF_PI_FP;
    let v: i64 = if u >= TWO_PI_FP {
        u - TWO_PI_FP
    } else {
        u
    };
    sin_fp(v)
}

} // verus!

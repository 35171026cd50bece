//! Fixed-point base: the scale constant, the circle constants, and an exact
//! integer square root.

use vstd::prelude::*;

verus! {

/// One unit of the fixed-point encoding: a value `v` stands for `v / ONE`.
pub const ONE: i64 = 1_000_000;

/// `0.5` in the fixed-point encoding.
pub const HALF: i64 = 500_000;

/// `pi` rounded to the fixed-point grid.
pub const PI_FP: i64 = 3_141_593;

/// `pi / 2` rounded down to the fixed-point grid.
pub const HALF_PI_FP: i64 = 1_570_796;

/// `2 * pi` rounded down to the fixed-point grid.
pub const TWO_PI_FP: i64 = 6_283_185;

/// `r` is the integer square root of `n`: the largest integer whose square
/// does not exceed `n`.
pub open spec fn is_sqrt_floor(n: int, r: int) -> bool {
    0 <= r && r * r <= n < (r + 1) * (r + 1)
}

/// The integer square root as a spec-level value; well defined because the
/// root is unique ([`lemma_sqrt_floor_unique`]) and `isqrt64` produces one.
pub open spec fn sqrt_floor(n: int) -> int {
    choose|r: int| is_sqrt_floor(n, r)
}

/// Two integer square roots of the same number are equal.
pub proof fn lemma_sqrt_floor_unique(n: int, a: int, b: int)
    by (nonlinear_arith)
    requires
        is_sqrt_floor(n, a),
        is_sqrt_floor(n, b),
    ensures
        a == b,
{
}

/// The square root grows with its argument.
pub proof fn lemma_sqrt_floor_monotone(m: int, n: int, a: int, b: int)
    by (nonlinear_arith)
    requires
        is_sqrt_floor(m, a),
        is_sqrt_floor(n, b),
        m <= n,
    ensures
        a <= b,
{
}

/// Integer square root by binary search.
pub fn isqrt64(x: u64) -> (r: u64)
    requires
        x < 0x4000_0000_0000_0000,
    ensures
        is_sqrt_floor(x as int, r as int),
        r == sqrt_floor(x as int),
        r <= 0x8000_0000,
{
    let mut lo: u64 = 0;
    let mut hi: u64 = 0x8000_0000;
    assert((hi + 1) * (hi + 1) > x) by (nonlinear_arith)
        requires
            hi == 0x8000_0000u64,
            x < 0x4000_0000_0000_0000,
    ;
    while lo < hi
        invariant
            lo <= hi <= 0x8000_0000,
            lo * lo <= x,
            x < (hi + 1) * (hi + 1),
        decreases hi - lo,
    {
        let mid: u64 = lo + (hi - lo + 1) / 2;
        assert(lo < mid <= hi);
        assert(mid * mid <= 0x4000_0000_0000_0000) by (nonlinear_arith)
            requires
                mid <= 0x8000_0000u64,
        ;
        if mid * mid <= x {
            lo = mid;
        } else {
            hi = mid - 1;
        }
    }
    proof {
        assert(is_sqrt_floor(x as int, lo as int));
        lemma_sqrt_floor_unique(x as int, lo as int, sqrt_floor(x as int));
    }
    lo
}

} // verus!

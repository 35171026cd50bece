//! The spectral color mapper: an approximate displayable color for
//! monochromatic light of a given wavelength.
//!
//! The visible range `[380, 781)` nm is split into six bands; in each band
//! two channels sit at a fixed endpoint and the third ramps linearly.  An
//! intensity falloff attenuates the edges of the spectrum, and each nonzero
//! channel is gamma corrected with exponent `0.8 = 4/5` (channels that are
//! exactly zero stay zero).  Wavelengths outside the visible range map to
//! black.  All channels are fixed point in `[0, ONE]`.

use crate::fixed::ONE;
use vstd::arithmetic::div_mod::{
    lemma_div_is_ordered, lemma_div_pos_is_pos, lemma_hoist_over_denominator,
};
use vstd::prelude::*;

verus! {

/// Lower edge of the visible range, in fixed-point nanometers.
pub const BAND_380: i64 = 380 * ONE;

/// End of the rising intensity falloff ramp, in fixed-point nanometers.
pub const BAND_420: i64 = 420 * ONE;

/// Band boundary, in fixed-point nanometers.
pub const BAND_440: i64 = 440 * ONE;

/// Band boundary, in fixed-point nanometers.
pub const BAND_490: i64 = 490 * ONE;

/// Band boundary, in fixed-point nanometers.
pub const BAND_510: i64 = 510 * ONE;

/// Band boundary, in fixed-point nanometers.
pub const BAND_580: i64 = 580 * ONE;

/// Band boundary, in fixed-point nanometers.
pub const BAND_645: i64 = 645 * ONE;

/// Start of the falling intensity falloff ramp, in fixed-point nanometers.
pub const BAND_701: i64 = 701 * ONE;

/// Reference top of the falling falloff ramp, in fixed-point nanometers.
pub const BAND_780: i64 = 780 * ONE;

/// Upper edge of the visible range, in fixed-point nanometers.
pub const BAND_781: i64 = 781 * ONE;

/// A displayable color; channels are fixed point in `[0, ONE]`.
#[derive(Clone, Copy, Debug, PartialEq, Eq, Structural)]
pub struct Rgb {
    pub red: i64,
    pub green: i64,
    pub blue: i64,
}

/// The index of the band holding `lam`, or `-1` outside the visible range.
pub open spec fn spec_band_of(lam: int) -> int {
    if lam < BAND_380 {
        -1
    } else if lam < BAND_440 {
        0
    } else if lam < BAND_490 {
        1
    } else if lam < BAND_510 {
        2
    } else if lam < BAND_580 {
        3
    } else if lam < BAND_645 {
        4
    } else if lam < BAND_781 {
        5
    } else {
        -1
    }
}

/// The pre-gamma channel formula of band `band`, evaluated at `lam`, as
/// `(red, green, blue)`.  Each formula is defined on every wavelength so that
/// adjacent bands can be compared at their shared boundary.
pub open spec fn spec_band_rgb(band: int, lam: int) -> (int, int, int) {
    if band == 0 {
        ((BAND_440 - lam) / 60, 0, ONE as int)
    } else if band == 1 {
        (0, (lam - BAND_440) / 50, ONE as int)
    } else if band == 2 {
        (0, ONE as int, (BAND_510 - lam) / 20)
    } else if band == 3 {
        ((lam - BAND_510) / 70, ONE as int, 0)
    } else if band == 4 {
        (ONE as int, (BAND_645 - lam) / 65, 0)
    } else if band == 5 {
        (ONE as int, 0, 0)
    } else {
        (0, 0, 0)
    }
}

/// The rising edge of the intensity falloff: `0.3 + 0.7 (lam - 380) / 40`.
pub open spec fn spec_factor_rise(lam: int) -> int {
    300_000 + 7 * (lam - BAND_380) / 400
}

/// The falling edge of the intensity falloff: `0.3 + 0.7 (780 - lam) / 80`.
pub open spec fn spec_factor_fall(lam: int) -> int {
    300_000 + 7 * (BAND_780 - lam) / 800
}

/// The intensity falloff near the vision limits: ramps up over `[380, 420)`,
/// is one on `[420, 701)`, ramps down over `[701, 781)`, and is zero outside.
pub open spec fn spec_factor(lam: int) -> int {
    if BAND_380 <= lam < BAND_420 {
        spec_factor_rise(lam)
    } else if BAND_420 <= lam < BAND_701 {
        ONE as int
    } else if BAND_701 <= lam < BAND_781 {
        spec_factor_fall(lam)
    } else {
        0
    }
}

/// `x * x * x * x`.
pub open spec fn pow4(x: int) -> int {
    x * x * x * x
}

/// `x * x * x * x * x`.
pub open spec fn pow5(x: int) -> int {
    x * x * x * x * x
}

/// `r` is the gamma-corrected value of `x`: the largest fixed-point value
/// with `(r / ONE)^5 <= (x / ONE)^4`, i.e. `r ~ ONE * (x / ONE)^(4/5)`.
pub open spec fn is_gamma(x: int, r: int) -> bool {
    0 <= r <= ONE && pow5(r) <= pow4(x) * ONE < pow5(r + 1)
}

/// The gamma-corrected value as a spec-level function; well defined because
/// the value is unique ([`lemma_gamma_unique`]) and `gamma_pow` produces one.
pub open spec fn spec_gamma(x: int) -> int {
    choose|r: int| is_gamma(x, r)
}

/// `pow5` preserves order on nonnegative values.
proof fn lemma_pow5_le(a: int, b: int)
    requires
        0 <= a <= b,
    ensures
        pow5(a) <= pow5(b),
{
    assert(a * a <= b * b) by (nonlinear_arith)
        requires
            0 <= a <= b,
    ;
    assert(a * a * a <= b * b * b) by (nonlinear_arith)
        requires
            0 <= a <= b,
            a * a <= b * b,
    ;
    assert(a * a * a * a <= b * b * b * b) by (nonlinear_arith)
        requires
            0 <= a <= b,
            a * a * a <= b * b * b,
    ;
    assert(a * a * a * a * a <= b * b * b * b * b) by (nonlinear_arith)
        requires
            0 <= a <= b,
            a * a * a * a <= b * b * b * b,
    ;
}

/// Two gamma-corrected values of the same argument are equal.
pub proof fn lemma_gamma_unique(x: int, a: int, b: int)
    requires
        is_gamma(x, a),
        is_gamma(x, b),
    ensures
        a == b,
{
    if a < b {
        lemma_pow5_le(a + 1, b);
        assert(false);
    }
    if b < a {
        lemma_pow5_le(b + 1, a);
        assert(false);
    }
}

/// Gamma correction with exponent `4/5` by binary search: the largest `r`
/// with `r^5 <= x^4 * ONE`, which is exact at both endpoints.
fn gamma_pow(x: i64) -> (r: i64)
    requires
        0 <= x <= ONE,
    ensures
        r == spec_gamma(x as int),
        is_gamma(x as int, r as int),
        x == 0 ==> r == 0,
        x == ONE ==> r == ONE,
{
    let xu: u128 = x as u128;
    assert(xu * xu <= 1_000_000_000_000u128) by (nonlinear_arith)
        requires
            0 <= xu <= 1_000_000u128,
    ;
    let x2: u128 = xu * xu;
    assert(x2 * x2 <= 1_000_000_000_000_000_000_000_000u128) by (nonlinear_arith)
        requires
            0 <= x2 <= 1_000_000_000_000u128,
    ;
    let x4: u128 = x2 * x2;
    proof {
        assert(x4 == pow4(x as int)) by (nonlinear_arith)
            requires
                x2 == xu * xu,
                x4 == x2 * x2,
                xu == x,
        ;
    }
    let target: u128 = x4 * (ONE as u128);
    let mut lo: u64 = 0;
    let mut hi: u64 = 1_000_000;
    proof {
        assert(target <= 1_000_000_000_000_000_000_000_000_000_000u128);
        assert(pow5(1_000_001) > 1_000_000_000_000_000_000_000_000_000_000);
        assert(pow5(0) <= target);
    }
    while lo < hi
        invariant
            lo <= hi <= 1_000_000,
            pow5(lo as int) <= target,
            target < pow5(hi + 1),
            target == pow4(x as int) * ONE,
            target <= 1_000_000_000_000_000_000_000_000_000_000u128,
        decreases hi - lo,
    {
        let mid: u64 = lo + (hi - lo + 1) / 2;
        assert(lo < mid <= hi);
        let m: u128 = mid as u128;
        assert(m * m <= 1_000_000_000_000u128) by (nonlinear_arith)
            requires
                0 <= m <= 1_000_000u128,
        ;
        let m2: u128 = m * m;
        assert(m2 * m2 <= 1_000_000_000_000_000_000_000_000u128) by (nonlinear_arith)
            requires
                0 <= m2 <= 1_000_000_000_000u128,
        ;
        let m4: u128 = m2 * m2;
        assert(m4 * m <= 1_000_000_000_000_000_000_000_000_000_000u128) by (nonlinear_arith)
            requires
                0 <= m4 <= 1_000_000_000_000_000_000_000_000u128,
                0 <= m <= 1_000_000u128,
        ;
        let m5: u128 = m4 * m;
        proof {
            assert(m5 == pow5(mid as int)) by (nonlinear_arith)
                requires
                    m2 == m * m,
                    m4 == m2 * m2,
                    m5 == m4 * m,
                    m == mid,
            ;
        }
        if m5 <= target {
            lo = mid;
        } else {
            hi = mid - 1;
        }
    }
    proof {
        assert(is_gamma(x as int, lo as int));
        lemma_gamma_unique(x as int, lo as int, spec_gamma(x as int));
        if x == 0 {
            assert(pow4(0) * ONE == 0);
            if lo > 0 {
                lemma_pow5_le(1, lo as int);
                assert(false);
            }
        }
        if x == ONE {
            assert(1_000_000int * 1_000_000 * 1_000_000 * 1_000_000
                == 1_000_000_000_000_000_000_000_000int) by (nonlinear_arith);
            assert(pow4(1_000_000) == 1_000_000_000_000_000_000_000_000);
            assert(pow4(1_000_000) * ONE == 1_000_000_000_000_000_000_000_000_000_000)
                by (nonlinear_arith)
                requires
                    pow4(1_000_000) == 1_000_000_000_000_000_000_000_000int,
                    ONE == 1_000_000i64,
            ;
            if lo < 1_000_000 {
                lemma_pow5_le(lo + 1, 1_000_000);
                assert(false);
            }
        }
    }
    lo as i64
}

/// One output channel: the pre-gamma value `c`, attenuated by `f` and gamma
/// corrected, with an exactly zero channel left at zero.
pub open spec fn spec_channel(c: int, f: int) -> int {
    if c == 0 {
        0
    } else {
        spec_gamma(c * f / (ONE as int))
    }
}

/// The full wavelength-to-color map: band formula, falloff, gamma.
pub open spec fn spec_wavelength_to_rgb(lam: int) -> Rgb {
    let (r0, g0, b0) = spec_band_rgb(spec_band_of(lam), lam);
    let f = spec_factor(lam);
    Rgb {
        red: spec_channel(r0, f) as i64,
        green: spec_channel(g0, f) as i64,
        blue: spec_channel(b0, f) as i64,
    }
}

/// Attenuate `c` by `f` and gamma correct, skipping exact zeros.
fn channel(c: i64, f: i64) -> (r: i64)
    requires
        0 <= c <= ONE,
        0 <= f <= ONE,
    ensures
        r == spec_channel(c as int, f as int),
        0 <= r <= ONE,
        c == 0 ==> r == 0,
        c == ONE && f == ONE ==> r == ONE,
{
    if c == 0 {
        0
    } else {
        assert(0 <= c * f <= 1_000_000_000_000) by (nonlinear_arith)
            requires
                0 <= c <= 1_000_000i64,
                0 <= f <= 1_000_000i64,
        ;
        proof {
            lemma_div_pos_is_pos(c * f, ONE as int);
            lemma_div_is_ordered(c * f, 1_000_000_000_000, ONE as int);
            if c == ONE && f == ONE {
                assert(c * f == 1_000_000_000_000) by (nonlinear_arith)
                    requires
                        c == 1_000_000i64,
                        f == 1_000_000i64,
                ;
            }
        }
        gamma_pow(c * f / ONE)
    }
}

/// Approximate the human-visible color of monochromatic light of wavelength
/// `lambda` (fixed-point nanometers).  Wavelengths outside `[380, 781)` nm
/// map to black.
pub fn wavelength_to_rgb(lambda: i64) -> (c: Rgb)
    ensures
        c == spec_wavelength_to_rgb(lambda as int),
        0 <= c.red <= ONE,
        0 <= c.green <= ONE,
        0 <= c.blue <= ONE,
        BAND_645 <= lambda < BAND_701 ==> c == (Rgb { red: ONE, green: 0, blue: 0 }),
{
    let (red, green, blue): (i64, i64, i64) = if lambda >= BAND_380 && lambda < BAND_440 {
        let v: i64 = (BAND_440 - lambda) / 60;
        proof {
            lemma_div_pos_is_pos(BAND_440 - lambda, 60);
            lemma_div_is_ordered(BAND_440 - lambda, 60_000_000, 60);
        }
        (v, 0, ONE)
    } else if lambda >= BAND_440 && lambda < BAND_490 {
        let v: i64 = (lambda - BAND_440) / 50;
        proof {
            lemma_div_pos_is_pos(lambda - BAND_440, 50);
            lemma_div_is_ordered(lambda - BAND_440, 50_000_000, 50);
        }
        (0, v, ONE)
    } else if lambda >= BAND_490 && lambda < BAND_510 {
        let v: i64 = (BAND_510 - lambda) / 20;
        proof {
            lemma_div_pos_is_pos(BAND_510 - lambda, 20);
            lemma_div_is_ordered(BAND_510 - lambda, 20_000_000, 20);
        }
        (0, ONE, v)
    } else if lambda >= BAND_510 && lambda < BAND_580 {
        let v: i64 = (lambda - BAND_510) / 70;
        proof {
            lemma_div_pos_is_pos(lambda - BAND_510, 70);
            lemma_div_is_ordered(lambda - BAND_510, 70_000_000, 70);
        }
        (v, ONE, 0)
    } else if lambda >= BAND_580 && lambda < BAND_645 {
        let v: i64 = (BAND_645 - lambda) / 65;
        proof {
            lemma_div_pos_is_pos(BAND_645 - lambda, 65);
            lemma_div_is_ordered(BAND_645 - lambda, 65_000_000, 65);
        }
        (ONE, v, 0)
    } else if lambda >= BAND_645 && lambda < BAND_781 {
        (ONE, 0, 0)
    } else {
        (0, 0, 0)
    };
    let factor: i64 = if lambda >= BAND_380 && lambda < BAND_420 {
        let v: i64 = 300_000 + 7 * (lambda - BAND_380) / 400;
        proof {
            lemma_div_pos_is_pos(7 * (lambda - BAND_380), 400);
            lemma_div_is_ordered(7 * (lambda - BAND_380), 280_000_000, 400);
        }
        v
    } else if lambda >= BAND_420 && lambda < BAND_701 {
        ONE
    } else if lambda >= BAND_701 && lambda < BAND_781 {
        let v: i64 = 291_250 + 7 * (BAND_781 - lambda) / 800;
        proof {
            lemma_div_pos_is_pos(7 * (BAND_781 - lambda), 800);
            lemma_div_is_ordered(7 * (BAND_781 - lambda), 560_000_000, 800);
            lemma_hoist_over_denominator(7 * (BAND_781 - lambda), -8750, 800);
            assert(7 * (BAND_780 - lambda) == 7 * (BAND_781 - lambda) + (-8750) * 800);
            assert(v == spec_factor_fall(lambda as int));
        }
        v
    } else {
        0
    };
    Rgb { red: channel(red, factor), green: channel(green, factor), blue: channel(blue, factor) }
}

/// The color the rendering collaborator paints the light beam with: black
/// outside the open visible range, the spectral color within it.
pub fn interpolate_light_color(wavelength: i64) -> (c: Rgb)
    ensures
        c == (if wavelength <= BAND_380 || wavelength >= BAND_780 {
            Rgb { red: 0, green: 0, blue: 0 }
        } else {
            spec_wavelength_to_rgb(wavelength as int)
        }),
        0 <= c.red <= ONE,
        0 <= c.green <= ONE,
        0 <= c.blue <= ONE,
{
    if wavelength <= BAND_380 || wavelength >= BAND_780 {
        Rgb { red: 0, green: 0, blue: 0 }
    } else {
        wavelength_to_rgb(wavelength)
    }
}

/// At every interior band boundary the two adjacent band formulas agree
/// exactly: the pre-gamma color is continuous across 440, 490, 510, 580 and
/// 645 nm.
pub proof fn lemma_band_continuity()
    ensures
        spec_band_rgb(0, BAND_440 as int) == spec_band_rgb(1, BAND_440 as int),
        spec_band_rgb(1, BAND_490 as int) == spec_band_rgb(2, BAND_490 as int),
        spec_band_rgb(2, BAND_510 as int) == spec_band_rgb(3, BAND_510 as int),
        spec_band_rgb(3, BAND_580 as int) == spec_band_rgb(4, BAND_580 as int),
        spec_band_rgb(4, BAND_645 as int) == spec_band_rgb(5, BAND_645 as int),
{
}

/// The rising falloff ramp meets the constant section exactly at 420 nm.
pub proof fn lemma_factor_continuity()
    ensures
        spec_factor_rise(BAND_420 as int) == spec_factor(BAND_420 as int),
        spec_factor(BAND_420 as int) == ONE,
{
}

} // verus!

//! The diffraction model: normalized interference intensity on the screen.
//!
//! For a normalized screen coordinate `u` in `[0, 1]` the horizontal profile
//! is `(sin a / a)^2 * (cos b)^2`, where `a = pi * slit_width / wavelength *
//! sine_theta` and `b = pi * separation / wavelength * sine_theta`, and
//! `sine_theta` is the exact sine of the viewing angle obtained from
//! right-triangle geometry (not the paraxial approximation).  The removable
//! singularities at `a == 0` and `b == 0` are guarded: each factor is exactly
//! one there.  All arithmetic is fixed point at scale [`ONE`].

use crate::config::{
    MAX_SCREEN_DISTANCE, MAX_SEPARATION, MAX_WAVELENGTH, MIN_SCREEN_DISTANCE, MIN_WAVELENGTH,
    SlitStructure,
};
use crate::fixed::{
    HALF, ONE, PI_FP, TWO_PI_FP, is_sqrt_floor, isqrt64, lemma_sqrt_floor_monotone,
    lemma_sqrt_floor_unique, sqrt_floor,
};
use crate::trig::{cos_fp, sin_fp, spec_cos_fp, spec_sin_fp};
use vstd::arithmetic::div_mod::{
    lemma_div_is_ordered, lemma_div_is_ordered_by_denominator, lemma_div_multiples_vanish,
    lemma_div_of0, lemma_div_pos_is_pos,
};
use vstd::math::abs;
use vstd::prelude::*;

verus! {

/// Width of the projected screen, in fixed-point meters.
pub const FULL_SCREEN_WIDTH: i64 = 400_000;

/// Height of the projected screen, in fixed-point meters.
pub const FULL_SCREEN_HEIGHT: i64 = 200_000;

/// Slit height used by the vertical single-slit profile, in fixed-point
/// micrometers.
pub const SLIT_HEIGHT: i64 = 5 * ONE;

/// Magnitude of the physical displacement from screen center, in fixed-point
/// meters, of normalized coordinate `u` on a screen spanning `span` meters.
pub open spec fn spec_abs_displacement(u: int, span: int) -> int {
    (abs(u - HALF) as int) * span / (ONE as int)
}

/// Exact sine of the viewing angle: `d / sqrt(d^2 + l^2)` in fixed point,
/// for a displacement magnitude `d` and a screen distance `l`, both in
/// fixed-point meters.
pub open spec fn spec_sine_theta(d: int, l: int) -> int {
    d * (ONE as int) / sqrt_floor(d * d + l * l)
}

/// A slit length in fixed-point micrometers divided by the wavelength in
/// fixed-point nanometers, as a fixed-point ratio.
pub open spec fn spec_um_over_wavelength(um: int, wavelength: int) -> int {
    um * 1000 * (ONE as int) / wavelength
}

/// The phase coefficient `pi * ratio * s` in fixed point.
pub open spec fn spec_coeff(ratio: int, s: int) -> int {
    (PI_FP as int) * ratio / (ONE as int) * s / (ONE as int)
}

/// The single-slit diffraction factor `(sin a / a)^2` in fixed point, with
/// the removable singularity at `a == 0` guarded to exactly one, and the
/// quotient clamped to one where the sine approximation overshoots `a`.
pub open spec fn spec_sinc_sq(a: int) -> int {
    if a == 0 {
        ONE as int
    } else {
        let s = abs(spec_sin_fp(a % (TWO_PI_FP as int))) as int;
        let q = if s * (ONE as int) / a > ONE {
            ONE as int
        } else {
            s * (ONE as int) / a
        };
        q * q / (ONE as int)
    }
}

/// The two-slit interference factor `(cos b)^2` in fixed point, exactly one
/// at `b == 0`.
pub open spec fn spec_cos_sq(b: int) -> int {
    if b == 0 {
        ONE as int
    } else {
        let c = abs(spec_cos_fp(b % (TWO_PI_FP as int))) as int;
        c * c / (ONE as int)
    }
}

/// The diffraction phase coefficient `a` of the horizontal profile.
pub open spec fn spec_coeff_a_x(u: int, cfg: SlitStructure) -> int {
    spec_coeff(
        spec_um_over_wavelength(cfg.slit_width as int, cfg.wavelength as int),
        spec_sine_theta(
            spec_abs_displacement(u, FULL_SCREEN_WIDTH as int),
            cfg.screen_distance as int / 100,
        ),
    )
}

/// The interference phase coefficient `b` of the horizontal profile.
pub open spec fn spec_coeff_b_x(u: int, cfg: SlitStructure) -> int {
    spec_coeff(
        spec_um_over_wavelength(cfg.separation as int, cfg.wavelength as int),
        spec_sine_theta(
            spec_abs_displacement(u, FULL_SCREEN_WIDTH as int),
            cfg.screen_distance as int / 100,
        ),
    )
}

/// The horizontal intensity profile: diffraction times interference.
pub open spec fn spec_prob_x(u: int, cfg: SlitStructure) -> int {
    spec_sinc_sq(spec_coeff_a_x(u, cfg)) * spec_cos_sq(spec_coeff_b_x(u, cfg)) / (ONE as int)
}

/// The vertical intensity profile: the single-slit factor alone, over the
/// fixed slit height and the narrower screen height.
pub open spec fn spec_prob_y(v: int, cfg: SlitStructure) -> int {
    spec_sinc_sq(
        spec_coeff(
            spec_um_over_wavelength(SLIT_HEIGHT as int, cfg.wavelength as int),
            spec_sine_theta(
                spec_abs_displacement(v, FULL_SCREEN_HEIGHT as int),
                cfg.screen_distance as int / 100,
            ),
        ),
    )
}

/// Exact sine of the viewing angle for normalized coordinate `u` on a screen
/// of span `span`, at the configured screen distance.
fn sine_theta_of(u: i64, screen_distance: i64, span: i64) -> (s: i64)
    requires
        0 <= u <= ONE,
        MIN_SCREEN_DISTANCE <= screen_distance <= MAX_SCREEN_DISTANCE,
        0 < span <= FULL_SCREEN_WIDTH,
    ensures
        s == spec_sine_theta(
            spec_abs_displacement(u as int, span as int),
            screen_distance as int / 100,
        ),
        0 <= s <= ONE,
        u == HALF ==> s == 0,
{
    let du: i64 = if u >= HALF {
        u - HALF
    } else {
        HALF - u
    };
    assert(du == abs(u - HALF));
    assert(du * span <= 200_000_000_000) by (nonlinear_arith)
        requires
            0 <= du <= 500_000i64,
            0 < span <= 400_000i64,
    ;
    assert(0 <= du * span) by (nonlinear_arith)
        requires
            0 <= du,
            0 < span,
    ;
    let dm: i64 = du * span / ONE;
    proof {
        lemma_div_pos_is_pos(du * span, ONE as int);
        lemma_div_is_ordered(du * span, 200_000_000_000, ONE as int);
        assert(dm == spec_abs_displacement(u as int, span as int));
        if u == HALF {
            assert(du * span == 0) by (nonlinear_arith)
                requires
                    du == 0i64,
            ;
            assert(dm == 0);
        }
    }
    let l: i64 = screen_distance / 100;
    proof {
        lemma_div_pos_is_pos(screen_distance as int, 100);
        lemma_div_is_ordered(20_000_000, screen_distance as int, 100);
        lemma_div_is_ordered(screen_distance as int, 200_000_000, 100);
    }
    assert(dm * dm <= 40_000_000_000) by (nonlinear_arith)
        requires
            0 <= dm <= 200_000i64,
    ;
    assert(0 <= dm * dm) by (nonlinear_arith);
    assert(40_000_000_000 <= l * l <= 4_000_000_000_000) by (nonlinear_arith)
        requires
            200_000i64 <= l <= 2_000_000i64,
    ;
    let sq: i64 = dm * dm + l * l;
    let hyp_u: u64 = isqrt64(sq as u64);
    proof {
        assert(hyp_u >= 1) by (nonlinear_arith)
            requires
                sq < (hyp_u + 1) * (hyp_u + 1),
                hyp_u >= 0,
                sq >= 40_000_000_000i64,
        ;
        assert(dm * dm <= dm * dm < (dm + 1) * (dm + 1)) by (nonlinear_arith)
            requires
                0 <= dm,
        ;
        lemma_sqrt_floor_monotone(dm * dm, sq as int, dm as int, hyp_u as int);
    }
    let hyp: i64 = hyp_u as i64;
    assert(dm * ONE <= hyp * ONE) by (nonlinear_arith)
        requires
            0 <= dm <= hyp,
            ONE == 1_000_000i64,
    ;
    assert(0 <= dm * ONE) by (nonlinear_arith)
        requires
            0 <= dm,
            ONE == 1_000_000i64,
    ;
    let s: i64 = dm * ONE / hyp;
    proof {
        lemma_div_pos_is_pos(dm * ONE, hyp as int);
        lemma_div_is_ordered(dm * ONE, hyp * ONE, hyp as int);
        lemma_div_multiples_vanish(ONE as int, hyp as int);
        if dm == 0 {
            lemma_div_of0(hyp as int);
        }
    }
    s
}

/// The fixed-point ratio of a slit length (micrometers) to the configured
/// wavelength (nanometers).
fn um_ratio(um: i64, wavelength: i64) -> (r: i64)
    requires
        0 <= um <= MAX_SEPARATION,
        MIN_WAVELENGTH <= wavelength <= MAX_WAVELENGTH,
    ensures
        r == spec_um_over_wavelength(um as int, wavelength as int),
        0 <= r <= 500_000_000,
{
    let nm: i64 = um * 1000;
    let scaled: i64 = nm * ONE;
    proof {
        lemma_div_pos_is_pos(scaled as int, wavelength as int);
        lemma_div_is_ordered_by_denominator(scaled as int, MIN_WAVELENGTH as int, wavelength as int);
        lemma_div_is_ordered(scaled as int, 100_000_000_000_000_000, MIN_WAVELENGTH as int);
    }
    scaled / wavelength
}

/// The phase coefficient `pi * ratio * s`, in fixed point.
fn coeff(ratio: i64, s: i64) -> (a: i64)
    requires
        0 <= ratio <= 500_000_000,
        0 <= s <= ONE,
    ensures
        a == spec_coeff(ratio as int, s as int),
        0 <= a <= 1_600_000_000,
        s == 0 ==> a == 0,
{
    let t1: i64 = PI_FP * ratio;
    let t2: i64 = t1 / ONE;
    proof {
        lemma_div_pos_is_pos(t1 as int, ONE as int);
        lemma_div_is_ordered(t1 as int, 1_600_000_000_000_000, ONE as int);
    }
    assert(0 <= t2 * s <= 1_600_000_000_000_000) by (nonlinear_arith)
        requires
            0 <= t2 <= 1_600_000_000i64,
            0 <= s <= 1_000_000i64,
    ;
    let t3: i64 = t2 * s;
    proof {
        lemma_div_pos_is_pos(t3 as int, ONE as int);
        lemma_div_is_ordered(t3 as int, 1_600_000_000_000_000, ONE as int);
        if s == 0 {
            assert(t3 == 0) by (nonlinear_arith)
                requires
                    t3 == t2 * s,
                    s == 0i64,
            ;
        }
    }
    t3 / ONE
}

/// The single-slit diffraction factor `(sin a / a)^2`, exactly one at
/// `a == 0`.
fn sinc_sq(a: i64) -> (r: i64)
    requires
        0 <= a <= 2_000_000_000,
    ensures
        r == spec_sinc_sq(a as int),
        0 <= r <= ONE,
        a == 0 ==> r == ONE,
{
    if a == 0 {
        ONE
    } else {
        let t: i64 = a % TWO_PI_FP;
        let sv: i64 = sin_fp(t);
        let sa: i64 = if sv >= 0 {
            sv
        } else {
            -sv
        };
        assert(sa == abs(spec_sin_fp(t as int)));
        assert(0 <= sa * ONE <= 1_000_000_000_000) by (nonlinear_arith)
            requires
                0 <= sa <= 1_000_000i64,
                ONE == 1_000_000i64,
        ;
        let q0: i64 = sa * ONE / a;
        proof {
            lemma_div_pos_is_pos(sa * ONE, a as int);
        }
        let q: i64 = if q0 > ONE {
            ONE
        } else {
            q0
        };
        assert(0 <= q * q <= 1_000_000_000_000) by (nonlinear_arith)
            requires
                0 <= q <= 1_000_000i64,
        ;
        proof {
            lemma_div_pos_is_pos(q * q, ONE as int);
            lemma_div_is_ordered(q * q, 1_000_000_000_000, ONE as int);
        }
        q * q / ONE
    }
}

/// The two-slit interference factor `(cos b)^2`, exactly one at `b == 0`.
fn cos_sq(b: i64) -> (r: i64)
    requires
        0 <= b <= 2_000_000_000,
    ensures
        r == spec_cos_sq(b as int),
        0 <= r <= ONE,
        b == 0 ==> r == ONE,
{
    if b == 0 {
        ONE
    } else {
        let t: i64 = b % TWO_PI_FP;
        let cv: i64 = cos_fp(t);
        let ca: i64 = if cv >= 0 {
            cv
        } else {
            -cv
        };
        assert(ca == abs(spec_cos_fp(t as int)));
        assert(0 <= ca * ca <= 1_000_000_000_000) by (nonlinear_arith)
            requires
                0 <= ca <= 1_000_000i64,
        ;
        proof {
            lemma_div_pos_is_pos(ca * ca, ONE as int);
            lemma_div_is_ordered(ca * ca, 1_000_000_000_000, ONE as int);
        }
        ca * ca / ONE
    }
}

/// Normalized probability that a photon lands at horizontal coordinate `u`
/// (in `[0, 1]` across the screen): single-slit diffraction times two-slit
/// interference.  Exactly one at the screen center, and in `[0, 1]`
/// everywhere.
pub fn prob_x(u: i64, slit: &SlitStructure) -> (r: i64)
    requires
        0 <= u <= ONE,
        slit.wf(),
    ensures
        r == spec_prob_x(u as int, *slit),
        0 <= r <= ONE,
        u == HALF ==> r == ONE,
        spec_coeff_a_x(u as int, *slit) == 0 ==> r == spec_cos_sq(
            spec_coeff_b_x(u as int, *slit),
        ),
{
    let s = sine_theta_of(u, slit.screen_distance, FULL_SCREEN_WIDTH);
    let wr = um_ratio(slit.slit_width, slit.wavelength);
    let a = coeff(wr, s);
    let diff = sinc_sq(a);
    let sr = um_ratio(slit.separation, slit.wavelength);
    let b = coeff(sr, s);
    let interf = cos_sq(b);
    assert(0 <= diff * interf <= 1_000_000_000_000) by (nonlinear_arith)
        requires
            0 <= diff <= 1_000_000i64,
            0 <= interf <= 1_000_000i64,
    ;
    proof {
        lemma_div_pos_is_pos(diff * interf, ONE as int);
        lemma_div_is_ordered(diff * interf, 1_000_000_000_000, ONE as int);
        if a == 0 {
            lemma_div_multiples_vanish(interf as int, ONE as int);
        }
    }
    diff * interf / ONE
}

/// Normalized vertical intensity profile: the single-slit factor over the
/// fixed slit height, used to give particle impacts vertical spread.
pub fn prob_y(v: i64, slit: &SlitStructure) -> (r: i64)
    requires
        0 <= v <= ONE,
        slit.wf(),
    ensures
        r == spec_prob_y(v as int, *slit),
        0 <= r <= ONE,
        v == HALF ==> r == ONE,
{
    let s = sine_theta_of(v, slit.screen_distance, FULL_SCREEN_HEIGHT);
    let hr = um_ratio(SLIT_HEIGHT, slit.wavelength);
    let a = coeff(hr, s);
    sinc_sq(a)
}

/// The intensity profiles are symmetric about the screen center: they read
/// the coordinate only through its distance from the center.
pub proof fn lemma_intensity_symmetric(d: int, cfg: SlitStructure)
    ensures
        spec_prob_x(HALF - d, cfg) == spec_prob_x(HALF + d, cfg),
        spec_prob_y(HALF - d, cfg) == spec_prob_y(HALF + d, cfg),
{
    assert(abs((HALF - d) - HALF) == abs((HALF + d) - HALF));
}

/// At the exact screen center the displacement, the viewing angle and both
/// phase coefficients vanish, so both guarded factors are exactly one:
/// whatever the configuration, the normalized intensity at the center is
/// exactly one.
pub proof fn lemma_center_intensity(cfg: SlitStructure)
    requires
        cfg.wf(),
    ensures
        spec_prob_x(HALF as int, cfg) == ONE,
        spec_prob_y(HALF as int, cfg) == ONE,
{
    let l = cfg.screen_distance as int / 100;
    lemma_div_pos_is_pos(cfg.screen_distance as int, 100);
    lemma_div_is_ordered(20_000_000, cfg.screen_distance as int, 100);
    assert(l * l <= l * l < (l + 1) * (l + 1)) by (nonlinear_arith)
        requires
            0 <= l,
    ;
    assert(is_sqrt_floor(l * l, l));
    lemma_sqrt_floor_unique(l * l, l, sqrt_floor(l * l));
    assert(abs(HALF - HALF) == 0);
    assert(0 * FULL_SCREEN_WIDTH == 0) by (nonlinear_arith);
    assert(0 * FULL_SCREEN_HEIGHT == 0) by (nonlinear_arith);
    lemma_div_of0(ONE as int);
    assert(spec_abs_displacement(HALF as int, FULL_SCREEN_WIDTH as int) == 0);
    assert(spec_abs_displacement(HALF as int, FULL_SCREEN_HEIGHT as int) == 0);
    assert(0 * (ONE as int) == 0) by (nonlinear_arith);
    assert((0 as int) * 0 == 0) by (nonlinear_arith);
    lemma_div_of0(l);
    assert(spec_sine_theta(0, l) == 0);
    let rx = spec_um_over_wavelength(cfg.slit_width as int, cfg.wavelength as int);
    let rb = spec_um_over_wavelength(cfg.separation as int, cfg.wavelength as int);
    let rh = spec_um_over_wavelength(SLIT_HEIGHT as int, cfg.wavelength as int);
    assert(((PI_FP as int) * rx / (ONE as int)) * 0 == 0) by (nonlinear_arith);
    assert(((PI_FP as int) * rb / (ONE as int)) * 0 == 0) by (nonlinear_arith);
    assert(((PI_FP as int) * rh / (ONE as int)) * 0 == 0) by (nonlinear_arith);
    assert(spec_coeff(rx, 0) == 0);
    assert(spec_coeff(rb, 0) == 0);
    assert(spec_coeff(rh, 0) == 0);
    assert(spec_sinc_sq(0) == ONE);
    assert(spec_cos_sq(0) == ONE);
    lemma_div_multiples_vanish(ONE as int, ONE as int);
    assert((ONE as int) * (ONE as int) / (ONE as int) == ONE);
}

/// When the diffraction coefficient vanishes, the horizontal intensity is
/// exactly the interference factor: the removable singularity of
/// `sin a / a` is continuously filled with one.
pub proof fn lemma_vanishing_diffraction(u: int, cfg: SlitStructure)
    requires
        spec_coeff_a_x(u, cfg) == 0,
    ensures
        spec_prob_x(u, cfg) == spec_cos_sq(spec_coeff_b_x(u, cfg)),
{
    lemma_div_multiples_vanish(spec_cos_sq(spec_coeff_b_x(u, cfg)), ONE as int);
}

} // verus!

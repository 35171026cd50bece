use double_slit::fixed::HALF;
use double_slit::{ONE, SlitControl, SlitStructure, prob_x, prob_y};

#[test]
fn center_intensity_is_exactly_one() {
    // separation 50 um, slit width 5 um, wavelength 500 nm, screen 100 cm.
    let cfg = SlitStructure::default();
    assert_eq!(prob_x(HALF, &cfg), ONE);
    assert_eq!(prob_y(HALF, &cfg), ONE);
}

#[test]
fn center_intensity_is_one_for_every_configuration_tried() {
    let mut cfg = SlitStructure::default();
    cfg.add_val(&SlitControl::Separation, -49 * ONE);
    cfg.add_val(&SlitControl::Width, 10 * ONE);
    cfg.add_val(&SlitControl::Wavelength, -300 * ONE);
    cfg.add_val(&SlitControl::ScreenDistance, 100 * ONE);
    assert_eq!(prob_x(HALF, &cfg), ONE);
    assert_eq!(prob_y(HALF, &cfg), ONE);
}

#[test]
fn intensity_stays_in_unit_interval() {
    let cfg = SlitStructure::default();
    let mut u: i64 = 0;
    while u <= ONE {
        let px = prob_x(u, &cfg);
        let py = prob_y(u, &cfg);
        assert!(0 <= px && px <= ONE, "prob_x({u}) = {px}");
        assert!(0 <= py && py <= ONE, "prob_y({u}) = {py}");
        u += 9_973;
    }
}

#[test]
fn intensity_is_symmetric_about_the_center() {
    let cfg = SlitStructure::default();
    let mut d: i64 = 1;
    while d <= HALF {
        assert_eq!(prob_x(HALF - d, &cfg), prob_x(HALF + d, &cfg));
        d *= 3;
    }
}

#[test]
fn intensity_falls_off_away_from_center() {
    // At the screen edge the single-slit envelope leaves almost nothing.
    let cfg = SlitStructure::default();
    assert!(prob_x(0, &cfg) < 10_000);
    assert!(prob_x(ONE, &cfg) < 10_000);
}

fn reference_prob_x(u: f64, sep_um: f64, width_um: f64, wl_nm: f64, dist_cm: f64) -> f64 {
    let pi = std::f64::consts::PI;
    let d = (u - 0.5) * 0.4;
    let l = dist_cm * 0.01;
    let s = d / (d * d + l * l).sqrt();
    let a = pi * (width_um * 1e-6) / (wl_nm * 1e-9) * s;
    let sinc = if a == 0.0 { 1.0 } else { (a.sin() / a).clamp(-1.0, 1.0) };
    let b = pi * (sep_um * 1e-6) / (wl_nm * 1e-9) * s;
    sinc * sinc * b.cos() * b.cos()
}

#[test]
fn intensity_tracks_the_real_valued_formula() {
    // The fixed-point pipeline approximates the closed-form double-slit
    // intensity; across the screen it stays within a few percent of a
    // floating-point evaluation of the same formula (the sine approximation
    // saturates the sinc factor near the center, which bounds the gap).
    let cfg = SlitStructure::default();
    let mut u: i64 = 0;
    while u <= ONE {
        let fixed = prob_x(u, &cfg) as f64 / 1_000_000.0;
        let real = reference_prob_x(u as f64 / 1_000_000.0, 50.0, 5.0, 500.0, 100.0);
        assert!(
            (fixed - real).abs() < 0.1,
            "u = {u}: fixed {fixed} vs reference {real}"
        );
        u += 3_989;
    }
}

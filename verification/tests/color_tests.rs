use double_slit::{ONE, Rgb, interpolate_light_color, wavelength_to_rgb};

fn expected_channel(pre: f64, factor: f64) -> i64 {
    if pre == 0.0 { 0 } else { ((pre * factor).powf(0.8) * 1_000_000.0) as i64 }
}

fn close(actual: i64, expected: i64) -> bool {
    (actual - expected).abs() <= 20
}

#[test]
fn pure_red_at_650() {
    // 650 nm lies in [645, 781) with falloff factor one: red is exactly
    // full, green and blue exactly zero, before and after gamma.
    let c = wavelength_to_rgb(650 * ONE);
    assert_eq!(c, Rgb { red: ONE, green: 0, blue: 0 });
}

#[test]
fn black_outside_the_visible_range() {
    for lambda in [200 * ONE, 379 * ONE, 781 * ONE, 800 * ONE, 0, -5 * ONE] {
        let c = wavelength_to_rgb(lambda);
        assert_eq!(c, Rgb { red: 0, green: 0, blue: 0 });
    }
}

#[test]
fn gamma_and_falloff_match_the_real_valued_formula() {
    // 500 nm: band [490, 510), blue ramps at (510 - 500) / 20 = 0.5.
    let c = wavelength_to_rgb(500 * ONE);
    assert_eq!(c.red, 0);
    assert!(close(c.green, expected_channel(1.0, 1.0)), "green {}", c.green);
    assert!(close(c.blue, expected_channel(0.5, 1.0)), "blue {}", c.blue);

    // 390 nm: rising falloff, factor 0.3 + 0.7 * 10 / 40.
    let c = wavelength_to_rgb(390 * ONE);
    let factor = 0.3 + 0.7 * 10.0 / 40.0;
    assert!(close(c.red, expected_channel(50.0 / 60.0, factor)), "red {}", c.red);
    assert_eq!(c.green, 0);
    assert!(close(c.blue, expected_channel(1.0, factor)), "blue {}", c.blue);

    // 750 nm: falling falloff, factor 0.3 + 0.7 * 30 / 80.
    let c = wavelength_to_rgb(750 * ONE);
    let factor = 0.3 + 0.7 * 30.0 / 80.0;
    assert!(close(c.red, expected_channel(1.0, factor)), "red {}", c.red);
    assert_eq!(c.green, 0);
    assert_eq!(c.blue, 0);
}

#[test]
fn color_is_continuous_at_band_boundaries() {
    // Stepping one fixed-point unit (a millionth of a nanometer) across
    // each interior band boundary moves every channel by at most a whisker.
    for boundary in [440 * ONE, 490 * ONE, 510 * ONE, 580 * ONE, 645 * ONE] {
        let below = wavelength_to_rgb(boundary - 1);
        let at = wavelength_to_rgb(boundary);
        assert!((below.red - at.red).abs() <= 100, "red jump at {boundary}");
        assert!((below.green - at.green).abs() <= 100, "green jump at {boundary}");
        assert!((below.blue - at.blue).abs() <= 100, "blue jump at {boundary}");
    }
}

#[test]
fn falloff_is_continuous_at_420() {
    let below = wavelength_to_rgb(420 * ONE - 1);
    let at = wavelength_to_rgb(420 * ONE);
    assert!((below.red - at.red).abs() <= 100);
    assert!((below.green - at.green).abs() <= 100);
    assert!((below.blue - at.blue).abs() <= 100);
}

#[test]
fn channels_stay_in_unit_interval_across_the_spectrum() {
    let mut lambda: i64 = 370 * ONE;
    while lambda <= 790 * ONE {
        let c = wavelength_to_rgb(lambda);
        for ch in [c.red, c.green, c.blue] {
            assert!(0 <= ch && ch <= ONE, "channel {ch} at {lambda}");
        }
        lambda += 997_651;
    }
}

#[test]
fn light_beam_color_cuts_at_the_vision_limits() {
    assert_eq!(interpolate_light_color(380 * ONE), Rgb { red: 0, green: 0, blue: 0 });
    assert_eq!(interpolate_light_color(780 * ONE), Rgb { red: 0, green: 0, blue: 0 });
    assert_eq!(interpolate_light_color(650 * ONE), Rgb { red: ONE, green: 0, blue: 0 });
    assert_eq!(interpolate_light_color(500 * ONE), wavelength_to_rgb(500 * ONE));
}

use double_slit::config::{
    MAX_SCREEN_DISTANCE, MAX_SEPARATION, MAX_SLIT_WIDTH, MAX_WAVELENGTH, MIN_SCREEN_DISTANCE,
    MIN_SEPARATION, MIN_SLIT_WIDTH, MIN_WAVELENGTH,
};
use double_slit::{InputType, ONE, SlitControl, SlitStructure};

#[test]
fn default_configuration() {
    let cfg = SlitStructure::default();
    assert_eq!(cfg.separation, 50 * ONE);
    assert_eq!(cfg.slit_width, 5 * ONE);
    assert_eq!(cfg.wavelength, 500 * ONE);
    assert_eq!(cfg.screen_distance, 100 * ONE);
    assert!(matches!(cfg.toggle_input, InputType::Light));
}

#[test]
fn in_range_delta_commits() {
    let mut cfg = SlitStructure::default();
    let changed = cfg.add_val(&SlitControl::Separation, ONE);
    assert!(changed);
    assert_eq!(cfg.separation, 51 * ONE);
}

#[test]
fn out_of_range_delta_is_silently_rejected() {
    let mut cfg = SlitStructure::default();
    let changed = cfg.add_val(&SlitControl::Separation, 51 * ONE);
    assert!(!changed);
    assert_eq!(cfg.separation, 50 * ONE);
    let changed = cfg.add_val(&SlitControl::Separation, -50 * ONE);
    assert!(!changed);
    assert_eq!(cfg.separation, 50 * ONE);
}

#[test]
fn boundary_values_are_accepted() {
    let mut cfg = SlitStructure::default();
    assert!(cfg.add_val(&SlitControl::Wavelength, 300 * ONE));
    assert_eq!(cfg.wavelength, MAX_WAVELENGTH);
    assert!(cfg.add_val(&SlitControl::Wavelength, -600 * ONE));
    assert_eq!(cfg.wavelength, MIN_WAVELENGTH);
    assert!(!cfg.add_val(&SlitControl::Wavelength, -ONE));
    assert_eq!(cfg.wavelength, MIN_WAVELENGTH);
}

#[test]
fn zero_delta_reports_no_change() {
    let mut cfg = SlitStructure::default();
    let changed = cfg.add_val(&SlitControl::Width, 0);
    assert!(!changed);
    assert_eq!(cfg.slit_width, 5 * ONE);
}

#[test]
fn huge_delta_does_not_overflow() {
    let mut cfg = SlitStructure::default();
    let changed = cfg.add_val(&SlitControl::ScreenDistance, i64::MAX);
    assert!(!changed);
    assert_eq!(cfg.screen_distance, 100 * ONE);
}

#[test]
fn mode_toggles_and_double_toggle_restores() {
    let mut cfg = SlitStructure::default();
    assert!(cfg.add_val(&SlitControl::Input, 0));
    assert!(matches!(cfg.toggle_input, InputType::Particles));
    assert!(cfg.add_val(&SlitControl::Input, 12345));
    assert!(matches!(cfg.toggle_input, InputType::Light));
    assert_eq!(cfg, SlitStructure::default());
}

#[test]
fn every_field_stays_in_range_under_delta_sequences() {
    let mut cfg = SlitStructure::default();
    let controls = [
        SlitControl::Separation,
        SlitControl::Width,
        SlitControl::Wavelength,
        SlitControl::ScreenDistance,
        SlitControl::Input,
    ];
    let deltas = [
        ONE,
        -3 * ONE,
        10 * ONE,
        -250 * ONE,
        999 * ONE,
        7,
        -1,
        123 * ONE,
        -10 * ONE,
        0,
    ];
    for round in 0..200 {
        let control = &controls[round % controls.len()];
        let delta = deltas[(round * 7 + 3) % deltas.len()];
        cfg.add_val(control, delta);
        assert!(MIN_SEPARATION <= cfg.separation && cfg.separation <= MAX_SEPARATION);
        assert!(MIN_SLIT_WIDTH <= cfg.slit_width && cfg.slit_width <= MAX_SLIT_WIDTH);
        assert!(MIN_WAVELENGTH <= cfg.wavelength && cfg.wavelength <= MAX_WAVELENGTH);
        assert!(
            MIN_SCREEN_DISTANCE <= cfg.screen_distance
                && cfg.screen_distance <= MAX_SCREEN_DISTANCE
        );
    }
}

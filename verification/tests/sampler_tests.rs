use double_slit::sampler::{BATCH_SIZE, SAMPLE_INTERVAL};
use double_slit::{Experiment, InputType, ONE, SlitControl, SlitStructure, get_particle_coord};

fn particles_experiment() -> Experiment {
    let mut e = Experiment::new();
    let changed = e.apply_adjustment(&SlitControl::Input, 0);
    assert!(changed);
    assert!(matches!(e.current_config().toggle_input, InputType::Particles));
    e
}

#[test]
fn thousand_uniform_ticks_append_exactly_ten_thousand_points() {
    // Fixed-step consumption: with delta_time equal to the interval every
    // tick fires and no firing is ever lost to rounding drift.
    let mut e = particles_experiment();
    for _ in 0..1000 {
        let fired = e.tick(SAMPLE_INTERVAL);
        assert!(fired);
    }
    assert_eq!(e.particle_points().len(), 1000 * BATCH_SIZE);
}

#[test]
fn timer_accumulates_partial_ticks() {
    let mut e = particles_experiment();
    assert!(!e.tick(SAMPLE_INTERVAL / 2));
    assert_eq!(e.particle_points().len(), 0);
    assert!(e.tick(SAMPLE_INTERVAL / 2));
    assert_eq!(e.particle_points().len(), BATCH_SIZE);
}

#[test]
fn surplus_time_is_dropped_on_firing() {
    let mut e = particles_experiment();
    // One long tick fires once and resets to zero, dropping the surplus:
    // the next short tick must not fire.
    assert!(e.tick(SAMPLE_INTERVAL + SAMPLE_INTERVAL / 2));
    assert_eq!(e.particle_points().len(), BATCH_SIZE);
    assert!(!e.tick(SAMPLE_INTERVAL / 2));
    assert_eq!(e.particle_points().len(), BATCH_SIZE);
}

#[test]
fn light_mode_never_samples() {
    let mut e = Experiment::new();
    for _ in 0..10 {
        assert!(!e.tick(SAMPLE_INTERVAL));
    }
    assert_eq!(e.particle_points().len(), 0);
}

#[test]
fn changing_a_field_in_particles_mode_empties_the_buffer() {
    let mut e = particles_experiment();
    e.tick(SAMPLE_INTERVAL);
    assert!(e.particle_points().len() > 0);
    let changed = e.apply_adjustment(&SlitControl::Separation, ONE);
    assert!(changed);
    assert_eq!(e.particle_points().len(), 0);
}

#[test]
fn switching_mode_empties_the_buffer() {
    let mut e = particles_experiment();
    e.tick(SAMPLE_INTERVAL);
    assert!(e.particle_points().len() > 0);
    let changed = e.apply_adjustment(&SlitControl::Input, 0);
    assert!(changed);
    assert_eq!(e.particle_points().len(), 0);
}

#[test]
fn rejected_adjustment_keeps_the_buffer() {
    let mut e = particles_experiment();
    e.tick(SAMPLE_INTERVAL);
    let before = e.particle_points().len();
    assert!(before > 0);
    let changed = e.apply_adjustment(&SlitControl::Separation, 1000 * ONE);
    assert!(!changed);
    assert_eq!(e.particle_points().len(), before);
}

#[test]
fn reset_particles_clears_the_buffer() {
    let mut e = particles_experiment();
    e.tick(SAMPLE_INTERVAL);
    assert!(e.particle_points().len() > 0);
    e.reset_particles();
    assert_eq!(e.particle_points().len(), 0);
}

#[test]
fn sampled_points_stay_on_the_screen() {
    let mut e = particles_experiment();
    for _ in 0..20 {
        e.tick(SAMPLE_INTERVAL);
    }
    for p in e.particle_points() {
        assert!(-250 * ONE <= p.x && p.x <= 250 * ONE);
        assert!(-49 * ONE <= p.y && p.y <= 49 * ONE);
        assert_eq!(p.z, 0);
    }
}

#[test]
fn direct_draw_stays_on_the_screen() {
    let cfg = SlitStructure::default();
    for _ in 0..100 {
        let p = get_particle_coord(&cfg);
        assert!(-250 * ONE <= p.x && p.x <= 250 * ONE);
        assert!(-49 * ONE <= p.y && p.y <= 49 * ONE);
        assert_eq!(p.z, 0);
    }
}

#[test]
fn sampled_pattern_concentrates_near_bright_fringes() {
    // The central fringe is far brighter than the screen edges: of many
    // draws, more land in the central tenth than in the outer tenths.
    let mut e = particles_experiment();
    for _ in 0..200 {
        e.tick(SAMPLE_INTERVAL);
    }
    let mut center: usize = 0;
    let mut edges: usize = 0;
    for p in e.particle_points() {
        if p.x.abs() <= 25 * ONE {
            center += 1;
        }
        if p.x.abs() >= 225 * ONE {
            edges += 1;
        }
    }
    assert!(center > edges);
}

//! The assembled experiment: one configuration, one sample timer, and one
//! particle buffer, driven by a host tick loop.  The single mutation entry
//! point clears the accumulated pattern on every actual change, so the
//! pattern is always rebuilt from one configuration and never mixes samples
//! from two.

use crate::config::{
    DEFAULT_SCREEN_DISTANCE, DEFAULT_SEPARATION, DEFAULT_SLIT_WIDTH, DEFAULT_WAVELENGTH, InputType,
    SlitControl, SlitStructure,
};
use crate::sampler::{
    BATCH_SIZE, ParticleTimer, ParticlesMesh, Point3, SAMPLE_INTERVAL, add_particle, spec_fires,
    spec_ticked,
};
use vstd::prelude::*;

verus! {

/// The whole double-slit simulation core: the shared configuration, the
/// fixed-step sample timer, and the accumulated particle impacts.
pub struct Experiment {
    pub slit: SlitStructure,
    pub timer: ParticleTimer,
    pub mesh: ParticlesMesh,
}

impl Experiment {
    /// The configuration fields are in range and the timer is well formed.
    pub open spec fn wf(self) -> bool {
        self.slit.wf() && self.timer.wf()
    }

    /// A fresh experiment: documented default configuration, fresh timer,
    /// empty buffer.
    pub fn new() -> (e: Experiment)
        ensures
            e.slit == (SlitStructure {
                separation: DEFAULT_SEPARATION,
                slit_width: DEFAULT_SLIT_WIDTH,
                wavelength: DEFAULT_WAVELENGTH,
                screen_distance: DEFAULT_SCREEN_DISTANCE,
                toggle_input: InputType::Light,
            }),
            e.timer == (ParticleTimer { interval: SAMPLE_INTERVAL, elapsed: 0 }),
            e.mesh.0@ == Seq::<Point3>::empty(),
            e.wf(),
    {
        Experiment {
            slit: Default::default(),
            timer: Default::default(),
            mesh: Default::default(),
        }
    }

    /// A read snapshot of the configuration.
    pub fn current_config(&self) -> (cfg: SlitStructure)
        ensures
            cfg == self.slit,
    {
        self.slit
    }

    /// A read-only view of the accumulated impact points.
    pub fn particle_points(&self) -> (points: &Vec<Point3>)
        ensures
            points@ == self.mesh.0@,
    {
        &self.mesh.0
    }

    /// Apply one configuration adjustment.  Out-of-range deltas are silently
    /// rejected; the mode field toggles.  Whenever the configuration
    /// actually changed — a field moved, or the mode switched either way —
    /// the particle buffer is emptied before any further batch is drawn, so
    /// the pattern is rebuilt from the new parameters.
    pub fn apply_adjustment(&mut self, opt: &SlitControl, val: i64) -> (changed: bool)
        requires
            old(self).wf(),
        ensures
            final(self).slit == old(self).slit.spec_adjusted(*opt, val as int),
            changed <==> final(self).slit != old(self).slit,
            changed ==> final(self).mesh.0@ == Seq::<Point3>::empty(),
            !changed ==> final(self).mesh.0@ == old(self).mesh.0@,
            final(self).timer == old(self).timer,
            final(self).wf(),
    {
        let changed = self.slit.add_val(opt, val);
        if changed {
            self.mesh.reset_mesh();
        }
        changed
    }

    /// Advance the simulation by `delta_time` seconds (fixed point).  While
    /// the particle pattern is shown, the sample timer accumulates the time
    /// and, on firing, exactly one batch of impacts is appended; in light
    /// mode nothing moves.  Returns whether new points were added.
    pub fn tick(&mut self, delta_time: i64) -> (fired: bool)
        requires
            old(self).wf(),
            0 <= delta_time,
            old(self).timer.elapsed + delta_time <= i64::MAX,
        ensures
            final(self).slit == old(self).slit,
            final(self).wf(),
            old(self).slit.toggle_input is Light ==> *final(self) == *old(self) && !fired,
            old(self).slit.toggle_input is Particles ==> {
                &&& fired == spec_fires(old(self).timer, delta_time as int)
                &&& final(self).timer == spec_ticked(old(self).timer, delta_time as int)
                &&& (fired ==> final(self).mesh.0@.len() == old(self).mesh.0@.len() + BATCH_SIZE)
                &&& (!fired ==> final(self).mesh.0@ == old(self).mesh.0@)
                &&& forall|i: int|
                    0 <= i < old(self).mesh.0@.len() ==> #[trigger] final(self).mesh.0@[i] == old(
                        self,
                    ).mesh.0@[i]
            },
    {
        match self.slit.toggle_input {
            InputType::Particles => add_particle(
                delta_time,
                &mut self.timer,
                &mut self.mesh,
                &self.slit,
            ),
            InputType::Light => false,
        }
    }

    /// Drop every accumulated impact point; configuration and timer stay.
    pub fn reset_particles(&mut self)
        ensures
            final(self).mesh.0@ == Seq::<Point3>::empty(),
            final(self).slit == old(self).slit,
            final(self).timer == old(self).timer,
    {
        self.mesh.reset_mesh();
    }
}

} // verus!

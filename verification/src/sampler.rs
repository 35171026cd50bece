//! The particle sampler: a growing buffer of impact points, a fixed-step
//! sample timer, and the rejection-sampling draw that turns the diffraction
//! probability density into discrete impact coordinates.

use crate::config::{InputType, SlitStructure};
use crate::fixed::{HALF, ONE};
use crate::intensity::{prob_x, spec_prob_x};
use vstd::prelude::*;

verus! {

/// Points drawn per timer firing.
pub const BATCH_SIZE: usize = 10;

/// The fixed sample interval, in fixed-point seconds (five milliseconds).
pub const SAMPLE_INTERVAL: i64 = 5_000;

/// Retry cap of the rejection sampler: after this many rejected candidates
/// the draw falls back to the screen center, where the intensity is maximal,
/// so a near-dark configuration can never stall the caller.
pub const MAX_TRIES: usize = 10_000;

/// One particle impact on the screen, in fixed-point screen coordinates:
/// `x` in `[-250, 250]`, `y` in `[-49, 49]`, `z` always zero.
#[derive(Clone, Copy, Debug, PartialEq, Eq, Structural)]
pub struct Point3 {
    pub x: i64,
    pub y: i64,
    pub z: i64,
}

/// The coordinate ranges every sampled impact lies in.
pub open spec fn spec_point_in_bounds(p: Point3) -> bool {
    &&& -250 * (ONE as int) <= p.x <= 250 * (ONE as int)
    &&& -49 * (ONE as int) <= p.y <= 49 * (ONE as int)
    &&& p.z == 0
}

/// The accumulated impact points, append-only between resets.
#[derive(Debug)]
pub struct ParticlesMesh(pub Vec<Point3>);

impl ParticlesMesh {
    /// Append one impact point.
    pub fn add_particle(&mut self, coords: Point3)
        ensures
            final(self).0@ == old(self).0@.push(coords),
    {
        self.0.push(coords);
    }

    /// Drop every accumulated point.
    pub fn reset_mesh(&mut self)
        ensures
            final(self).0@ == Seq::<Point3>::empty(),
    {
        self.0 = Vec::new();
    }
}

impl Default for ParticlesMesh {
    /// The buffer starts empty.
    fn default() -> (m: Self)
        ensures
            m.0@ == Seq::<Point3>::empty(),
    {
        ParticlesMesh(Vec::new())
    }
}

/// The fixed-step sample timer, in fixed-point seconds.
#[derive(Clone, Copy, Debug, PartialEq, Eq, Structural)]
pub struct ParticleTimer {
    pub interval: i64,
    pub elapsed: i64,
}

impl ParticleTimer {
    /// The interval is positive and the accumulated time never reaches it
    /// between ticks.
    pub open spec fn wf(self) -> bool {
        0 < self.interval && 0 <= self.elapsed < self.interval
    }
}

impl Default for ParticleTimer {
    /// A repeating five-millisecond timer with nothing accumulated.
    fn default() -> (t: Self)
        ensures
            t == (ParticleTimer { interval: SAMPLE_INTERVAL, elapsed: 0 }),
            t.wf(),
    {
        ParticleTimer { interval: SAMPLE_INTERVAL, elapsed: 0 }
    }
}

/// Whether advancing the timer by `dt` reaches the interval.
pub open spec fn spec_fires(t: ParticleTimer, dt: int) -> bool {
    t.elapsed + dt >= t.interval
}

/// The timer after one tick of `dt`: on firing the accumulated time resets
/// to zero (fixed-step consumption that drops the surplus); otherwise `dt`
/// accumulates.
pub open spec fn spec_ticked(t: ParticleTimer, dt: int) -> ParticleTimer {
    if spec_fires(t, dt) {
        ParticleTimer { elapsed: 0, ..t }
    } else {
        ParticleTimer { elapsed: (t.elapsed + dt) as i64, ..t }
    }
}

/// How many of the ticks in `dts`, applied in order, fire the timer.
pub open spec fn spec_batches(t: ParticleTimer, dts: Seq<int>) -> nat
    decreases dts.len(),
{
    if dts.len() == 0 {
        0
    } else {
        (if spec_fires(t, dts[0]) {
            1nat
        } else {
            0nat
        }) + spec_batches(spec_ticked(t, dts[0]), dts.skip(1))
    }
}

/// With fixed-step consumption there is no drift: starting from a fresh
/// timer, a run of ticks each exactly one interval long fires on every
/// single tick, so a run of `n` such ticks draws exactly `n` batches.
pub proof fn lemma_uniform_ticks_all_fire(t: ParticleTimer, dts: Seq<int>)
    requires
        t.wf(),
        t.elapsed == 0,
        forall|i: int| 0 <= i < dts.len() ==> #[trigger] dts[i] == t.interval,
    ensures
        spec_batches(t, dts) == dts.len(),
    decreases dts.len(),
{
    if dts.len() > 0 {
        assert(dts[0] == t.interval);
        assert(spec_fires(t, dts[0]));
        let t2 = spec_ticked(t, dts[0]);
        assert(t2.elapsed == 0 && t2.interval == t.interval);
        assert(forall|i: int| 0 <= i < dts.skip(1).len() ==> #[trigger] dts.skip(1)[i]
            == t2.interval);
        lemma_uniform_ticks_all_fire(t2, dts.skip(1));
    }
}

/// Relies on rand::random: draws a value from thread-local randomness; its
/// contract promises nothing about the value, so every caller is verified
/// for every outcome.
pub assume_specification<T>[ rand::random::<T> ]() -> (r: T)
    where
        rand::distributions::Standard: rand::distributions::Distribution<T>,
;

/// A uniformly random fixed-point value in `[0, 1]`.
fn random_unit() -> (r: i64)
    ensures
        0 <= r <= ONE,
{
    let x: u64 = rand::random();
    (x % 1_000_001) as i64
}

/// `x` is a screen abscissa that rejection sampling against `prob_x` can
/// yield under `cfg`: the image of some admissible normalized coordinate,
/// either accepted with strictly positive probability or the center
/// fallback.
pub open spec fn spec_sampled_abscissa(x: int, cfg: SlitStructure) -> bool {
    exists|u: int|
        0 <= u <= ONE && x == 500 * u - 250 * (ONE as int) && (#[trigger] spec_prob_x(u, cfg) > 0
            || u == HALF)
}

/// Draw one impact point.  The horizontal coordinate comes from rejection
/// sampling against the diffraction density `prob_x` and is mapped to
/// `500 * u - 250` screen units; the vertical coordinate is uniform over its
/// band.  Every accepted abscissa has strictly positive probability; if the
/// retry cap is exhausted, the draw falls back to the screen center.
pub fn get_particle_coord(slit: &SlitStructure) -> (p: Point3)
    requires
        slit.wf(),
    ensures
        spec_point_in_bounds(p),
        spec_sampled_abscissa(p.x as int, *slit),
{
    let mut u: i64 = HALF;
    let mut accepted: bool = false;
    let mut tries: usize = 0;
    while tries < MAX_TRIES && !accepted
        invariant
            0 <= u <= ONE,
            slit.wf(),
            accepted ==> spec_prob_x(u as int, *slit) > 0,
            u == HALF || accepted,
        decreases MAX_TRIES - tries,
    {
        let u_cand: i64 = random_unit();
        let r_cand: i64 = random_unit();
        let p_x: i64 = prob_x(u_cand, slit);
        if r_cand < p_x {
            u = u_cand;
            accepted = true;
        }
        tries = tries + 1;
    }
    let x: i64 = 500 * u - 250 * ONE;
    let v: i64 = random_unit();
    let y: i64 = 98 * v - 49 * ONE;
    proof {
        let w: int = u as int;
        assert(spec_sampled_abscissa(x as int, *slit)) by {
            assert(0 <= w <= ONE && x as int == 500 * w - 250 * (ONE as int) && (spec_prob_x(
                w,
                *slit,
            ) > 0 || w == HALF));
        }
    }
    Point3 { x, y, z: 0 }
}

/// Advance the sample timer by `dt` and, when it fires, draw exactly one
/// batch of new impact points and append them to the buffer.  Returns
/// whether a batch was drawn.  Points already accumulated are never touched.
pub fn add_particle(
    dt: i64,
    timer: &mut ParticleTimer,
    particles_mesh: &mut ParticlesMesh,
    slit: &SlitStructure,
) -> (fired: bool)
    requires
        slit.wf(),
        old(timer).wf(),
        0 <= dt,
        old(timer).elapsed + dt <= i64::MAX,
    ensures
        fired == spec_fires(*old(timer), dt as int),
        *final(timer) == spec_ticked(*old(timer), dt as int),
        final(timer).wf(),
        fired ==> final(particles_mesh).0@.len() == old(particles_mesh).0@.len()
            + BATCH_SIZE,
        !fired ==> final(particles_mesh).0@ == old(particles_mesh).0@,
        forall|i: int|
            0 <= i < old(particles_mesh).0@.len() ==> #[trigger] final(particles_mesh).0@[i]
                == old(particles_mesh).0@[i],
        forall|i: int|
            old(particles_mesh).0@.len() <= i < final(particles_mesh).0@.len()
                ==> spec_point_in_bounds(#[trigger] final(particles_mesh).0@[i]),
        forall|i: int|
            old(particles_mesh).0@.len() <= i < final(particles_mesh).0@.len()
                ==> spec_sampled_abscissa((#[trigger] final(particles_mesh).0@[i]).x as int, *slit),
{
    let fires: bool = dt >= timer.interval - timer.elapsed;
    if fires {
        timer.elapsed = 0;
        let mut k: usize = 0;
        while k < BATCH_SIZE
            invariant
                k <= BATCH_SIZE,
                slit.wf(),
                particles_mesh.0@.len() == old(particles_mesh).0@.len() + k,
                forall|i: int|
                    0 <= i < old(particles_mesh).0@.len() ==> #[trigger] particles_mesh.0@[i]
                        == old(particles_mesh).0@[i],
                forall|i: int|
                    old(particles_mesh).0@.len() <= i < particles_mesh.0@.len()
                        ==> spec_point_in_bounds(#[trigger] particles_mesh.0@[i]),
                forall|i: int|
                    old(particles_mesh).0@.len() <= i < particles_mesh.0@.len()
                        ==> spec_sampled_abscissa(
                            (#[trigger] particles_mesh.0@[i]).x as int,
                            *slit,
                        ),
            decreases BATCH_SIZE - k,
        {
            let new_coord = get_particle_coord(slit);
            particles_mesh.add_particle(new_coord);
            k = k + 1;
        }
        true
    } else {
        timer.elapsed = timer.elapsed + dt;
        false
    }
}

/// Sampling runs only while the particle pattern is shown.
pub fn add_particles_criteria(slit_structure: &SlitStructure) -> (run: bool)
    ensures
        run <==> slit_structure.toggle_input is Particles,
{
    match slit_structure.toggle_input {
        InputType::Particles => true,
        InputType::Light => false,
    }
}

/// Clear the accumulated pattern.
pub fn reset_particles(particles_mesh: &mut ParticlesMesh)
    ensures
        final(particles_mesh).0@ == Seq::<Point3>::empty(),
{
    particles_mesh.reset_mesh();
}

/// The accumulated pattern is rebuilt whenever the configuration changed
/// while the particle pattern is shown.
pub fn reset_particles_criteria(changed: bool, slit_structure: &SlitStructure) -> (run: bool)
    ensures
        run <==> changed && slit_structure.toggle_input is Particles,
{
    changed && matches!(slit_structure.toggle_input, InputType::Particles)
}

/// The particle pattern is redrawn when the buffer grew while the particle
/// pattern is shown.
pub fn output_particles_criteria(mesh_changed: bool, slit_structure: &SlitStructure) -> (run: bool)
    ensures
        run <==> mesh_changed && slit_structure.toggle_input is Particles,
{
    mesh_changed && matches!(slit_structure.toggle_input, InputType::Particles)
}

/// The continuous pattern is redrawn when the configuration changed while
/// the light pattern is shown.
pub fn light_criteria(changed: bool, slit_structure: &SlitStructure) -> (run: bool)
    ensures
        run <==> changed && slit_structure.toggle_input is Light,
{
    changed && matches!(slit_structure.toggle_input, InputType::Light)
}

} // verus!

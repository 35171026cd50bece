//! Core engine for a Young double-slit experiment simulation.
//!
//! All physical quantities are carried in a fixed-point encoding: an `i64`
//! value `v` stands for the real number `v / 1_000_000`.  The crate computes
//! the normalized diffraction intensity on a projection screen, maps a
//! wavelength to a displayable color, and accumulates rejection-sampled
//! particle impacts over time.

pub mod color;
pub mod config;
pub mod experiment;
pub mod fixed;
pub mod intensity;
pub mod sampler;
pub mod trig;

pub use color::{Rgb, interpolate_light_color, wavelength_to_rgb};
pub use config::{InputType, SlitControl, SlitStructure};
pub use experiment::Experiment;
pub use fixed::ONE;
pub use intensity::{prob_x, prob_y};
pub use sampler::{
    ParticleTimer, ParticlesMesh, Point3, add_particle, get_particle_coord, reset_particles,
};

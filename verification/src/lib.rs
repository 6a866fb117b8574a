//! A deterministic particle-life engine on fixed-point numbers.
//!
//! Many particles, each of one of a few species, attract and repel each
//! other as a table of interactions between species says, and move under
//! the resulting force, friction, a wrap at the bounds, a weak pull to the
//! origin and, while it is held, the pull of a pointer.
//!
//! - [`fixed`] and [`vector`]: the numbers and the points of the plane;
//! - [`settings`]: the table, the palette and the constants of a run;
//! - [`particle`]: the state of a particle, and what there is to draw of it;
//! - [`interaction`]: the pass that turns the population into a force;
//! - [`integration`]: the pass that moves a particle;
//! - [`rng`]: draws from the generator that the process shares;
//! - [`laws`]: what holds of the passes, whatever the input.

pub mod fixed;
pub mod integration;
pub mod interaction;
pub mod laws;
pub mod particle;
pub mod rng;
pub mod settings;
pub mod vector;

//! Particle swarm optimization: the bookkeeping of a swarm and the protocol
//! of a run.
//!
//! A swarm is a fixed population of particles. Each remembers the best place
//! it has visited, and the swarm remembers the best place any of them has.
//! A run moves every particle once per iteration, in order, and records the
//! swarm's best fitness after each iteration.
//!
//! Where a particle goes, and how fit a place is, is computed by the caller:
//! the numbers are double-precision values, which this crate carries as bit
//! patterns and only ever compares. What the crate decides is what is kept
//! ([`particle`], [`swarm`]), whose turn it is and when the run is over
//! ([`run`]), and whether settings can be run with at all ([`config`]).
//! [`trace`] states what holds of a run whatever it is fed.

pub mod config;
pub mod particle;
pub mod run;
pub mod scalar;
pub mod swarm;
pub mod trace;

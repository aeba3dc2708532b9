//! The tunables of a run, and the check that they can be run with.

use vstd::prelude::*;
use crate::scalar::Scalar;

verus! {

/// A range `[min, max)` to draw starting values from.
#[derive(Clone, Copy, Debug, PartialEq, Eq, Structural)]
pub struct Interval {
    pub min: Scalar,
    pub max: Scalar,
}

/// How strongly a particle keeps its course and is pulled towards the two
/// best places it knows of. The weights are only carried: any value is
/// accepted for them.
#[derive(Clone, Copy, Debug, PartialEq, Eq, Structural)]
pub struct Weights {
    /// Scales the carry-over of the previous velocity.
    pub inertia: Scalar,
    /// Scales the pull towards the particle's own best position.
    pub cognitive: Scalar,
    /// Scales the pull towards the swarm's best position.
    pub social: Scalar,
}

/// Everything a run is configured with.
#[derive(Clone, Copy, Debug, PartialEq, Eq, Structural)]
pub struct Settings {
    /// Size of the population.
    pub particles: usize,
    /// Number of times the whole swarm is moved.
    pub iterations: usize,
    pub weights: Weights,
    /// Where starting positions lie along the first axis.
    pub x: Interval,
    /// Where starting positions lie along the second axis.
    pub y: Interval,
    /// Where both components of a starting velocity lie.
    pub velocity: Interval,
}

/// Why settings cannot be run with.
#[derive(Clone, Copy, Debug, PartialEq, Eq, Structural)]
pub enum ConfigError {
    /// The population would be empty.
    NoParticles,
    /// An end of a range is an infinity or a NaN.
    NonFiniteBound,
    /// A range whose lower end is not below its upper end.
    EmptyRange,
}

/// Settings that passed the check.
#[derive(Debug)]
pub struct Config {
    settings: Settings,
}

impl Interval {
    /// Both ends are finite numbers.
    pub open spec fn spec_is_bounded(self) -> bool {
        self.min.is_finite() && self.max.is_finite()
    }

    /// The lower end lies strictly below the upper end, so the range holds
    /// something to draw.
    pub open spec fn spec_is_inhabited(self) -> bool {
        self.min.lt(self.max)
    }

    #[verifier::when_used_as_spec(spec_is_bounded)]
    pub fn is_bounded(self) -> (r: bool)
        ensures
            r == self.is_bounded(),
    {
        self.min.is_finite() && self.max.is_finite()
    }

    #[verifier::when_used_as_spec(spec_is_inhabited)]
    pub fn is_inhabited(self) -> (r: bool)
        ensures
            r == self.is_inhabited(),
    {
        self.min.lt(self.max)
    }
}

impl Settings {
    /// The first fault found, in the order: population, finiteness of the
    /// ranges, emptiness of the ranges. `None` where the settings are sound.
    pub open spec fn fault(self) -> Option<ConfigError> {
        if self.particles == 0 {
            Some(ConfigError::NoParticles)
        } else if !(self.x.is_bounded() && self.y.is_bounded() && self.velocity.is_bounded()) {
            Some(ConfigError::NonFiniteBound)
        } else if !(self.x.is_inhabited() && self.y.is_inhabited()
            && self.velocity.is_inhabited()) {
            Some(ConfigError::EmptyRange)
        } else {
            None
        }
    }
}

impl View for Config {
    type V = Settings;

    closed spec fn view(&self) -> Settings {
        self.settings
    }
}

impl Config {
    /// Every configuration is free of faults.
    #[verifier::type_invariant]
    pub open spec fn sound(self) -> bool {
        self@.fault() is None
    }

    /// Checks the settings and wraps them, or reports their first fault.
    pub fn new(settings: Settings) -> (r: Result<Config, ConfigError>)
        ensures
            match r {
                Ok(config) => settings.fault() is None && config@ == settings,
                Err(e) => settings.fault() == Some(e),
            },
    {
        if settings.particles == 0 {
            return Err(ConfigError::NoParticles);
        }
        if !(settings.x.is_bounded() && settings.y.is_bounded()
            && settings.velocity.is_bounded()) {
            return Err(ConfigError::NonFiniteBound);
        }
        if !(settings.x.is_inhabited() && settings.y.is_inhabited()
            && settings.velocity.is_inhabited()) {
            return Err(ConfigError::EmptyRange);
        }
        Ok(Config { settings })
    }

    /// The settings that were checked.
    pub fn settings(&self) -> (s: Settings)
        ensures
            s == self@,
            s.fault() is None,
    {
        proof {
            use_type_invariant(self);
        }
        self.settings
    }
}

} // verus!

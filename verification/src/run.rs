//! The protocol of a run.
//!
//! A run alternates between work that is done elsewhere (computing where a
//! particle moves and how fit that place is, storing a record) and decisions
//! that are made here (what is kept, whose turn it is, when the run is over).
//! The driver of a run feeds it [`Event`]s and is answered with the
//! [`Action`] to perform next.

use vstd::prelude::*;
use crate::particle::{Best, Candidate, Particle, Point};
use crate::scalar::Scalar;
use crate::swarm::{Swarm, SwarmState};

verus! {

/// Progress is announced for every iteration whose index is a multiple of this.
pub const ANNOUNCE_EVERY: usize = 100;

/// How far a run has come.
#[derive(Clone, Copy, Debug, PartialEq, Eq, Structural)]
pub enum Phase {
    /// Nothing has happened yet.
    NotStarted,
    /// Iteration `iteration` is under way and the first `moved` particles
    /// have made their move in it. Once all have, its record is due.
    Running { iteration: usize, moved: usize },
    /// Every iteration has been made and recorded.
    Completed,
}

/// What the driver reports to the run.
#[derive(Clone, Copy, Debug, PartialEq, Eq, Structural)]
pub enum Event {
    /// The run is to begin.
    Start,
    /// The particle whose move was asked for has been moved to this place.
    Moved(Candidate),
    /// The record that was asked for has been stored.
    Recorded,
}

/// The outcome of one iteration.
#[derive(Clone, Copy, Debug, PartialEq, Eq, Structural)]
pub struct Record {
    /// The index of the iteration, counted from 0.
    pub iteration: usize,
    /// The fitness of the global best once every particle had moved.
    pub fitness: Scalar,
    /// Whether progress is to be shown for this iteration.
    pub announce: bool,
}

/// What the driver has to do next.
#[derive(Clone, Copy, Debug, PartialEq, Eq, Structural)]
pub enum Action {
    /// Move the particle at `index`, whose present state is `particle`,
    /// while the swarm's best position is `toward`, and report where it went.
    Move { index: usize, particle: Particle, toward: Point },
    /// Store the outcome of an iteration, and report that it is stored.
    Record(Record),
    /// The run is over; `best` is its result.
    Finish { best: Best },
}

/// Why an event was refused.
#[derive(Clone, Copy, Debug, PartialEq, Eq, Structural)]
pub enum RunError {
    /// The event is not the one the run was waiting for.
    OutOfTurn,
}

/// A run as a mathematical value.
pub struct RunState {
    pub swarm: SwarmState,
    pub iterations: usize,
    pub phase: Phase,
}

/// A run of a fixed number of iterations over one swarm.
#[derive(Debug)]
pub struct Run {
    swarm: Swarm,
    iterations: usize,
    phase: Phase,
}

impl RunState {
    /// The swarm has particles, and a running phase names an iteration that
    /// is to be made and no more moves than there are particles.
    pub open spec fn wf(self) -> bool {
        &&& self.swarm.populated()
        &&& self.phase matches Phase::Running { iteration, moved } ==> {
            &&& iteration < self.iterations
            &&& moved <= self.swarm.particles.len()
        }
    }

    /// A run that has not started.
    pub open spec fn fresh(swarm: SwarmState, iterations: usize) -> RunState {
        RunState { swarm, iterations, phase: Phase::NotStarted }
    }

    /// The phase in which iteration `iteration` begins: running, or completed
    /// if no such iteration is to be made.
    pub open spec fn opening(self, iteration: int) -> Phase {
        if iteration < self.iterations {
            Phase::Running { iteration: iteration as usize, moved: 0 }
        } else {
            Phase::Completed
        }
    }

    /// Whether the event is the one the run is waiting for.
    pub open spec fn accepts(self, event: Event) -> bool {
        match self.phase {
            Phase::NotStarted => event is Start,
            Phase::Running { iteration, moved } => if moved < self.swarm.particles.len() {
                event is Moved
            } else {
                event is Recorded
            },
            Phase::Completed => false,
        }
    }

    /// The run after an event. An event out of turn changes nothing.
    pub open spec fn after(self, event: Event) -> RunState {
        if !self.accepts(event) {
            self
        } else {
            match (self.phase, event) {
                (Phase::Running { iteration, moved }, Event::Moved(to)) => RunState {
                    swarm: self.swarm.moved(moved as int, to),
                    phase: Phase::Running { iteration, moved: (moved + 1) as usize },
                    ..self
                },
                (Phase::Running { iteration, moved }, _) => RunState {
                    phase: self.opening(iteration + 1),
                    ..self
                },
                _ => RunState { phase: self.opening(0), ..self },
            }
        }
    }

    /// The action that answers an event: none where the event is out of turn,
    /// else what the run asks for once it has taken the event.
    pub open spec fn answer(self, event: Event) -> Option<Action> {
        if self.accepts(event) {
            self.after(event).due()
        } else {
            None
        }
    }

    /// What the run asks of its driver: nothing before it has started, then
    /// one move after the other, in the order of the particles and each
    /// against the global best as the moves before it left it; then the
    /// record of the iteration; at the end, the result.
    pub open spec fn due(self) -> Option<Action> {
        match self.phase {
            Phase::NotStarted => None,
            Phase::Running { iteration, moved } => if moved < self.swarm.particles.len() {
                Some(
                    Action::Move {
                        index: moved,
                        particle: self.swarm.particles[moved as int],
                        toward: self.swarm.best.position,
                    },
                )
            } else {
                Some(
                    Action::Record(
                        Record {
                            iteration,
                            fitness: self.swarm.best.fitness,
                            announce: iteration % ANNOUNCE_EVERY == 0,
                        },
                    ),
                )
            },
            Phase::Completed => Some(Action::Finish { best: self.swarm.best }),
        }
    }
}

impl View for Run {
    type V = RunState;

    closed spec fn view(&self) -> RunState {
        RunState { swarm: self.swarm@, iterations: self.iterations, phase: self.phase }
    }
}

impl Run {
    /// Every run is well formed.
    #[verifier::type_invariant]
    pub open spec fn wf(self) -> bool {
        self@.wf()
    }

    /// A run of `iterations` iterations over the swarm, not yet started.
    pub fn new(swarm: Swarm, iterations: usize) -> (run: Run)
        ensures
            run@ == RunState::fresh(swarm@, iterations),
    {
        proof {
            use_type_invariant(&swarm);
        }
        Run { swarm, iterations, phase: Phase::NotStarted }
    }

    /// The phase the run is in.
    pub fn phase(&self) -> (phase: Phase)
        ensures
            phase == self@.phase,
    {
        self.phase
    }

    /// The number of iterations the run is to make.
    pub fn iterations(&self) -> (n: usize)
        ensures
            n == self@.iterations,
    {
        self.iterations
    }

    /// The swarm as the run has left it so far.
    pub fn swarm(&self) -> (swarm: &Swarm)
        ensures
            swarm@ == self@.swarm,
    {
        &self.swarm
    }

    /// The phase in which the given iteration begins.
    fn opening(&self, iteration: usize) -> (phase: Phase)
        ensures
            phase == self@.opening(iteration as int),
    {
        if iteration < self.iterations {
            Phase::Running { iteration, moved: 0 }
        } else {
            Phase::Completed
        }
    }

    /// The action a started run is waiting for.
    fn awaited(&self) -> (action: Action)
        requires
            self@.phase !is NotStarted,
        ensures
            self@.due() == Some(action),
    {
        proof {
            use_type_invariant(self);
        }
        match self.phase {
            Phase::Running { iteration, moved } => {
                match self.swarm.particle(moved) {
                    Some(particle) => Action::Move {
                        index: moved,
                        particle,
                        toward: self.swarm.best().position,
                    },
                    None => Action::Record(
                        Record {
                            iteration,
                            fitness: self.swarm.best().fitness,
                            announce: iteration % ANNOUNCE_EVERY == 0,
                        },
                    ),
                }
            },
            _ => Action::Finish { best: self.swarm.best() },
        }
    }

    /// What the driver has to do now, if anything.
    pub fn due(&self) -> (action: Option<Action>)
        ensures
            action == self@.due(),
    {
        match self.phase {
            Phase::NotStarted => None,
            _ => Some(self.awaited()),
        }
    }

    /// Takes an event and answers with the next action. An event that the
    /// run is not waiting for is refused and leaves the run as it was.
    pub fn step(&mut self, event: Event) -> (r: Result<Action, RunError>)
        ensures
            final(self)@ == old(self)@.after(event),
            match r {
                Ok(action) => old(self)@.answer(event) == Some(action),
                Err(e) => !old(self)@.accepts(event) && e == RunError::OutOfTurn,
            },
    {
        proof {
            use_type_invariant(&*self);
        }
        match (self.phase, event) {
            (Phase::NotStarted, Event::Start) => {
                self.phase = self.opening(0);
            },
            (Phase::Running { iteration, moved }, Event::Moved(to)) => {
                if moved >= self.swarm.len() {
                    return Err(RunError::OutOfTurn);
                }
                self.swarm.advance(moved, to);
                self.phase = Phase::Running { iteration, moved: moved + 1 };
            },
            (Phase::Running { iteration, moved }, Event::Recorded) => {
                if moved < self.swarm.len() {
                    return Err(RunError::OutOfTurn);
                }
                self.phase = self.opening(iteration + 1);
            },
            _ => {
                return Err(RunError::OutOfTurn);
            },
        }
        Ok(self.awaited())
    }
}

} // verus!

//! One candidate solution and the memory of the best place it has been.

use vstd::prelude::*;
use crate::scalar::Scalar;

verus! {

/// A pair of coordinates in the two-dimensional search space: a position, or
/// the step taken per iteration along each axis.
#[derive(Clone, Copy, Debug, PartialEq, Eq, Structural)]
pub struct Point {
    pub x: Scalar,
    pub y: Scalar,
}

/// The best place found so far, by one particle or by the whole swarm, and
/// its fitness. Lower fitness is better.
#[derive(Clone, Copy, Debug, PartialEq, Eq, Structural)]
pub struct Best {
    pub position: Point,
    pub fitness: Scalar,
}

/// Where a particle has been put, how fast it travels, and the fitness
/// evaluated at that position: the outcome of sampling a starting point or of
/// computing one move.
#[derive(Clone, Copy, Debug, PartialEq, Eq, Structural)]
pub struct Candidate {
    pub position: Point,
    pub velocity: Point,
    pub fitness: Scalar,
}

/// A member of the swarm.
#[derive(Clone, Copy, Debug, PartialEq, Eq, Structural)]
pub struct Particle {
    pub position: Point,
    pub velocity: Point,
    pub best: Best,
}

impl Best {
    /// The best after a place with the given fitness was visited: the new
    /// place where its fitness is strictly smaller, the old best otherwise.
    /// A NaN fitness never displaces a best, and a best whose fitness is a
    /// NaN is never displaced.
    pub open spec fn offered(self, position: Point, fitness: Scalar) -> Best {
        if fitness.lt(self.fitness) {
            Best { position, fitness }
        } else {
            self
        }
    }

    /// Offers a visited place to the best and says whether it was taken.
    pub fn offer(&mut self, position: Point, fitness: Scalar) -> (taken: bool)
        ensures
            *final(self) == old(self).offered(position, fitness),
            taken == fitness.lt(old(self).fitness),
        no_unwind
    {
        if fitness.lt(self.fitness) {
            self.position = position;
            self.fitness = fitness;
            true
        } else {
            false
        }
    }
}

impl Particle {
    /// A particle at its starting point: its personal best is where it starts.
    pub open spec fn spawned(start: Candidate) -> Particle {
        Particle {
            position: start.position,
            velocity: start.velocity,
            best: Best { position: start.position, fitness: start.fitness },
        }
    }

    /// The particle after a move: it takes the new position and velocity
    /// whatever the fitness there, and its personal best is offered the place.
    pub open spec fn moved(self, to: Candidate) -> Particle {
        Particle {
            position: to.position,
            velocity: to.velocity,
            best: self.best.offered(to.position, to.fitness),
        }
    }

    /// Creates a particle at a sampled starting point.
    pub fn spawn(start: Candidate) -> (p: Particle)
        ensures
            p == Particle::spawned(start),
    {
        Particle {
            position: start.position,
            velocity: start.velocity,
            best: Best { position: start.position, fitness: start.fitness },
        }
    }

    /// Moves the particle and says whether the move set a new personal best.
    pub fn advance(&mut self, to: Candidate) -> (improved: bool)
        ensures
            *final(self) == old(self).moved(to),
            improved == to.fitness.lt(old(self).best.fitness),
        no_unwind
    {
        self.position = to.position;
        self.velocity = to.velocity;
        self.best.offer(to.position, to.fitness)
    }
}

/// A best only ever gets better: after any offer its fitness is the old
/// one, or strictly smaller.
pub proof fn lemma_offer_never_raises(best: Best, position: Point, fitness: Scalar)
    ensures
        best.offered(position, fitness).fitness.settled_from(best.fitness),
{
}

/// After an offer the best is no worse than what was offered, nor than it
/// was, provided both fitness values are numbers.
pub proof fn lemma_offer_is_at_most_offered(best: Best, position: Point, fitness: Scalar)
    requires
        !best.fitness.is_nan(),
        !fitness.is_nan(),
    ensures
        best.offered(position, fitness).fitness.le(fitness),
        best.offered(position, fitness).fitness.le(best.fitness),
{
}

} // verus!

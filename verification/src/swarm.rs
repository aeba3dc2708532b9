//! The population and the best place any of its members has found.

use vstd::prelude::*;
use crate::config::ConfigError;
use crate::particle::{lemma_offer_never_raises, Best, Candidate, Particle, Point};
use crate::scalar::{lemma_settled_transitive, Scalar};

verus! {

/// A swarm as a mathematical value: its members in their fixed order, and
/// the global best.
pub struct SwarmState {
    pub particles: Seq<Particle>,
    pub best: Best,
}

/// A population of at least one particle, with the global best.
#[derive(Debug)]
pub struct Swarm {
    particles: Vec<Particle>,
    best: Best,
}

impl SwarmState {
    /// There is at least one particle, and no more than can be indexed.
    pub open spec fn populated(self) -> bool {
        0 < self.particles.len() <= usize::MAX
    }

    /// The swarm made of the given starting points, in their order. The
    /// global best is seeded from the first of them, whether or not another
    /// starts at a better place.
    pub open spec fn seeded(starts: Seq<Candidate>) -> SwarmState {
        SwarmState {
            particles: Seq::new(starts.len(), |i: int| Particle::spawned(starts[i])),
            best: Particle::spawned(starts[0]).best,
        }
    }

    /// The swarm after the particle at `index` has moved: that particle is
    /// replaced by its moved self, every other one is untouched, and the
    /// global best is offered the place it moved to.
    pub open spec fn moved(self, index: int, to: Candidate) -> SwarmState {
        SwarmState {
            particles: self.particles.update(index, self.particles[index].moved(to)),
            best: self.best.offered(to.position, to.fitness),
        }
    }

    /// The global best is at least as good as every personal best.
    pub open spec fn leads(self) -> bool {
        forall|i: int|
            0 <= i < self.particles.len() ==> self.best.fitness.le(
                #[trigger] self.particles[i].best.fitness,
            )
    }

    /// Every best, personal or global, is a place and a fitness
    /// that the given relation ties together.
    pub open spec fn every_best(self, tie: spec_fn(Point, Scalar) -> bool) -> bool {
        &&& tie(self.best.position, self.best.fitness)
        &&& forall|i: int|
            0 <= i < self.particles.len() ==> tie(
                (#[trigger] self.particles[i]).best.position,
                self.particles[i].best.fitness,
            )
    }

    /// What a swarm may become through moves of its members: nobody joins or
    /// leaves, and no best, personal or global, gets worse.
    pub open spec fn settled_from(self, earlier: SwarmState) -> bool {
        &&& self.particles.len() == earlier.particles.len()
        &&& self.best.fitness.settled_from(earlier.best.fitness)
        &&& forall|i: int|
            0 <= i < self.particles.len() ==> (#[trigger] self.particles[i]).best.fitness
                .settled_from(earlier.particles[i].best.fitness)
    }
}

impl View for Swarm {
    type V = SwarmState;

    closed spec fn view(&self) -> SwarmState {
        SwarmState { particles: self.particles@, best: self.best }
    }
}

/// Builds the swarm from sampled starting points, one particle for each, in
/// order. An empty sample is refused: a swarm without particles has no global
/// best to speak of.
pub fn init_swarm(starts: &Vec<Candidate>) -> (r: Result<Swarm, ConfigError>)
    ensures
        match r {
            Ok(swarm) => starts.len() > 0 && swarm@ == SwarmState::seeded(starts@),
            Err(e) => starts.len() == 0 && e == ConfigError::NoParticles,
        },
{
    if starts.len() == 0 {
        return Err(ConfigError::NoParticles);
    }
    let mut particles: Vec<Particle> = Vec::with_capacity(starts.len());
    let mut i: usize = 0;
    while i < starts.len()
        invariant
            i <= starts.len(),
            particles@ == Seq::new(i as nat, |k: int| Particle::spawned(starts@[k])),
        decreases starts.len() - i,
    {
        particles.push(Particle::spawn(starts[i]));
        i += 1;
    }
    let best: Best = particles[0].best;
    Ok(Swarm { particles, best })
}

impl Swarm {
    /// A swarm is never empty.
    #[verifier::type_invariant]
    pub open spec fn populated(self) -> bool {
        self@.populated()
    }

    /// The number of particles.
    pub fn len(&self) -> (n: usize)
        ensures
            n == self@.particles.len(),
            n > 0,
    {
        proof {
            use_type_invariant(self);
        }
        self.particles.len()
    }

    /// The global best.
    pub fn best(&self) -> (b: Best)
        ensures
            b == self@.best,
    {
        self.best
    }

    /// The particle at `index`, if there is one.
    pub fn particle(&self, index: usize) -> (p: Option<Particle>)
        ensures
            p == if index < self@.particles.len() {
                Some(self@.particles[index as int])
            } else {
                None
            },
    {
        if index < self.particles.len() {
            Some(self.particles[index])
        } else {
            None
        }
    }

    /// Records the move of one particle: the particle takes its new place,
    /// and its personal best and the global best are each offered that place.
    /// The global best is read as the particles before this one left it.
    /// Says whether the global best was replaced.
    pub fn advance(&mut self, index: usize, to: Candidate) -> (improved: bool)
        requires
            index < old(self)@.particles.len(),
        ensures
            final(self)@ == old(self)@.moved(index as int, to),
            improved == to.fitness.lt(old(self)@.best.fitness),
        no_unwind
    {
        proof {
            use_type_invariant(&*self);
        }
        self.particles[index].advance(to);
        self.best.offer(to.position, to.fitness)
    }
}

/// A move changes no one but the mover and lets no best get worse.
pub proof fn lemma_move_settles(swarm: SwarmState, index: int, to: Candidate)
    requires
        0 <= index < swarm.particles.len(),
    ensures
        swarm.moved(index, to).settled_from(swarm),
        forall|i: int|
            0 <= i < swarm.particles.len() && i != index ==> swarm.moved(index, to).particles[i]
                == swarm.particles[i],
{
    let after = swarm.moved(index, to);
    lemma_offer_never_raises(swarm.best, to.position, to.fitness);
    assert forall|i: int| 0 <= i < after.particles.len() implies (#[trigger] after.particles[i])
        .best.fitness.settled_from(swarm.particles[i].best.fitness) by {
        if i == index {
            lemma_offer_never_raises(swarm.particles[i].best, to.position, to.fitness);
        }
    }
}

/// Where the global best leads before a move, it leads after it.
pub proof fn lemma_move_keeps_lead(swarm: SwarmState, index: int, to: Candidate)
    requires
        0 <= index < swarm.particles.len(),
        swarm.leads(),
    ensures
        swarm.moved(index, to).leads(),
{
    let after = swarm.moved(index, to);
    assert forall|i: int| 0 <= i < after.particles.len() implies after.best.fitness.le(
        #[trigger] after.particles[i].best.fitness,
    ) by {
        assert(swarm.best.fitness.le(swarm.particles[i].best.fitness));
    }
}

/// A freshly seeded swarm is led by its global best exactly when no particle
/// starts at a better place than the first, and all start at a place whose
/// fitness is a number.
pub proof fn lemma_seed_leads_iff_first_is_least(starts: Seq<Candidate>)
    requires
        starts.len() > 0,
    ensures
        SwarmState::seeded(starts).leads() <==> forall|i: int|
            0 <= i < starts.len() ==> starts[0].fitness.le(#[trigger] starts[i].fitness),
{
    let swarm = SwarmState::seeded(starts);
    if swarm.leads() {
        assert forall|i: int| 0 <= i < starts.len() implies starts[0].fitness.le(
            #[trigger] starts[i].fitness,
        ) by {
            assert(swarm.best.fitness.le(swarm.particles[i].best.fitness));
        }
    }
    if forall|i: int| 0 <= i < starts.len() ==> starts[0].fitness.le(#[trigger] starts[i].fitness) {
        assert forall|i: int| 0 <= i < swarm.particles.len() implies swarm.best.fitness.le(
            #[trigger] swarm.particles[i].best.fitness,
        ) by {
            assert(starts[0].fitness.le(starts[i].fitness));
        }
    }
}

/// The bests are never made up: a relation that ties the fitness to the
/// position in every starting point ties them in every best of the seeded
/// swarm.
pub proof fn lemma_seed_keeps_tie(starts: Seq<Candidate>, tie: spec_fn(Point, Scalar) -> bool)
    requires
        starts.len() > 0,
        forall|i: int|
            0 <= i < starts.len() ==> tie((#[trigger] starts[i]).position, starts[i].fitness),
    ensures
        SwarmState::seeded(starts).every_best(tie),
{
    let swarm = SwarmState::seeded(starts);
    assert(tie(starts[0].position, starts[0].fitness));
    assert forall|i: int| 0 <= i < swarm.particles.len() implies tie(
        (#[trigger] swarm.particles[i]).best.position,
        swarm.particles[i].best.fitness,
    ) by {
        assert(tie(starts[i].position, starts[i].fitness));
    }
}

/// A relation that ties the fitness to the position in every best and in
/// the place moved to ties them in every best after the move.
pub proof fn lemma_move_keeps_tie(
    swarm: SwarmState,
    index: int,
    to: Candidate,
    tie: spec_fn(Point, Scalar) -> bool,
)
    requires
        0 <= index < swarm.particles.len(),
        swarm.every_best(tie),
        tie(to.position, to.fitness),
    ensures
        swarm.moved(index, to).every_best(tie),
{
    let after = swarm.moved(index, to);
    assert forall|i: int| 0 <= i < after.particles.len() implies tie(
        (#[trigger] after.particles[i]).best.position,
        after.particles[i].best.fitness,
    ) by {
        assert(tie(swarm.particles[i].best.position, swarm.particles[i].best.fitness));
    }
}

/// Settling composes: a swarm settled from one that was itself settled from
/// a third is settled from the third.
pub proof fn lemma_swarm_settled_transitive(a: SwarmState, b: SwarmState, c: SwarmState)
    requires
        a.settled_from(b),
        b.settled_from(c),
    ensures
        a.settled_from(c),
{
    lemma_settled_transitive(a.best.fitness, b.best.fitness, c.best.fitness);
    assert forall|i: int| 0 <= i < a.particles.len() implies (#[trigger] a.particles[i]).best
        .fitness.settled_from(c.particles[i].best.fitness) by {
        lemma_settled_transitive(
            a.particles[i].best.fitness,
            b.particles[i].best.fitness,
            c.particles[i].best.fitness,
        );
    }
}

} // verus!

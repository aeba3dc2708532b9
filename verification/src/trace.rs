//! What holds of a run over any sequence of events.

use vstd::prelude::*;
use crate::particle::{lemma_offer_is_at_most_offered, Point};
use crate::run::{Action, Event, Phase, Record, RunState, ANNOUNCE_EVERY};
use crate::scalar::{lemma_settled_transitive, Scalar};
use crate::swarm::{
    lemma_move_keeps_lead, lemma_move_keeps_tie, lemma_move_settles,
    lemma_swarm_settled_transitive, SwarmState,
};

verus! {

impl RunState {
    /// The run after a whole sequence of events, fed one by one.
    pub open spec fn after_all(self, events: Seq<Event>) -> RunState
        decreases events.len(),
    {
        if events.len() == 0 {
            self
        } else {
            self.after_all(events.drop_last()).after(events.last())
        }
    }

    /// The records that the run asked to have stored while it was fed a
    /// sequence of events, in the order in which it asked.
    pub open spec fn records(self, events: Seq<Event>) -> Seq<Record>
        decreases events.len(),
    {
        if events.len() == 0 {
            Seq::empty()
        } else {
            let earlier = self.records(events.drop_last());
            match self.after_all(events.drop_last()).answer(events.last()) {
                Some(Action::Record(record)) => earlier.push(record),
                _ => earlier,
            }
        }
    }

    /// The number of events that the run has yet to take before it is
    /// completed: the start, one for each move, one for each record.
    pub open spec fn remaining(self) -> int {
        let per_iteration = self.swarm.particles.len() + 1;
        match self.phase {
            Phase::NotStarted => 1 + self.iterations * per_iteration,
            Phase::Running { iteration, moved } => (per_iteration - moved) + (self.iterations
                - iteration - 1) * per_iteration,
            Phase::Completed => 0,
        }
    }

    /// The number of iterations in which every particle has made its move.
    pub open spec fn iterations_made(self) -> int {
        match self.phase {
            Phase::NotStarted => 0,
            Phase::Running { iteration, moved } => if moved < self.swarm.particles.len() {
                iteration as int
            } else {
                iteration + 1
            },
            Phase::Completed => self.iterations as int,
        }
    }
}

/// An event leaves a well-formed run well formed, with the iterations it was
/// given.
pub proof fn lemma_step_keeps_wf(run: RunState, event: Event)
    requires
        run.wf(),
    ensures
        run.after(event).wf(),
        run.after(event).iterations == run.iterations,
{
}

/// An event lets no best get worse, personal or global, and
/// leaves the population as large as it was.
pub proof fn lemma_step_settles(run: RunState, event: Event)
    requires
        run.wf(),
    ensures
        run.after(event).swarm.settled_from(run.swarm),
{
    if run.accepts(event) && event is Moved {
        lemma_move_settles(run.swarm, run.phase->moved as int, event->Moved_0);
    } else {
        assert(run.after(event).swarm == run.swarm);
    }
}

/// Where the global best is at least as good as every personal best before
/// an event, it is so after it.
pub proof fn lemma_step_keeps_lead(run: RunState, event: Event)
    requires
        run.wf(),
        run.swarm.leads(),
    ensures
        run.after(event).swarm.leads(),
{
    if run.accepts(event) && event is Moved {
        lemma_move_keeps_lead(run.swarm, run.phase->moved as int, event->Moved_0);
    } else {
        assert(run.after(event).swarm == run.swarm);
    }
}

/// Every event that is taken brings the run one event closer to its end,
/// an event out of turn brings it no closer, and the run is completed
/// exactly when nothing remains.
pub proof fn lemma_step_counts_down(run: RunState, event: Event)
    requires
        run.wf(),
    ensures
        run.remaining() >= 0,
        run.remaining() == 0 <==> run.phase is Completed,
        run.after(event).remaining() == if run.accepts(event) {
            run.remaining() - 1
        } else {
            run.remaining()
        },
{
    let per = run.swarm.particles.len() + 1;
    let total = run.iterations as int;
    match run.phase {
        Phase::NotStarted => {
            assert(total * per >= 0) by (nonlinear_arith)
                requires
                    total >= 0,
                    per >= 0,
            ;
            if event is Start {
                if total > 0 {
                    assert((total - 0 - 1) * per == total * per - per) by (nonlinear_arith);
                } else {
                    assert(total * per == 0) by (nonlinear_arith)
                        requires
                            total == 0,
                    ;
                }
            }
        },
        Phase::Running { iteration, moved } => {
            let rest = total - iteration - 1;
            assert(rest * per >= 0) by (nonlinear_arith)
                requires
                    rest >= 0,
                    per >= 0,
            ;
            if run.accepts(event) && event is Recorded {
                if iteration + 1 < total {
                    assert((total - (iteration + 1) - 1) * per == rest * per - per)
                        by (nonlinear_arith)
                        requires
                            rest == total - iteration - 1,
                    ;
                } else {
                    assert(rest * per == 0) by (nonlinear_arith)
                        requires
                            rest == 0,
                    ;
                }
            }
        },
        Phase::Completed => {},
    }
}

/// A well-formed run stays well formed whatever it is fed.
pub proof fn lemma_run_keeps_wf(run: RunState, events: Seq<Event>)
    requires
        run.wf(),
    ensures
        run.after_all(events).wf(),
        run.after_all(events).iterations == run.iterations,
    decreases events.len(),
{
    if events.len() > 0 {
        lemma_run_keeps_wf(run, events.drop_last());
        lemma_step_keeps_wf(run.after_all(events.drop_last()), events.last());
    }
}

/// Over any sequence of events the population keeps its size, the fitness of
/// the global best never rises, and no particle's personal best fitness does.
pub proof fn lemma_run_settles(run: RunState, events: Seq<Event>)
    requires
        run.wf(),
    ensures
        run.after_all(events).swarm.settled_from(run.swarm),
    decreases events.len(),
{
    if events.len() > 0 {
        let before = run.after_all(events.drop_last());
        lemma_run_keeps_wf(run, events.drop_last());
        lemma_run_settles(run, events.drop_last());
        lemma_step_settles(before, events.last());
        lemma_swarm_settled_transitive(before.after(events.last()).swarm, before.swarm, run.swarm);
    }
}

/// A global best that is at least as good as every personal best stays so
/// over any sequence of events.
pub proof fn lemma_run_keeps_lead(run: RunState, events: Seq<Event>)
    requires
        run.wf(),
        run.swarm.leads(),
    ensures
        run.after_all(events).swarm.leads(),
    decreases events.len(),
{
    if events.len() > 0 {
        lemma_run_keeps_wf(run, events.drop_last());
        lemma_run_keeps_lead(run, events.drop_last());
        lemma_step_keeps_lead(run.after_all(events.drop_last()), events.last());
    }
}

/// The bests are places that were reported, each with the fitness
/// reported for it: a relation that ties the fitness to the position in
/// every best at the outset and in every move that is fed in ties them in
/// every best afterwards.
pub proof fn lemma_run_keeps_tie(
    run: RunState,
    events: Seq<Event>,
    tie: spec_fn(Point, Scalar) -> bool,
)
    requires
        run.wf(),
        run.swarm.every_best(tie),
        forall|k: int|
            0 <= k < events.len() ==> ((#[trigger] events[k]) matches Event::Moved(to) ==> tie(
                to.position,
                to.fitness,
            )),
    ensures
        run.after_all(events).swarm.every_best(tie),
    decreases events.len(),
{
    if events.len() > 0 {
        let earlier = events.drop_last();
        let before = run.after_all(earlier);
        let event = events.last();
        assert forall|k: int| 0 <= k < earlier.len() implies (
            (#[trigger] earlier[k]) matches Event::Moved(to) ==> tie(to.position, to.fitness)
        ) by {
            assert(earlier[k] == events[k]);
        }
        lemma_run_keeps_wf(run, earlier);
        lemma_run_keeps_tie(run, earlier, tie);
        if before.accepts(event) && event is Moved {
            assert(event == events[events.len() - 1]);
            lemma_move_keeps_tie(before.swarm, before.phase->moved as int, event->Moved_0, tie);
        } else {
            assert(before.after(event).swarm == before.swarm);
        }
    }
}

/// Whatever a particle reports is taken into account from then on: once a
/// move to a place has been taken, the global best is at least as good as
/// that place for the rest of the run, and so is the personal best of the
/// particle that moved. This holds of bests and places whose fitness is a
/// number; a best whose fitness is a NaN stays as it is.
pub proof fn lemma_bests_are_at_most_every_move(run: RunState, events: Seq<Event>, k: int)
    requires
        run.wf(),
        0 <= k < events.len(),
        run.after_all(events.take(k)).accepts(events[k]),
        events[k] matches Event::Moved(to) && !to.fitness.is_nan(),
    ensures
        ({
            let mover = run.after_all(events.take(k)).phase->moved as int;
            let fitness = events[k]->Moved_0.fitness;
            let swarm = run.after_all(events).swarm;
            &&& 0 <= mover < swarm.particles.len() == run.swarm.particles.len()
            &&& !run.swarm.best.fitness.is_nan() ==> swarm.best.fitness.le(fitness)
            &&& !run.swarm.particles[mover].best.fitness.is_nan()
                ==> swarm.particles[mover].best.fitness.le(fitness)
        }),
    decreases events.len(),
{
    let earlier = events.drop_last();
    let before = run.after_all(earlier);
    let after = before.after(events.last());
    lemma_run_keeps_wf(run, earlier);
    lemma_run_settles(run, earlier);
    lemma_step_settles(before, events.last());
    if k == events.len() - 1 {
        assert(events.take(k) == earlier);
        let to = events[k]->Moved_0;
        let mover = before.phase->moved as int;
        if !run.swarm.best.fitness.is_nan() {
            lemma_offer_is_at_most_offered(before.swarm.best, to.position, to.fitness);
        }
        if !run.swarm.particles[mover].best.fitness.is_nan() {
            lemma_offer_is_at_most_offered(
                before.swarm.particles[mover].best,
                to.position,
                to.fitness,
            );
        }
    } else {
        assert(earlier.take(k) == events.take(k));
        assert(earlier[k] == events[k]);
        lemma_bests_are_at_most_every_move(run, earlier, k);
        let mover = run.after_all(events.take(k)).phase->moved as int;
        assert(after.swarm.best.fitness.settled_from(before.swarm.best.fitness));
        assert(after.swarm.particles[mover].best.fitness.settled_from(
            before.swarm.particles[mover].best.fitness,
        ));
    }
}

/// The global best is never worse than it was when any earlier record was
/// asked for.
proof fn lemma_best_settled_from_records(run: RunState, events: Seq<Event>, k: int)
    requires
        run.wf(),
        0 <= k < run.records(events).len(),
    ensures
        run.after_all(events).swarm.best.fitness.settled_from(run.records(events)[k].fitness),
    decreases events.len(),
{
    let before = run.after_all(events.drop_last());
    let earlier = run.records(events.drop_last());
    lemma_run_keeps_wf(run, events.drop_last());
    if k < earlier.len() {
        lemma_best_settled_from_records(run, events.drop_last(), k);
        lemma_step_settles(before, events.last());
        lemma_settled_transitive(
            before.after(events.last()).swarm.best.fitness,
            before.swarm.best.fitness,
            earlier[k].fitness,
        );
    }
}

/// The fitness values that a run records never rise: each is the one
/// recorded before it, or lies strictly below it, and so stands in that
/// relation to every earlier one.
pub proof fn lemma_records_never_rise(run: RunState, events: Seq<Event>, i: int, j: int)
    requires
        run.wf(),
        0 <= i <= j < run.records(events).len(),
    ensures
        run.records(events)[j].fitness.settled_from(run.records(events)[i].fitness),
        !run.records(events)[i].fitness.lt(run.records(events)[j].fitness),
    decreases events.len(),
{
    let before = run.after_all(events.drop_last());
    let earlier = run.records(events.drop_last());
    lemma_run_keeps_wf(run, events.drop_last());
    if j < earlier.len() {
        lemma_records_never_rise(run, events.drop_last(), i, j);
    } else if i < j {
        lemma_best_settled_from_records(run, events.drop_last(), i);
        lemma_step_settles(before, events.last());
        lemma_settled_transitive(
            before.after(events.last()).swarm.best.fitness,
            before.swarm.best.fitness,
            earlier[i].fitness,
        );
    }
}

/// A run begun from scratch asks for one record per iteration, as soon as
/// the last particle has made its move in it: at any time it has asked for
/// as many records as iterations have been made, and so for one per
/// iteration of the whole run once it is completed.
pub proof fn lemma_one_record_per_iteration(
    swarm: SwarmState,
    iterations: usize,
    events: Seq<Event>,
)
    requires
        swarm.populated(),
    ensures
        RunState::fresh(swarm, iterations).records(events).len() == RunState::fresh(
            swarm,
            iterations,
        ).after_all(events).iterations_made(),
    decreases events.len(),
{
    let run = RunState::fresh(swarm, iterations);
    if events.len() > 0 {
        let before = run.after_all(events.drop_last());
        lemma_one_record_per_iteration(swarm, iterations, events.drop_last());
        lemma_run_keeps_wf(run, events.drop_last());
        lemma_step_keeps_wf(before, events.last());
        if before.accepts(events.last()) {
            assert(before.answer(events.last()) is Some);
            assert(before.answer(events.last())->Some_0 is Record <==> before.after(
                events.last(),
            ).iterations_made() == before.iterations_made() + 1);
        }
    }
}

/// A run begun from scratch records its iterations in order and one by one:
/// the record at place `k` is that of iteration `k`, it is announced where
/// `k` is a multiple of the announcing period, and there are never more
/// records than iterations.
pub proof fn lemma_records_are_numbered(
    swarm: SwarmState,
    iterations: usize,
    events: Seq<Event>,
    k: int,
)
    requires
        swarm.populated(),
        0 <= k < RunState::fresh(swarm, iterations).records(events).len(),
    ensures
        RunState::fresh(swarm, iterations).records(events).len() <= iterations,
        RunState::fresh(swarm, iterations).records(events)[k].iteration == k,
        RunState::fresh(swarm, iterations).records(events)[k].announce == (k % (
        ANNOUNCE_EVERY as int) == 0),
    decreases events.len(),
{
    let run = RunState::fresh(swarm, iterations);
    let before = run.after_all(events.drop_last());
    let earlier = run.records(events.drop_last());
    lemma_one_record_per_iteration(swarm, iterations, events);
    lemma_one_record_per_iteration(swarm, iterations, events.drop_last());
    lemma_run_keeps_wf(run, events);
    lemma_run_keeps_wf(run, events.drop_last());
    if k < earlier.len() {
        lemma_records_are_numbered(swarm, iterations, events.drop_last(), k);
    } else {
        assert(before.answer(events.last()) == Some(Action::Record(run.records(events)[k])));
        assert(before.phase is Running);
        assert(earlier.len() == before.phase->iteration);
    }
}

/// Nothing but its starting state and the events it is fed bears on a run:
/// two runs that start alike and are fed the same events end alike and ask
/// for the same records.
pub proof fn lemma_run_is_determined(
    a: RunState,
    b: RunState,
    events_a: Seq<Event>,
    events_b: Seq<Event>,
)
    requires
        a.swarm.particles =~= b.swarm.particles,
        a.swarm.best == b.swarm.best,
        a.iterations == b.iterations,
        a.phase == b.phase,
        events_a =~= events_b,
    ensures
        a.after_all(events_a) == b.after_all(events_b),
        a.records(events_a) == b.records(events_b),
{
}

} // verus!

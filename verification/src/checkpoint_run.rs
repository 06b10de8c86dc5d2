//! When a run emits checkpoints, and how far it steps in between.

use vstd::arithmetic::div_mod::{
    lemma_div_is_ordered, lemma_fundamental_div_mod, lemma_fundamental_div_mod_converse,
};
use vstd::prelude::*;

use crate::error::{error, fails_with, report, ErrorReport, ErrorReportView};
use crate::model::runtime::{
    RuntimeCheckpointCadence, RuntimeCheckpointEvent, RuntimeCheckpointReason,
    RuntimeCheckpointRunReport,
};

verus! {

impl RuntimeCheckpointCadence {
    /// A checkpoint after every so many steps and at the end, but not at the start.
    pub fn every_steps(every_steps: usize) -> (r: Self)
        ensures
            r == (RuntimeCheckpointCadence {
                every_steps,
                include_initial: false,
                include_final: true,
            }),
    {
        RuntimeCheckpointCadence { every_steps, include_initial: false, include_final: true }
    }
}

/// What a run does next.
#[derive(Clone, Copy, Debug, PartialEq, Eq, Structural)]
pub enum RuntimeCheckpointStep {
    /// Emit a checkpoint.
    Emit(RuntimeCheckpointEvent),
    /// Step all shards so many times.
    Tick(usize),
    /// The run is over.
    Done(RuntimeCheckpointRunReport),
}

/// A run that emits checkpoints.
#[derive(Clone, Copy, Debug, PartialEq, Eq, Structural)]
pub struct RuntimeCheckpointRun {
    pub steps: usize,
    pub cadence: RuntimeCheckpointCadence,
    pub started: bool,
    pub completed_steps: usize,
    pub checkpoints_emitted: usize,
    pub last_checkpoint_step: Option<usize>,
}

/// A run before its first step.
pub open spec fn begun(steps: usize, cadence: RuntimeCheckpointCadence) -> RuntimeCheckpointRun {
    RuntimeCheckpointRun {
        steps,
        cadence,
        started: false,
        completed_steps: 0,
        checkpoints_emitted: 0,
        last_checkpoint_step: None,
    }
}

/// What is wrong with a cadence.
pub open spec fn cadence_problem(cadence: RuntimeCheckpointCadence) -> Option<ErrorReportView> {
    if cadence.every_steps == 0 {
        Some(
            report(
                "E_RUNTIME_CHECKPOINT_CADENCE"@,
                "runtime checkpoint cadence every_steps must be greater than zero"@,
            ),
        )
    } else {
        None
    }
}

/// How many steps are made before the next checkpoint or the end.
pub open spec fn next_chunk(run: RuntimeCheckpointRun) -> usize {
    let remaining = run.steps - run.completed_steps;
    let to_cadence = run.cadence.every_steps - run.completed_steps % run.cadence.every_steps;
    if remaining < to_cadence {
        remaining as usize
    } else {
        to_cadence as usize
    }
}

/// Whether the checkpoint of a cadence is due.
pub open spec fn cadence_due(run: RuntimeCheckpointRun) -> bool {
    &&& run.completed_steps > 0
    &&& run.completed_steps % run.cadence.every_steps == 0
    &&& run.last_checkpoint_step != Some(run.completed_steps)
}

/// What a run does next.
pub open spec fn next_step(run: RuntimeCheckpointRun) -> RuntimeCheckpointStep {
    if !run.started && run.cadence.include_initial {
        RuntimeCheckpointStep::Emit(
            RuntimeCheckpointEvent {
                completed_steps: run.completed_steps,
                reason: RuntimeCheckpointReason::Initial,
            },
        )
    } else if cadence_due(run) {
        RuntimeCheckpointStep::Emit(
            RuntimeCheckpointEvent {
                completed_steps: run.completed_steps,
                reason: RuntimeCheckpointReason::Cadence,
            },
        )
    } else if run.completed_steps < run.steps {
        RuntimeCheckpointStep::Tick(next_chunk(run))
    } else if run.cadence.include_final && run.last_checkpoint_step != Some(run.completed_steps) {
        RuntimeCheckpointStep::Emit(
            RuntimeCheckpointEvent {
                completed_steps: run.completed_steps,
                reason: RuntimeCheckpointReason::Final,
            },
        )
    } else {
        RuntimeCheckpointStep::Done(
            RuntimeCheckpointRunReport {
                requested_steps: run.steps,
                completed_steps: run.completed_steps,
                checkpoints_emitted: run.checkpoints_emitted,
            },
        )
    }
}

/// A run after its next step.
pub open spec fn stepped(run: RuntimeCheckpointRun) -> RuntimeCheckpointRun {
    match next_step(run) {
        RuntimeCheckpointStep::Emit(_) => RuntimeCheckpointRun {
            started: true,
            checkpoints_emitted: (run.checkpoints_emitted + 1) as usize,
            last_checkpoint_step: Some(run.completed_steps),
            ..run
        },
        RuntimeCheckpointStep::Tick(chunk) => RuntimeCheckpointRun {
            started: true,
            completed_steps: (run.completed_steps + chunk) as usize,
            ..run
        },
        RuntimeCheckpointStep::Done(_) => run,
    }
}

/// Whether the checkpoints of a run can be counted: there is at most one more than there are steps,
/// and that many only where every step and the start have one.
pub open spec fn checkpoints_fit(steps: usize, cadence: RuntimeCheckpointCadence) -> bool {
    cadence.every_steps == 1 && cadence.include_initial ==> steps < usize::MAX
}

/// How many checkpoints a run of the most steps can have emitted: one for each step but the start,
/// or one for each second step.
pub open spec fn longest_run_fits(run: RuntimeCheckpointRun) -> bool {
    let at_last = run.last_checkpoint_step == Some(run.completed_steps);
    run.steps == usize::MAX ==> if run.cadence.every_steps == 1 {
        run.checkpoints_emitted + (if !at_last && run.completed_steps > 0 {
            1int
        } else {
            0int
        }) <= run.completed_steps
    } else {
        &&& run.completed_steps < run.steps ==> run.completed_steps % run.cadence.every_steps == 0
        &&& 2 * run.checkpoints_emitted <= run.completed_steps + (if at_last {
            2int
        } else {
            0int
        }) + (if run.completed_steps == run.steps {
            2int
        } else {
            0int
        })
    }
}

impl RuntimeCheckpointRun {
    /// What holds of a run at all times: no step is passed over, and no step has two checkpoints.
    pub open spec fn well_formed(&self) -> bool {
        &&& self.cadence.every_steps > 0
        &&& checkpoints_fit(self.steps, self.cadence)
        &&& longest_run_fits(*self)
        &&& self.completed_steps <= self.steps
        &&& (self.last_checkpoint_step matches Some(l) ==> l <= self.completed_steps)
        &&& self.checkpoints_emitted <= self.completed_steps + (if self.last_checkpoint_step
            == Some(self.completed_steps) {
            1int
        } else {
            0int
        })
        &&& !self.started ==> self.completed_steps == 0 && self.checkpoints_emitted == 0
            && self.last_checkpoint_step is None
    }

    /// Begins a run.
    pub fn begin(steps: usize, cadence: RuntimeCheckpointCadence) -> (r: Result<Self, ErrorReport>)
        requires
            checkpoints_fit(steps, cadence),
        ensures
            fails_with(r, cadence_problem(cadence)),
            r matches Ok(run) ==> run == begun(steps, cadence) && run.well_formed(),
    {
        if cadence.every_steps == 0 {
            return Err(
                error(
                    "E_RUNTIME_CHECKPOINT_CADENCE",
                    "runtime checkpoint cadence every_steps must be greater than zero",
                ),
            );
        }
        Ok(
            RuntimeCheckpointRun {
                steps,
                cadence,
                started: false,
                completed_steps: 0,
                checkpoints_emitted: 0,
                last_checkpoint_step: None,
            },
        )
    }

    fn emit(&mut self, reason: RuntimeCheckpointReason) -> (r: RuntimeCheckpointStep)
        requires
            old(self).checkpoints_emitted < usize::MAX,
        ensures
            r == RuntimeCheckpointStep::Emit(
                RuntimeCheckpointEvent { completed_steps: old(self).completed_steps, reason },
            ),
            *final(self) == (RuntimeCheckpointRun {
                started: true,
                checkpoints_emitted: (old(self).checkpoints_emitted + 1) as usize,
                last_checkpoint_step: Some(old(self).completed_steps),
                ..*old(self)
            }),
    {
        self.started = true;
        self.checkpoints_emitted = self.checkpoints_emitted + 1;
        self.last_checkpoint_step = Some(self.completed_steps);
        RuntimeCheckpointStep::Emit(
            RuntimeCheckpointEvent { completed_steps: self.completed_steps, reason },
        )
    }

    /// Decides what the run does next, and counts it as done.
    pub fn advance(&mut self) -> (r: RuntimeCheckpointStep)
        requires
            old(self).well_formed(),
        ensures
            r == next_step(*old(self)),
            *final(self) == stepped(*old(self)),
            final(self).well_formed(),
    {
        proof {
            if !(next_step(*self) is Done) {
                lemma_advance_shrinks(*self);
            }
        }
        let at_last: bool = match self.last_checkpoint_step {
            Some(l) => l == self.completed_steps,
            None => false,
        };
        if !self.started && self.cadence.include_initial {
            return self.emit(RuntimeCheckpointReason::Initial);
        }
        if self.completed_steps > 0 && self.completed_steps % self.cadence.every_steps == 0
            && !at_last {
            return self.emit(RuntimeCheckpointReason::Cadence);
        }
        if self.completed_steps < self.steps {
            let remaining: usize = self.steps - self.completed_steps;
            let to_cadence: usize = self.cadence.every_steps - self.completed_steps
                % self.cadence.every_steps;
            let chunk: usize = if remaining < to_cadence {
                remaining
            } else {
                to_cadence
            };
            self.started = true;
            self.completed_steps = self.completed_steps + chunk;
            return RuntimeCheckpointStep::Tick(chunk);
        }
        if self.cadence.include_final && !at_last {
            return self.emit(RuntimeCheckpointReason::Final);
        }
        RuntimeCheckpointStep::Done(
            RuntimeCheckpointRunReport {
                requested_steps: self.steps,
                completed_steps: self.completed_steps,
                checkpoints_emitted: self.checkpoints_emitted,
            },
        )
    }
}

// ---------------------------------------------------------------------------
// Whole runs
// ---------------------------------------------------------------------------

/// How much is left of a run.
pub open spec fn run_measure(run: RuntimeCheckpointRun) -> nat {
    (4 * (run.steps - run.completed_steps) + (if run.started {
        0int
    } else {
        2int
    }) + (if run.last_checkpoint_step == Some(run.completed_steps) {
        0int
    } else {
        1int
    })) as nat
}

/// Each step but the last brings a run nearer to its end.
pub proof fn lemma_advance_shrinks(run: RuntimeCheckpointRun)
    requires
        run.well_formed(),
        !(next_step(run) is Done),
    ensures
        stepped(run).well_formed(),
        run_measure(stepped(run)) < run_measure(run),
{
    if next_step(run) is Tick {
        lemma_chunk(run);
    }
}

/// The events of a run from here to its end.
pub open spec fn events_of(run: RuntimeCheckpointRun) -> Seq<RuntimeCheckpointEvent>
    decreases run_measure(run),
    when run.well_formed()
{
    match next_step(run) {
        RuntimeCheckpointStep::Emit(event) => {
            proof {
                lemma_advance_shrinks(run);
            }
            seq![event] + events_of(stepped(run))
        },
        RuntimeCheckpointStep::Tick(_) => {
            proof {
                lemma_advance_shrinks(run);
            }
            events_of(stepped(run))
        },
        RuntimeCheckpointStep::Done(_) => Seq::empty(),
    }
}

/// The steps that a run makes from here to its end.
pub open spec fn ticks_of(run: RuntimeCheckpointRun) -> int
    decreases run_measure(run),
    when run.well_formed()
{
    match next_step(run) {
        RuntimeCheckpointStep::Emit(_) => {
            proof {
                lemma_advance_shrinks(run);
            }
            ticks_of(stepped(run))
        },
        RuntimeCheckpointStep::Tick(chunk) => {
            proof {
                lemma_advance_shrinks(run);
            }
            chunk + ticks_of(stepped(run))
        },
        RuntimeCheckpointStep::Done(_) => 0,
    }
}

/// A run at its end.
pub open spec fn finished(run: RuntimeCheckpointRun) -> RuntimeCheckpointRun
    decreases run_measure(run),
    when run.well_formed()
{
    if next_step(run) is Done {
        run
    } else {
        proof {
            lemma_advance_shrinks(run);
        }
        finished(stepped(run))
    }
}

/// The checkpoint of a cadence after `count` rounds.
pub open spec fn cadence_event(every: usize, count: int) -> RuntimeCheckpointEvent {
    RuntimeCheckpointEvent {
        completed_steps: (count * every) as usize,
        reason: RuntimeCheckpointReason::Cadence,
    }
}

/// The checkpoints of the rounds after `from` up to `to`.
pub open spec fn cadence_events(every: usize, from: int, to: int) -> Seq<RuntimeCheckpointEvent> {
    Seq::new((to - from) as nat, |k: int| cadence_event(every, from + 1 + k))
}

/// The checkpoints that are owed from here on: the initial one, one after each full round, and a
/// final one where the last step has none yet.
pub open spec fn events_owed(run: RuntimeCheckpointRun) -> Seq<RuntimeCheckpointEvent> {
    let every = run.cadence.every_steps;
    let initial = !run.started && run.cadence.include_initial;
    let from = if cadence_due(run) {
        run.completed_steps / every - 1
    } else {
        (run.completed_steps / every) as int
    };
    let ends_on_round = run.steps > 0 && run.steps % every == 0;
    let last = run.cadence.include_final && !ends_on_round && !(initial && run.steps == 0)
        && run.last_checkpoint_step != Some(run.steps);
    (if initial {
        seq![
            RuntimeCheckpointEvent {
                completed_steps: run.completed_steps,
                reason: RuntimeCheckpointReason::Initial,
            },
        ]
    } else {
        seq![]
    }) + cadence_events(every, from, (run.steps / every) as int) + (if last {
        seq![
            RuntimeCheckpointEvent {
                completed_steps: run.steps,
                reason: RuntimeCheckpointReason::Final,
            },
        ]
    } else {
        seq![]
    })
}

proof fn lemma_chunk(run: RuntimeCheckpointRun)
    requires
        run.well_formed(),
        next_step(run) is Tick,
    ensures
        ({
            let every = run.cadence.every_steps as int;
            let c = run.completed_steps as int;
            let d = stepped(run).completed_steps as int;
            &&& c < d <= run.steps
            &&& d % every == 0 ==> d / every == c / every + 1
            &&& d % every != 0 ==> d == run.steps && d / every == c / every
        }),
{
    let every = run.cadence.every_steps as int;
    let c = run.completed_steps as int;
    let q = c / every;
    let m = c % every;
    lemma_fundamental_div_mod(c, every);
    let d = stepped(run).completed_steps as int;
    if run.steps - c < every - m {
        assert(d == every * q + (m + run.steps - c));
        assert(q * every == every * q) by (nonlinear_arith);
        lemma_fundamental_div_mod_converse(d, every, q, m + run.steps - c);
    } else {
        assert(d == every * q + every);
        assert((q + 1) * every == every * q + every) by (nonlinear_arith);
        lemma_fundamental_div_mod_converse(d, every, q + 1, 0);
    }
}

proof fn lemma_events_owed(run: RuntimeCheckpointRun)
    requires
        run.well_formed(),
    ensures
        events_of(run) == events_owed(run),
        ticks_of(run) == run.steps - run.completed_steps,
        finished(run).well_formed(),
        finished(run).steps == run.steps,
        finished(run).completed_steps == run.steps,
        finished(run).checkpoints_emitted == run.checkpoints_emitted + events_owed(run).len(),
    decreases run_measure(run),
{
    let every = run.cadence.every_steps;
    let c = run.completed_steps;
    if !(next_step(run) is Done) {
        lemma_advance_shrinks(run);
        lemma_events_owed(stepped(run));
    }
    lemma_div_is_ordered(c as int, run.steps as int, every as int);
    match next_step(run) {
        RuntimeCheckpointStep::Emit(event) => {
            let next = stepped(run);
            if cadence_due(run) {
                let q = (c / every) as int;
                lemma_fundamental_div_mod(c as int, every as int);
                assert(q * every == every * q) by (nonlinear_arith);
                assert(cadence_event(every, q) == event);
                assert(q >= 1) by {
                    if q <= 0 {
                        assert(every * q <= 0) by (nonlinear_arith)
                            requires
                                q <= 0,
                                every >= 0,
                        ;
                    }
                }
                assert(cadence_events(every, q - 1, (run.steps / every) as int) =~= seq![event]
                    + cadence_events(every, q, (run.steps / every) as int));
            }
            assert(events_owed(run) =~= seq![event] + events_owed(next));
        },
        RuntimeCheckpointStep::Tick(chunk) => {
            lemma_chunk(run);
            let next = stepped(run);
            assert(events_owed(run) =~= events_owed(next));
        },
        RuntimeCheckpointStep::Done(_) => {
            assert(events_owed(run) =~= Seq::empty());
        },
    }
}

/// The checkpoints of a whole run: the initial one where it is asked for, one after each full
/// round of steps, and the final one where the end has none yet.
pub open spec fn whole_events(steps: usize, cadence: RuntimeCheckpointCadence) -> Seq<
    RuntimeCheckpointEvent,
> {
    let rounds = (steps / cadence.every_steps) as int;
    let covered = if steps == 0 {
        cadence.include_initial
    } else {
        steps % cadence.every_steps == 0
    };
    (if cadence.include_initial {
        seq![
            RuntimeCheckpointEvent {
                completed_steps: 0,
                reason: RuntimeCheckpointReason::Initial,
            },
        ]
    } else {
        seq![]
    }) + cadence_events(cadence.every_steps, 0, rounds) + (if cadence.include_final && !covered {
        seq![
            RuntimeCheckpointEvent {
                completed_steps: steps,
                reason: RuntimeCheckpointReason::Final,
            },
        ]
    } else {
        seq![]
    })
}

/// The checkpoints of whole rounds come before the end of a run, and each before the next.
proof fn lemma_rounds_ascend(steps: usize, every: usize, i: int, j: int)
    requires
        every > 0,
        1 <= i < j <= steps / every,
    ensures
        0 < cadence_event(every, i).completed_steps < cadence_event(every, j).completed_steps
            <= steps,
        steps % every != 0 ==> cadence_event(every, j).completed_steps < steps,
{
    lemma_round_within(steps, every, i);
    lemma_round_within(steps, every, j);
    assert(i * every < j * every) by (nonlinear_arith)
        requires
            i < j,
            every > 0,
    ;
}

proof fn lemma_round_within(steps: usize, every: usize, i: int)
    requires
        every > 0,
        1 <= i <= steps / every,
    ensures
        0 < i * every <= steps,
        cadence_event(every, i).completed_steps == i * every,
        steps % every != 0 ==> i * every < steps,
{
    let q = (steps / every) as int;
    lemma_fundamental_div_mod(steps as int, every as int);
    assert(0 < i * every <= every * q) by (nonlinear_arith)
        requires
            1 <= i <= q,
            every > 0,
    ;
}

proof fn lemma_events_ascend(steps: usize, cadence: RuntimeCheckpointCadence)
    requires
        cadence.every_steps > 0,
    ensures
        forall|i: int, j: int|
            0 <= i < j < whole_events(steps, cadence).len() ==> (#[trigger] whole_events(
                steps,
                cadence,
            )[i]).completed_steps < (#[trigger] whole_events(steps, cadence)[j]).completed_steps,
{
    let every = cadence.every_steps;
    let all = whole_events(steps, cadence);
    let rounds = (steps / every) as int;
    let skip = if cadence.include_initial {
        1int
    } else {
        0int
    };
    assert forall|i: int, j: int| 0 <= i < j < all.len() implies (
    #[trigger] all[i]).completed_steps < (#[trigger] all[j]).completed_steps by {
        if skip <= i && j < skip + rounds {
            lemma_rounds_ascend(steps, every, i - skip + 1, j - skip + 1);
        } else if skip <= i && i < skip + rounds {
            lemma_round_within(steps, every, i - skip + 1);
        } else if skip <= j && j < skip + rounds {
            lemma_round_within(steps, every, j - skip + 1);
        }
    }
}

/// A run makes exactly the steps that were asked for, emits exactly the checkpoints of its
/// cadence, none of them for a step that has one already, and reports how many it emitted.
pub proof fn lemma_whole_run(steps: usize, cadence: RuntimeCheckpointCadence)
    requires
        checkpoints_fit(steps, cadence),
        cadence.every_steps > 0,
    ensures
        ticks_of(begun(steps, cadence)) == steps,
        events_of(begun(steps, cadence)) == whole_events(steps, cadence),
        next_step(finished(begun(steps, cadence))) == RuntimeCheckpointStep::Done(
            RuntimeCheckpointRunReport {
                requested_steps: steps,
                completed_steps: steps,
                checkpoints_emitted: whole_events(steps, cadence).len() as usize,
            },
        ),
        forall|i: int, j: int|
            0 <= i < j < whole_events(steps, cadence).len() ==> (#[trigger] whole_events(
                steps,
                cadence,
            )[i]).completed_steps < (#[trigger] whole_events(steps, cadence)[j]).completed_steps,
{
    lemma_events_ascend(steps, cadence);
    let run = begun(steps, cadence);
    assert(0usize % cadence.every_steps == 0) by {
        lemma_fundamental_div_mod_converse(0, cadence.every_steps as int, 0, 0);
    }
    lemma_events_owed(run);
    assert(0usize / cadence.every_steps == 0) by {
        lemma_fundamental_div_mod_converse(0, cadence.every_steps as int, 0, 0);
    }
    assert(events_owed(run) =~= whole_events(steps, cadence));
    lemma_finished(run);
}

proof fn lemma_finished(run: RuntimeCheckpointRun)
    requires
        run.well_formed(),
    ensures
        next_step(finished(run)) is Done,
    decreases run_measure(run),
{
    if !(next_step(run) is Done) {
        lemma_advance_shrinks(run);
        lemma_finished(stepped(run));
    }
}

} // verus!

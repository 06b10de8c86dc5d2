//! A session script, step by step: when to act and when to emit telemetry, for workers that act
//! elsewhere.

use vstd::prelude::*;

use crate::error::{fails_with, ErrorReport};
use crate::model::session::{
    RuntimePartitionSessionRunEvent, RuntimePartitionSessionRunEventReason,
    RuntimePartitionSessionRunReport, RuntimePartitionSessionRunReportView,
    RuntimePartitionSessionRunScript, RuntimePartitionSessionRunScriptView,
    RuntimePartitionWorkerActionKind,
};
use crate::session::{session_fits, session_summary, RuntimePartitionSession};
use crate::session_script::{answer_of, emission, emits_at};

verus! {

/// What a run of a script does next.
#[derive(Clone, Copy, Debug, PartialEq, Eq, Structural)]
pub enum RuntimePartitionScriptStep {
    /// Let all workers make a step.
    Act(RuntimePartitionWorkerActionKind),
    /// Emit telemetry.
    Emit(RuntimePartitionSessionRunEventReason),
    /// The script is over.
    Done,
}

/// How far a run of a script is.
#[derive(Clone, Copy, Debug, PartialEq, Eq, Structural)]
pub struct RuntimePartitionScriptRun {
    pub started: bool,
    pub completed_actions: usize,
    pub telemetry_emitted: usize,
    pub last_emitted: Option<usize>,
}

/// A run before its first step.
pub open spec fn script_begun() -> RuntimePartitionScriptRun {
    RuntimePartitionScriptRun {
        started: false,
        completed_actions: 0,
        telemetry_emitted: 0,
        last_emitted: None,
    }
}

/// Whether the telemetry of a cadence is due.
pub open spec fn telemetry_due(
    script: RuntimePartitionSessionRunScriptView,
    run: RuntimePartitionScriptRun,
) -> bool {
    &&& run.completed_actions > 0
    &&& run.completed_actions % script.every_actions == 0
    &&& run.last_emitted != Some(run.completed_actions)
}

/// What a run does next.
pub open spec fn script_next(
    script: RuntimePartitionSessionRunScriptView,
    run: RuntimePartitionScriptRun,
) -> RuntimePartitionScriptStep {
    if !run.started && script.emit_initial {
        RuntimePartitionScriptStep::Emit(RuntimePartitionSessionRunEventReason::Initial)
    } else if telemetry_due(script, run) {
        RuntimePartitionScriptStep::Emit(RuntimePartitionSessionRunEventReason::Cadence)
    } else if run.completed_actions < script.actions.len() {
        RuntimePartitionScriptStep::Act(script.actions[run.completed_actions as int])
    } else if script.emit_final && run.last_emitted != Some(run.completed_actions) {
        RuntimePartitionScriptStep::Emit(RuntimePartitionSessionRunEventReason::Final)
    } else {
        RuntimePartitionScriptStep::Done
    }
}

/// A run after its next step.
pub open spec fn script_stepped(
    script: RuntimePartitionSessionRunScriptView,
    run: RuntimePartitionScriptRun,
) -> RuntimePartitionScriptRun {
    match script_next(script, run) {
        RuntimePartitionScriptStep::Act(_) => RuntimePartitionScriptRun {
            started: true,
            completed_actions: (run.completed_actions + 1) as usize,
            ..run
        },
        RuntimePartitionScriptStep::Emit(_) => RuntimePartitionScriptRun {
            started: true,
            telemetry_emitted: (run.telemetry_emitted + 1) as usize,
            last_emitted: Some(run.completed_actions),
            ..run
        },
        RuntimePartitionScriptStep::Done => run,
    }
}

/// What holds of a run at all times: no action is passed over, and telemetry is emitted at most
/// once between two actions.
pub open spec fn script_run_fits(
    script: RuntimePartitionSessionRunScriptView,
    run: RuntimePartitionScriptRun,
) -> bool {
    &&& script.every_actions > 0
    &&& script.actions.len() < usize::MAX
    &&& run.completed_actions <= script.actions.len()
    &&& (run.last_emitted matches Some(l) ==> l <= run.completed_actions)
    &&& run.telemetry_emitted <= run.completed_actions + (if run.last_emitted == Some(
        run.completed_actions,
    ) {
        1int
    } else {
        0int
    })
    &&& !run.started ==> run == script_begun()
}

impl RuntimePartitionScriptRun {
    /// A run before its first step.
    pub fn begin() -> (r: Self)
        ensures
            r == script_begun(),
    {
        RuntimePartitionScriptRun {
            started: false,
            completed_actions: 0,
            telemetry_emitted: 0,
            last_emitted: None,
        }
    }

    fn emit(&mut self, reason: RuntimePartitionSessionRunEventReason) -> (r:
        RuntimePartitionScriptStep)
        requires
            old(self).telemetry_emitted < usize::MAX,
        ensures
            r == RuntimePartitionScriptStep::Emit(reason),
            *final(self) == (RuntimePartitionScriptRun {
                started: true,
                telemetry_emitted: (old(self).telemetry_emitted + 1) as usize,
                last_emitted: Some(old(self).completed_actions),
                ..*old(self)
            }),
    {
        self.started = true;
        self.telemetry_emitted = self.telemetry_emitted + 1;
        self.last_emitted = Some(self.completed_actions);
        RuntimePartitionScriptStep::Emit(reason)
    }

    /// Takes how the step before went: what came of an action, or what a sink answered. Where it
    /// failed the run ends with that error. Else decides what the run does next, and counts it as
    /// done.
    pub fn advance(
        &mut self,
        script: &RuntimePartitionSessionRunScript,
        outcome: Result<(), ErrorReport>,
    ) -> (r: Result<RuntimePartitionScriptStep, ErrorReport>)
        requires
            script_run_fits(script.deep_view(), *old(self)),
        ensures
            fails_with(r, answer_of(outcome)),
            outcome is Err ==> *final(self) == *old(self),
            r matches Ok(step) ==> {
                &&& step == script_next(script.deep_view(), *old(self))
                &&& *final(self) == script_stepped(script.deep_view(), *old(self))
            },
            script_run_fits(script.deep_view(), *final(self)),
    {
        outcome?;
        Ok(self.step(script))
    }

    fn step(&mut self, script: &RuntimePartitionSessionRunScript) -> (r: RuntimePartitionScriptStep)
        requires
            script_run_fits(script.deep_view(), *old(self)),
        ensures
            r == script_next(script.deep_view(), *old(self)),
            *final(self) == script_stepped(script.deep_view(), *old(self)),
            script_run_fits(script.deep_view(), *final(self)),
    {
        let at_last: bool = match self.last_emitted {
            Some(l) => l == self.completed_actions,
            None => false,
        };
        if !self.started && script.emit_initial {
            return self.emit(RuntimePartitionSessionRunEventReason::Initial);
        }
        if self.completed_actions > 0 && self.completed_actions % script.every_actions == 0
            && !at_last {
            return self.emit(RuntimePartitionSessionRunEventReason::Cadence);
        }
        if self.completed_actions < script.actions.len() {
            let kind = script.actions[self.completed_actions];
            self.started = true;
            self.completed_actions = self.completed_actions + 1;
            return RuntimePartitionScriptStep::Act(kind);
        }
        if script.emit_final && !at_last {
            return self.emit(RuntimePartitionSessionRunEventReason::Final);
        }
        RuntimePartitionScriptStep::Done
    }

    /// The event of telemetry that a run of a session emits.
    pub fn event(
        &self,
        reason: RuntimePartitionSessionRunEventReason,
        session: &RuntimePartitionSession,
    ) -> (r: RuntimePartitionSessionRunEvent)
        ensures
            r == emission(session.deep_view(), reason, self.completed_actions as nat).0,
    {
        let latest_action_kind = match session.latest_action() {
            Some(action) => Some(action.kind),
            None => None,
        };
        RuntimePartitionSessionRunEvent {
            completed_actions: self.completed_actions,
            reason,
            latest_action_kind,
        }
    }

    /// The report of a run of a session that is over.
    pub fn report(&self, session: &RuntimePartitionSession) -> (r: RuntimePartitionSessionRunReport)
        requires
            session_fits(session.deep_view()),
        ensures
            r.deep_view() == (RuntimePartitionSessionRunReportView {
                completed_actions: self.completed_actions,
                telemetry_emitted: self.telemetry_emitted,
                action_summary: session_summary(session.deep_view()),
                diagnostics: session.deep_view().deployment.diagnostics,
            }),
    {
        let diagnostics = session.deployment.diagnostics.clone();
        proof {
            assert(diagnostics.deep_view() =~= session.deployment.diagnostics.deep_view());
        }
        RuntimePartitionSessionRunReport {
            completed_actions: self.completed_actions,
            telemetry_emitted: self.telemetry_emitted,
            action_summary: session.action_summary(),
            diagnostics,
        }
    }
}

// ---------------------------------------------------------------------------
// Whole runs
// ---------------------------------------------------------------------------

/// Telemetry that is emitted after a number of actions.
pub type ScriptEvent = (usize, RuntimePartitionSessionRunEventReason);

/// How much is left of a run.
pub open spec fn script_measure(
    script: RuntimePartitionSessionRunScriptView,
    run: RuntimePartitionScriptRun,
) -> nat {
    (4 * (script.actions.len() - run.completed_actions) + (if run.started {
        0int
    } else {
        2int
    }) + (if run.last_emitted == Some(run.completed_actions) {
        0int
    } else {
        1int
    })) as nat
}

/// Each step but the last brings a run nearer to its end.
pub proof fn lemma_script_shrinks(
    script: RuntimePartitionSessionRunScriptView,
    run: RuntimePartitionScriptRun,
)
    requires
        script_run_fits(script, run),
        !(script_next(script, run) is Done),
    ensures
        script_run_fits(script, script_stepped(script, run)),
        script_measure(script, script_stepped(script, run)) < script_measure(script, run),
{
}

/// The events of a run from here to its end.
pub open spec fn script_events(
    script: RuntimePartitionSessionRunScriptView,
    run: RuntimePartitionScriptRun,
) -> Seq<ScriptEvent>
    decreases script_measure(script, run),
    when script_run_fits(script, run)
{
    match script_next(script, run) {
        RuntimePartitionScriptStep::Emit(reason) => {
            proof {
                lemma_script_shrinks(script, run);
            }
            seq![(run.completed_actions, reason)] + script_events(
                script,
                script_stepped(script, run),
            )
        },
        RuntimePartitionScriptStep::Act(_) => {
            proof {
                lemma_script_shrinks(script, run);
            }
            script_events(script, script_stepped(script, run))
        },
        RuntimePartitionScriptStep::Done => Seq::empty(),
    }
}

/// The actions of a run from here to its end.
pub open spec fn script_actions(
    script: RuntimePartitionSessionRunScriptView,
    run: RuntimePartitionScriptRun,
) -> Seq<RuntimePartitionWorkerActionKind>
    decreases script_measure(script, run),
    when script_run_fits(script, run)
{
    match script_next(script, run) {
        RuntimePartitionScriptStep::Emit(_) => {
            proof {
                lemma_script_shrinks(script, run);
            }
            script_actions(script, script_stepped(script, run))
        },
        RuntimePartitionScriptStep::Act(kind) => {
            proof {
                lemma_script_shrinks(script, run);
            }
            seq![kind] + script_actions(script, script_stepped(script, run))
        },
        RuntimePartitionScriptStep::Done => Seq::empty(),
    }
}

/// The telemetry of the cadence after `from` actions up to the end.
pub open spec fn cadence_telemetry(script: RuntimePartitionSessionRunScriptView, from: int) -> Seq<
    ScriptEvent,
>
    decreases script.actions.len() - from,
{
    if from >= script.actions.len() {
        Seq::empty()
    } else {
        (if (from + 1) % script.every_actions as int == 0 {
            seq![((from + 1) as usize, RuntimePartitionSessionRunEventReason::Cadence)]
        } else {
            seq![]
        }) + cadence_telemetry(script, from + 1)
    }
}

/// The telemetry that a whole run owes: at the start where it is asked for, after each full round
/// of actions, and at the end where nothing was emitted there yet.
pub open spec fn whole_telemetry(script: RuntimePartitionSessionRunScriptView) -> Seq<ScriptEvent> {
    (if script.emit_initial {
        seq![(0usize, RuntimePartitionSessionRunEventReason::Initial)]
    } else {
        seq![]
    }) + cadence_telemetry(script, 0) + (if script.emit_final && !emits_at(
        script,
        script.actions.len(),
    ) {
        seq![(script.actions.len() as usize, RuntimePartitionSessionRunEventReason::Final)]
    } else {
        seq![]
    })
}

spec fn telemetry_owed(
    script: RuntimePartitionSessionRunScriptView,
    run: RuntimePartitionScriptRun,
) -> Seq<ScriptEvent> {
    let n = script.actions.len();
    let initial = !run.started && script.emit_initial;
    let ends_on_round = n > 0 && n as int % script.every_actions as int == 0;
    let last = script.emit_final && !ends_on_round && !(initial && n == 0) && run.last_emitted
        != Some(n as usize);
    (if initial {
        seq![(0usize, RuntimePartitionSessionRunEventReason::Initial)]
    } else {
        seq![]
    }) + (if telemetry_due(script, run) {
        seq![(run.completed_actions, RuntimePartitionSessionRunEventReason::Cadence)]
    } else {
        seq![]
    }) + cadence_telemetry(script, run.completed_actions as int) + (if last {
        seq![(n as usize, RuntimePartitionSessionRunEventReason::Final)]
    } else {
        seq![]
    })
}

proof fn lemma_telemetry_owed(
    script: RuntimePartitionSessionRunScriptView,
    run: RuntimePartitionScriptRun,
)
    requires
        script_run_fits(script, run),
    ensures
        script_events(script, run) == telemetry_owed(script, run),
        script_actions(script, run) == script.actions.skip(run.completed_actions as int),
    decreases script_measure(script, run),
{
    let next = script_stepped(script, run);
    if !(script_next(script, run) is Done) {
        lemma_script_shrinks(script, run);
        lemma_telemetry_owed(script, next);
    }
    match script_next(script, run) {
        RuntimePartitionScriptStep::Emit(reason) => {
            assert(telemetry_owed(script, run) =~= seq![(run.completed_actions, reason)]
                + telemetry_owed(script, next));
        },
        RuntimePartitionScriptStep::Act(kind) => {
            assert(telemetry_owed(script, run) =~= telemetry_owed(script, next));
            assert(script.actions.skip(run.completed_actions as int) =~= seq![kind]
                + script.actions.skip(next.completed_actions as int));
        },
        RuntimePartitionScriptStep::Done => {
            assert(telemetry_owed(script, run) =~= Seq::empty());
            assert(script.actions.skip(run.completed_actions as int) =~= Seq::empty());
        },
    }
}

/// A whole run makes exactly the actions of its script, in their order, and emits exactly the
/// telemetry that it owes.
pub proof fn lemma_whole_script(script: RuntimePartitionSessionRunScriptView)
    requires
        script.every_actions > 0,
        script.actions.len() < usize::MAX,
    ensures
        script_actions(script, script_begun()) == script.actions,
        script_events(script, script_begun()) == whole_telemetry(script),
{
    lemma_telemetry_owed(script, script_begun());
    assert(script.actions.skip(0) =~= script.actions);
    assert(telemetry_owed(script, script_begun()) =~= whole_telemetry(script));
}

} // verus!

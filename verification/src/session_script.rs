//! Running a script of structural steps and emitting telemetry on the way.

use vstd::prelude::*;

use crate::error::{error, fails_with, report, ErrorReport, ErrorReportView};
use crate::model::session::{
    RuntimePartitionSessionRunEvent, RuntimePartitionSessionRunEventReason,
    RuntimePartitionSessionRunReport, RuntimePartitionSessionRunReportView,
    RuntimePartitionSessionRunScript, RuntimePartitionSessionRunScriptView,
    RuntimePartitionSessionTelemetry, RuntimePartitionSessionTelemetryView,
    RuntimePartitionWorkerActionKind,
};
use crate::service::{LocalRuntimeWorkerService, LocalRuntimeWorkerServiceView};
use crate::session::{
    session_fits, session_summary, session_telemetry, RuntimePartitionSession,
    RuntimePartitionSessionView,
};
use crate::session_actions::{
    local_action_fits, local_action_problem, service_after_action, session_after_action,
};

verus! {

impl RuntimePartitionSessionRunScript {
    /// A script that emits telemetry after every so many steps, and at the end.
    pub fn every_actions(
        actions: Vec<RuntimePartitionWorkerActionKind>,
        every_actions: usize,
    ) -> (r: Self)
        ensures
            r.deep_view() == (RuntimePartitionSessionRunScriptView {
                actions: actions@,
                every_actions,
                emit_initial: false,
                emit_final: true,
            }),
    {
        RuntimePartitionSessionRunScript {
            actions,
            every_actions,
            emit_initial: false,
            emit_final: true,
        }
    }
}

/// A script has to say how often telemetry is emitted.
pub open spec fn script_problem(script: RuntimePartitionSessionRunScriptView) -> Option<
    ErrorReportView,
> {
    if script.every_actions == 0 {
        Some(
            report(
                "E_RUNTIME_PARTITION_SESSION_SCRIPT"@,
                "runtime partition session script every_actions must be greater than zero"@,
            ),
        )
    } else {
        None
    }
}

/// Checks a script.
pub fn validate_partition_session_run_script(script: &RuntimePartitionSessionRunScript) -> (r: Result<
    (),
    ErrorReport,
>)
    ensures
        fails_with(r, script_problem(script.deep_view())),
{
    if script.every_actions == 0 {
        return Err(
            error(
                "E_RUNTIME_PARTITION_SESSION_SCRIPT",
                "runtime partition session script every_actions must be greater than zero",
            ),
        );
    }
    Ok(())
}

// ---------------------------------------------------------------------------
// Where telemetry goes
// ---------------------------------------------------------------------------

/// An event and the telemetry of that moment.
pub type Emission = (RuntimePartitionSessionRunEvent, RuntimePartitionSessionTelemetryView);

/// What a sink answers: nothing where it takes telemetry, or why it refuses it.
pub type Answer = Option<ErrorReportView>;

/// The answer that a result stands for.
pub open spec fn answer_of(r: Result<(), ErrorReport>) -> Answer {
    match r {
        Ok(()) => None,
        Err(e) => Some(e.deep_view()),
    }
}

/// The answers of a sink that took `n` emissions.
pub open spec fn taken(n: nat) -> Seq<Answer> {
    Seq::new(n, |i: int| None)
}

/// Whether a sink has taken all that it was handed since `before`.
pub open spec fn took_all(before: Seq<Answer>, now: Seq<Answer>) -> bool {
    forall|i: int| before.len() <= i < now.len() ==> (#[trigger] now[i]) is None
}

/// Takes the telemetry that a script emits. It may refuse, which ends the run.
pub trait RuntimePartitionTelemetrySink {
    /// What was handed to the sink so far.
    spec fn emitted(&self) -> Seq<Emission>;

    /// What the sink has answered so far.
    spec fn answers(&self) -> Seq<Answer>;

    /// Takes telemetry, or refuses it.
    fn emit(
        &mut self,
        event: RuntimePartitionSessionRunEvent,
        telemetry: &RuntimePartitionSessionTelemetry,
    ) -> (r: Result<(), ErrorReport>)
        ensures
            final(self).emitted() == old(self).emitted().push((event, telemetry.deep_view())),
            final(self).answers() == old(self).answers().push(answer_of(r)),
    ;
}

/// Telemetry that was emitted.
pub struct RuntimePartitionTelemetryRecord {
    pub event: RuntimePartitionSessionRunEvent,
    pub telemetry: RuntimePartitionSessionTelemetry,
}

/// A sink that keeps what it takes.
pub struct RuntimePartitionTelemetryLog {
    pub records: Vec<RuntimePartitionTelemetryRecord>,
}

impl RuntimePartitionTelemetryLog {
    /// An empty log.
    pub fn new() -> (r: Self)
        ensures
            r.emitted() == Seq::<Emission>::empty(),
            r.answers() == Seq::<Answer>::empty(),
    {
        let r = RuntimePartitionTelemetryLog { records: Vec::new() };
        proof {
            assert(r.emitted() =~= Seq::<Emission>::empty());
            assert(r.answers() =~= Seq::<Answer>::empty());
        }
        r
    }
}

/// What records hold.
pub open spec fn recorded_emissions(records: Seq<RuntimePartitionTelemetryRecord>) -> Seq<
    Emission,
> {
    Seq::new(records.len(), |i: int| (records[i].event, records[i].telemetry.deep_view()))
}

impl RuntimePartitionTelemetrySink for RuntimePartitionTelemetryLog {
    open spec fn emitted(&self) -> Seq<Emission> {
        recorded_emissions(self.records@)
    }

    open spec fn answers(&self) -> Seq<Answer> {
        taken(self.records@.len())
    }

    fn emit(
        &mut self,
        event: RuntimePartitionSessionRunEvent,
        telemetry: &RuntimePartitionSessionTelemetry,
    ) -> (r: Result<(), ErrorReport>)
        ensures
            r is Ok,
    {
        let ghost before = self.emitted();
        let ghost answers = self.answers();
        self.records.push(RuntimePartitionTelemetryRecord { event, telemetry: telemetry.clone() });
        proof {
            assert(self.emitted() =~= before.push((event, telemetry.deep_view())));
            assert(self.answers() =~= answers.push(None));
        }
        Ok(())
    }
}

/// A sink whose answers are given beforehand. It keeps all that it is handed; where `refusals`
/// holds a report for an emission, that emission is refused with it.
pub struct RuntimePartitionTelemetryReplies {
    pub refusals: Vec<Option<ErrorReport>>,
    pub records: Vec<RuntimePartitionTelemetryRecord>,
}

/// The answer to emission `i`; what nothing was said of is taken.
pub open spec fn reply_to(refusals: Seq<Answer>, i: int) -> Answer {
    if 0 <= i < refusals.len() {
        refusals[i]
    } else {
        None
    }
}

impl RuntimePartitionTelemetryReplies {
    /// A sink that was handed nothing yet.
    pub fn new(refusals: Vec<Option<ErrorReport>>) -> (r: Self)
        ensures
            r.refusals == refusals,
            r.emitted() == Seq::<Emission>::empty(),
            r.answers() == Seq::<Answer>::empty(),
    {
        let r = RuntimePartitionTelemetryReplies { refusals, records: Vec::new() };
        proof {
            assert(r.emitted() =~= Seq::<Emission>::empty());
            assert(r.answers() =~= Seq::<Answer>::empty());
        }
        r
    }
}

impl RuntimePartitionTelemetrySink for RuntimePartitionTelemetryReplies {
    open spec fn emitted(&self) -> Seq<Emission> {
        recorded_emissions(self.records@)
    }

    open spec fn answers(&self) -> Seq<Answer> {
        Seq::new(self.records@.len(), |i: int| reply_to(self.refusals.deep_view(), i))
    }

    fn emit(
        &mut self,
        event: RuntimePartitionSessionRunEvent,
        telemetry: &RuntimePartitionSessionTelemetry,
    ) -> (r: Result<(), ErrorReport>)
        ensures
            answer_of(r) == reply_to(
                old(self).refusals.deep_view(),
                old(self).records@.len() as int,
            ),
            final(self).refusals == old(self).refusals,
    {
        let ghost before = self.emitted();
        let ghost answers = self.answers();
        let ghost refusals = self.refusals.deep_view();
        let n: usize = self.records.len();
        self.records.push(RuntimePartitionTelemetryRecord { event, telemetry: telemetry.clone() });
        proof {
            assert(refusals.len() == self.refusals@.len());
            assert(self.emitted() =~= before.push((event, telemetry.deep_view())));
            assert(self.answers() =~= answers.push(reply_to(refusals, n as int)));
        }
        if n < self.refusals.len() {
            proof {
                assert(refusals[n as int] == self.refusals@[n as int].deep_view());
            }
            match &self.refusals[n] {
                Some(refusal) => Err(refusal.clone()),
                None => Ok(()),
            }
        } else {
            Ok(())
        }
    }
}

// ---------------------------------------------------------------------------
// Running a script
// ---------------------------------------------------------------------------

/// The session after the first `c` steps of a script.
pub open spec fn run_session(
    session: RuntimePartitionSessionView,
    service: LocalRuntimeWorkerServiceView,
    kinds: Seq<RuntimePartitionWorkerActionKind>,
    c: nat,
) -> RuntimePartitionSessionView
    decreases c,
{
    if c == 0 {
        session
    } else {
        session_after_action(
            run_session(session, service, kinds, (c - 1) as nat),
            run_service(session, service, kinds, (c - 1) as nat),
            kinds[c - 1],
        )
    }
}

/// The service after the first `c` steps of a script.
pub open spec fn run_service(
    session: RuntimePartitionSessionView,
    service: LocalRuntimeWorkerServiceView,
    kinds: Seq<RuntimePartitionWorkerActionKind>,
    c: nat,
) -> LocalRuntimeWorkerServiceView
    decreases c,
{
    if c == 0 {
        service
    } else {
        service_after_action(
            run_session(session, service, kinds, (c - 1) as nat),
            run_service(session, service, kinds, (c - 1) as nat),
            kinds[c - 1],
        )
    }
}

/// What keeps step `c` of a script from being made.
pub open spec fn step_problem(
    session: RuntimePartitionSessionView,
    service: LocalRuntimeWorkerServiceView,
    kinds: Seq<RuntimePartitionWorkerActionKind>,
    c: int,
) -> Option<ErrorReportView> {
    local_action_problem(
        run_session(session, service, kinds, c as nat),
        run_service(session, service, kinds, c as nat),
    )
}

/// What a session emits after `c` steps.
pub open spec fn emission(
    session: RuntimePartitionSessionView,
    reason: RuntimePartitionSessionRunEventReason,
    c: nat,
) -> Emission {
    (
        RuntimePartitionSessionRunEvent {
            completed_actions: c as usize,
            reason,
            latest_action_kind: if session.actions.len() > 0 {
                Some(session.actions.last().kind)
            } else {
                None
            },
        },
        session_telemetry(session),
    )
}

/// What is emitted up to step `c`, but for the end of the script.
pub open spec fn emissions(
    session: RuntimePartitionSessionView,
    service: LocalRuntimeWorkerServiceView,
    script: RuntimePartitionSessionRunScriptView,
    c: nat,
) -> Seq<Emission>
    decreases c,
{
    let now = run_session(session, service, script.actions, c);
    if c == 0 {
        if script.emit_initial {
            seq![emission(now, RuntimePartitionSessionRunEventReason::Initial, 0)]
        } else {
            seq![]
        }
    } else {
        let before = emissions(session, service, script, (c - 1) as nat);
        if c % script.every_actions as nat == 0 {
            before.push(emission(now, RuntimePartitionSessionRunEventReason::Cadence, c))
        } else {
            before
        }
    }
}

/// Whether something was emitted after step `c`.
pub open spec fn emits_at(script: RuntimePartitionSessionRunScriptView, c: nat) -> bool {
    if c == 0 {
        script.emit_initial
    } else {
        c % script.every_actions as nat == 0
    }
}

/// All that a script emits: the end is not emitted twice.
pub open spec fn all_emissions(
    session: RuntimePartitionSessionView,
    service: LocalRuntimeWorkerServiceView,
    script: RuntimePartitionSessionRunScriptView,
) -> Seq<Emission> {
    let n = script.actions.len();
    let before = emissions(session, service, script, n);
    if script.emit_final && !emits_at(script, n) {
        before.push(
            emission(
                run_session(session, service, script.actions, n),
                RuntimePartitionSessionRunEventReason::Final,
                n,
            ),
        )
    } else {
        before
    }
}

/// What is reported of a run.
pub open spec fn run_report(
    session: RuntimePartitionSessionView,
    service: LocalRuntimeWorkerServiceView,
    script: RuntimePartitionSessionRunScriptView,
) -> RuntimePartitionSessionRunReportView {
    let end = run_session(session, service, script.actions, script.actions.len());
    RuntimePartitionSessionRunReportView {
        completed_actions: script.actions.len() as usize,
        telemetry_emitted: all_emissions(session, service, script).len() as usize,
        action_summary: session_summary(end),
        diagnostics: end.deployment.diagnostics,
    }
}

/// Whether all counts fit after the first `c` steps of a script, and in the next one.
#[verifier::opaque]
pub open spec fn step_fits(
    session: RuntimePartitionSessionView,
    service: LocalRuntimeWorkerServiceView,
    kinds: Seq<RuntimePartitionWorkerActionKind>,
    c: nat,
) -> bool {
    &&& session_fits(run_session(session, service, kinds, c))
    &&& c < kinds.len() ==> local_action_fits(
        run_session(session, service, kinds, c),
        run_service(session, service, kinds, c),
        kinds[c as int],
    )
}

/// Whether a script gets as far as its step `c`: no step before it has a problem.
pub open spec fn is_reached(
    session: RuntimePartitionSessionView,
    service: LocalRuntimeWorkerServiceView,
    kinds: Seq<RuntimePartitionWorkerActionKind>,
    c: nat,
) -> bool {
    forall|i: int| 0 <= i < c ==> (#[trigger] step_problem(session, service, kinds, i)) is None
}

/// Whether all counts of a run fit, as far as it gets.
pub open spec fn run_fits(
    session: RuntimePartitionSessionView,
    service: LocalRuntimeWorkerServiceView,
    script: RuntimePartitionSessionRunScriptView,
) -> bool {
    &&& script.actions.len() < usize::MAX
    &&& forall|c: nat|
        c <= script.actions.len() && is_reached(session, service, script.actions, c)
            ==> #[trigger] step_fits(session, service, script.actions, c)
}

/// The answers of a sink that took all but the last of `n` emissions, and refused that.
pub open spec fn refused_last(
    answers: Seq<Answer>,
    n: nat,
    problem: ErrorReportView,
) -> Seq<Answer> {
    answers + taken((n - 1) as nat) + seq![Some(problem)]
}

/// How a run can end early: step `c` cannot be made, or the sink refuses what is
/// emitted after step `c`. What ends the run is what it reports.
pub open spec fn run_ends_at(
    session: RuntimePartitionSessionView,
    service: LocalRuntimeWorkerServiceView,
    script: RuntimePartitionSessionRunScriptView,
    c: int,
    problem: ErrorReportView,
    session_then: RuntimePartitionSessionView,
    service_then: LocalRuntimeWorkerServiceView,
    log: Seq<Emission>,
    log_then: Seq<Emission>,
    answers: Seq<Answer>,
    answers_then: Seq<Answer>,
) -> bool {
    &&& 0 <= c <= script.actions.len()
    &&& forall|i: int|
        0 <= i < c ==> (#[trigger] step_problem(session, service, script.actions, i)) is None
    &&& session_then == run_session(session, service, script.actions, c as nat)
    &&& {
        ||| {
            &&& c < script.actions.len()
            &&& step_problem(session, service, script.actions, c) == Some(problem)
            &&& service_then == service_after_action(
                run_session(session, service, script.actions, c as nat),
                run_service(session, service, script.actions, c as nat),
                script.actions[c],
            )
            &&& log_then == log + emissions(session, service, script, c as nat)
            &&& answers_then == answers + taken(emissions(session, service, script, c as nat).len())
        }
        ||| {
            &&& service_then == run_service(session, service, script.actions, c as nat)
            &&& emits_at(script, c as nat)
            &&& log_then == log + emissions(session, service, script, c as nat)
            &&& answers_then == refused_last(
                answers,
                emissions(session, service, script, c as nat).len(),
                problem,
            )
        }
        ||| {
            &&& service_then == run_service(session, service, script.actions, c as nat)
            &&& c == script.actions.len()
            &&& script.emit_final && !emits_at(script, c as nat)
            &&& log_then == log + all_emissions(session, service, script)
            &&& answers_then == refused_last(
                answers,
                all_emissions(session, service, script).len(),
                problem,
            )
        }
    }
}

/// How a run that was begun can end early.
pub open spec fn run_ends(
    session: RuntimePartitionSessionView,
    service: LocalRuntimeWorkerServiceView,
    script: RuntimePartitionSessionRunScriptView,
    problem: ErrorReportView,
    session_then: RuntimePartitionSessionView,
    service_then: LocalRuntimeWorkerServiceView,
    log: Seq<Emission>,
    log_then: Seq<Emission>,
    answers: Seq<Answer>,
    answers_then: Seq<Answer>,
) -> bool {
    exists|c: int| #[trigger]
        run_ends_at(
            session,
            service,
            script,
            c,
            problem,
            session_then,
            service_then,
            log,
            log_then,
            answers,
            answers_then,
        )
}

/// A run that was begun ends early for one of two reasons, and reports it: a step could not be
/// made, or the last thing that the sink answered was a refusal.
pub proof fn lemma_run_ends_for_a_reason(
    session: RuntimePartitionSessionView,
    service: LocalRuntimeWorkerServiceView,
    script: RuntimePartitionSessionRunScriptView,
    problem: ErrorReportView,
    session_then: RuntimePartitionSessionView,
    service_then: LocalRuntimeWorkerServiceView,
    log: Seq<Emission>,
    log_then: Seq<Emission>,
    answers: Seq<Answer>,
    answers_then: Seq<Answer>,
)
    requires
        run_ends(
            session,
            service,
            script,
            problem,
            session_then,
            service_then,
            log,
            log_then,
            answers,
            answers_then,
        ),
    ensures
        (exists|c: int|
            0 <= c < script.actions.len() && (#[trigger] step_problem(
                session,
                service,
                script.actions,
                c,
            )) == Some(problem)) || (answers_then.len() > answers.len() && answers_then.last()
            == Some(problem)),
        (forall|i: int|
            0 <= i < script.actions.len() ==> (#[trigger] step_problem(
                session,
                service,
                script.actions,
                i,
            )) is None) ==> !took_all(answers, answers_then),
{
    let c = choose|c: int| #[trigger]
        run_ends_at(
            session,
            service,
            script,
            c,
            problem,
            session_then,
            service_then,
            log,
            log_then,
            answers,
            answers_then,
        );
    if !(c < script.actions.len() && step_problem(session, service, script.actions, c) == Some(
        problem,
    )) {
        assert(answers_then.last() == Some(problem));
        assert(answers_then[answers_then.len() - 1] is Some);
    }
}

/// A run that ended at a step has ended, for one of the two reasons.
proof fn lemma_run_ended(
    session: RuntimePartitionSessionView,
    service: LocalRuntimeWorkerServiceView,
    script: RuntimePartitionSessionRunScriptView,
    c: int,
    problem: ErrorReportView,
    session_then: RuntimePartitionSessionView,
    service_then: LocalRuntimeWorkerServiceView,
    log: Seq<Emission>,
    log_then: Seq<Emission>,
    answers: Seq<Answer>,
    answers_then: Seq<Answer>,
)
    requires
        run_ends_at(
            session,
            service,
            script,
            c,
            problem,
            session_then,
            service_then,
            log,
            log_then,
            answers,
            answers_then,
        ),
    ensures
        run_ends(
            session,
            service,
            script,
            problem,
            session_then,
            service_then,
            log,
            log_then,
            answers,
            answers_then,
        ),
        (forall|i: int|
            0 <= i < script.actions.len() ==> (#[trigger] step_problem(
                session,
                service,
                script.actions,
                i,
            )) is None) ==> !took_all(answers, answers_then),
{
    lemma_run_ends_for_a_reason(
        session,
        service,
        script,
        problem,
        session_then,
        service_then,
        log,
        log_then,
        answers,
        answers_then,
    );
}

impl RuntimePartitionSession {
    /// Emits the telemetry of this moment.
    pub fn emit_run_script_telemetry<S: RuntimePartitionTelemetrySink>(
        &self,
        reason: RuntimePartitionSessionRunEventReason,
        completed_actions: usize,
        sink: &mut S,
    ) -> (r: Result<(), ErrorReport>)
        requires
            session_fits(self.deep_view()),
        ensures
            final(sink).emitted() == old(sink).emitted().push(
                emission(self.deep_view(), reason, completed_actions as nat),
            ),
            final(sink).answers() == old(sink).answers().push(answer_of(r)),
    {
        let latest_action_kind = match self.latest_action() {
            Some(action) => Some(action.kind),
            None => None,
        };
        let event = RuntimePartitionSessionRunEvent {
            completed_actions,
            reason,
            latest_action_kind,
        };
        let telemetry = self.telemetry();
        sink.emit(event, &telemetry)
    }

    /// Runs a script with workers in this process.
    #[verifier::spinoff_prover]
    pub fn run_local_script<S: RuntimePartitionTelemetrySink>(
        &mut self,
        script: &RuntimePartitionSessionRunScript,
        service: &mut LocalRuntimeWorkerService,
        sink: &mut S,
    ) -> (r: Result<RuntimePartitionSessionRunReport, ErrorReport>)
        requires
            old(service).well_formed(),
            script_problem(script.deep_view()) is None ==> run_fits(
                old(self).deep_view(),
                old(service)@,
                script.deep_view(),
            ),
        ensures
            final(service).well_formed(),
            script_problem(script.deep_view()) is Some ==> {
                &&& fails_with(r, script_problem(script.deep_view()))
                &&& final(self).deep_view() == old(self).deep_view()
                &&& final(service)@ == old(service)@
                &&& final(sink).emitted() == old(sink).emitted()
                &&& final(sink).answers() == old(sink).answers()
            },
            r matches Ok(run) ==> {
                let session = old(self).deep_view();
                let state = old(service)@;
                let s = script.deep_view();
                &&& forall|i: int|
                    0 <= i < s.actions.len() ==> (#[trigger] step_problem(
                        session,
                        state,
                        s.actions,
                        i,
                    )) is None
                &&& run.deep_view() == run_report(session, state, s)
                &&& final(self).deep_view() == run_session(
                    session,
                    state,
                    s.actions,
                    s.actions.len(),
                )
                &&& final(service)@ == run_service(session, state, s.actions, s.actions.len())
                &&& final(sink).emitted() == old(sink).emitted() + all_emissions(session, state, s)
                &&& final(sink).answers() == old(sink).answers() + taken(
                    all_emissions(session, state, s).len(),
                )
            },
            r is Err && script_problem(script.deep_view()) is None ==> run_ends(
                    old(self).deep_view(),
                    old(service)@,
                    script.deep_view(),
                    r->Err_0.deep_view(),
                    final(self).deep_view(),
                    final(service)@,
                    old(sink).emitted(),
                    final(sink).emitted(),
                    old(sink).answers(),
                    final(sink).answers(),
                ),
            script_problem(script.deep_view()) is None && (forall|i: int|
                0 <= i < script.deep_view().actions.len() ==> (#[trigger] step_problem(
                    old(self).deep_view(),
                    old(service)@,
                    script.deep_view().actions,
                    i,
                )) is None) && took_all(old(sink).answers(), final(sink).answers()) ==> r is Ok,
    {
        validate_partition_session_run_script(script)?;
        let ghost session = self.deep_view();
        let ghost state = service@;
        let ghost s = script.deep_view();
        let ghost log = sink.emitted();
        let ghost answers = sink.answers();
        let n: usize = script.actions.len();
        let mut telemetry_emitted: usize = 0;
        let mut emitted_last: bool = false;
        proof {
            assert(is_reached(session, state, s.actions, 0));
            assert(step_fits(session, state, s.actions, 0));
            reveal(step_fits);
        }
        if script.emit_initial {
            match self.emit_run_script_telemetry(
                RuntimePartitionSessionRunEventReason::Initial,
                0,
                sink,
            ) {
                Ok(()) => {},
                Err(e) => {
                    proof {
                        let emitted = emissions(session, state, s, 0);
                        assert(sink.emitted() =~= log + emitted);
                        assert(sink.answers() =~= refused_last(
                            answers,
                            emitted.len(),
                            e.deep_view(),
                        ));
                        lemma_run_ended(
                            session,
                            state,
                            s,
                            0,
                            e.deep_view(),
                            self.deep_view(),
                            service@,
                            log,
                            sink.emitted(),
                            answers,
                            sink.answers(),
                        );
                    }
                    return Err(e);
                },
            }
            telemetry_emitted = 1;
            emitted_last = true;
        }
        proof {
            assert(sink.emitted() =~= log + emissions(session, state, s, 0));
            assert(sink.answers() =~= answers + taken(emissions(session, state, s, 0).len()));
        }
        let mut c: usize = 0;
        while c < n
            invariant
                c <= n,
                n == script.actions@.len(),
                s == script.deep_view(),
                s.actions == script.actions@,
                script_problem(s) is None,
                session == old(self).deep_view(),
                state == old(service)@,
                log == old(sink).emitted(),
                answers == old(sink).answers(),
                run_fits(session, state, s),
                service.well_formed(),
                self.deep_view() == run_session(session, state, s.actions, c as nat),
                service@ == run_service(session, state, s.actions, c as nat),
                sink.emitted() == log + emissions(session, state, s, c as nat),
                sink.answers() == answers + taken(emissions(session, state, s, c as nat).len()),
                telemetry_emitted == emissions(session, state, s, c as nat).len(),
                telemetry_emitted <= c + 1,
                !emitted_last ==> telemetry_emitted <= c,
                emitted_last == emits_at(s, c as nat),
                forall|i: int|
                    0 <= i < c ==> (#[trigger] step_problem(session, state, s.actions, i)) is None,
            decreases n - c,
        {
            let ghost before = service@;
            proof {
                assert(is_reached(session, state, s.actions, c as nat));
                assert(step_fits(session, state, s.actions, c as nat));
                reveal(step_fits);
            }
            match self.run_local_action(script.actions[c], service) {
                Ok(_) => {},
                Err(e) => {
                    proof {
                        reveal(local_action_problem);
                        reveal(session_after_action);
                        assert(step_problem(session, state, s.actions, c as int) == Some(
                            e.deep_view(),
                        ));
                        lemma_run_ended(
                            session,
                            state,
                            s,
                            c as int,
                            e.deep_view(),
                            self.deep_view(),
                            service@,
                            log,
                            sink.emitted(),
                            answers,
                            sink.answers(),
                        );
                    }
                    return Err(e);
                },
            }
            proof {
                assert(step_problem(session, state, s.actions, c as int) is None);
                assert(is_reached(session, state, s.actions, (c + 1) as nat));
                assert(step_fits(session, state, s.actions, (c + 1) as nat));
            }
            c = c + 1;
            emitted_last = false;
            if c % script.every_actions == 0 {
                match self.emit_run_script_telemetry(
                    RuntimePartitionSessionRunEventReason::Cadence,
                    c,
                    sink,
                ) {
                    Ok(()) => {},
                    Err(e) => {
                        proof {
                            let emitted = emissions(session, state, s, c as nat);
                            assert(sink.emitted() =~= log + emitted);
                            assert(sink.answers() =~= refused_last(
                                answers,
                                emitted.len(),
                                e.deep_view(),
                            ));
                            lemma_run_ended(
                                session,
                                state,
                                s,
                                c as int,
                                e.deep_view(),
                                self.deep_view(),
                                service@,
                                log,
                                sink.emitted(),
                                answers,
                                sink.answers(),
                            );
                        }
                        return Err(e);
                    },
                }
                telemetry_emitted = telemetry_emitted + 1;
                emitted_last = true;
            }
            proof {
                assert(sink.emitted() =~= log + emissions(session, state, s, c as nat));
                assert(sink.answers() =~= answers + taken(
                    emissions(session, state, s, c as nat).len(),
                ));
            }
        }
        proof {
            assert(is_reached(session, state, s.actions, n as nat));
        }
        if script.emit_final && !emitted_last {
            proof {
                assert(step_fits(session, state, s.actions, n as nat));
                reveal(step_fits);
            }
            match self.emit_run_script_telemetry(
                RuntimePartitionSessionRunEventReason::Final,
                n,
                sink,
            ) {
                Ok(()) => {},
                Err(e) => {
                    proof {
                        let emitted = all_emissions(session, state, s);
                        assert(sink.emitted() =~= log + emitted);
                        assert(sink.answers() =~= refused_last(
                            answers,
                            emitted.len(),
                            e.deep_view(),
                        ));
                        lemma_run_ended(
                            session,
                            state,
                            s,
                            n as int,
                            e.deep_view(),
                            self.deep_view(),
                            service@,
                            log,
                            sink.emitted(),
                            answers,
                            sink.answers(),
                        );
                    }
                    return Err(e);
                },
            }
            telemetry_emitted = telemetry_emitted + 1;
        }
        proof {
            assert(sink.emitted() =~= log + all_emissions(session, state, s));
            assert(sink.answers() =~= answers + taken(all_emissions(session, state, s).len()));
            assert(step_fits(session, state, s.actions, n as nat));
            reveal(step_fits);
        }
        let diagnostics = self.deployment.diagnostics.clone();
        proof {
            assert(diagnostics.deep_view() =~= self.deployment.diagnostics.deep_view());
        }
        Ok(
            RuntimePartitionSessionRunReport {
                completed_actions: n,
                telemetry_emitted,
                action_summary: self.action_summary(),
                diagnostics,
            },
        )
    }
}

} // verus!

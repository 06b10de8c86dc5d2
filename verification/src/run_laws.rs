//! What a run of a script does and tells, and when a run of steps is checkpointed.

use vstd::arithmetic::div_mod::{
    lemma_div_is_ordered, lemma_fundamental_div_mod, lemma_fundamental_div_mod_converse,
    lemma_mod_multiples_basic,
};
use vstd::prelude::*;

use crate::checkpoint_run::{
    begun, cadence_events, checkpoints_fit, events_of, lemma_whole_run, whole_events,
};
use crate::finding_laws::lemma_joined_contains;
use crate::model::runtime::{RuntimeCheckpointCadence, RuntimeCheckpointReason};
use crate::model::session::{
    RuntimePartitionSessionRunEventReason, RuntimePartitionSessionRunScriptView,
    RuntimePartitionWorkerActionKind,
};
use crate::script_run::{
    cadence_telemetry, lemma_whole_script, script_actions, script_begun, script_events,
    whole_telemetry, ScriptEvent,
};
use crate::service::LocalRuntimeWorkerServiceView;
use crate::session::RuntimePartitionSessionView;
use crate::session_actions::{
    local_action_problem, local_action_report, session_after_action, with_action,
};
use crate::session_script::{
    all_emissions, emissions, emits_at, is_reached, run_report, run_service, run_session,
    script_problem, step_problem,
};

verus! {

/// How many whole times `every` goes into `c`.
proof fn lemma_one_more_step(c: nat, every: nat)
    requires
        every > 0,
    ensures
        (c + 1) / every == c / every + (if (c + 1) % every == 0 {
            1nat
        } else {
            0nat
        }),
{
    lemma_fundamental_div_mod(c as int, every as int);
    lemma_fundamental_div_mod((c + 1) as int, every as int);
    let q = (c / every) as int;
    let r = (c % every) as int;
    let e = every as int;
    assert(e * q == q * e) by (nonlinear_arith);
    if r + 1 < e {
        lemma_fundamental_div_mod_converse((c + 1) as int, e, q, r + 1);
    } else {
        assert((q + 1) * e == q * e + e) by (nonlinear_arith);
        lemma_fundamental_div_mod_converse((c + 1) as int, e, q + 1, 0);
    }
}

/// What is emitted after so many steps: once at the start if that is wanted, and once for every
/// full round of steps.
pub proof fn lemma_emissions_keep_time(
    session: RuntimePartitionSessionView,
    service: LocalRuntimeWorkerServiceView,
    script: RuntimePartitionSessionRunScriptView,
    c: nat,
)
    requires
        script.every_actions > 0,
    ensures
        emissions(session, service, script, c).len() == (if script.emit_initial {
            1int
        } else {
            0int
        }) + c as int / script.every_actions as int,
    decreases c,
{
    if c > 0 {
        lemma_emissions_keep_time(session, service, script, (c - 1) as nat);
        lemma_one_more_step((c - 1) as nat, script.every_actions as nat);
    } else {
        assert(0int / script.every_actions as int == 0) by (nonlinear_arith)
            requires
                script.every_actions > 0,
        ;
    }
}

/// A run emits at its start if that is wanted, after every round of steps, and at its end if that
/// is wanted and nothing was just emitted there; its report counts all of these and all steps.
pub proof fn lemma_run_emits_in_time(
    session: RuntimePartitionSessionView,
    service: LocalRuntimeWorkerServiceView,
    script: RuntimePartitionSessionRunScriptView,
)
    requires
        script_problem(script) is None,
        script.actions.len() < usize::MAX - 1,
    ensures
        script.every_actions > 0,
        ({
            let n = script.actions.len() as int;
            let every = script.every_actions as int;
            let told = all_emissions(session, service, script);
            let at_start = script.emit_initial;
            let at_end = script.emit_final && (if n == 0 {
                !script.emit_initial
            } else {
                n % every != 0
            });
            &&& told.len() == (if at_start {
                1int
            } else {
                0int
            }) + n / every + (if at_end {
                1int
            } else {
                0int
            })
            &&& run_report(session, service, script).telemetry_emitted == told.len()
            &&& run_report(session, service, script).completed_actions == n
            &&& at_end ==> told.last().0.reason == RuntimePartitionSessionRunEventReason::Final
                && told.last().0.completed_actions == n
            &&& at_start ==> told[0].0.reason == RuntimePartitionSessionRunEventReason::Initial
                && told[0].0.completed_actions == 0
        }),
{
    let n = script.actions.len();
    lemma_emissions_keep_time(session, service, script, n);
    lemma_emissions_start(session, service, script, n);
    let every = script.every_actions as int;
    assert(n as int / every <= n) by (nonlinear_arith)
        requires
            every > 0,
            n >= 0,
    ;
}

proof fn lemma_emissions_start(
    session: RuntimePartitionSessionView,
    service: LocalRuntimeWorkerServiceView,
    script: RuntimePartitionSessionRunScriptView,
    c: nat,
)
    ensures
        script.emit_initial ==> emissions(session, service, script, c).len() > 0 && emissions(
            session,
            service,
            script,
            c,
        )[0].0.reason == RuntimePartitionSessionRunEventReason::Initial && emissions(
            session,
            service,
            script,
            c,
        )[0].0.completed_actions == 0,
    decreases c,
{
    if c > 0 {
        lemma_emissions_start(session, service, script, (c - 1) as nat);
    }
}

/// Every emission after the start comes after a round of steps: it tells how many steps were made,
/// which is a multiple of the round, and the telemetry has all of these steps.
pub proof fn lemma_emissions_tell_rounds(
    session: RuntimePartitionSessionView,
    service: LocalRuntimeWorkerServiceView,
    script: RuntimePartitionSessionRunScriptView,
    c: nat,
    i: int,
)
    requires
        script.every_actions > 0,
        c <= usize::MAX,
        0 <= i < emissions(session, service, script, c).len(),
        emissions(session, service, script, c)[i].0.reason
            == RuntimePartitionSessionRunEventReason::Cadence,
    ensures
        ({
            let (event, telemetry) = emissions(session, service, script, c)[i];
            &&& 0 < event.completed_actions <= c
            &&& event.completed_actions as int % script.every_actions as int == 0
            &&& telemetry.actions == run_session(
                session,
                service,
                script.actions,
                event.completed_actions as nat,
            ).actions
        }),
    decreases c,
{
    if c > 0 {
        let before = emissions(session, service, script, (c - 1) as nat);
        if i < before.len() {
            lemma_emissions_tell_rounds(session, service, script, (c - 1) as nat, i);
        }
    }
}

/// A run records one step for each that it makes, of the kinds of the script in their order.
pub proof fn lemma_run_records_its_steps(
    session: RuntimePartitionSessionView,
    service: LocalRuntimeWorkerServiceView,
    kinds: Seq<RuntimePartitionWorkerActionKind>,
    c: nat,
)
    requires
        c <= kinds.len(),
        is_reached(session, service, kinds, c),
    ensures
        ({
            let after = run_session(session, service, kinds, c);
            let n = session.actions.len();
            &&& after.actions.len() == n + c
            &&& after.actions.take(n as int) == session.actions
            &&& forall|i: int| 0 <= i < c ==> (#[trigger] after.actions[n + i]).kind == kinds[i]
            &&& after.launch == session.launch
            &&& after.deployment == session.deployment
        }),
    decreases c,
{
    let n = session.actions.len();
    let after = run_session(session, service, kinds, c);
    if c > 0 {
        let last = (c - 1) as nat;
        assert(is_reached(session, service, kinds, last));
        lemma_run_records_its_steps(session, service, kinds, last);
        let before = run_session(session, service, kinds, last);
        assert(step_problem(session, service, kinds, c - 1) is None);
        let then = run_service(session, service, kinds, last);
        assert(after == session_after_action(before, then, kinds[c - 1]));
        assert(local_action_problem(before, then) is None);
        reveal(session_after_action);
        reveal(local_action_report);
        let made = local_action_report(before, then, kinds[c - 1]);
        assert(after == with_action(before, made));
        assert(made.kind == kinds[c - 1]);
        assert(after.actions.take(n as int) =~= before.actions.take(n as int));
        assert forall|i: int| 0 <= i < c implies (#[trigger] after.actions[n + i]).kind == kinds[i] by {
            if i < last {
                assert(after.actions[n + i] == before.actions[n + i]);
            }
        }
    } else {
        assert(after.actions.take(n as int) =~= session.actions);
    }
}

/// The checkpoints of a run come where they are due: at the start and at the end where they are
/// asked for, after every full round of steps, and nowhere else. The start and the rounds go by
/// their own names, and what is left is the end.
pub proof fn lemma_checkpoints_come_when_due(
    steps: usize,
    cadence: RuntimeCheckpointCadence,
    c: usize,
)
    requires
        checkpoints_fit(steps, cadence),
        cadence.every_steps > 0,
    ensures
        ({
            let events = events_of(begun(steps, cadence));
            let at_start = cadence.include_initial && c == 0;
            let after_round = 0 < c <= steps && c % cadence.every_steps == 0;
            let at_end = cadence.include_final && c == steps;
            &&& (exists|k: int|
                0 <= k < events.len() && (#[trigger] events[k]).completed_steps == c)
                <==> at_start || after_round || at_end
            &&& forall|k: int|
                0 <= k < events.len() && (#[trigger] events[k]).completed_steps == c
                    ==> events[k].reason == (if at_start {
                    RuntimeCheckpointReason::Initial
                } else if after_round {
                    RuntimeCheckpointReason::Cadence
                } else {
                    RuntimeCheckpointReason::Final
                })
        }),
{
    lemma_whole_run(steps, cadence);
    let every = cadence.every_steps;
    let e = every as int;
    let rounds = (steps / every) as int;
    let events = whole_events(steps, cadence);
    let first: nat = if cadence.include_initial {
        1
    } else {
        0
    };
    let rest = cadence_events(every, 0, rounds);
    lemma_fundamental_div_mod(steps as int, e);
    lemma_fundamental_div_mod(c as int, e);
    assert forall|k: int| 0 <= k < rounds implies {
        let event = #[trigger] rest[k];
        &&& event.completed_steps == (k + 1) * e
        &&& 0 < event.completed_steps <= steps
        &&& event.completed_steps % every == 0
        &&& event.reason == RuntimeCheckpointReason::Cadence
    } by {
        assert((k + 1) * e <= rounds * e && (k + 1) * e > 0) by (nonlinear_arith)
            requires
                0 <= k < rounds,
                e > 0,
        ;
        assert(rounds * e == e * rounds) by (nonlinear_arith);
        lemma_mod_multiples_basic(k + 1, e);
    }
    assert forall|k: int| 0 <= k < events.len() implies {
        ||| k < first && events[k].completed_steps == 0 && events[k].reason
            == RuntimeCheckpointReason::Initial
        ||| first <= k < first + rounds && #[trigger] events[k] == rest[k - first]
        ||| k == first + rounds && events[k].completed_steps == steps && events[k].reason
            == RuntimeCheckpointReason::Final
    } by {}
    let after_round = 0 < c <= steps && c % every == 0;
    if after_round {
        let q = (c / every) as int;
        lemma_div_is_ordered(c as int, steps as int, e);
        assert(q > 0) by (nonlinear_arith)
            requires
                c == e * q,
                c > 0,
                e > 0,
        ;
        assert(rest[q - 1].completed_steps == q * e);
        assert(q * e == e * q) by (nonlinear_arith);
        assert(events[first + q - 1] == rest[q - 1]);
        assert(events[first + q - 1].completed_steps == c);
    }
    if cadence.include_initial && c == 0 {
        assert(events[0].completed_steps == c);
    }
    if cadence.include_final && c == steps && !after_round && !(cadence.include_initial && c == 0) {
        assert(events[first + rounds].completed_steps == c);
    }
}

proof fn lemma_rounds_are_told(
    script: RuntimePartitionSessionRunScriptView,
    from: int,
    event: ScriptEvent,
)
    requires
        script.every_actions > 0,
        script.actions.len() < usize::MAX,
        0 <= from,
    ensures
        cadence_telemetry(script, from).contains(event) <==> {
            &&& from < event.0 <= script.actions.len()
            &&& event.0 as int % script.every_actions as int == 0
            &&& event.1 == RuntimePartitionSessionRunEventReason::Cadence
        },
    decreases script.actions.len() - from,
{
    if from < script.actions.len() {
        lemma_rounds_are_told(script, from + 1, event);
        let head: Seq<ScriptEvent> = if (from + 1) % script.every_actions as int == 0 {
            seq![((from + 1) as usize, RuntimePartitionSessionRunEventReason::Cadence)]
        } else {
            seq![]
        };
        lemma_joined_contains(head, cadence_telemetry(script, from + 1), event);
        if head.len() > 0 {
            assert(head[0] == ((from + 1) as usize, RuntimePartitionSessionRunEventReason::Cadence));
            if event == head[0] {
                assert(head.contains(event));
            }
        }
    }
}

/// A run of a script makes its actions in their order, and emits telemetry where it is due: at the
/// start and at the end where it is asked for, after every full round of actions, and nowhere else.
pub proof fn lemma_telemetry_comes_when_due(
    script: RuntimePartitionSessionRunScriptView,
    event: ScriptEvent,
)
    requires
        script.every_actions > 0,
        script.actions.len() < usize::MAX,
    ensures
        script_actions(script, script_begun()) == script.actions,
        ({
            let n = script.actions.len();
            let at_start = script.emit_initial && event.0 == 0;
            let after_round = 0 < event.0 <= n && event.0 as int % script.every_actions as int == 0;
            let at_end = script.emit_final && event.0 == n;
            script_events(script, script_begun()).contains(event) <==> {
                &&& at_start || after_round || at_end
                &&& event.1 == (if at_start {
                    RuntimePartitionSessionRunEventReason::Initial
                } else if after_round {
                    RuntimePartitionSessionRunEventReason::Cadence
                } else {
                    RuntimePartitionSessionRunEventReason::Final
                })
            }
        }),
{
    lemma_whole_script(script);
    lemma_rounds_are_told(script, 0, event);
    let n = script.actions.len();
    let a: Seq<ScriptEvent> = if script.emit_initial {
        seq![(0usize, RuntimePartitionSessionRunEventReason::Initial)]
    } else {
        seq![]
    };
    let b = cadence_telemetry(script, 0);
    let c: Seq<ScriptEvent> = if script.emit_final && !emits_at(script, n) {
        seq![(n as usize, RuntimePartitionSessionRunEventReason::Final)]
    } else {
        seq![]
    };
    assert(whole_telemetry(script) == a + b + c);
    lemma_joined_contains(a, b, event);
    lemma_joined_contains(a + b, c, event);
    if a.len() > 0 {
        assert(a[0] == (0usize, RuntimePartitionSessionRunEventReason::Initial));
        if event == a[0] {
            assert(a.contains(event));
        }
    }
    if c.len() > 0 {
        assert(c[0] == (n as usize, RuntimePartitionSessionRunEventReason::Final));
        if event == c[0] {
            assert(c.contains(event));
        }
    }
}

} // verus!

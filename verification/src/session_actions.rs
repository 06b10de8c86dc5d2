//! Structural steps of a session.

use vstd::prelude::*;

use crate::error::{error, fails_with, report, ErrorReport, ErrorReportView};
use crate::model::launch::RuntimePartitionWorkerLaunchView;
use crate::model::runtime::RuntimeOperationStats;
use crate::model::session::{
    RuntimePartitionSessionActionReport, RuntimePartitionSessionActionReportView,
    RuntimePartitionWorkerAction, RuntimePartitionWorkerActionKind,
    RuntimePartitionWorkerActionReport, RuntimePartitionWorkerActionReportView,
};
use crate::operations::{
    follow_operation_stats, no_operations, records_partition_action, stats_after, stats_follow,
};
use crate::responses::expect_partition_worker_action;
use crate::seqs::{
    first_index, lemma_first_index, lemma_first_index_is, no_items, or_problem, push_item,
};
use crate::service::{
    with_worker, worker_action_report, worker_after_action, LocalRuntimeWorkerService,
    LocalRuntimeWorkerServiceView,
};
use crate::session::{
    deployed_partitions, session_health, RuntimePartitionSession, RuntimePartitionSessionView,
};

verus! {

/// What keeps a session from stepping: not all its workers are initialized.
pub open spec fn ready_problem(session: RuntimePartitionSessionView) -> Option<ErrorReportView> {
    if session_health(session.launch, session.deployment).ready {
        None
    } else {
        Some(
            report(
                "E_RUNTIME_PARTITION_SESSION_ACTION"@,
                "runtime partition session `"@ + session.launch.module_name
                    + "` is not ready for structural actions"@,
            ),
        )
    }
}

/// Checks that a session can step.
pub fn validate_partition_session_ready(session: &RuntimePartitionSession) -> (r: Result<
    (),
    ErrorReport,
>)
    requires
        deployed_partitions(session.deep_view().deployment.workers) <= usize::MAX,
    ensures
        fails_with(r, ready_problem(session.deep_view())),
{
    let health = session.health();
    if !health.ready {
        let mut message = "runtime partition session `".to_owned();
        message.append(health.module_name.as_str());
        message.append("` is not ready for structural actions");
        return Err(error("E_RUNTIME_PARTITION_SESSION_ACTION", message.as_str()));
    }
    Ok(())
}

// ---------------------------------------------------------------------------
// Reports
// ---------------------------------------------------------------------------

/// What the first `n` workers counted together; the last one gives the last times.
pub open spec fn reports_operations(
    workers: Seq<RuntimePartitionWorkerActionReportView>,
    n: nat,
) -> RuntimeOperationStats
    decreases n,
{
    if n == 0 {
        no_operations()
    } else {
        stats_after(reports_operations(workers, (n - 1) as nat), workers[n - 1].operations)
    }
}

/// Whether the counts of all workers can be added.
pub open spec fn reports_fit(workers: Seq<RuntimePartitionWorkerActionReportView>) -> bool {
    forall|i: int|
        0 <= i < workers.len() ==> stats_follow(
            reports_operations(workers, i as nat),
            (#[trigger] workers[i]).operations,
        )
}

/// The report of a step of all workers.
pub open spec fn session_action_report(
    session: RuntimePartitionSessionView,
    kind: RuntimePartitionWorkerActionKind,
    workers: Seq<RuntimePartitionWorkerActionReportView>,
) -> RuntimePartitionSessionActionReportView {
    RuntimePartitionSessionActionReportView {
        module_name: session.launch.module_name,
        kind,
        workers,
        operations: reports_operations(workers, workers.len()),
        diagnostics: session.deployment.diagnostics,
    }
}

/// A session after a step was recorded.
pub open spec fn with_action(
    session: RuntimePartitionSessionView,
    action: RuntimePartitionSessionActionReportView,
) -> RuntimePartitionSessionView {
    RuntimePartitionSessionView { actions: session.actions.push(action), ..session }
}

impl RuntimePartitionSession {
    /// Records a step that all workers have reported.
    pub fn record_action_report(
        &mut self,
        kind: RuntimePartitionWorkerActionKind,
        workers: Vec<RuntimePartitionWorkerActionReport>,
    ) -> (r: RuntimePartitionSessionActionReport)
        requires
            reports_fit(workers.deep_view()),
        ensures
            r.deep_view() == session_action_report(
                old(self).deep_view(),
                kind,
                workers.deep_view(),
            ),
            final(self).deep_view() == with_action(old(self).deep_view(), r.deep_view()),
    {
        let ghost ws = workers.deep_view();
        let mut operations = RuntimeOperationStats::default();
        let mut i: usize = 0;
        proof {
            assert(ws.len() == workers@.len());
        }
        while i < workers.len()
            invariant
                i <= workers@.len(),
                ws == workers.deep_view(),
                ws.len() == workers@.len(),
                reports_fit(ws),
                operations == reports_operations(ws, i as nat),
            decreases workers@.len() - i,
        {
            proof {
                assert(ws[i as int] == workers@[i as int].deep_view());
            }
            follow_operation_stats(&mut operations, workers[i].operations);
            i = i + 1;
        }
        let diagnostics = self.deployment.diagnostics.clone();
        proof {
            assert(diagnostics.deep_view() =~= self.deployment.diagnostics.deep_view());
        }
        let action = RuntimePartitionSessionActionReport {
            module_name: self.launch.module_name.clone(),
            kind,
            workers,
            operations,
            diagnostics,
        };
        push_item(&mut self.actions, action.clone());
        action
    }
}

// ---------------------------------------------------------------------------
// Steps of workers in this process
// ---------------------------------------------------------------------------

/// The service after the first `n` workers have made a step.
pub open spec fn acted(
    service: LocalRuntimeWorkerServiceView,
    workers: Seq<RuntimePartitionWorkerLaunchView>,
    kind: RuntimePartitionWorkerActionKind,
    n: nat,
) -> LocalRuntimeWorkerServiceView
    decreases n,
{
    if n == 0 {
        service
    } else {
        let before = acted(service, workers, kind, (n - 1) as nat);
        let worker = workers[n - 1].worker_id;
        with_worker(before, worker, worker_after_action(before.partition_workers[worker], kind))
    }
}

/// Whether a worker of a plan is not there.
pub open spec fn is_absent(
    service: LocalRuntimeWorkerServiceView,
    workers: Seq<RuntimePartitionWorkerLaunchView>,
) -> spec_fn(int) -> bool {
    |i: int| !service.partition_workers.dom().contains(workers[i].worker_id)
}

/// The number of workers that step before one is found that is not there.
pub open spec fn steppable(
    service: LocalRuntimeWorkerServiceView,
    workers: Seq<RuntimePartitionWorkerLaunchView>,
) -> nat {
    match first_index(workers.len(), is_absent(service, workers)) {
        Some(i) => i as nat,
        None => workers.len(),
    }
}

/// What keeps a session from stepping with a worker in this process.
#[verifier::opaque]
pub open spec fn local_action_problem(
    session: RuntimePartitionSessionView,
    service: LocalRuntimeWorkerServiceView,
) -> Option<ErrorReportView> {
    or_problem(
        ready_problem(session),
        match first_index(session.launch.workers.len(), is_absent(service, session.launch.workers)) {
            Some(i) => Some(
                report(
                    "E_RUNTIME_PARTITION_WORKER_ACTION"@,
                    "partition worker `"@ + session.launch.workers[i].worker_id
                        + "` is not initialized"@,
                ),
            ),
            None => None,
        },
    )
}

/// What the workers report of a step.
pub open spec fn action_reports(
    service: LocalRuntimeWorkerServiceView,
    workers: Seq<RuntimePartitionWorkerLaunchView>,
    kind: RuntimePartitionWorkerActionKind,
) -> Seq<RuntimePartitionWorkerActionReportView> {
    Seq::new(
        workers.len(),
        |i: int|
            worker_action_report(
                workers[i].worker_id,
                acted(service, workers, kind, i as nat).partition_workers[workers[i].worker_id],
                kind,
            ),
    )
}

/// The report of a step with a worker in this process.
#[verifier::opaque]
pub open spec fn local_action_report(
    session: RuntimePartitionSessionView,
    service: LocalRuntimeWorkerServiceView,
    kind: RuntimePartitionWorkerActionKind,
) -> RuntimePartitionSessionActionReportView {
    session_action_report(
        session,
        kind,
        action_reports(service, session.launch.workers, kind),
    )
}

/// Whether a step can still be counted by all workers.
#[verifier::opaque]
pub open spec fn local_action_fits(
    session: RuntimePartitionSessionView,
    service: LocalRuntimeWorkerServiceView,
    kind: RuntimePartitionWorkerActionKind,
) -> bool {
    let workers = session.launch.workers;
    &&& deployed_partitions(session.deployment.workers) <= usize::MAX
    &&& ready_problem(session) is None ==> forall|i: int|
        0 <= i < steppable(service, workers) ==> records_partition_action(
            acted(service, workers, kind, i as nat).partition_workers[(
            #[trigger] workers[i]).worker_id].operations,
            kind,
        )
    &&& local_action_problem(session, service) is None ==> reports_fit(
        action_reports(service, workers, kind),
    )
}

/// The service after a step: where a worker is not there, those before it have
/// stepped.
#[verifier::opaque]
pub open spec fn service_after_action(
    session: RuntimePartitionSessionView,
    service: LocalRuntimeWorkerServiceView,
    kind: RuntimePartitionWorkerActionKind,
) -> LocalRuntimeWorkerServiceView {
    if ready_problem(session) is Some {
        service
    } else {
        acted(
            service,
            session.launch.workers,
            kind,
            steppable(service, session.launch.workers),
        )
    }
}

/// The session after a step.
#[verifier::opaque]
pub open spec fn session_after_action(
    session: RuntimePartitionSessionView,
    service: LocalRuntimeWorkerServiceView,
    kind: RuntimePartitionWorkerActionKind,
) -> RuntimePartitionSessionView {
    if local_action_problem(session, service) is Some {
        session
    } else {
        with_action(session, local_action_report(session, service, kind))
    }
}

/// Steps keep the workers that are there.
pub proof fn lemma_acted(
    service: LocalRuntimeWorkerServiceView,
    workers: Seq<RuntimePartitionWorkerLaunchView>,
    kind: RuntimePartitionWorkerActionKind,
    n: nat,
    name: Seq<char>,
)
    requires
        n <= workers.len(),
        forall|i: int| 0 <= i < n ==> !#[trigger] is_absent(service, workers)(i),
    ensures
        acted(service, workers, kind, n).partition_workers.dom().contains(name)
            <==> service.partition_workers.dom().contains(name),
        acted(service, workers, kind, n).shards == service.shards,
    decreases n,
{
    if n > 0 {
        lemma_acted(service, workers, kind, (n - 1) as nat, name);
        assert(!is_absent(service, workers)(n - 1));
    }
}

impl RuntimePartitionSession {
    /// Lets all workers in this process make a step.
    pub fn run_local_action(
        &mut self,
        kind: RuntimePartitionWorkerActionKind,
        service: &mut LocalRuntimeWorkerService,
    ) -> (r: Result<RuntimePartitionSessionActionReport, ErrorReport>)
        requires
            old(service).well_formed(),
            local_action_fits(old(self).deep_view(), old(service)@, kind),
        ensures
            final(service).well_formed(),
            fails_with(r, local_action_problem(old(self).deep_view(), old(service)@)),
            final(service)@ == service_after_action(
                old(self).deep_view(),
                old(service)@,
                kind,
            ),
            final(self).deep_view() == session_after_action(
                old(self).deep_view(),
                old(service)@,
                kind,
            ),
            r matches Ok(action) ==> action.deep_view() == local_action_report(
                old(self).deep_view(),
                old(service)@,
                kind,
            ),
    {
        reveal(local_action_problem);
        reveal(local_action_fits);
        reveal(local_action_report);
        reveal(service_after_action);
        reveal(session_after_action);
        validate_partition_session_ready(self)?;
        let ghost session = self.deep_view();
        let ghost ws = session.launch.workers;
        let ghost before = service@;
        let ghost absent = is_absent(before, ws);
        let ghost all = action_reports(before, ws, kind);
        let mut workers: Vec<RuntimePartitionWorkerActionReport> = no_items();
        let mut i: usize = 0;
        proof {
            assert(ws.len() == self.launch.workers@.len());
            assert(all.take(0) =~= Seq::empty());
            lemma_first_index(ws.len(), absent);
        }
        while i < self.launch.workers.len()
            invariant
                i <= self.launch.workers@.len(),
                *self == *old(self),
                session == self.deep_view(),
                ws == session.launch.workers,
                ws == self.launch.workers.deep_view(),
                ws.len() == self.launch.workers@.len(),
                before == old(service)@,
                absent == is_absent(before, ws),
                all == action_reports(before, ws, kind),
                ready_problem(session) is None,
                local_action_fits(session, before, kind),
                service.well_formed(),
                service@ == acted(before, ws, kind, i as nat),
                forall|j: int| 0 <= j < i ==> !#[trigger] absent(j),
                workers.deep_view() == all.take(i as int),
            decreases self.launch.workers@.len() - i,
        {
            reveal(local_action_problem);
            reveal(local_action_fits);
            reveal(local_action_report);
            reveal(service_after_action);
            reveal(session_after_action);
            let worker = &self.launch.workers[i];
            proof {
                assert(ws[i as int] == worker.deep_view());
                lemma_acted(before, ws, kind, i as nat, worker.worker_id@);
                lemma_first_index(ws.len(), absent);
                if !absent(i as int) {
                    assert(i < steppable(before, ws));
                    assert(records_partition_action(
                        acted(before, ws, kind, i as nat).partition_workers[ws[i as int].worker_id].operations,
                        kind,
                    ));
                }
            }
            let response = match service.run_partition_worker_action(
                RuntimePartitionWorkerAction { worker_id: worker.worker_id.clone(), kind },
            ) {
                Ok(response) => response,
                Err(e) => {
                    proof {
                        assert(absent(i as int));
                        lemma_first_index_is(ws.len(), absent, i as int);
                    }
                    return Err(e);
                },
            };
            proof {
                assert(!absent(i as int));
                assert(all[i as int] == worker_action_report(
                    ws[i as int].worker_id,
                    acted(before, ws, kind, i as nat).partition_workers[ws[i as int].worker_id],
                    kind,
                ));
            }
            let action = expect_partition_worker_action(worker.worker_id.as_str(), kind, response)?;
            proof {
                assert(all.take(i + 1) =~= all.take(i as int).push(all[i as int]));
            }
            push_item(&mut workers, action);
            i = i + 1;
        }
        proof {
            lemma_first_index(ws.len(), absent);
            assert(all.take(i as int) =~= all);
        }
        Ok(self.record_action_report(kind, workers))
    }

    /// Lets all workers in this process evaluate.
    pub fn eval_combinational_local(&mut self, service: &mut LocalRuntimeWorkerService) -> (r: Result<
        RuntimePartitionSessionActionReport,
        ErrorReport,
    >)
        requires
            old(service).well_formed(),
            local_action_fits(
                old(self).deep_view(),
                old(service)@,
                RuntimePartitionWorkerActionKind::EvalCombinational,
            ),
        ensures
            final(service).well_formed(),
            fails_with(r, local_action_problem(old(self).deep_view(), old(service)@)),
            final(service)@ == service_after_action(
                old(self).deep_view(),
                old(service)@,
                RuntimePartitionWorkerActionKind::EvalCombinational,
            ),
            final(self).deep_view() == session_after_action(
                old(self).deep_view(),
                old(service)@,
                RuntimePartitionWorkerActionKind::EvalCombinational,
            ),
            r matches Ok(action) ==> action.deep_view() == local_action_report(
                old(self).deep_view(),
                old(service)@,
                RuntimePartitionWorkerActionKind::EvalCombinational,
            ),
    {
        self.run_local_action(RuntimePartitionWorkerActionKind::EvalCombinational, service)
    }

    /// Lets all workers in this process tick.
    pub fn tick_local(&mut self, service: &mut LocalRuntimeWorkerService) -> (r: Result<
        RuntimePartitionSessionActionReport,
        ErrorReport,
    >)
        requires
            old(service).well_formed(),
            local_action_fits(
                old(self).deep_view(),
                old(service)@,
                RuntimePartitionWorkerActionKind::Tick,
            ),
        ensures
            final(service).well_formed(),
            fails_with(r, local_action_problem(old(self).deep_view(), old(service)@)),
            final(service)@ == service_after_action(
                old(self).deep_view(),
                old(service)@,
                RuntimePartitionWorkerActionKind::Tick,
            ),
            final(self).deep_view() == session_after_action(
                old(self).deep_view(),
                old(service)@,
                RuntimePartitionWorkerActionKind::Tick,
            ),
            r matches Ok(action) ==> action.deep_view() == local_action_report(
                old(self).deep_view(),
                old(service)@,
                RuntimePartitionWorkerActionKind::Tick,
            ),
    {
        self.run_local_action(RuntimePartitionWorkerActionKind::Tick, service)
    }

    /// Lets all workers in this process tick a number of times.
    pub fn tick_many_local(&mut self, steps: usize, service: &mut LocalRuntimeWorkerService) -> (r:
        Result<RuntimePartitionSessionActionReport, ErrorReport>)
        requires
            old(service).well_formed(),
            local_action_fits(
                old(self).deep_view(),
                old(service)@,
                RuntimePartitionWorkerActionKind::TickMany(steps),
            ),
        ensures
            final(service).well_formed(),
            fails_with(r, local_action_problem(old(self).deep_view(), old(service)@)),
            final(service)@ == service_after_action(
                old(self).deep_view(),
                old(service)@,
                RuntimePartitionWorkerActionKind::TickMany(steps),
            ),
            final(self).deep_view() == session_after_action(
                old(self).deep_view(),
                old(service)@,
                RuntimePartitionWorkerActionKind::TickMany(steps),
            ),
            r matches Ok(action) ==> action.deep_view() == local_action_report(
                old(self).deep_view(),
                old(service)@,
                RuntimePartitionWorkerActionKind::TickMany(steps),
            ),
    {
        self.run_local_action(RuntimePartitionWorkerActionKind::TickMany(steps), service)
    }
}

} // verus!

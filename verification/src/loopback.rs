//! Sessions with a worker of this process that others use too. The caller holds its lock; what is
//! done is what is done with a worker of one's own.

use vstd::prelude::*;

use crate::deployment::{
    deploy_runtime_partition_launch_local, deployable, deployed, deployment_launch_problem,
    deployment_report, local_deployment_problem,
};
use crate::error::{fails_with, ErrorReport};
use crate::model::launch::RuntimePartitionLaunchPlan;
use crate::model::session::{
    RuntimePartitionDeploymentReport, RuntimePartitionRouteMailboxReport,
    RuntimePartitionRoutePayload, RuntimePartitionRouteTransferReport,
    RuntimePartitionSessionActionReport, RuntimePartitionSessionRunReport,
    RuntimePartitionSessionRunScript, RuntimePartitionWorkerActionKind,
};
use crate::service::{
    deliver_inbound_problem, store_outbound_problem, with_worker, worker_cleared, worker_mailbox,
    worker_receiving, worker_storing, LocalRuntimeWorkerService,
};
use crate::session::{started_session, RuntimePartitionSession};
use crate::session_actions::{
    local_action_fits, local_action_problem, local_action_report, service_after_action,
    session_after_action, steppable,
};
use crate::session_routes::{
    clears_read, consumer_mailbox, mailboxes_cleared, mailboxes_problem, mailboxes_read,
    producer_mailbox, route_payload, service_after_transfer, session_after_transfer, session_route,
    transfer_problem, transfer_report, with_mailbox,
};
use crate::session_script::{
    all_emissions, run_ends, run_fits, run_report, run_service, run_session, script_problem,
    step_problem, taken, took_all, RuntimePartitionTelemetrySink,
};

verus! {

/// Launches all workers with a shared worker of this process.
pub fn deploy_runtime_partition_launch_loopback(
    launch: &RuntimePartitionLaunchPlan,
    service: &mut LocalRuntimeWorkerService,
) -> (r: Result<RuntimePartitionDeploymentReport, ErrorReport>)
    requires
        old(service).well_formed(),
    ensures
        final(service).well_formed(),
        fails_with(r, local_deployment_problem(launch.deep_view(), old(service)@)),
        final(service)@ == if deployment_launch_problem(launch.deep_view()) is Some {
            old(service)@
        } else {
            deployed(
                old(service)@,
                launch.deep_view().workers,
                deployable(old(service)@, launch.deep_view().workers),
            )
        },
        r matches Ok(deployment) ==> deployment.deep_view() == deployment_report(
            launch.deep_view(),
        ),
{
    deploy_runtime_partition_launch_local(launch, service)
}

impl RuntimePartitionSession {
    /// Launches all workers with a shared worker of this process and begins a session.
    pub fn deploy_loopback(
        launch: RuntimePartitionLaunchPlan,
        service: &mut LocalRuntimeWorkerService,
    ) -> (r: Result<Self, ErrorReport>)
        requires
            old(service).well_formed(),
        ensures
            final(service).well_formed(),
            fails_with(r, local_deployment_problem(launch.deep_view(), old(service)@)),
            final(service)@ == if deployment_launch_problem(launch.deep_view()) is Some {
                old(service)@
            } else {
                deployed(
                    old(service)@,
                    launch.deep_view().workers,
                    deployable(old(service)@, launch.deep_view().workers),
                )
            },
            r matches Ok(session) ==> session.deep_view() == started_session(
                launch.deep_view(),
                deployment_report(launch.deep_view()),
            ),
    {
        Self::deploy_local(launch, service)
    }

    /// Lets all workers make a step.
    pub fn run_loopback_action(
        &mut self,
        kind: RuntimePartitionWorkerActionKind,
        service: &mut LocalRuntimeWorkerService,
    ) -> (r: Result<RuntimePartitionSessionActionReport, ErrorReport>)
        requires
            old(service).well_formed(),
            local_action_fits(old(self).deep_view(), old(service)@, kind),
        ensures
            final(service).well_formed(),
            fails_with(r, local_action_problem(old(self).deep_view(), old(service)@)),
            final(service)@ == service_after_action(
                old(self).deep_view(),
                old(service)@,
                kind,
            ),
            final(self).deep_view() == session_after_action(
                old(self).deep_view(),
                old(service)@,
                kind,
            ),
            r matches Ok(action) ==> action.deep_view() == local_action_report(
                old(self).deep_view(),
                old(service)@,
                kind,
            ),
    {
        self.run_local_action(kind, service)
    }

    /// Lets all workers evaluate their combinational logic.
    pub fn eval_combinational_loopback(&mut self, service: &mut LocalRuntimeWorkerService) -> (r: Result<
        RuntimePartitionSessionActionReport,
        ErrorReport,
    >)
        requires
            old(service).well_formed(),
            local_action_fits(
                old(self).deep_view(),
                old(service)@,
                RuntimePartitionWorkerActionKind::EvalCombinational,
            ),
        ensures
            final(service).well_formed(),
            fails_with(r, local_action_problem(old(self).deep_view(), old(service)@)),
            final(service)@ == service_after_action(
                old(self).deep_view(),
                old(service)@,
                RuntimePartitionWorkerActionKind::EvalCombinational,
            ),
            final(self).deep_view() == session_after_action(
                old(self).deep_view(),
                old(service)@,
                RuntimePartitionWorkerActionKind::EvalCombinational,
            ),
            r matches Ok(action) ==> action.deep_view() == local_action_report(
                old(self).deep_view(),
                old(service)@,
                RuntimePartitionWorkerActionKind::EvalCombinational,
            ),
    {
        self.eval_combinational_local(service)
    }

    /// Lets all workers make one clock step.
    pub fn tick_loopback(&mut self, service: &mut LocalRuntimeWorkerService) -> (r: Result<
        RuntimePartitionSessionActionReport,
        ErrorReport,
    >)
        requires
            old(service).well_formed(),
            local_action_fits(
                old(self).deep_view(),
                old(service)@,
                RuntimePartitionWorkerActionKind::Tick,
            ),
        ensures
            final(service).well_formed(),
            fails_with(r, local_action_problem(old(self).deep_view(), old(service)@)),
            final(service)@ == service_after_action(
                old(self).deep_view(),
                old(service)@,
                RuntimePartitionWorkerActionKind::Tick,
            ),
            final(self).deep_view() == session_after_action(
                old(self).deep_view(),
                old(service)@,
                RuntimePartitionWorkerActionKind::Tick,
            ),
            r matches Ok(action) ==> action.deep_view() == local_action_report(
                old(self).deep_view(),
                old(service)@,
                RuntimePartitionWorkerActionKind::Tick,
            ),
    {
        self.tick_local(service)
    }

    /// Lets all workers make some clock steps.
    pub fn tick_many_loopback(&mut self, steps: usize, service: &mut LocalRuntimeWorkerService) -> (r:
        Result<RuntimePartitionSessionActionReport, ErrorReport>)
        requires
            old(service).well_formed(),
            local_action_fits(
                old(self).deep_view(),
                old(service)@,
                RuntimePartitionWorkerActionKind::TickMany(steps),
            ),
        ensures
            final(service).well_formed(),
            fails_with(r, local_action_problem(old(self).deep_view(), old(service)@)),
            final(service)@ == service_after_action(
                old(self).deep_view(),
                old(service)@,
                RuntimePartitionWorkerActionKind::TickMany(steps),
            ),
            final(self).deep_view() == session_after_action(
                old(self).deep_view(),
                old(service)@,
                RuntimePartitionWorkerActionKind::TickMany(steps),
            ),
            r matches Ok(action) ==> action.deep_view() == local_action_report(
                old(self).deep_view(),
                old(service)@,
                RuntimePartitionWorkerActionKind::TickMany(steps),
            ),
    {
        self.tick_many_local(steps, service)
    }

    /// Runs a script.
    pub fn run_loopback_script<S: RuntimePartitionTelemetrySink>(
        &mut self,
        script: &RuntimePartitionSessionRunScript,
        service: &mut LocalRuntimeWorkerService,
        sink: &mut S,
    ) -> (r: Result<RuntimePartitionSessionRunReport, ErrorReport>)
        requires
            old(service).well_formed(),
            script_problem(script.deep_view()) is None ==> run_fits(
                old(self).deep_view(),
                old(service)@,
                script.deep_view(),
            ),
        ensures
            final(service).well_formed(),
            script_problem(script.deep_view()) is Some ==> {
                &&& fails_with(r, script_problem(script.deep_view()))
                &&& final(self).deep_view() == old(self).deep_view()
                &&& final(service)@ == old(service)@
                &&& final(sink).emitted() == old(sink).emitted()
                &&& final(sink).answers() == old(sink).answers()
            },
            r matches Ok(run) ==> {
                let session = old(self).deep_view();
                let state = old(service)@;
                let s = script.deep_view();
                &&& forall|i: int|
                    0 <= i < s.actions.len() ==> (#[trigger] step_problem(
                        session,
                        state,
                        s.actions,
                        i,
                    )) is None
                &&& run.deep_view() == run_report(session, state, s)
                &&& final(self).deep_view() == run_session(
                    session,
                    state,
                    s.actions,
                    s.actions.len(),
                )
                &&& final(service)@ == run_service(session, state, s.actions, s.actions.len())
                &&& final(sink).emitted() == old(sink).emitted() + all_emissions(session, state, s)
                &&& final(sink).answers() == old(sink).answers() + taken(
                    all_emissions(session, state, s).len(),
                )
            },
            r is Err && script_problem(script.deep_view()) is None ==> run_ends(
                    old(self).deep_view(),
                    old(service)@,
                    script.deep_view(),
                    r->Err_0.deep_view(),
                    final(self).deep_view(),
                    final(service)@,
                    old(sink).emitted(),
                    final(sink).emitted(),
                    old(sink).answers(),
                    final(sink).answers(),
                ),
            script_problem(script.deep_view()) is None && (forall|i: int|
                0 <= i < script.deep_view().actions.len() ==> (#[trigger] step_problem(
                    old(self).deep_view(),
                    old(service)@,
                    script.deep_view().actions,
                    i,
                )) is None) && took_all(old(sink).answers(), final(sink).answers()) ==> r is Ok,
    {
        self.run_local_script(script, service, sink)
    }

    /// Leaves a payload with the worker that produces it.
    pub fn publish_route_outbound_loopback(
        &mut self,
        worker_id: &str,
        payload: RuntimePartitionRoutePayload,
        service: &mut LocalRuntimeWorkerService,
    ) -> (r: Result<RuntimePartitionRouteMailboxReport, ErrorReport>)
        requires
            old(service).well_formed(),
        ensures
            final(service).well_formed(),
            fails_with(r, store_outbound_problem(old(service)@, worker_id@, payload.deep_view())),
            r is Err ==> final(service)@ == old(service)@ && final(self).deep_view()
                == old(self).deep_view(),
            r matches Ok(mailbox) ==> {
                let state = worker_storing(
                    old(service)@.partition_workers[worker_id@],
                    payload.deep_view(),
                );
                &&& mailbox.deep_view() == worker_mailbox(worker_id@, state)
                &&& final(service)@ == with_worker(old(service)@, worker_id@, state)
                &&& final(self).deep_view() == with_mailbox(
                    old(self).deep_view(),
                    mailbox.deep_view(),
                )
            },
    {
        self.publish_route_outbound_local(worker_id, payload, service)
    }

    /// Leaves a payload with the worker that consumes it.
    pub fn deliver_route_inbound_loopback(
        &mut self,
        worker_id: &str,
        payload: RuntimePartitionRoutePayload,
        service: &mut LocalRuntimeWorkerService,
    ) -> (r: Result<RuntimePartitionRouteMailboxReport, ErrorReport>)
        requires
            old(service).well_formed(),
        ensures
            final(service).well_formed(),
            fails_with(r, deliver_inbound_problem(old(service)@, worker_id@, payload.deep_view())),
            r is Err ==> final(service)@ == old(service)@ && final(self).deep_view()
                == old(self).deep_view(),
            r matches Ok(mailbox) ==> {
                let state = worker_receiving(
                    old(service)@.partition_workers[worker_id@],
                    payload.deep_view(),
                );
                &&& mailbox.deep_view() == worker_mailbox(worker_id@, state)
                &&& final(service)@ == with_worker(old(service)@, worker_id@, state)
                &&& final(self).deep_view() == with_mailbox(
                    old(self).deep_view(),
                    mailbox.deep_view(),
                )
            },
    {
        self.deliver_route_inbound_local(worker_id, payload, service)
    }

    /// Asks all workers what they hold for their routes.
    pub fn collect_route_mailboxes_loopback(&mut self, service: &mut LocalRuntimeWorkerService) -> (r:
        Result<Vec<RuntimePartitionRouteMailboxReport>, ErrorReport>)
        requires
            old(service).well_formed(),
        ensures
            final(service).well_formed(),
            fails_with(r, mailboxes_problem(old(self).deep_view(), old(service)@)),
            final(service)@ == old(service)@,
            final(self).deep_view() == mailboxes_read(
                old(self).deep_view(),
                old(service)@,
                steppable(old(service)@, old(self).deep_view().launch.workers),
            ),
            r matches Ok(mailboxes) ==> mailboxes.deep_view() == Seq::new(
                old(self).deep_view().launch.workers.len(),
                |i: int|
                    worker_mailbox(
                        old(self).deep_view().launch.workers[i].worker_id,
                        old(service)@.partition_workers[old(
                            self,
                        ).deep_view().launch.workers[i].worker_id],
                    ),
            ),
    {
        self.collect_route_mailboxes_local(service)
    }

    /// Lets all workers drop what they hold for their routes.
    pub fn clear_route_mailboxes_loopback(&mut self, service: &mut LocalRuntimeWorkerService) -> (r:
        Result<Vec<RuntimePartitionRouteMailboxReport>, ErrorReport>)
        requires
            old(service).well_formed(),
        ensures
            final(service).well_formed(),
            fails_with(r, mailboxes_problem(old(self).deep_view(), old(service)@)),
            final(service)@ == mailboxes_cleared(
                old(service)@,
                old(self).deep_view().launch.workers,
                steppable(old(service)@, old(self).deep_view().launch.workers),
            ),
            final(self).deep_view() == clears_read(
                old(self).deep_view(),
                old(service)@,
                steppable(old(service)@, old(self).deep_view().launch.workers),
            ),
            r matches Ok(mailboxes) ==> mailboxes.deep_view() == Seq::new(
                old(self).deep_view().launch.workers.len(),
                |i: int|
                    worker_mailbox(
                        old(self).deep_view().launch.workers[i].worker_id,
                        worker_cleared(
                            old(service)@.partition_workers[old(
                                self,
                            ).deep_view().launch.workers[i].worker_id],
                        ),
                    ),
            ),
    {
        self.clear_route_mailboxes_local(service)
    }

    /// Carries a payload from the producer of a route to its consumer.
    pub fn transfer_route_loopback(
        &mut self,
        route_index: usize,
        limbs: Vec<u32>,
        service: &mut LocalRuntimeWorkerService,
    ) -> (r: Result<RuntimePartitionRouteTransferReport, ErrorReport>)
        requires
            old(service).well_formed(),
        ensures
            final(service).well_formed(),
            fails_with(
                r,
                transfer_problem(old(self).deep_view(), old(service)@, route_index, limbs@),
            ),
            final(service)@ == service_after_transfer(
                old(self).deep_view(),
                old(service)@,
                route_index,
                limbs@,
            ),
            final(self).deep_view() == session_after_transfer(
                old(self).deep_view(),
                old(service)@,
                route_index,
                limbs@,
            ),
            r matches Ok(transfer) ==> {
                let route = session_route(old(self).deep_view(), route_index);
                let payload = route_payload(route, route_index, limbs@);
                transfer.deep_view() == transfer_report(
                    old(self).deep_view(),
                    route,
                    producer_mailbox(old(service)@, route, payload),
                    consumer_mailbox(old(service)@, route, payload),
                )
            },
    {
        self.transfer_route_local(route_index, limbs, service)
    }
}

} // verus!

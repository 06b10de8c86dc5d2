//! Sessions: a deployed launch plan, what its workers did and what lies in their
//! mailboxes.

use vstd::prelude::*;

use crate::collect::{build_items, lemma_sum_below_grows, sum_below};
use crate::deployment::{
    deployed, deployment_launch_problem, deployment_report, deployable,
    deploy_runtime_partition_launch_local, local_deployment_problem,
};
use crate::error::{fails_with, ErrorReport};
use crate::model::launch::{RuntimePartitionLaunchPlan, RuntimePartitionLaunchPlanView};
use crate::model::runtime::RuntimeOperationStats;
use crate::model::session::{
    RuntimePartitionDeploymentReport, RuntimePartitionDeploymentReportView,
    RuntimePartitionRouteMailboxReport, RuntimePartitionRouteMailboxReportView,
    RuntimePartitionSessionActionReport, RuntimePartitionSessionActionReportView,
    RuntimePartitionSessionActionSummary, RuntimePartitionSessionActionSummaryView,
    RuntimePartitionSessionHealth, RuntimePartitionSessionHealthView,
    RuntimePartitionSessionTelemetry, RuntimePartitionSessionTelemetryView,
    RuntimePartitionWorkerHealthView, RUNTIME_PARTITION_SESSION_TELEMETRY_FORMAT_VERSION,
};
use crate::model::surrogate::{
    EventRuntimePlan, GemmRuntimePlan, RuntimeSurrogateAttachment, RuntimeSurrogateAttachmentView,
    RuntimeSurrogateExecutionReport, RuntimeSurrogateExecutionReportView,
};
use crate::model::topology::RuntimeTopology;
use crate::operations::{
    add_operation_stats, no_operations, partition_action_kind, partition_surrogate_action_kind,
    stats_add, stats_sum,
};
use crate::seqs::{count_if, lemma_count_if_take, no_items};
use crate::service::LocalRuntimeWorkerService;
use crate::surrogate::{
    attachment_of, event_items, event_lanes_fit, event_plan_problem, gemm_items, gemm_lanes_fit,
    gemm_plan_problem,
};
use crate::surrogate_report::execution_report;
use crate::topology::{shards_of, total_lanes};

verus! {

/// A deployed launch plan.
#[derive(Debug, PartialEq, Eq)]
pub struct RuntimePartitionSession {
    pub launch: RuntimePartitionLaunchPlan,
    pub deployment: RuntimePartitionDeploymentReport,
    pub route_mailboxes: Vec<RuntimePartitionRouteMailboxReport>,
    pub actions: Vec<RuntimePartitionSessionActionReport>,
    pub surrogate_attachment: Option<RuntimeSurrogateAttachment>,
}

/// The model of [`RuntimePartitionSession`].
#[verifier::ext_equal]
pub struct RuntimePartitionSessionView {
    pub launch: RuntimePartitionLaunchPlanView,
    pub deployment: RuntimePartitionDeploymentReportView,
    pub route_mailboxes: Seq<RuntimePartitionRouteMailboxReportView>,
    pub actions: Seq<RuntimePartitionSessionActionReportView>,
    pub surrogate_attachment: Option<RuntimeSurrogateAttachmentView>,
}

impl DeepView for RuntimePartitionSession {
    type V = RuntimePartitionSessionView;

    open spec fn deep_view(&self) -> RuntimePartitionSessionView {
        RuntimePartitionSessionView {
            launch: self.launch.deep_view(),
            deployment: self.deployment.deep_view(),
            route_mailboxes: self.route_mailboxes.deep_view(),
            actions: self.actions.deep_view(),
            surrogate_attachment: self.surrogate_attachment.deep_view(),
        }
    }
}

// ---------------------------------------------------------------------------
// Starting a session
// ---------------------------------------------------------------------------

/// The mailboxes of a session before anything was sent.
pub open spec fn initial_mailboxes(
    launch: RuntimePartitionLaunchPlanView,
    deployment: RuntimePartitionDeploymentReportView,
) -> Seq<RuntimePartitionRouteMailboxReportView> {
    Seq::new(
        launch.workers.len(),
        |i: int|
            RuntimePartitionRouteMailboxReportView {
                worker_id: launch.workers[i].worker_id,
                outbound_payload_count: 0,
                inbound_payload_count: 0,
                outbound_routes: launch.workers[i].outbound_routes,
                inbound_routes: launch.workers[i].inbound_routes,
                diagnostics: deployment.diagnostics,
            },
    )
}

/// A session that has just been deployed.
pub open spec fn started_session(
    launch: RuntimePartitionLaunchPlanView,
    deployment: RuntimePartitionDeploymentReportView,
) -> RuntimePartitionSessionView {
    RuntimePartitionSessionView {
        launch,
        deployment,
        route_mailboxes: initial_mailboxes(launch, deployment),
        actions: seq![],
        surrogate_attachment: None,
    }
}

fn runtime_partition_initial_mailboxes(
    launch: &RuntimePartitionLaunchPlan,
    deployment: &RuntimePartitionDeploymentReport,
) -> (r: Vec<RuntimePartitionRouteMailboxReport>)
    ensures
        r.deep_view() == initial_mailboxes(launch.deep_view(), deployment.deep_view()),
{
    let ghost l = launch.deep_view();
    let ghost d = deployment.deep_view();
    let ghost g = |i: int|
        RuntimePartitionRouteMailboxReportView {
            worker_id: l.workers[i].worker_id,
            outbound_payload_count: 0,
            inbound_payload_count: 0,
            outbound_routes: l.workers[i].outbound_routes,
            inbound_routes: l.workers[i].inbound_routes,
            diagnostics: d.diagnostics,
        };
    build_items(
        launch.workers.len(),
        |i: usize| -> (y: RuntimePartitionRouteMailboxReport)
            requires
                i < launch.workers@.len(),
                l == launch.deep_view(),
                d == deployment.deep_view(),
            ensures y.deep_view() == g(i as int)
        {
            let worker = &launch.workers[i];
            proof {
                assert(l.workers[i as int] == worker.deep_view());
            }
            let y = RuntimePartitionRouteMailboxReport {
                worker_id: worker.worker_id.clone(),
                outbound_payload_count: 0,
                inbound_payload_count: 0,
                outbound_routes: worker.outbound_routes.clone(),
                inbound_routes: worker.inbound_routes.clone(),
                diagnostics: deployment.diagnostics.clone(),
            };
            proof {
                assert(y.outbound_routes@ =~= worker.outbound_routes@);
                assert(y.inbound_routes@ =~= worker.inbound_routes@);
                assert(y.diagnostics.deep_view() =~= deployment.diagnostics.deep_view());
            }
            y
        },
        Ghost(g),
    )
}

impl RuntimePartitionSession {
    /// Starts a session from a launch plan and the report of its deployment.
    pub fn from_deployment(
        launch: RuntimePartitionLaunchPlan,
        deployment: RuntimePartitionDeploymentReport,
    ) -> (r: Self)
        ensures
            r.deep_view() == started_session(launch.deep_view(), deployment.deep_view()),
    {
        let route_mailboxes = runtime_partition_initial_mailboxes(&launch, &deployment);
        RuntimePartitionSession {
            launch,
            deployment,
            route_mailboxes,
            actions: no_items(),
            surrogate_attachment: None,
        }
    }

    /// Deploys a launch plan to a worker in this process and starts a session.
    pub fn deploy_local(
        launch: RuntimePartitionLaunchPlan,
        service: &mut LocalRuntimeWorkerService,
    ) -> (r: Result<Self, ErrorReport>)
        requires
            old(service).well_formed(),
        ensures
            final(service).well_formed(),
            fails_with(r, local_deployment_problem(launch.deep_view(), old(service)@)),
            final(service)@ == if deployment_launch_problem(launch.deep_view()) is Some {
                old(service)@
            } else {
                deployed(
                    old(service)@,
                    launch.deep_view().workers,
                    deployable(old(service)@, launch.deep_view().workers),
                )
            },
            r matches Ok(session) ==> session.deep_view() == started_session(
                launch.deep_view(),
                deployment_report(launch.deep_view()),
            ),
    {
        let deployment = deploy_runtime_partition_launch_local(&launch, service)?;
        Ok(Self::from_deployment(launch, deployment))
    }

    /// The launch plan.
    pub fn launch(&self) -> (r: &RuntimePartitionLaunchPlan)
        ensures
            r.deep_view() == self.deep_view().launch,
    {
        &self.launch
    }

    /// The report of the deployment.
    pub fn deployment(&self) -> (r: &RuntimePartitionDeploymentReport)
        ensures
            r.deep_view() == self.deep_view().deployment,
    {
        &self.deployment
    }

    /// The mailboxes, as the workers last reported them.
    pub fn route_mailboxes(&self) -> (r: &Vec<RuntimePartitionRouteMailboxReport>)
        ensures
            r.deep_view() == self.deep_view().route_mailboxes,
    {
        &self.route_mailboxes
    }

    /// The steps so far.
    pub fn actions(&self) -> (r: &Vec<RuntimePartitionSessionActionReport>)
        ensures
            r.deep_view() == self.deep_view().actions,
    {
        &self.actions
    }

    /// The latest step.
    pub fn latest_action(&self) -> (r: Option<&RuntimePartitionSessionActionReport>)
        ensures
            match r {
                Some(action) => self.deep_view().actions.len() > 0 && action.deep_view()
                    == self.deep_view().actions.last(),
                None => self.deep_view().actions.len() == 0,
            },
    {
        proof {
            assert(self.deep_view().actions.len() == self.actions@.len());
        }
        if self.actions.len() == 0 {
            None
        } else {
            let last: usize = self.actions.len() - 1;
            proof {
                assert(self.deep_view().actions.last() == self.actions@[last as int].deep_view());
            }
            Some(&self.actions[last])
        }
    }

    /// Forgets the steps so far.
    pub fn clear_actions(&mut self)
        ensures
            final(self).deep_view() == (RuntimePartitionSessionView {
                actions: seq![],
                ..old(self).deep_view()
            }),
    {
        self.actions = no_items();
    }

    /// Attaches a GEMM plan to the shards of a topology.
    pub fn attach_surrogate_plan(&mut self, topology: &RuntimeTopology, plan: &GemmRuntimePlan) -> (r:
        Result<(), ErrorReport>)
        requires
            total_lanes(topology.deep_view().workers) <= usize::MAX,
            gemm_lanes_fit(shards_of(topology.deep_view().workers), *plan),
        ensures
            fails_with(r, gemm_plan_problem(shards_of(topology.deep_view().workers), *plan)),
            r is Err ==> final(self).deep_view() == old(self).deep_view(),
            r is Ok ==> final(self).deep_view() == (RuntimePartitionSessionView {
                surrogate_attachment: Some(
                    attachment_of(
                        plan.schema@,
                        shards_of(topology.deep_view().workers),
                        gemm_items(*plan),
                    ),
                ),
                ..old(self).deep_view()
            }),
    {
        let attachment = topology.attach_gemm_runtime_plan(plan)?;
        self.surrogate_attachment = Some(attachment);
        Ok(())
    }

    /// Attaches an event plan to the shards of a topology.
    pub fn attach_event_surrogate_plan(
        &mut self,
        topology: &RuntimeTopology,
        plan: &EventRuntimePlan,
    ) -> (r: Result<(), ErrorReport>)
        requires
            total_lanes(topology.deep_view().workers) <= usize::MAX,
            event_lanes_fit(shards_of(topology.deep_view().workers), *plan),
        ensures
            fails_with(r, event_plan_problem(shards_of(topology.deep_view().workers), *plan)),
            r is Err ==> final(self).deep_view() == old(self).deep_view(),
            r is Ok ==> final(self).deep_view() == (RuntimePartitionSessionView {
                surrogate_attachment: Some(
                    attachment_of(
                        plan.schema@,
                        shards_of(topology.deep_view().workers),
                        event_items(*plan),
                    ),
                ),
                ..old(self).deep_view()
            }),
    {
        let attachment = topology.attach_event_runtime_plan(plan)?;
        self.surrogate_attachment = Some(attachment);
        Ok(())
    }

    /// The attached plan.
    pub fn surrogate_attachment(&self) -> (r: Option<&RuntimeSurrogateAttachment>)
        ensures
            match r {
                Some(a) => self.deep_view().surrogate_attachment == Some(a.deep_view()),
                None => self.deep_view().surrogate_attachment is None,
            },
    {
        match &self.surrogate_attachment {
            Some(a) => Some(a),
            None => None,
        }
    }

    /// What is reported of the attached plan after the steps so far.
    pub fn surrogate_execution(&self) -> (r: Option<RuntimeSurrogateExecutionReport>)
        ensures
            r.deep_view() == session_execution(self.deep_view()),
    {
        proof {
            assert(self.deep_view().actions.len() == self.actions@.len());
        }
        match &self.surrogate_attachment {
            None => None,
            Some(attachment) => {
                let kind = match self.latest_action() {
                    Some(action) => Some(partition_surrogate_action_kind(action.kind)),
                    None => None,
                };
                Some(
                    RuntimeSurrogateExecutionReport::from_attachment(
                        attachment,
                        kind,
                        self.actions.len() as u64,
                    ),
                )
            },
        }
    }
}

/// What is reported of the attached plan of a session.
pub open spec fn session_execution(session: RuntimePartitionSessionView) -> Option<
    RuntimeSurrogateExecutionReportView,
> {
    match session.surrogate_attachment {
        None => None,
        Some(attachment) => Some(
            execution_report(
                attachment,
                if session.actions.len() > 0 {
                    Some(partition_action_kind(session.actions.last().kind))
                } else {
                    None
                },
                session.actions.len() as u64,
            ),
        ),
    }
}

// ---------------------------------------------------------------------------
// Health and summary
// ---------------------------------------------------------------------------

/// Which workers are initialized.
pub open spec fn is_initialized() -> spec_fn(RuntimePartitionWorkerHealthView) -> bool {
    |w: RuntimePartitionWorkerHealthView| w.initialized
}

/// The number of partitions of all workers.
pub open spec fn deployed_partitions(workers: Seq<RuntimePartitionWorkerHealthView>) -> int {
    sum_below(workers.len(), |k: int| workers[k].partitions.len() as int)
}

/// The health of a session: it is ready if every worker of the plan is
/// initialized.
pub open spec fn session_health(
    launch: RuntimePartitionLaunchPlanView,
    deployment: RuntimePartitionDeploymentReportView,
) -> RuntimePartitionSessionHealthView {
    let initialized = count_if(deployment.workers, is_initialized());
    RuntimePartitionSessionHealthView {
        module_name: launch.module_name,
        ready: initialized == launch.workers.len(),
        worker_count: launch.workers.len() as usize,
        initialized_worker_count: initialized as usize,
        partition_count: deployed_partitions(deployment.workers) as usize,
        route_count: launch.routes.len() as usize,
        diagnostics: deployment.diagnostics,
        workers: deployment.workers,
    }
}

fn initialized_workers(deployment: &RuntimePartitionDeploymentReport) -> (r: usize)
    ensures
        r == count_if(deployment.deep_view().workers, is_initialized()),
{
    let ghost ws = deployment.deep_view().workers;
    let mut count: usize = 0;
    let mut k: usize = 0;
    proof {
        assert(ws.len() == deployment.workers@.len());
        assert(ws.take(0) =~= Seq::empty());
    }
    while k < deployment.workers.len()
        invariant
            k <= deployment.workers@.len(),
            ws == deployment.workers.deep_view(),
            ws.len() == deployment.workers@.len(),
            count == count_if(ws.take(k as int), is_initialized()),
            count <= k,
        decreases deployment.workers@.len() - k,
    {
        proof {
            assert(ws[k as int] == deployment.workers@[k as int].deep_view());
            lemma_count_if_take(ws, k as int, is_initialized());
        }
        if deployment.workers[k].initialized {
            count = count + 1;
        }
        k = k + 1;
    }
    proof {
        assert(ws.take(k as int) =~= ws);
    }
    count
}

fn partitions_deployed(deployment: &RuntimePartitionDeploymentReport) -> (r: usize)
    requires
        deployed_partitions(deployment.deep_view().workers) <= usize::MAX,
    ensures
        r == deployed_partitions(deployment.deep_view().workers),
{
    let ghost ws = deployment.deep_view().workers;
    let ghost g = |k: int| ws[k].partitions.len() as int;
    let mut total: usize = 0;
    let mut k: usize = 0;
    proof {
        assert(ws.len() == deployment.workers@.len());
    }
    while k < deployment.workers.len()
        invariant
            k <= deployment.workers@.len(),
            ws == deployment.workers.deep_view(),
            ws.len() == deployment.workers@.len(),
            g == (|k: int| ws[k].partitions.len() as int),
            sum_below(ws.len(), g) <= usize::MAX,
            total == sum_below(k as nat, g),
        decreases deployment.workers@.len() - k,
    {
        proof {
            assert(ws[k as int] == deployment.workers@[k as int].deep_view());
            assert(ws[k as int].partitions.len() == deployment.workers@[k as int].partitions@.len());
            lemma_sum_below_grows((k + 1) as nat, ws.len(), g);
        }
        total = total + deployment.workers[k].partitions.len();
        k = k + 1;
    }
    total
}

fn runtime_partition_session_health(
    launch: &RuntimePartitionLaunchPlan,
    deployment: &RuntimePartitionDeploymentReport,
) -> (r: RuntimePartitionSessionHealth)
    requires
        deployed_partitions(deployment.deep_view().workers) <= usize::MAX,
    ensures
        r.deep_view() == session_health(launch.deep_view(), deployment.deep_view()),
{
    let initialized: usize = initialized_workers(deployment);
    let partition_count: usize = partitions_deployed(deployment);
    proof {
        assert(launch.deep_view().workers.len() == launch.workers@.len());
        assert(launch.deep_view().routes.len() == launch.routes@.len());
    }
    let r = RuntimePartitionSessionHealth {
        module_name: launch.module_name.clone(),
        ready: initialized == launch.workers.len(),
        worker_count: launch.workers.len(),
        initialized_worker_count: initialized,
        partition_count,
        route_count: launch.routes.len(),
        diagnostics: deployment.diagnostics.clone(),
        workers: deployment.workers.clone(),
    };
    proof {
        assert(r.diagnostics.deep_view() =~= deployment.diagnostics.deep_view());
        assert(r.workers.deep_view() =~= deployment.workers.deep_view());
    }
    r
}

/// What all steps so far have counted.
pub open spec fn actions_sum(actions: Seq<RuntimePartitionSessionActionReportView>, n: nat) -> RuntimeOperationStats
    decreases n,
{
    if n == 0 {
        no_operations()
    } else {
        stats_sum(actions_sum(actions, (n - 1) as nat), actions[n - 1].operations)
    }
}

/// Whether the counts of all steps can be added.
pub open spec fn actions_fit(actions: Seq<RuntimePartitionSessionActionReportView>) -> bool {
    forall|i: int|
        0 <= i < actions.len() ==> stats_add(
            actions_sum(actions, i as nat),
            (#[trigger] actions[i]).operations,
        )
}

/// The summary of all steps so far.
pub open spec fn session_summary(session: RuntimePartitionSessionView) -> RuntimePartitionSessionActionSummaryView {
    RuntimePartitionSessionActionSummaryView {
        module_name: session.launch.module_name,
        action_count: session.actions.len() as usize,
        latest_action_kind: if session.actions.len() > 0 {
            Some(session.actions.last().kind)
        } else {
            None
        },
        operations: actions_sum(session.actions, session.actions.len()),
        worker_count: session.launch.workers.len() as usize,
        partition_count: deployed_partitions(session.deployment.workers) as usize,
        route_count: session.launch.routes.len() as usize,
        diagnostics: session.deployment.diagnostics,
    }
}

/// Whether all sums over a session fit.
pub open spec fn session_fits(session: RuntimePartitionSessionView) -> bool {
    &&& deployed_partitions(session.deployment.workers) <= usize::MAX
    &&& actions_fit(session.actions)
}

/// The telemetry of a session.
pub open spec fn session_telemetry(session: RuntimePartitionSessionView) -> RuntimePartitionSessionTelemetryView {
    RuntimePartitionSessionTelemetryView {
        format_version: RUNTIME_PARTITION_SESSION_TELEMETRY_FORMAT_VERSION,
        module_name: session.launch.module_name,
        surrogate_attachment: session.surrogate_attachment,
        surrogate_execution: session_execution(session),
        launch: session.launch,
        deployment: session.deployment,
        health: session_health(session.launch, session.deployment),
        action_summary: session_summary(session),
        route_mailboxes: session.route_mailboxes,
        actions: session.actions,
    }
}

impl RuntimePartitionSession {
    /// The health of the session.
    pub fn health(&self) -> (r: RuntimePartitionSessionHealth)
        requires
            deployed_partitions(self.deep_view().deployment.workers) <= usize::MAX,
        ensures
            r.deep_view() == session_health(self.deep_view().launch, self.deep_view().deployment),
    {
        runtime_partition_session_health(&self.launch, &self.deployment)
    }

    /// The summary of all steps so far.
    pub fn action_summary(&self) -> (r: RuntimePartitionSessionActionSummary)
        requires
            session_fits(self.deep_view()),
        ensures
            r.deep_view() == session_summary(self.deep_view()),
    {
        let ghost all = self.deep_view().actions;
        let mut operations = RuntimeOperationStats::default();
        let mut i: usize = 0;
        proof {
            assert(all.len() == self.actions@.len());
        }
        while i < self.actions.len()
            invariant
                i <= self.actions@.len(),
                all == self.actions.deep_view(),
                all.len() == self.actions@.len(),
                actions_fit(all),
                operations == actions_sum(all, i as nat),
            decreases self.actions@.len() - i,
        {
            proof {
                assert(all[i as int] == self.actions@[i as int].deep_view());
            }
            add_operation_stats(&mut operations, self.actions[i].operations);
            i = i + 1;
        }
        let latest_action_kind = match self.latest_action() {
            Some(action) => Some(action.kind),
            None => None,
        };
        let partition_count: usize = partitions_deployed(&self.deployment);
        proof {
            assert(self.launch.deep_view().workers.len() == self.launch.workers@.len());
            assert(self.launch.deep_view().routes.len() == self.launch.routes@.len());
        }
        let diagnostics = self.deployment.diagnostics.clone();
        proof {
            assert(diagnostics.deep_view() =~= self.deployment.diagnostics.deep_view());
        }
        RuntimePartitionSessionActionSummary {
            module_name: self.launch.module_name.clone(),
            action_count: self.actions.len(),
            latest_action_kind,
            operations,
            worker_count: self.launch.workers.len(),
            partition_count,
            route_count: self.launch.routes.len(),
            diagnostics,
        }
    }

    /// The telemetry of the session.
    pub fn telemetry(&self) -> (r: RuntimePartitionSessionTelemetry)
        requires
            session_fits(self.deep_view()),
        ensures
            r.deep_view() == session_telemetry(self.deep_view()),
    {
        let r = RuntimePartitionSessionTelemetry {
            format_version: RUNTIME_PARTITION_SESSION_TELEMETRY_FORMAT_VERSION,
            module_name: self.launch.module_name.clone(),
            surrogate_attachment: self.surrogate_attachment.clone(),
            surrogate_execution: self.surrogate_execution(),
            launch: self.launch.clone(),
            deployment: self.deployment.clone(),
            health: self.health(),
            action_summary: self.action_summary(),
            route_mailboxes: self.route_mailboxes.clone(),
            actions: self.actions.clone(),
        };
        proof {
            assert(r.route_mailboxes.deep_view() =~= self.route_mailboxes.deep_view());
            assert(r.actions.deep_view() =~= self.actions.deep_view());
            assert(r.surrogate_attachment.deep_view() == self.surrogate_attachment.deep_view());
        }
        r
    }
}

} // verus!

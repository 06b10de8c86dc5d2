//! Sessions whose workers answer from elsewhere: what is made of their responses.

use vstd::prelude::*;

use crate::deployment::{deployment_health_problem, validate_partition_deployment_health};
use crate::error::{error, fails_with, report, ErrorReport, ErrorReportView};
use crate::ids::{find_last_named, last_named};
use crate::model::launch::{
    RuntimePartitionLaunchPlan, RuntimePartitionWorkerLaunch, RuntimePartitionWorkerLaunchView,
};
use crate::model::protocol::{RuntimeWorkerResponse, RuntimeWorkerResponseView};
use crate::model::runtime::{RuntimeTcpEndpoint, RuntimeTcpEndpointView};
use crate::model::session::{
    RuntimePartitionDeploymentReport, RuntimePartitionDeploymentReportView,
    RuntimePartitionRouteMailboxReport, RuntimePartitionSessionActionReport,
    RuntimePartitionWorkerActionKind, RuntimePartitionWorkerActionReport,
    RuntimePartitionWorkerActionReportView, RuntimePartitionWorkerHealth,
};
use crate::responses::{
    ack_problem, action_response_problem, expect_ack, expect_partition_route_mailbox,
    expect_partition_worker_action, expect_partition_worker_health, health_response_problem,
    mailbox_response_problem,
};
use crate::seqs::{
    first_problem, lemma_first_problem_stays, no_items, or_problem, push_item, take_first,
};
use crate::session::{deployed_partitions, RuntimePartitionSession, RuntimePartitionSessionView};
use crate::session_actions::{
    ready_problem, reports_fit, session_action_report, validate_partition_session_ready,
    with_action,
};
use crate::session_routes::with_mailbox;

verus! {

// ---------------------------------------------------------------------------
// Deployment
// ---------------------------------------------------------------------------

/// That a worker of a session has no endpoint.
pub open spec fn session_endpoint_problem(
    endpoints: Seq<RuntimeTcpEndpointView>,
    worker: Seq<char>,
) -> Option<ErrorReportView> {
    if last_named::<RuntimeTcpEndpoint>(endpoints, worker) is None {
        Some(
            report(
                "E_RUNTIME_PARTITION_DEPLOY_ENDPOINT"@,
                "missing TCP endpoint for partition worker `"@ + worker + "`"@,
            ),
        )
    } else {
        None
    }
}

/// Finds where a worker of a session is reached.
pub fn partition_session_worker_endpoint(
    worker_id: &str,
    endpoints: &Vec<RuntimeTcpEndpoint>,
) -> (r: Result<String, ErrorReport>)
    ensures
        fails_with(r, session_endpoint_problem(endpoints.deep_view(), worker_id@)),
        r matches Ok(addr) ==> addr@ == endpoints.deep_view()[last_named::<RuntimeTcpEndpoint>(
            endpoints.deep_view(),
            worker_id@,
        )->0].addr,
{
    match find_last_named(endpoints, worker_id) {
        Some(k) => {
            proof {
                assert(endpoints.deep_view()[k as int] == endpoints@[k as int].deep_view());
            }
            Ok(endpoints[k].addr.clone())
        },
        None => {
            let mut message = "missing TCP endpoint for partition worker `".to_owned();
            message.append(worker_id);
            message.append("`");
            Err(error("E_RUNTIME_PARTITION_DEPLOY_ENDPOINT", message.as_str()))
        },
    }
}

/// What is wrong with the responses of a worker that was deployed: first to its initialization,
/// then to the question how it is.
pub open spec fn deployed_worker_problem(
    worker: RuntimePartitionWorkerLaunchView,
    init: RuntimeWorkerResponseView,
    health: RuntimeWorkerResponseView,
) -> Option<ErrorReportView> {
    or_problem(
        ack_problem(init),
        or_problem(
            health_response_problem(worker.worker_id, health),
            deployment_health_problem(worker, health->PartitionWorkerHealth_0),
        ),
    )
}

/// Takes over the responses of a worker that was deployed.
pub fn deploy_runtime_partition_worker(
    worker: &RuntimePartitionWorkerLaunch,
    init: RuntimeWorkerResponse,
    health: RuntimeWorkerResponse,
) -> (r: Result<RuntimePartitionWorkerHealth, ErrorReport>)
    ensures
        fails_with(
            r,
            deployed_worker_problem(worker.deep_view(), init.deep_view(), health.deep_view()),
        ),
        r matches Ok(found) ==> health.deep_view()
            == RuntimeWorkerResponseView::PartitionWorkerHealth(found.deep_view()),
{
    expect_ack(init)?;
    let found = expect_partition_worker_health(worker.worker_id.as_str(), health)?;
    validate_partition_deployment_health(worker, &found)?;
    Ok(found)
}

/// Reports a deployment of which all workers are known.
pub fn report_deployment(
    launch: &RuntimePartitionLaunchPlan,
    workers: Vec<RuntimePartitionWorkerHealth>,
) -> (r: RuntimePartitionDeploymentReport)
    ensures
        r.deep_view() == (RuntimePartitionDeploymentReportView {
            module_name: launch.deep_view().module_name,
            workers: workers.deep_view(),
            diagnostics: launch.deep_view().diagnostics,
        }),
{
    let diagnostics = launch.diagnostics.clone();
    proof {
        assert(diagnostics.deep_view() =~= launch.diagnostics.deep_view());
    }
    RuntimePartitionDeploymentReport {
        module_name: launch.module_name.clone(),
        workers,
        diagnostics,
    }
}

// ---------------------------------------------------------------------------
// Steps
// ---------------------------------------------------------------------------

/// What is wrong with the response of worker `i` to a step.
pub open spec fn step_response_problem(
    workers: Seq<RuntimePartitionWorkerLaunchView>,
    kind: RuntimePartitionWorkerActionKind,
    responses: Seq<RuntimeWorkerResponseView>,
) -> spec_fn(int) -> Option<ErrorReportView> {
    |i: int| action_response_problem(workers[i].worker_id, kind, responses[i])
}

/// What the workers report in their responses to a step.
pub open spec fn step_reports(responses: Seq<RuntimeWorkerResponseView>) -> Seq<
    RuntimePartitionWorkerActionReportView,
> {
    Seq::new(responses.len(), |i: int| responses[i]->PartitionWorkerAction_0)
}

/// What is wrong with a step to which workers elsewhere responded.
pub open spec fn client_action_problem(
    session: RuntimePartitionSessionView,
    kind: RuntimePartitionWorkerActionKind,
    responses: Seq<RuntimeWorkerResponseView>,
) -> Option<ErrorReportView> {
    or_problem(
        ready_problem(session),
        first_problem(
            session.launch.workers.len(),
            step_response_problem(session.launch.workers, kind, responses),
        ),
    )
}

impl RuntimePartitionSession {
    /// Records a step to which all workers, in the order of the plan, responded.
    pub fn run_client_action(
        &mut self,
        kind: RuntimePartitionWorkerActionKind,
        responses: Vec<RuntimeWorkerResponse>,
    ) -> (r: Result<RuntimePartitionSessionActionReport, ErrorReport>)
        requires
            responses@.len() == old(self).launch.workers@.len(),
            deployed_partitions(old(self).deep_view().deployment.workers) <= usize::MAX,
            client_action_problem(old(self).deep_view(), kind, responses.deep_view()) is None
                ==> reports_fit(step_reports(responses.deep_view())),
        ensures
            fails_with(
                r,
                client_action_problem(old(self).deep_view(), kind, responses.deep_view()),
            ),
            r matches Ok(action) ==> {
                &&& action.deep_view() == session_action_report(
                    old(self).deep_view(),
                    kind,
                    step_reports(responses.deep_view()),
                )
                &&& final(self).deep_view() == with_action(
                    old(self).deep_view(),
                    action.deep_view(),
                )
            },
            r is Err ==> final(self).deep_view() == old(self).deep_view(),
    {
        validate_partition_session_ready(self)?;
        let ghost session = self.deep_view();
        let ghost ws = session.launch.workers;
        let ghost rs = responses.deep_view();
        let ghost check = step_response_problem(ws, kind, rs);
        let ghost all = step_reports(rs);
        let n: usize = responses.len();
        let mut rest = responses;
        let mut workers: Vec<RuntimePartitionWorkerActionReport> = no_items();
        let mut i: usize = 0;
        proof {
            assert(ws.len() == self.launch.workers@.len());
            assert(rs.len() == n);
            assert(rest.deep_view() =~= rs.skip(0));
            assert(all.take(0) =~= Seq::empty());
        }
        while i < n
            invariant
                i <= n,
                *self == *old(self),
                session == self.deep_view(),
                ws == session.launch.workers,
                ws.len() == self.launch.workers@.len(),
                n == ws.len(),
                n == rs.len(),
                rs == responses.deep_view(),
                check == step_response_problem(ws, kind, rs),
                all == step_reports(rs),
                ready_problem(session) is None,
                rest@.len() == n - i,
                rest.deep_view() == rs.skip(i as int),
                first_problem(i as nat, check) is None,
                workers.deep_view() == all.take(i as int),
            decreases n - i,
        {
            let response = take_first(&mut rest);
            proof {
                assert(rs.skip(i as int).skip(1) =~= rs.skip(i + 1));
                assert(ws[i as int] == self.launch.workers@[i as int].deep_view());
                assert(all.take(i + 1) =~= all.take(i as int).push(all[i as int]));
            }
            let worker_id = self.launch.workers[i].worker_id.as_str();
            match expect_partition_worker_action(worker_id, kind, response) {
                Ok(found) => push_item(&mut workers, found),
                Err(e) => {
                    proof {
                        lemma_first_problem_stays((i + 1) as nat, n as nat, check);
                    }
                    return Err(e);
                },
            }
            i = i + 1;
        }
        proof {
            assert(all.take(i as int) =~= all);
        }
        Ok(self.record_action_report(kind, workers))
    }

    /// Records the mailboxes that a worker responded with.
    pub fn take_mailbox_response(&mut self, worker_id: &str, response: RuntimeWorkerResponse) -> (r:
        Result<RuntimePartitionRouteMailboxReport, ErrorReport>)
        ensures
            fails_with(r, mailbox_response_problem(worker_id@, response.deep_view())),
            r matches Ok(found) ==> {
                &&& response.deep_view() == RuntimeWorkerResponseView::PartitionRouteMailbox(
                    found.deep_view(),
                )
                &&& final(self).deep_view() == with_mailbox(
                    old(self).deep_view(),
                    found.deep_view(),
                )
            },
            r is Err ==> final(self).deep_view() == old(self).deep_view(),
    {
        let found = expect_partition_route_mailbox(worker_id, response)?;
        self.record_route_mailbox(found.clone());
        Ok(found)
    }
}

} // verus!

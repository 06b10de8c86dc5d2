//! What requests and steps keep, across workers and over time.

use vstd::prelude::*;

use crate::deployment::{
    deployed, deployment_report, lemma_deployed_worker, local_deployment_problem,
    repeated_launch_problem,
};
use crate::ids::{lemma_distinct_names, repeats_name};
use crate::model::launch::{RuntimePartitionLaunchPlanView, RuntimePartitionWorkerLaunch};
use crate::model::protocol::RuntimeWorkerRequest;
use crate::model::session::{
    RuntimePartitionRoutePayloadView, RuntimePartitionWorkerActionKind,
    RuntimePartitionWorkerHealthView,
};
use crate::seqs::{count_if, lemma_count_if_take, lemma_first_index, lemma_first_problem_none};
use crate::service::{
    request_next, worker_cleared, worker_mailbox, worker_receiving, worker_storing,
    LocalRuntimeWorkerServiceView, RuntimePartitionWorkerStateView,
};
use crate::session::{is_initialized, started_session, RuntimePartitionSessionView};
use crate::session_actions::{
    is_absent, lemma_acted, local_action_problem, service_after_action, session_after_action,
};
use crate::session_routes::{route_payload, service_after_transfer, session_route, transfer_problem};
use crate::session_script::{run_service, run_session, step_problem};

verus! {

// ---------------------------------------------------------------------------
// Requests
// ---------------------------------------------------------------------------

/// The worker that a request is meant for.
pub open spec fn addressee(request: RuntimeWorkerRequest) -> Seq<char> {
    match request {
        RuntimeWorkerRequest::InitShard(init) => init.shard.worker_id@,
        RuntimeWorkerRequest::InitPartitionWorker(init) => init.worker_id@,
        RuntimeWorkerRequest::RunPartitionWorkerAction(action) => action.worker_id@,
        RuntimeWorkerRequest::StorePartitionRouteOutbound { worker_id, .. } => worker_id@,
        RuntimeWorkerRequest::DeliverPartitionRouteInbound { worker_id, .. } => worker_id@,
        RuntimeWorkerRequest::PartitionRouteMailbox { worker_id } => worker_id@,
        RuntimeWorkerRequest::ClearPartitionRouteMailboxes { worker_id } => worker_id@,
        RuntimeWorkerRequest::Health { worker_id } => worker_id@,
        RuntimeWorkerRequest::PartitionWorkerHealth { worker_id } => worker_id@,
        RuntimeWorkerRequest::SetInput { worker_id, .. } => worker_id@,
        RuntimeWorkerRequest::SetInputLimbs { worker_id, .. } => worker_id@,
        RuntimeWorkerRequest::SetMemoryLimbs { worker_id, .. } => worker_id@,
        RuntimeWorkerRequest::EvalCombinational { worker_id } => worker_id@,
        RuntimeWorkerRequest::Tick { worker_id } => worker_id@,
        RuntimeWorkerRequest::TickMany { worker_id, .. } => worker_id@,
        RuntimeWorkerRequest::GetSignalLimbs { worker_id, .. } => worker_id@,
        RuntimeWorkerRequest::GetMemoryLimbs { worker_id, .. } => worker_id@,
        RuntimeWorkerRequest::Snapshot { worker_id } => worker_id@,
        RuntimeWorkerRequest::RestoreSnapshot { worker_id, .. } => worker_id@,
        RuntimeWorkerRequest::Stats { worker_id } => worker_id@,
        RuntimeWorkerRequest::ResetStats { worker_id } => worker_id@,
    }
}

/// A request leaves all workers but the one that it is meant for as they were.
pub proof fn lemma_request_touches_one_worker(
    service: LocalRuntimeWorkerServiceView,
    request: RuntimeWorkerRequest,
    other: Seq<char>,
)
    requires
        other != addressee(request),
    ensures
        request_next(service, request).partition_workers.dom().contains(other)
            == service.partition_workers.dom().contains(other),
        request_next(service, request).partition_workers[other]
            == service.partition_workers[other],
        request_next(service, request).shards.dom().contains(other)
            == service.shards.dom().contains(other),
        request_next(service, request).shards[other] == service.shards[other],
{
}

/// A payload that is put into a mailbox stays there, and the payloads of other routes and of the
/// other mailbox stay as they were.
pub proof fn lemma_mailbox_keeps_payloads(
    state: RuntimePartitionWorkerStateView,
    payload: RuntimePartitionRoutePayloadView,
    other: usize,
)
    requires
        other != payload.route_index,
    ensures
        worker_storing(state, payload).outbound[payload.route_index] == payload,
        worker_storing(state, payload).outbound.dom().contains(payload.route_index),
        worker_storing(state, payload).outbound.dom().contains(other)
            == state.outbound.dom().contains(other),
        worker_storing(state, payload).outbound[other] == state.outbound[other],
        worker_storing(state, payload).inbound == state.inbound,
        worker_receiving(state, payload).inbound[payload.route_index] == payload,
        worker_receiving(state, payload).inbound.dom().contains(payload.route_index),
        worker_receiving(state, payload).inbound.dom().contains(other)
            == state.inbound.dom().contains(other),
        worker_receiving(state, payload).inbound[other] == state.inbound[other],
        worker_receiving(state, payload).outbound == state.outbound,
{
}

/// Mailboxes that are cleared hold nothing, and the worker keeps its partitions and counters.
pub proof fn lemma_cleared_mailboxes(worker: Seq<char>, state: RuntimePartitionWorkerStateView)
    ensures
        worker_mailbox(worker, worker_cleared(state)).outbound_payload_count == 0,
        worker_mailbox(worker, worker_cleared(state)).inbound_payload_count == 0,
        worker_cleared(state).launch == state.launch,
        worker_cleared(state).operations == state.operations,
{
}

// ---------------------------------------------------------------------------
// Transfers
// ---------------------------------------------------------------------------

/// A transfer leaves its payload with both workers of the route, and all other workers as they
/// were.
pub proof fn lemma_transfer_delivers(
    session: RuntimePartitionSessionView,
    service: LocalRuntimeWorkerServiceView,
    route_index: usize,
    limbs: Seq<u32>,
    other: Seq<char>,
)
    requires
        transfer_problem(session, service, route_index, limbs) is None,
        other != session_route(session, route_index).producer_worker,
        other != session_route(session, route_index).consumer_worker,
    ensures
        ({
            let route = session_route(session, route_index);
            let payload = route_payload(route, route_index, limbs);
            let after = service_after_transfer(session, service, route_index, limbs);
            &&& after.partition_workers[route.producer_worker].outbound[route_index] == payload
            &&& after.partition_workers[route.consumer_worker].inbound[route_index] == payload
            &&& after.partition_workers[other] == service.partition_workers[other]
            &&& after.partition_workers.dom().contains(other)
                == service.partition_workers.dom().contains(other)
            &&& after.shards == service.shards
        }),
{
}

// ---------------------------------------------------------------------------
// Steps of sessions
// ---------------------------------------------------------------------------

proof fn lemma_all_initialized(workers: Seq<RuntimePartitionWorkerHealthView>, n: int)
    requires
        0 <= n <= workers.len(),
        forall|i: int| 0 <= i < workers.len() ==> (#[trigger] workers[i]).initialized,
    ensures
        count_if(workers.take(n), is_initialized()) == n,
    decreases n,
{
    if n > 0 {
        lemma_all_initialized(workers, n - 1);
        lemma_count_if_take(workers, n - 1, is_initialized());
        assert(workers[n - 1].initialized);
    } else {
        assert(workers.take(0) =~= Seq::empty());
    }
}

/// A session can step as soon as its plan is deployed to workers in this process.
pub proof fn lemma_deployed_session_steps(
    launch: RuntimePartitionLaunchPlanView,
    service: LocalRuntimeWorkerServiceView,
)
    requires
        local_deployment_problem(launch, service) is None,
    ensures
        local_action_problem(
            started_session(launch, deployment_report(launch)),
            deployed(service, launch.workers, launch.workers.len()),
        ) is None,
{
    let session = started_session(launch, deployment_report(launch));
    let after = deployed(service, launch.workers, launch.workers.len());
    let ws = deployment_report(launch).workers;
    assert(ws.take(ws.len() as int) =~= ws);
    lemma_all_initialized(ws, ws.len() as int);
    let g = |i: int| repeated_launch_problem(launch.workers, i);
    lemma_first_problem_none(launch.workers.len(), g);
    assert forall|i: int| 0 <= i < launch.workers.len() implies !repeats_name::<
        RuntimePartitionWorkerLaunch,
    >(launch.workers, i) by {
        assert(g(i) is None);
    }
    lemma_distinct_names::<RuntimePartitionWorkerLaunch>(launch.workers);
    let absent = is_absent(after, launch.workers);
    assert forall|i: int| 0 <= i < launch.workers.len() implies !#[trigger] absent(i) by {
        lemma_deployed_worker(service, launch.workers, launch.workers.len(), i);
    }
    lemma_first_index(launch.workers.len(), absent);
    reveal(local_action_problem);
}

/// A session that can step still can after any step.
pub proof fn lemma_steps_stay_possible(
    session: RuntimePartitionSessionView,
    service: LocalRuntimeWorkerServiceView,
    kind: RuntimePartitionWorkerActionKind,
)
    requires
        local_action_problem(session, service) is None,
    ensures
        local_action_problem(
            session_after_action(session, service, kind),
            service_after_action(session, service, kind),
        ) is None,
{
    reveal(local_action_problem);
    reveal(session_after_action);
    reveal(service_after_action);
    let workers = session.launch.workers;
    let absent = is_absent(service, workers);
    lemma_first_index(workers.len(), absent);
    let after = service_after_action(session, service, kind);
    let gone = is_absent(after, workers);
    assert forall|i: int| 0 <= i < workers.len() implies !#[trigger] gone(i) by {
        assert(!absent(i));
        assert forall|j: int| 0 <= j < workers.len() implies !#[trigger] is_absent(
            service,
            workers,
        )(j) by {
            assert(!absent(j));
        }
        lemma_acted(service, workers, kind, workers.len(), workers[i].worker_id);
    }
    lemma_first_index(workers.len(), gone);
}

/// No step of a script fails in a session that can step.
pub proof fn lemma_script_steps(
    session: RuntimePartitionSessionView,
    service: LocalRuntimeWorkerServiceView,
    kinds: Seq<RuntimePartitionWorkerActionKind>,
    c: nat,
)
    requires
        local_action_problem(session, service) is None,
        c <= kinds.len(),
    ensures
        step_problem(session, service, kinds, c as int) is None,
    decreases c,
{
    if c > 0 {
        lemma_script_steps(session, service, kinds, (c - 1) as nat);
        lemma_steps_stay_possible(
            run_session(session, service, kinds, (c - 1) as nat),
            run_service(session, service, kinds, (c - 1) as nat),
            kinds[c - 1],
        );
    }
}

} // verus!

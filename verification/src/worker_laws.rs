//! What workers and sessions owe what they are asked: reports that agree, counts that add up, and
//! mailboxes that hold what was put in.

use vstd::prelude::*;

use crate::collect::lemma_sum_below_grows;
use crate::conservation::lemma_sum_by_index;
use crate::counter_laws::{
    lemma_step_is_counted, lemma_structural_step_is_counted, steps_counted, time_counted,
};
use crate::ids::{distinct_names, first_named, is_named, Named};
use crate::limbs::{has_route_index, limb_count, route_at};
use crate::model::launch::{
    RuntimePartitionLaunchPlanView, RuntimePartitionWorkerLaunch, RuntimePartitionWorkerLaunchView,
};
use crate::model::protocol::{
    RuntimeEngineCall, RuntimeEngineValue, RuntimeWorkerRequest, RuntimeWorkerResponseView,
};
use crate::error::ErrorReport;
use crate::model::session::{
    RuntimePartitionDeploymentReportView, RuntimePartitionRouteMailboxReport, RuntimePartitionRouteMailboxReportView,
    RuntimePartitionRoutePayloadView, RuntimePartitionSessionActionReportView,
    RuntimePartitionWorkerActionKind, RuntimePartitionWorkerHealthView,
};
use crate::operations::{records_one_more, records_partition_action, stats_add, RuntimeShardAction};
use crate::order::lemma_sorted_by_key_contains;
use crate::responses::{
    ack_problem, action_response_problem, health_response_problem, mailbox_response_problem,
};
use crate::seqs::{count_if, lemma_count_if_bound, lemma_first_index, lemma_sum_by_take, sum_by};
use crate::service::{
    reply_next, request_call, request_next, request_problem, request_response, worker_action_report,
    worker_after_action, worker_health, worker_mailbox, worker_receiving, worker_storing,
    LocalRuntimeWorkerServiceView, RuntimePartitionWorkerStateView,
};
use crate::session::{
    actions_fit, actions_sum, is_initialized, session_health, session_summary, session_telemetry,
    started_session, RuntimePartitionSessionView,
};
use crate::session_actions::acted;
use crate::session_routes::{
    mailboxes_cleared, session_route, transfer_report, transfer_route_problem, with_mailbox,
    MailboxOrder,
};

verus! {

// ---------------------------------------------------------------------------
// Requests to shards
// ---------------------------------------------------------------------------

/// Whether a request is about a shard that must be there.
pub open spec fn needs_shard(request: RuntimeWorkerRequest) -> Option<Seq<char>> {
    match request {
        RuntimeWorkerRequest::SetInput { worker_id, .. } => Some(worker_id@),
        RuntimeWorkerRequest::SetInputLimbs { worker_id, .. } => Some(worker_id@),
        RuntimeWorkerRequest::SetMemoryLimbs { worker_id, .. } => Some(worker_id@),
        RuntimeWorkerRequest::EvalCombinational { worker_id } => Some(worker_id@),
        RuntimeWorkerRequest::Tick { worker_id } => Some(worker_id@),
        RuntimeWorkerRequest::TickMany { worker_id, .. } => Some(worker_id@),
        RuntimeWorkerRequest::GetSignalLimbs { worker_id, .. } => Some(worker_id@),
        RuntimeWorkerRequest::GetMemoryLimbs { worker_id, .. } => Some(worker_id@),
        RuntimeWorkerRequest::Snapshot { worker_id } => Some(worker_id@),
        RuntimeWorkerRequest::Stats { worker_id } => Some(worker_id@),
        RuntimeWorkerRequest::ResetStats { worker_id } => Some(worker_id@),
        _ => None,
    }
}

/// Whether a request is about a partition worker that must be there.
pub open spec fn needs_worker(request: RuntimeWorkerRequest) -> Option<Seq<char>> {
    match request {
        RuntimeWorkerRequest::RunPartitionWorkerAction(action) => Some(action.worker_id@),
        RuntimeWorkerRequest::PartitionRouteMailbox { worker_id } => Some(worker_id@),
        RuntimeWorkerRequest::ClearPartitionRouteMailboxes { worker_id } => Some(worker_id@),
        _ => None,
    }
}

/// A request about a shard or a partition worker is done exactly when it is there; health is
/// always told.
pub proof fn lemma_request_needs_its_worker(
    service: LocalRuntimeWorkerServiceView,
    request: RuntimeWorkerRequest,
)
    ensures
        needs_shard(request) matches Some(id) ==> (request_problem(service, request) is None
            <==> service.shards.dom().contains(id)),
        needs_worker(request) matches Some(id) ==> (request_problem(service, request) is None
            <==> service.partition_workers.dom().contains(id)),
        request is Health || request is PartitionWorkerHealth ==> request_problem(service, request)
            is None,
        request matches RuntimeWorkerRequest::InitShard(init) ==> (request_problem(
            service,
            request,
        ) is None <==> init.shard.lanes > 0 && !service.shards.dom().contains(
            init.shard.worker_id@,
        )),
        request matches RuntimeWorkerRequest::InitPartitionWorker(init) ==> (request_problem(
            service,
            request,
        ) is None <==> init.worker_id@ == init.launch.worker_id@
            && !service.partition_workers.dom().contains(init.worker_id@)),
        request matches RuntimeWorkerRequest::RestoreSnapshot { worker_id, snapshot } ==> (
        request_problem(service, request) is None <==> {
            &&& service.shards.dom().contains(worker_id@)
            &&& snapshot.shard.start_lane == service.shards[worker_id@].info.start_lane
            &&& snapshot.shard.lanes == service.shards[worker_id@].info.lanes
        }),
{
}

/// A step of a shard is asked of its engine as it is; it is counted once, with the time that it
/// took, whether it fails or not, and nothing else changes.
pub proof fn lemma_shard_step_is_counted(
    service: LocalRuntimeWorkerServiceView,
    worker_id: String,
    steps: usize,
    action: RuntimeShardAction,
    elapsed_ns: u128,
    reply: Result<RuntimeEngineValue, ErrorReport>,
    other: Seq<char>,
)
    requires
        service.shards.dom().contains(worker_id@),
        records_one_more(service.shards[worker_id@].operations, action, elapsed_ns),
        other != worker_id@,
    ensures
        request_call(RuntimeWorkerRequest::EvalCombinational { worker_id }) == Some(
            RuntimeEngineCall::Execute {
                worker_id,
                action: RuntimeShardAction::EvalCombinational,
            },
        ),
        request_call(RuntimeWorkerRequest::Tick { worker_id }) == Some(
            RuntimeEngineCall::Execute { worker_id, action: RuntimeShardAction::Tick },
        ),
        request_call(RuntimeWorkerRequest::TickMany { worker_id, steps }) == Some(
            RuntimeEngineCall::Execute { worker_id, action: RuntimeShardAction::TickMany(steps) },
        ),
        ({
            let after = reply_next(
                service,
                RuntimeEngineCall::Execute { worker_id, action },
                elapsed_ns,
                reply,
            );
            let before = service.shards[worker_id@];
            &&& after.shards[worker_id@].info == before.info
            &&& steps_counted(after.shards[worker_id@].operations) == steps_counted(
                before.operations,
            ) + 1
            &&& time_counted(after.shards[worker_id@].operations) == time_counted(before.operations)
                + elapsed_ns
            &&& after.shards[other] == service.shards[other]
            &&& after.shards.dom() == service.shards.dom()
            &&& after.partition_workers == service.partition_workers
        }),
{
    lemma_step_is_counted(
        service.shards[worker_id@].operations,
        action,
        elapsed_ns,
    );
    let after = reply_next(
        service,
        RuntimeEngineCall::Execute { worker_id, action },
        elapsed_ns,
        reply,
    );
    assert(after.shards.dom() =~= service.shards.dom());
}

/// Statistics that were reset count nothing, and tell so.
pub proof fn lemma_reset_counts_nothing(service: LocalRuntimeWorkerServiceView, worker_id: String)
    requires
        service.shards.dom().contains(worker_id@),
    ensures
        ({
            let after = request_next(service, RuntimeWorkerRequest::ResetStats { worker_id });
            let told = request_response(after, RuntimeWorkerRequest::Stats { worker_id });
            &&& steps_counted(after.shards[worker_id@].operations) == 0
            &&& time_counted(after.shards[worker_id@].operations) == 0
            &&& after.shards[worker_id@].info == service.shards[worker_id@].info
            &&& told matches Some(RuntimeWorkerResponseView::Stats(stats)) && steps_counted(
                stats.operations,
            ) == 0 && stats.shard == service.shards[worker_id@].info
        }),
{
}

// ---------------------------------------------------------------------------
// Partition workers
// ---------------------------------------------------------------------------

/// What a worker reports of a step agrees with what it reports of its health, and its counters
/// have counted the step.
pub proof fn lemma_action_report_agrees_with_health(
    service: LocalRuntimeWorkerServiceView,
    worker: Seq<char>,
    kind: RuntimePartitionWorkerActionKind,
)
    requires
        service.partition_workers.dom().contains(worker),
        records_partition_action(service.partition_workers[worker].operations, kind),
        service.partition_workers[worker].launch.partitions.len() <= usize::MAX,
        service.partition_workers[worker].launch.outbound_routes.len() <= usize::MAX,
        service.partition_workers[worker].launch.inbound_routes.len() <= usize::MAX,
    ensures
        ({
            let state = service.partition_workers[worker];
            let told = worker_action_report(worker, state, kind);
            let health = worker_health(service, worker);
            let counts = !(kind matches RuntimePartitionWorkerActionKind::TickMany(n) && n == 0);
            &&& told.worker_id == worker
            &&& told.kind == kind
            &&& told.partition_count == health.partitions.len()
            &&& told.outbound_route_count == health.outbound_routes.len()
            &&& told.inbound_route_count == health.inbound_routes.len()
            &&& told.outbound_bits == health.outbound_bits
            &&& told.inbound_bits == health.inbound_bits
            &&& told.operations == worker_after_action(state, kind).operations
            &&& counts ==> steps_counted(told.operations) == steps_counted(state.operations) + 1
            &&& !counts ==> told.operations == state.operations
            &&& worker_after_action(state, kind).launch == state.launch
            &&& worker_after_action(state, kind).outbound == state.outbound
            &&& worker_after_action(state, kind).inbound == state.inbound
        }),
{
    lemma_structural_step_is_counted(
        service.partition_workers[worker].operations,
        kind,
    );
}

/// The health of a worker that is there is what it was given to launch.
pub proof fn lemma_health_is_the_launch(service: LocalRuntimeWorkerServiceView, worker: Seq<char>)
    requires
        service.partition_workers.dom().contains(worker),
    ensures
        ({
            let health = worker_health(service, worker);
            let launch = service.partition_workers[worker].launch;
            &&& health.initialized
            &&& health.worker_id == worker
            &&& health.partitions == launch.partitions
            &&& health.outbound_routes == launch.outbound_routes
            &&& health.inbound_routes == launch.inbound_routes
            &&& health.outbound_bits == launch.outbound_bits
            &&& health.inbound_bits == launch.inbound_bits
        }),
{
}

/// A payload that is stored for the first time adds one to what waits to be sent, and one that is
/// delivered for the first time adds one to what was received; another payload of the same route
/// takes the place of the first. The routes that are reported are those of the launch.
pub proof fn lemma_mailbox_counts_payloads(
    worker: Seq<char>,
    state: RuntimePartitionWorkerStateView,
    payload: RuntimePartitionRoutePayloadView,
)
    requires
        state.outbound.dom().finite(),
        state.inbound.dom().finite(),
        state.outbound.len() < usize::MAX,
        state.inbound.len() < usize::MAX,
    ensures
        ({
            let before = worker_mailbox(worker, state);
            let stored = worker_mailbox(worker, worker_storing(state, payload));
            let received = worker_mailbox(worker, worker_receiving(state, payload));
            &&& stored.outbound_payload_count == before.outbound_payload_count + (
            if state.outbound.dom().contains(payload.route_index) {
                0int
            } else {
                1int
            })
            &&& stored.inbound_payload_count == before.inbound_payload_count
            &&& received.inbound_payload_count == before.inbound_payload_count + (
            if state.inbound.dom().contains(payload.route_index) {
                0int
            } else {
                1int
            })
            &&& received.outbound_payload_count == before.outbound_payload_count
            &&& before.worker_id == worker
            &&& before.outbound_routes == state.launch.outbound_routes
            &&& before.inbound_routes == state.launch.inbound_routes
        }),
{
    let out = state.outbound;
    let inb = state.inbound;
    assert(out.insert(payload.route_index, payload).dom() =~= out.dom().insert(
        payload.route_index,
    ));
    assert(inb.insert(payload.route_index, payload).dom() =~= inb.dom().insert(
        payload.route_index,
    ));
}

// ---------------------------------------------------------------------------
// Answers
// ---------------------------------------------------------------------------

/// An answer is taken exactly when it is of the kind that was asked for, and from the worker, and
/// about the step, that were asked.
pub proof fn lemma_answers_are_checked(
    worker: Seq<char>,
    kind: RuntimePartitionWorkerActionKind,
    response: RuntimeWorkerResponseView,
)
    ensures
        ack_problem(response) is None <==> response is Ack,
        action_response_problem(worker, kind, response) is None <==> (
        response matches RuntimeWorkerResponseView::PartitionWorkerAction(told) && told.worker_id
            == worker && told.kind == kind),
        mailbox_response_problem(worker, response) is None <==> (
        response matches RuntimeWorkerResponseView::PartitionRouteMailbox(told) && told.worker_id
            == worker),
        health_response_problem(worker, response) is None <==> (
        response matches RuntimeWorkerResponseView::PartitionWorkerHealth(told) && told.worker_id
            == worker),
{
}

// ---------------------------------------------------------------------------
// Sessions
// ---------------------------------------------------------------------------

proof fn lemma_all_counted<A>(s: Seq<A>, p: spec_fn(A) -> bool)
    ensures
        count_if(s, p) == s.len() <==> forall|i: int| 0 <= i < s.len() ==> p(#[trigger] s[i]),
    decreases s.len(),
{
    if s.len() > 0 {
        let t = s.drop_last();
        lemma_all_counted(t, p);
        lemma_count_if_bound(t, p);
        if forall|i: int| 0 <= i < s.len() ==> p(#[trigger] s[i]) {
            assert forall|i: int| 0 <= i < t.len() implies p(#[trigger] t[i]) by {
                assert(p(s[i]));
            }
            assert(p(s[s.len() - 1]));
        }
        if count_if(s, p) == s.len() {
            assert forall|i: int| 0 <= i < s.len() implies p(#[trigger] s[i]) by {
                if i < t.len() {
                    assert(p(t[i]));
                }
            }
        }
    }
}

/// A session is ready exactly when every worker that was deployed is initialized; its health
/// counts the workers and routes of the launch, and the partitions of all workers.
pub proof fn lemma_session_is_ready(
    launch: RuntimePartitionLaunchPlanView,
    deployment: RuntimePartitionDeploymentReportView,
)
    requires
        deployment.workers.len() == launch.workers.len() <= usize::MAX,
        launch.routes.len() <= usize::MAX,
        sum_by(
            deployment.workers,
            |w: RuntimePartitionWorkerHealthView| w.partitions.len() as int,
        ) <= usize::MAX,
    ensures
        ({
            let health = session_health(launch, deployment);
            &&& health.ready <==> forall|i: int|
                0 <= i < deployment.workers.len() ==> (#[trigger] deployment.workers[i]).initialized
            &&& health.ready <==> health.initialized_worker_count == health.worker_count
            &&& health.worker_count == launch.workers.len()
            &&& health.route_count == launch.routes.len()
            &&& health.partition_count == sum_by(
                deployment.workers,
                |w: RuntimePartitionWorkerHealthView| w.partitions.len() as int,
            )
            &&& health.module_name == launch.module_name
            &&& health.workers == deployment.workers
        }),
{
    lemma_all_counted(deployment.workers, is_initialized());
    lemma_count_if_bound(deployment.workers, is_initialized());
    let f = |w: RuntimePartitionWorkerHealthView| w.partitions.len() as int;
    let g = |k: int| deployment.workers[k].partitions.len() as int;
    lemma_sum_by_index(deployment.workers, f, g);
    lemma_sum_below_grows(0, deployment.workers.len(), g);
    let health = session_health(launch, deployment);
    assert(health.ready <==> forall|i: int|
        0 <= i < deployment.workers.len() ==> (#[trigger] deployment.workers[i]).initialized) by {
        if forall|i: int|
            0 <= i < deployment.workers.len() ==> (#[trigger] deployment.workers[i]).initialized {
            assert forall|i: int| 0 <= i < deployment.workers.len() implies is_initialized()(
                #[trigger] deployment.workers[i],
            ) by {}
        }
        if health.ready {
            assert forall|i: int| 0 <= i < deployment.workers.len() implies (
            #[trigger] deployment.workers[i]).initialized by {
                assert(is_initialized()(deployment.workers[i]));
            }
        }
    }
}

proof fn lemma_actions_counted(actions: Seq<RuntimePartitionSessionActionReportView>, n: nat)
    requires
        n <= actions.len(),
        actions_fit(actions),
    ensures
        steps_counted(actions_sum(actions, n)) == sum_by(
            actions.take(n as int),
            |a: RuntimePartitionSessionActionReportView| steps_counted(a.operations),
        ),
    decreases n,
{
    let f = |a: RuntimePartitionSessionActionReportView| steps_counted(a.operations);
    if n > 0 {
        lemma_actions_counted(actions, (n - 1) as nat);
        lemma_sum_by_take(actions, n - 1, f);
        assert(stats_add(
            actions_sum(actions, (n - 1) as nat),
            actions[n - 1].operations,
        ));
    } else {
        assert(actions.take(0) =~= Seq::empty());
    }
}

/// The summary of a session counts its steps, knows the last one, and adds up what all of them
/// counted.
pub proof fn lemma_summary_adds_up(session: RuntimePartitionSessionView)
    requires
        session.actions.len() <= usize::MAX,
        actions_fit(session.actions),
    ensures
        ({
            let summary = session_summary(session);
            &&& summary.action_count == session.actions.len()
            &&& session.actions.len() == 0 ==> summary.latest_action_kind is None
            &&& session.actions.len() > 0 ==> summary.latest_action_kind == Some(
                session.actions[session.actions.len() - 1].kind,
            )
            &&& steps_counted(summary.operations) == sum_by(
                session.actions,
                |a: RuntimePartitionSessionActionReportView| steps_counted(a.operations),
            )
        }),
{
    lemma_actions_counted(session.actions, session.actions.len());
    assert(session.actions.take(session.actions.len() as int) =~= session.actions);
}

/// The telemetry of a session holds the session as it is, its health and its summary.
pub proof fn lemma_telemetry_tells_the_session(session: RuntimePartitionSessionView)
    ensures
        ({
            let t = session_telemetry(session);
            &&& t.module_name == session.launch.module_name
            &&& t.launch == session.launch
            &&& t.deployment == session.deployment
            &&& t.health == session_health(session.launch, session.deployment)
            &&& t.action_summary == session_summary(session)
            &&& t.route_mailboxes == session.route_mailboxes
            &&& t.actions == session.actions
            &&& t.surrogate_attachment == session.surrogate_attachment
            &&& t.surrogate_execution is Some <==> session.surrogate_attachment is Some
            &&& t.surrogate_execution matches Some(r) ==> session.actions.len() <= u64::MAX
                ==> r.action_count == session.actions.len()
        }),
{
}

/// After a step, every worker of a session has made it once, and no other worker has.
pub proof fn lemma_every_worker_steps_once(
    service: LocalRuntimeWorkerServiceView,
    workers: Seq<RuntimePartitionWorkerLaunchView>,
    kind: RuntimePartitionWorkerActionKind,
    n: nat,
    name: Seq<char>,
)
    requires
        n <= workers.len(),
        distinct_names::<RuntimePartitionWorkerLaunch>(workers),
    ensures
        ({
            let after = acted(service, workers, kind, n);
            &&& (exists|i: int| 0 <= i < n && (#[trigger] workers[i]).worker_id == name)
                ==> after.partition_workers[name] == worker_after_action(
                service.partition_workers[name],
                kind,
            )
            &&& !(exists|i: int| 0 <= i < n && (#[trigger] workers[i]).worker_id == name)
                ==> after.partition_workers[name] == service.partition_workers[name]
            &&& after.shards == service.shards
        }),
    decreases n,
{
    if n > 0 {
        let last = n - 1;
        let id = workers[last].worker_id;
        lemma_every_worker_steps_once(service, workers, kind, last as nat, name);
        lemma_every_worker_steps_once(service, workers, kind, last as nat, id);
        assert forall|i: int| 0 <= i < last implies (#[trigger] workers[i]).worker_id != id by {
            assert(RuntimePartitionWorkerLaunch::name_of(workers[i])
                != RuntimePartitionWorkerLaunch::name_of(workers[last]));
        }
        if name == id {
            assert(workers[last].worker_id == name);
        } else {
            if exists|i: int| 0 <= i < n && (#[trigger] workers[i]).worker_id == name {
                let i = choose|i: int| 0 <= i < n && (#[trigger] workers[i]).worker_id == name;
                assert(i < last);
            }
        }
    }
}

/// After the mailboxes of a session were emptied, those of its workers are empty, and nothing else
/// of any worker has changed.
pub proof fn lemma_clearing_empties_mailboxes(
    service: LocalRuntimeWorkerServiceView,
    workers: Seq<RuntimePartitionWorkerLaunchView>,
    n: nat,
    name: Seq<char>,
)
    requires
        n <= workers.len(),
    ensures
        ({
            let after = mailboxes_cleared(service, workers, n).partition_workers[name];
            let before = service.partition_workers[name];
            &&& (exists|i: int| 0 <= i < n && (#[trigger] workers[i]).worker_id == name)
                ==> after.outbound.dom() == Set::<usize>::empty() && after.inbound.dom() == Set::<
                usize,
            >::empty()
            &&& !(exists|i: int| 0 <= i < n && (#[trigger] workers[i]).worker_id == name) ==> after
                == before
            &&& after.launch == before.launch
            &&& after.operations == before.operations
        }),
    decreases n,
{
    if n > 0 {
        let last = n - 1;
        let id = workers[last].worker_id;
        lemma_clearing_empties_mailboxes(service, workers, last as nat, name);
        if name == id {
            assert(workers[last].worker_id == name);
            let after = mailboxes_cleared(service, workers, n).partition_workers[name];
            assert(after.outbound.dom() =~= Set::<usize>::empty());
            assert(after.inbound.dom() =~= Set::<usize>::empty());
        } else if exists|i: int| 0 <= i < n && (#[trigger] workers[i]).worker_id == name {
            let i = choose|i: int| 0 <= i < n && (#[trigger] workers[i]).worker_id == name;
            assert(i < last);
        }
    }
}

/// A session that hears of the mailboxes of a worker knows them, and keeps what it knows of every
/// other worker.
pub proof fn lemma_mailbox_is_heard(
    session: RuntimePartitionSessionView,
    found: RuntimePartitionRouteMailboxReportView,
    other: RuntimePartitionRouteMailboxReportView,
)
    requires
        other.worker_id != found.worker_id,
    ensures
        with_mailbox(session, found).route_mailboxes.contains(found),
        with_mailbox(session, found).route_mailboxes.contains(other)
            <==> session.route_mailboxes.contains(other),
        with_mailbox(session, found).actions == session.actions,
        with_mailbox(session, found).launch == session.launch,
        with_mailbox(session, found).deployment == session.deployment,
{
    let known = session.route_mailboxes;
    let next = with_mailbox(session, found).route_mailboxes;
    let p = is_named::<RuntimePartitionRouteMailboxReport>(known, found.worker_id);
    lemma_first_index(known.len(), p);
    match first_named::<RuntimePartitionRouteMailboxReport>(known, found.worker_id) {
        Some(k) => {
            assert(p(k));
            assert(next[k] == found);
            if known.contains(other) {
                let j = choose|j: int| 0 <= j < known.len() && known[j] == other;
                assert(next[j] == other);
            }
            if next.contains(other) {
                let j = choose|j: int| 0 <= j < next.len() && next[j] == other;
                assert(known[j] == other);
            }
        },
        None => {
            let all = known.push(found);
            lemma_sorted_by_key_contains::<RuntimePartitionRouteMailboxReport, MailboxOrder>(
                all,
                found,
            );
            lemma_sorted_by_key_contains::<RuntimePartitionRouteMailboxReport, MailboxOrder>(
                all,
                other,
            );
            assert(all[known.len() as int] == found);
            if known.contains(other) {
                let j = choose|j: int| 0 <= j < known.len() && known[j] == other;
                assert(all[j] == other);
            }
            if all.contains(other) {
                let j = choose|j: int| 0 <= j < all.len() && all[j] == other;
                assert(known[j] == other);
            }
        },
    }
}

/// A transfer is about a route between two workers, and is reported with the width of the route
/// and the limbs that hold it.
pub proof fn lemma_transfer_is_between_workers(
    session: RuntimePartitionSessionView,
    route_index: usize,
    producer: RuntimePartitionRouteMailboxReportView,
    consumer: RuntimePartitionRouteMailboxReportView,
)
    requires
        transfer_route_problem(session, route_index) is None,
    ensures
        ({
            let route = session_route(session, route_index);
            let told = transfer_report(session, route, producer, consumer);
            &&& session.launch.routes.contains(route)
            &&& route.route_index == route_index
            &&& route.producer_worker != route.consumer_worker
            &&& told.route_index == route_index
            &&& told.producer_worker == route.producer_worker
            &&& told.consumer_worker == route.consumer_worker
            &&& told.producer_mailbox == producer
            &&& told.consumer_mailbox == consumer
            &&& told.width == route.width
            &&& told.width <= 32 * told.limb_count < told.width + 32
        }),
{
    let routes = session.launch.routes;
    lemma_first_index(routes.len(), has_route_index(routes, route_index));
    let k = route_at(routes, route_index)->0;
    assert(routes[k] == session_route(session, route_index));
}

/// A session starts with nothing done and nothing sent: no step is recorded, and the mailbox of
/// every worker is empty and has the routes of the worker.
pub proof fn lemma_session_starts_empty(
    launch: RuntimePartitionLaunchPlanView,
    deployment: RuntimePartitionDeploymentReportView,
    i: int,
)
    requires
        0 <= i < launch.workers.len(),
    ensures
        ({
            let session = started_session(launch, deployment);
            let mailbox = session.route_mailboxes[i];
            &&& session.launch == launch
            &&& session.deployment == deployment
            &&& session.actions.len() == 0
            &&& session.surrogate_attachment is None
            &&& session.route_mailboxes.len() == launch.workers.len()
            &&& mailbox.worker_id == launch.workers[i].worker_id
            &&& mailbox.outbound_payload_count == 0
            &&& mailbox.inbound_payload_count == 0
            &&& mailbox.outbound_routes == launch.workers[i].outbound_routes
            &&& mailbox.inbound_routes == launch.workers[i].inbound_routes
            &&& mailbox.diagnostics == deployment.diagnostics
        }),
{
}

} // verus!

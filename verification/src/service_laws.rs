//! What a worker keeps over a run of requests, with the engine that it asks.

use vstd::prelude::*;

use crate::error::{report, ErrorReport};
use crate::model::launch::RuntimePartitionWorkerLaunchView;
use crate::model::protocol::{
    RuntimeEngineCall, RuntimeEngineValue, RuntimeWorkerRequest, RuntimeWorkerResponseView,
};
use crate::model::runtime::{
    RuntimeOperationStats, RuntimeShardSnapshot, RuntimeShardSnapshotView, RuntimeWorkerHealthView,
};
use crate::model::session::RuntimePartitionWorkerHealthView;
use crate::operations::{no_operations, recorded};
use crate::service::{
    awaits_call, reply_next, reply_problem, reply_response, request_call, request_next,
    request_problem, request_response, shard_worker_health, value_answers, worker_health,
    LocalRuntimeWorkerServiceView,
};

verus! {

// ---------------------------------------------------------------------------
// Snapshots
// ---------------------------------------------------------------------------

/// Whether an engine hands back what it was given last: a read of the storage of a shard gives the
/// values and memories of the write.
pub open spec fn reads_back(write: RuntimeEngineCall, value: RuntimeEngineValue) -> bool {
    match (write, value) {
        (
            RuntimeEngineCall::WriteStorage { values, memories, .. },
            RuntimeEngineValue::Storage { values: read_values, memories: read_memories },
        ) => read_values@ == values@ && read_memories@ == memories@,
        _ => false,
    }
}

/// A worker that restored a snapshot, with an engine that stores what it is given, is as it was
/// but for the engine, and then answers a request for a snapshot with the restored values and
/// memories, under its own shard: with the very snapshot, if that was taken of this shard.
pub proof fn lemma_restored_snapshot_comes_back(
    service: LocalRuntimeWorkerServiceView,
    worker_id: String,
    snapshot: RuntimeShardSnapshot,
    elapsed_ns: u128,
    read: RuntimeEngineValue,
)
    requires
        request_problem(
            service,
            RuntimeWorkerRequest::RestoreSnapshot { worker_id, snapshot },
        ) is None,
        reads_back(
            request_call(RuntimeWorkerRequest::RestoreSnapshot { worker_id, snapshot })->0,
            read,
        ),
    ensures
        ({
            let restore = RuntimeWorkerRequest::RestoreSnapshot { worker_id, snapshot };
            let ask = RuntimeWorkerRequest::Snapshot { worker_id };
            let write = request_call(restore)->0;
            let fetch = request_call(ask)->0;
            let done = Ok::<RuntimeEngineValue, ErrorReport>(RuntimeEngineValue::Done);
            let asked = request_next(service, restore);
            let restored = reply_next(asked, write, elapsed_ns, done);
            let shard = service.shards[worker_id@].info;
            &&& request_response(service, restore) is None
            &&& awaits_call(asked, write)
            &&& reply_problem(write, done) is None
            &&& reply_response(asked, write, RuntimeEngineValue::Done) == Some(
                RuntimeWorkerResponseView::Ack,
            )
            &&& restored == service
            &&& request_problem(restored, ask) is None
            &&& request_response(restored, ask) is None
            &&& awaits_call(request_next(restored, ask), fetch)
            &&& value_answers(fetch, read)
            &&& reply_response(request_next(restored, ask), fetch, read) == Some(
                RuntimeWorkerResponseView::Snapshot(
                    RuntimeShardSnapshotView {
                        shard,
                        values: snapshot.values@,
                        memories: snapshot.memories@,
                    },
                ),
            )
            &&& snapshot.shard.deep_view() == shard ==> reply_response(
                request_next(restored, ask),
                fetch,
                read,
            ) == Some(RuntimeWorkerResponseView::Snapshot(snapshot.deep_view()))
        }),
{
}

/// A snapshot of another range of lanes than that of the shard is refused.
pub proof fn lemma_other_lanes_are_refused(
    service: LocalRuntimeWorkerServiceView,
    worker_id: String,
    snapshot: RuntimeShardSnapshot,
)
    requires
        service.shards.dom().contains(worker_id@),
        snapshot.shard.start_lane != service.shards[worker_id@].info.start_lane
            || snapshot.shard.lanes != service.shards[worker_id@].info.lanes,
    ensures
        request_problem(
            service,
            RuntimeWorkerRequest::RestoreSnapshot { worker_id, snapshot },
        ) == Some(
            report(
                "E_RUNTIME_WORKER_SNAPSHOT"@,
                "snapshot shard lane range does not match initialized worker shard"@,
            ),
        ),
{
}

// ---------------------------------------------------------------------------
// Runs
// ---------------------------------------------------------------------------

/// What happens to a worker: a request comes in, or its engine replies.
pub enum WorkerEvent {
    Request(RuntimeWorkerRequest),
    Reply {
        call: RuntimeEngineCall,
        elapsed_ns: u128,
        reply: Result<RuntimeEngineValue, ErrorReport>,
    },
}

/// A worker after an event. A request that it refuses changes nothing.
pub open spec fn after_event(
    service: LocalRuntimeWorkerServiceView,
    event: WorkerEvent,
) -> LocalRuntimeWorkerServiceView {
    match event {
        WorkerEvent::Request(request) => if request_problem(service, request) is None {
            request_next(service, request)
        } else {
            service
        },
        WorkerEvent::Reply { call, elapsed_ns, reply } => reply_next(
            service,
            call,
            elapsed_ns,
            reply,
        ),
    }
}

/// A worker after a run of events.
pub open spec fn after_events(
    service: LocalRuntimeWorkerServiceView,
    events: Seq<WorkerEvent>,
) -> LocalRuntimeWorkerServiceView
    decreases events.len(),
{
    if events.len() == 0 {
        service
    } else {
        after_event(after_events(service, events.drop_last()), events.last())
    }
}

/// Whether the engine replies only to calls that the worker can be waiting for.
pub open spec fn replies_are_due(
    service: LocalRuntimeWorkerServiceView,
    events: Seq<WorkerEvent>,
) -> bool
    decreases events.len(),
{
    events.len() > 0 ==> {
        &&& replies_are_due(service, events.drop_last())
        &&& (events.last() matches WorkerEvent::Reply { call, .. } ==> awaits_call(
            after_events(service, events.drop_last()),
            call,
        ))
    }
}

/// Whether an event asks for the partitions of a worker to be set up.
pub open spec fn sets_up(event: WorkerEvent, worker: Seq<char>) -> bool {
    event matches WorkerEvent::Request(RuntimeWorkerRequest::InitPartitionWorker(init))
        && init.worker_id@ == worker
}

/// Whether an event puts a shard in place.
pub open spec fn starts_shard(event: WorkerEvent, worker: Seq<char>) -> bool {
    event matches WorkerEvent::Reply { call: RuntimeEngineCall::Start(init), reply, .. }
        && init.shard.worker_id@ == worker && reply is Ok
}

/// The health of a worker that runs what a launch gives it.
pub open spec fn launched_health(
    worker: Seq<char>,
    launch: RuntimePartitionWorkerLaunchView,
) -> RuntimePartitionWorkerHealthView {
    RuntimePartitionWorkerHealthView {
        worker_id: worker,
        initialized: true,
        backend: Some(launch.backend),
        node: Some(launch.node),
        partitions: launch.partitions,
        outbound_routes: launch.outbound_routes,
        inbound_routes: launch.inbound_routes,
        outbound_bits: launch.outbound_bits,
        inbound_bits: launch.inbound_bits,
        diagnostics: seq![],
    }
}

/// A worker whose partitions are set up reports the health of its launch, whatever happens to it
/// afterwards: steps, payloads, cleared mailboxes, refused requests and replies of engines change
/// nothing of it.
pub proof fn lemma_worker_stays_healthy(
    service: LocalRuntimeWorkerServiceView,
    worker: Seq<char>,
    events: Seq<WorkerEvent>,
)
    requires
        service.partition_workers.dom().contains(worker),
    ensures
        after_events(service, events).partition_workers.dom().contains(worker),
        worker_health(after_events(service, events), worker) == launched_health(
            worker,
            service.partition_workers[worker].launch,
        ),
        after_events(service, events).partition_workers[worker].launch
            == service.partition_workers[worker].launch,
    decreases events.len(),
{
    if events.len() > 0 {
        lemma_worker_stays_healthy(service, worker, events.drop_last());
    }
}

/// A worker that nobody asked to set up its partitions reports that it is not initialized.
pub proof fn lemma_worker_starts_uninitialized(
    service: LocalRuntimeWorkerServiceView,
    worker: Seq<char>,
    events: Seq<WorkerEvent>,
)
    requires
        !service.partition_workers.dom().contains(worker),
        forall|i: int| 0 <= i < events.len() ==> !sets_up(#[trigger] events[i], worker),
    ensures
        !after_events(service, events).partition_workers.dom().contains(worker),
        !worker_health(after_events(service, events), worker).initialized,
    decreases events.len(),
{
    if events.len() > 0 {
        let earlier = events.drop_last();
        assert forall|i: int| 0 <= i < earlier.len() implies !sets_up(
            #[trigger] earlier[i],
            worker,
        ) by {
            assert(earlier[i] == events[i]);
        }
        lemma_worker_starts_uninitialized(service, worker, earlier);
        assert(!sets_up(events[events.len() - 1], worker));
    }
}

/// From the request that sets up its partitions on, a worker reports the health of what it was
/// given to run.
pub proof fn lemma_set_up_worker_is_healthy(
    service: LocalRuntimeWorkerServiceView,
    request: RuntimeWorkerRequest,
    events: Seq<WorkerEvent>,
)
    requires
        request is InitPartitionWorker,
        request_problem(service, request) is None,
    ensures
        ({
            let init = request->InitPartitionWorker_0;
            worker_health(
                after_events(request_next(service, request), events),
                init.worker_id@,
            ) == launched_health(init.worker_id@, init.launch.deep_view())
        }),
{
    let init = request->InitPartitionWorker_0;
    lemma_worker_stays_healthy(request_next(service, request), init.worker_id@, events);
}

/// The counters of a shard after a run: its steps since they were last reset.
pub open spec fn counted(
    operations: RuntimeOperationStats,
    worker: Seq<char>,
    events: Seq<WorkerEvent>,
) -> RuntimeOperationStats
    decreases events.len(),
{
    if events.len() == 0 {
        operations
    } else {
        let before = counted(operations, worker, events.drop_last());
        match events.last() {
            WorkerEvent::Reply {
                call: RuntimeEngineCall::Execute { worker_id, action },
                elapsed_ns,
                ..
            } => if worker_id@ == worker {
                recorded(before, action, elapsed_ns)
            } else {
                before
            },
            WorkerEvent::Request(RuntimeWorkerRequest::ResetStats { worker_id }) => if worker_id@
                == worker {
                no_operations()
            } else {
                before
            },
            _ => before,
        }
    }
}

/// A shard that is in place stays in place, and its health counts its steps since the last reset
/// and nothing else.
pub proof fn lemma_shard_stays_healthy(
    service: LocalRuntimeWorkerServiceView,
    worker: Seq<char>,
    events: Seq<WorkerEvent>,
)
    requires
        service.shards.dom().contains(worker),
        replies_are_due(service, events),
    ensures
        after_events(service, events).shards.dom().contains(worker),
        shard_worker_health(after_events(service, events), worker) == (RuntimeWorkerHealthView {
            worker_id: worker,
            initialized: true,
            shard: Some(service.shards[worker].info),
            operations: Some(counted(service.shards[worker].operations, worker, events)),
        }),
    decreases events.len(),
{
    if events.len() > 0 {
        lemma_shard_stays_healthy(service, worker, events.drop_last());
    }
}

/// A shard is there only once its engine was started.
pub proof fn lemma_shard_starts_uninitialized(
    service: LocalRuntimeWorkerServiceView,
    worker: Seq<char>,
    events: Seq<WorkerEvent>,
)
    requires
        !service.shards.dom().contains(worker),
        replies_are_due(service, events),
        forall|i: int| 0 <= i < events.len() ==> !starts_shard(#[trigger] events[i], worker),
    ensures
        !after_events(service, events).shards.dom().contains(worker),
        shard_worker_health(after_events(service, events), worker) == (RuntimeWorkerHealthView {
            worker_id: worker,
            initialized: false,
            shard: None,
            operations: None,
        }),
    decreases events.len(),
{
    if events.len() > 0 {
        let earlier = events.drop_last();
        assert forall|i: int| 0 <= i < earlier.len() implies !starts_shard(
            #[trigger] earlier[i],
            worker,
        ) by {
            assert(earlier[i] == events[i]);
        }
        lemma_shard_starts_uninitialized(service, worker, earlier);
        assert(!starts_shard(events[events.len() - 1], worker));
    }
}

// ---------------------------------------------------------------------------
// Snapshots over a run
// ---------------------------------------------------------------------------

/// A snapshot that a worker gave can be restored whatever happens in between: values that are set,
/// steps, refused requests, and what other shards do. After that the worker gives that very
/// snapshot again, with an engine that stores what it is given.
pub proof fn lemma_snapshot_survives_a_run(
    service: LocalRuntimeWorkerServiceView,
    worker_id: String,
    taken: RuntimeEngineValue,
    events: Seq<WorkerEvent>,
    snapshot: RuntimeShardSnapshot,
    elapsed_ns: u128,
    read: RuntimeEngineValue,
)
    requires
        request_problem(service, RuntimeWorkerRequest::Snapshot { worker_id }) is None,
        reply_response(
            service,
            RuntimeEngineCall::ReadStorage { worker_id },
            taken,
        ) == Some(RuntimeWorkerResponseView::Snapshot(snapshot.deep_view())),
        replies_are_due(service, events),
        reads_back(
            request_call(RuntimeWorkerRequest::RestoreSnapshot { worker_id, snapshot })->0,
            read,
        ),
    ensures
        ({
            let restore = RuntimeWorkerRequest::RestoreSnapshot { worker_id, snapshot };
            let ask = RuntimeWorkerRequest::Snapshot { worker_id };
            let write = request_call(restore)->0;
            let done = Ok::<RuntimeEngineValue, ErrorReport>(RuntimeEngineValue::Done);
            let later = after_events(service, events);
            let restored = reply_next(request_next(later, restore), write, elapsed_ns, done);
            &&& request_problem(later, restore) is None
            &&& reply_problem(write, done) is None
            &&& reply_response(
                request_next(later, restore),
                write,
                RuntimeEngineValue::Done,
            ) == Some(RuntimeWorkerResponseView::Ack)
            &&& restored == later
            &&& request_problem(restored, ask) is None
            &&& reply_response(
                request_next(restored, ask),
                request_call(ask)->0,
                read,
            ) == Some(RuntimeWorkerResponseView::Snapshot(snapshot.deep_view()))
        }),
{
    lemma_shard_stays_healthy(service, worker_id@, events);
    let later = after_events(service, events);
    assert(later.shards[worker_id@].info == service.shards[worker_id@].info) by {
        assert(shard_worker_health(later, worker_id@).shard == Some(
            service.shards[worker_id@].info,
        ));
    }
    assert(snapshot.deep_view().shard == service.shards[worker_id@].info);
    lemma_restored_snapshot_comes_back(later, worker_id, snapshot, elapsed_ns, read);
}

} // verus!

//! What a supervisor owes its workers: a recovery of every one of them, a checkpoint of what they
//! have taken over, and an account of both.

use vstd::prelude::*;

use crate::counter_laws::{steps_counted, time_counted};
use crate::error::ErrorReport;
use crate::model::runtime::{
    RuntimeHealthReport, RuntimeTcpEndpoint, RuntimeTcpEndpointView,
    TcpRuntimeWorkerProcessExitView, TcpRuntimeWorkerProcessTelemetryView,
};
use crate::order::{lemma_sorted_by_key, lemma_sorted_by_key_contains};
use crate::recovery::ByWorker;
use crate::runtime_actions::runtime_stats;
use crate::runtime_storage::{checkpoint_of, RuntimeShardStorageView};
use crate::supervisor::{
    no_checkpoint_problem, recovered, supervisor_telemetry, with_checkpoint,
    TcpRuntimeSupervisorView,
};

verus! {

/// A checkpoint on request is the latest from then on, was taken at no step of a run, and changes
/// nothing else. It takes one to recover.
pub proof fn lemma_checkpoint_is_kept(
    supervisor: TcpRuntimeSupervisorView,
    storages: Seq<RuntimeShardStorageView>,
)
    ensures
        ({
            let after = with_checkpoint(supervisor, storages);
            &&& after.latest_checkpoint == Some(
                checkpoint_of(supervisor.runtime, supervisor.endpoints, storages),
            )
            &&& after.latest_checkpoint_event is None
            &&& after.module_name == supervisor.module_name
            &&& after.topology == supervisor.topology
            &&& after.runtime == supervisor.runtime
            &&& after.endpoints == supervisor.endpoints
            &&& after.last_recovery == supervisor.last_recovery
            &&& no_checkpoint_problem(after) is None
        }),
        no_checkpoint_problem(supervisor) is None <==> supervisor.latest_checkpoint is Some,
{
}

/// A recovery reaches every shard: it reports the worker of each, the processes that were
/// replaced, and leaves the shards where they were, at the new endpoints, with nothing counted.
pub proof fn lemma_recovery_is_reported(
    supervisor: TcpRuntimeSupervisorView,
    endpoints: Seq<RuntimeTcpEndpointView>,
    exits: Seq<TcpRuntimeWorkerProcessExitView>,
    storages: Seq<RuntimeShardStorageView>,
    i: int,
)
    requires
        0 <= i < supervisor.runtime.shards.len(),
    ensures
        ({
            let after = recovered(supervisor, endpoints, exits, storages);
            let before = supervisor.runtime.shards;
            &&& after.last_recovery is Some
            &&& after.last_recovery->0.restarted_workers == exits
            &&& after.last_recovery->0.runtime_recovery.recovered_workers.len() == before.len()
            &&& after.last_recovery->0.runtime_recovery.recovered_workers[i]
                == before[i].info.worker_id
            &&& after.endpoints == endpoints
            &&& after.module_name == supervisor.module_name
            &&& after.topology == supervisor.topology
            &&& after.runtime.shards.len() == before.len()
            &&& after.runtime.shards[i].info == before[i].info
            &&& steps_counted(after.runtime.shards[i].operations) == 0
            &&& time_counted(after.runtime.shards[i].operations) == 0
            &&& after.runtime.operations == supervisor.runtime.operations
            &&& after.runtime.program == supervisor.runtime.program
            &&& after.runtime.total_lanes == supervisor.runtime.total_lanes
            &&& after.runtime.surrogate_attachment == supervisor.runtime.surrogate_attachment
            &&& after.latest_checkpoint == Some(checkpoint_of(after.runtime, endpoints, storages))
            &&& after.latest_checkpoint_event == supervisor.latest_checkpoint_event
        }),
{
}

/// A supervisor tells what it is and has: its module and topology, all its endpoints by worker,
/// its processes as they are, either the health of its runtime or why there is none, its latest
/// checkpoint and its last recovery.
pub proof fn lemma_supervisor_tells_itself(
    supervisor: TcpRuntimeSupervisorView,
    processes: Seq<TcpRuntimeWorkerProcessTelemetryView>,
    health: Result<RuntimeHealthReport, ErrorReport>,
    endpoint: RuntimeTcpEndpointView,
)
    ensures
        ({
            let told = supervisor_telemetry(supervisor, processes, health);
            &&& told.module_name == supervisor.module_name
            &&& told.topology == supervisor.topology
            &&& told.surrogate_attachment == supervisor.runtime.surrogate_attachment
            &&& told.surrogate_execution == supervisor.runtime.surrogate_execution
            &&& told.endpoints.len() == supervisor.endpoints.len()
            &&& told.endpoints.contains(endpoint) <==> supervisor.endpoints.contains(endpoint)
            &&& told.processes == processes
            &&& told.runtime_stats == runtime_stats(supervisor.runtime)
            &&& health matches Ok(found) ==> told.runtime_health == Some(found.deep_view())
            &&& health matches Err(e) ==> told.runtime_health_error == Some(e.deep_view())
            &&& told.runtime_health is Some <==> health is Ok
            &&& told.runtime_health_error is Some <==> health is Err
            &&& told.latest_checkpoint is Some <==> supervisor.latest_checkpoint is Some
            &&& told.latest_checkpoint matches Some(latest) ==> Some(latest.checkpoint)
                == supervisor.latest_checkpoint && latest.event
                == supervisor.latest_checkpoint_event
            &&& told.last_recovery == supervisor.last_recovery
        }),
{
    lemma_sorted_by_key::<RuntimeTcpEndpoint, ByWorker>(supervisor.endpoints);
    lemma_sorted_by_key_contains::<RuntimeTcpEndpoint, ByWorker>(supervisor.endpoints, endpoint);
}

} // verus!

//! What a runtime, its snapshots and its recoveries owe its shards.

use vstd::prelude::*;

use crate::collect::lemma_gather_contains;
use crate::counter_laws::{lemma_step_is_counted, steps_counted, time_counted};
use crate::error::ErrorReport;
use crate::ids::{last_named, lemma_last_named};
use crate::model::communication::RUNTIME_PARTITION_COMMUNICATION_FORMAT_VERSION;
use crate::model::launch::{
    RUNTIME_PARTITION_BUNDLE_FORMAT_VERSION, RUNTIME_PARTITION_LAUNCH_FORMAT_VERSION,
};
use crate::model::partition::RUNTIME_PARTITION_PLAN_FORMAT_VERSION;
use crate::model::placement::RUNTIME_PARTITION_PLACEMENT_FORMAT_VERSION;
use crate::model::runtime::{
    RuntimeCheckpointView, RuntimeSnapshotView, RuntimeTcpEndpoint, RuntimeTcpEndpointView,
    RuntimeWorkerHealthView, RUNTIME_CHECKPOINT_FORMAT_VERSION,
};
use crate::operations::{records_one_more, RuntimeShardAction};
use crate::recovery::{
    recovery_problem, recovery_step, stray_recovery_endpoint, unreachable_shard, RecoveryProgram,
};
use crate::runtime::{workers_of, DistributedRuntimeView, RuntimeShardView};
use crate::runtime_actions::{
    executed, execution_fits, merged_problem, runtime_reset, runtime_stats, shard_health,
};
use crate::runtime_storage::{
    checkpoint_of, checkpoint_problem, runs_worker, shard_endpoint, snapshot_of, snapshot_problem,
    snapshot_shards_check, RuntimeShardStorageView,
};
use crate::seqs::{first_index, lemma_first_index, lemma_first_problem_none};
use crate::versions::{
    checkpoint_version_problem, partition_bundle_version_problem,
    partition_communication_plan_version_problem, partition_launch_plan_version_problem,
    partition_placement_plan_version_problem, partition_plan_version_problem,
};

verus! {

// ---------------------------------------------------------------------------
// Steps
// ---------------------------------------------------------------------------

/// A step of a runtime is counted once for the whole, with the time that it took, and once by
/// every shard that came back, with its own time; what the shards are does not change.
pub proof fn lemma_runtime_step_is_counted(
    runtime: DistributedRuntimeView,
    action: RuntimeShardAction,
    results: Seq<Result<(), ErrorReport>>,
    shard_ns: Seq<Option<u128>>,
    elapsed_ns: u128,
    i: int,
)
    requires
        execution_fits(runtime, action, results, shard_ns, elapsed_ns),
        0 <= i < runtime.shards.len(),
    ensures
        ({
            let after = executed(runtime, action, results, shard_ns, elapsed_ns);
            let before = runtime.shards[i].operations;
            let now = after.shards[i].operations;
            &&& steps_counted(after.operations) == steps_counted(runtime.operations) + 1
            &&& time_counted(after.operations) == time_counted(runtime.operations) + elapsed_ns
            &&& after.shards.len() == runtime.shards.len()
            &&& after.shards[i].info == runtime.shards[i].info
            &&& shard_ns[i] is None ==> now == before
            &&& shard_ns[i] matches Some(ns) ==> steps_counted(now) == steps_counted(before) + 1
                && time_counted(now) == time_counted(before) + ns
            &&& after.total_lanes == runtime.total_lanes
            &&& after.program == runtime.program
            &&& after.options == runtime.options
            &&& after.surrogate_attachment == runtime.surrogate_attachment
        }),
{
    lemma_step_is_counted(runtime.operations, action, elapsed_ns);
    if let Some(ns) = shard_ns[i] {
        assert(records_one_more(runtime.shards[i].operations, action, ns));
        lemma_step_is_counted(runtime.shards[i].operations, action, ns);
    }
}

/// A step that no shard failed is one action more of an attached surrogate plan, and the last one;
/// a step that a shard failed is none.
pub proof fn lemma_attached_plan_counts_steps(
    runtime: DistributedRuntimeView,
    action: RuntimeShardAction,
    results: Seq<Result<(), ErrorReport>>,
    shard_ns: Seq<Option<u128>>,
    elapsed_ns: u128,
)
    requires
        runtime.surrogate_attachment is Some,
        runtime.surrogate_execution is Some,
        execution_fits(runtime, action, results, shard_ns, elapsed_ns),
    ensures
        ({
            let after = executed(runtime, action, results, shard_ns, elapsed_ns);
            &&& merged_problem(results) is None ==> after.surrogate_execution is Some
                && after.surrogate_execution->0.action_count
                == runtime.surrogate_execution->0.action_count + 1
                && after.surrogate_execution->0.latest_action_kind is Some
            &&& merged_problem(results) is Some ==> after.surrogate_execution
                == runtime.surrogate_execution
        }),
{
}

/// The statistics of a runtime are those that it and its shards hold; after a reset nothing is
/// counted anywhere, and the shards are the same.
pub proof fn lemma_statistics_are_told(runtime: DistributedRuntimeView, i: int)
    requires
        0 <= i < runtime.shards.len(),
    ensures
        ({
            let stats = runtime_stats(runtime);
            let reset = runtime_reset(runtime);
            &&& stats.operations == runtime.operations
            &&& stats.total_lanes == runtime.total_lanes
            &&& stats.execution_mode == runtime.options.execution_mode
            &&& stats.shards.len() == runtime.shards.len()
            &&& stats.shards[i].shard == runtime.shards[i].info
            &&& stats.shards[i].operations == runtime.shards[i].operations
            &&& steps_counted(reset.operations) == 0
            &&& time_counted(reset.operations) == 0
            &&& steps_counted(reset.shards[i].operations) == 0
            &&& time_counted(reset.shards[i].operations) == 0
            &&& reset.shards.len() == runtime.shards.len()
            &&& reset.shards[i].info == runtime.shards[i].info
            &&& reset.surrogate_attachment == runtime.surrogate_attachment
            &&& reset.surrogate_execution matches Some(r) ==> r.action_count == 0
            &&& reset.surrogate_execution is Some <==> runtime.surrogate_attachment is Some
        }),
{
}

/// A shard in this process is healthy; one elsewhere is as healthy as its worker says.
pub proof fn lemma_shard_health_is_told(
    shard: RuntimeShardView,
    health: RuntimeWorkerHealthView,
)
    ensures
        shard_health(shard, None).status is Healthy,
        shard_health(shard, None).shard == shard.info,
        shard_health(shard, None).operations == Some(shard.operations),
        shard_health(shard, Some(health)).status is Healthy <==> health.initialized,
        shard_health(shard, Some(health)).status is Uninitialized <==> !health.initialized,
        shard_health(shard, Some(health)).operations == health.operations,
        health.shard is Some ==> shard_health(shard, Some(health)).shard == health.shard->0,
        health.shard is None ==> shard_health(shard, Some(health)).shard == shard.info,
{
}

// ---------------------------------------------------------------------------
// Snapshots and checkpoints
// ---------------------------------------------------------------------------

/// A snapshot is taken back exactly when it is of the same lanes, the same program and the same
/// shards, and holds for each of them the words that the program needs for its lanes.
pub proof fn lemma_snapshot_is_taken_back(
    runtime: DistributedRuntimeView,
    snapshot: RuntimeSnapshotView,
)
    ensures
        snapshot_problem(runtime, snapshot) is None <==> {
            &&& snapshot.total_lanes == runtime.total_lanes
            &&& snapshot.program_top == runtime.program.top
            &&& snapshot.signal_words_per_lane == runtime.program.total_signal_words
            &&& snapshot.memory_words_per_lane == runtime.program.total_memory_words_per_lane
            &&& snapshot.shards.len() == runtime.shards.len()
            &&& forall|i: int|
                0 <= i < runtime.shards.len() ==> {
                    let found = #[trigger] snapshot.shards[i];
                    let info = runtime.shards[i].info;
                    &&& found.shard.start_lane == info.start_lane
                    &&& found.shard.lanes == info.lanes
                    &&& found.values.len() == runtime.program.total_signal_words * info.lanes
                    &&& found.memories.len() == runtime.program.total_memory_words_per_lane
                        * info.lanes
                }
        },
{
    let check = snapshot_shards_check(runtime, snapshot);
    lemma_first_problem_none(runtime.shards.len(), check);
    if snapshot_problem(runtime, snapshot) is None {
        assert forall|i: int| 0 <= i < runtime.shards.len() implies {
            let found = #[trigger] snapshot.shards[i];
            let info = runtime.shards[i].info;
            &&& found.shard.start_lane == info.start_lane
            &&& found.shard.lanes == info.lanes
            &&& found.values.len() == runtime.program.total_signal_words * info.lanes
            &&& found.memories.len() == runtime.program.total_memory_words_per_lane * info.lanes
        } by {
            assert(check(i) is None);
        }
    } else if snapshot.total_lanes == runtime.total_lanes && snapshot.program_top
        == runtime.program.top && snapshot.signal_words_per_lane
        == runtime.program.total_signal_words && snapshot.memory_words_per_lane
        == runtime.program.total_memory_words_per_lane && snapshot.shards.len()
        == runtime.shards.len() {
        let i = choose|i: int| 0 <= i < runtime.shards.len() && (#[trigger] check(i)) is Some;
        let found = snapshot.shards[i];
    }
}

/// A snapshot holds what each engine stores, under the shard that it runs.
pub proof fn lemma_snapshot_holds_storages(
    runtime: DistributedRuntimeView,
    endpoints: Seq<RuntimeTcpEndpointView>,
    storages: Seq<RuntimeShardStorageView>,
    i: int,
)
    requires
        0 <= i < runtime.shards.len(),
    ensures
        ({
            let snapshot = snapshot_of(runtime, storages);
            &&& snapshot.shards.len() == runtime.shards.len()
            &&& snapshot.shards[i].shard == runtime.shards[i].info
            &&& snapshot.shards[i].values == storages[i].values
            &&& snapshot.shards[i].memories == storages[i].memories
            &&& snapshot.total_lanes == runtime.total_lanes
            &&& checkpoint_of(runtime, endpoints, storages).snapshot == snapshot
            &&& checkpoint_of(runtime, endpoints, storages).module_name == runtime.program.top
            &&& checkpoint_of(runtime, endpoints, storages).topology.workers.len()
                == runtime.shards.len()
            &&& checkpoint_of(runtime, endpoints, storages).topology.workers[i].id
                == runtime.shards[i].info.worker_id
            &&& checkpoint_of(runtime, endpoints, storages).topology.workers[i].lanes
                == runtime.shards[i].info.lanes
        }),
{
}

/// A checkpoint keeps the last address of every worker that has one, and of no other.
pub proof fn lemma_checkpoint_keeps_endpoints(
    runtime: DistributedRuntimeView,
    endpoints: Seq<RuntimeTcpEndpointView>,
    storages: Seq<RuntimeShardStorageView>,
    kept: RuntimeTcpEndpointView,
)
    ensures
        checkpoint_of(runtime, endpoints, storages).tcp_endpoints.contains(kept) <==> {
            &&& exists|i: int|
                0 <= i < runtime.shards.len() && (#[trigger] runtime.shards[i]).info.worker_id
                    == kept.worker_id
            &&& exists|k: int|
                0 <= k < endpoints.len() && (#[trigger] endpoints[k]).worker_id == kept.worker_id
                    && endpoints[k].addr == kept.addr && forall|j: int|
                    k < j < endpoints.len() ==> (#[trigger] endpoints[j]).worker_id
                        != kept.worker_id
        },
{
    let g = shard_endpoint(runtime.shards, endpoints);
    lemma_gather_contains(runtime.shards.len(), g, kept);
    lemma_last_named::<RuntimeTcpEndpoint>(endpoints, kept.worker_id);
    let l = last_named::<RuntimeTcpEndpoint>(endpoints, kept.worker_id);
    let all = checkpoint_of(runtime, endpoints, storages).tcp_endpoints;
    if all.contains(kept) {
        let i = choose|i: int| 0 <= i < runtime.shards.len() && #[trigger] g(i) == Some(kept);
        assert(runtime.shards[i].info.worker_id == kept.worker_id);
        let k = l->0;
        assert(endpoints[k].worker_id == kept.worker_id);
        assert forall|j: int| k < j < endpoints.len() implies (#[trigger] endpoints[j]).worker_id
            != kept.worker_id by {}
    }
    if (exists|i: int|
        0 <= i < runtime.shards.len() && (#[trigger] runtime.shards[i]).info.worker_id
            == kept.worker_id) && (exists|k: int|
        0 <= k < endpoints.len() && (#[trigger] endpoints[k]).worker_id == kept.worker_id
            && endpoints[k].addr == kept.addr && forall|j: int|
            k < j < endpoints.len() ==> (#[trigger] endpoints[j]).worker_id != kept.worker_id) {
        let i = choose|i: int|
            0 <= i < runtime.shards.len() && (#[trigger] runtime.shards[i]).info.worker_id
                == kept.worker_id;
        let k = choose|k: int|
            0 <= k < endpoints.len() && (#[trigger] endpoints[k]).worker_id == kept.worker_id
                && endpoints[k].addr == kept.addr && forall|j: int|
                k < j < endpoints.len() ==> (#[trigger] endpoints[j]).worker_id != kept.worker_id;
        assert(l == Some(k)) by {
            if l->0 < k {
                assert(endpoints[k].worker_id != kept.worker_id);
            } else if k < l->0 {
                assert(endpoints[l->0].worker_id != kept.worker_id);
            }
        }
        assert(g(i) == Some(kept));
    }
}

/// A checkpoint is of a runtime exactly when its version is known, and its module and workers are
/// those of the runtime.
pub proof fn lemma_checkpoint_is_of_runtime(
    runtime: DistributedRuntimeView,
    checkpoint: RuntimeCheckpointView,
)
    ensures
        checkpoint_problem(runtime, checkpoint) is None <==> {
            &&& checkpoint.format_version == RUNTIME_CHECKPOINT_FORMAT_VERSION
            &&& checkpoint.module_name == runtime.program.top
            &&& checkpoint.topology.workers.len() == runtime.shards.len()
            &&& forall|i: int|
                0 <= i < runtime.shards.len() ==> {
                    let w = #[trigger] checkpoint.topology.workers[i];
                    let info = runtime.shards[i].info;
                    w.id == info.worker_id && w.node == info.node && w.backend == info.backend
                        && w.lanes == info.lanes
                }
        },
{
    let workers = workers_of(runtime.shards);
    if checkpoint.topology.workers.len() == runtime.shards.len() && (forall|i: int|
        0 <= i < runtime.shards.len() ==> {
            let w = #[trigger] checkpoint.topology.workers[i];
            let info = runtime.shards[i].info;
            w.id == info.worker_id && w.node == info.node && w.backend == info.backend && w.lanes
                == info.lanes
        }) {
        assert(checkpoint.topology.workers =~= workers);
    }
}

// ---------------------------------------------------------------------------
// Recovery
// ---------------------------------------------------------------------------

/// Where a runtime recovers, every shard has an address and every address a shard; each shard
/// takes over at the last address of its worker what the checkpoint stored of it.
pub proof fn lemma_recovery_reaches_every_shard(
    runtime: DistributedRuntimeView,
    checkpoint: RuntimeCheckpointView,
    compiled: RecoveryProgram,
    endpoints: Seq<RuntimeTcpEndpointView>,
    i: int,
) -> (k: int)
    requires
        recovery_problem(runtime, checkpoint, compiled, endpoints) is None,
        0 <= i < runtime.shards.len(),
    ensures
        0 <= k < endpoints.len(),
        endpoints[k].worker_id == runtime.shards[i].info.worker_id,
        forall|j: int|
            k < j < endpoints.len() ==> (#[trigger] endpoints[j]).worker_id
                != runtime.shards[i].info.worker_id,
        ({
            let step = recovery_step(runtime, checkpoint, endpoints)(i);
            &&& step.addr == endpoints[k].addr
            &&& step.shard == runtime.shards[i].info
            &&& step.snapshot == checkpoint.snapshot.shards[i]
        }),
        forall|e: int|
            0 <= e < endpoints.len() ==> exists|s: int|
                0 <= s < runtime.shards.len() && (#[trigger] runtime.shards[s]).info.worker_id == (
                #[trigger] endpoints[e]).worker_id,
{
    let f = unreachable_shard(runtime.shards, endpoints);
    let g = stray_recovery_endpoint(runtime.shards, endpoints);
    lemma_first_problem_none(runtime.shards.len(), f);
    lemma_first_problem_none(endpoints.len(), g);
    assert(f(i) is None);
    lemma_last_named::<RuntimeTcpEndpoint>(endpoints, runtime.shards[i].info.worker_id);
    assert forall|e: int| 0 <= e < endpoints.len() implies exists|s: int|
        0 <= s < runtime.shards.len() && (#[trigger] runtime.shards[s]).info.worker_id == (
        #[trigger] endpoints[e]).worker_id by {
        assert(g(e) is None);
        let p = runs_worker(runtime.shards, endpoints[e].worker_id);
        lemma_first_index(runtime.shards.len(), p);
        let s = first_index(runtime.shards.len(), p)->0;
        assert(p(s));
        assert(runtime.shards[s].info.worker_id == endpoints[e].worker_id);
    }
    last_named::<RuntimeTcpEndpoint>(endpoints, runtime.shards[i].info.worker_id)->0
}

// ---------------------------------------------------------------------------
// Versions
// ---------------------------------------------------------------------------

/// Of every kind of document one version is read, the one that is written, and no other.
pub proof fn lemma_one_version_is_read(found: u32)
    ensures
        checkpoint_version_problem(found) is None <==> found == RUNTIME_CHECKPOINT_FORMAT_VERSION,
        partition_plan_version_problem(found) is None <==> found
            == RUNTIME_PARTITION_PLAN_FORMAT_VERSION,
        partition_placement_plan_version_problem(found) is None <==> found
            == RUNTIME_PARTITION_PLACEMENT_FORMAT_VERSION,
        partition_communication_plan_version_problem(found) is None <==> found
            == RUNTIME_PARTITION_COMMUNICATION_FORMAT_VERSION,
        partition_bundle_version_problem(found) is None <==> found
            == RUNTIME_PARTITION_BUNDLE_FORMAT_VERSION,
        partition_launch_plan_version_problem(found) is None <==> found
            == RUNTIME_PARTITION_LAUNCH_FORMAT_VERSION,
{
}

} // verus!

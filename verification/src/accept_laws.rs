//! What is accepted: everything that is sound is, and nothing else.

use vstd::prelude::*;

use crate::autotune::autotune_problem;
use crate::bundle::{bundle_problem, bundle_route_problem, plans_problem};
use crate::checkpoint_run::cadence_problem;
use crate::communication::{
    assignment_of, assignment_problem, boundary_problem, communication_problem,
};
use crate::deployment::{
    deployment_launch_problem, is_taken, local_deployment_problem, repeated_launch_problem,
};
use crate::hierarchy::{
    child_of, has_name, height, hierarchy_ends, instances_problem, instances_problem_below,
    lemma_child_ends, module_named,
};
use crate::ids::{last_named, lemma_last_named, repeats_name, Named};
use crate::launch::{
    launch_assignment_problem, launch_assignments, launch_order, launch_problem,
    launch_route_problem, AssignmentOrder, WorkerOrder,
};
use crate::model::autotune::RuntimeAutotuneConfigView;
use crate::model::communication::RuntimePartitionRouteView;
use crate::model::design::CompiledDesign;
use crate::model::launch::{
    RuntimePartitionBundleView, RuntimePartitionLaunchPlanView, RuntimePartitionWorkerLaunch,
};
use crate::model::partition::{RuntimePartition, RuntimePartitionPlanView, RuntimePartitionView};
use crate::model::placement::{
    RuntimePartitionAssignment, RuntimePartitionAssignmentView, RuntimePartitionPlacementPlanView,
};
use crate::model::runtime::RuntimeCheckpointCadence;
use crate::model::session::RuntimePartitionSessionRunScriptView;
use crate::model::surrogate::{
    EventRuntimePlan, GemmRuntimePlan, GemmRuntimeSourceResult, GemmRuntimeWorkerSummary,
    RuntimeSurrogateItemAttachmentView, EVENT_RUNTIME_PLAN_SCHEMA, GEMM_RUNTIME_PLAN_SCHEMA,
};
use crate::model::topology::{
    RuntimeShardInfoView, RuntimeTopologyView, RuntimeWorker, RuntimeWorkerView,
};
use crate::order::{lemma_sorted_by_key_contains, sorted_by_key};
use crate::partitions::partition_plan_problem;
use crate::placement::{placement_topology_problem, repeated_worker_problem};
use crate::regions::regions_problem;
use crate::runtime::{idle_worker, runtime_topology_problem};
use crate::seqs::{
    count_if, first_problem, lemma_count_if_same, lemma_first_index, lemma_first_problem_none,
    sum_by,
};
use crate::service::LocalRuntimeWorkerServiceView;
use crate::session_script::script_problem;
use crate::surrogate::{
    event_item_problem, event_items, event_plan_problem, find_shard, find_summary, gemm_items,
    gemm_plan_problem, is_any, is_from, is_summary_of, item_problem, lemma_find_shard,
    plan_worker_problem, plan_workers_problem, shard_problem, shards_problem, summaries_problem,
    summary_counts_match, summary_problem, worker_count,
};
use crate::traffic_laws::{is_on, lemma_is_on};
use crate::versions::{
    partition_bundle_version_problem, partition_communication_plan_version_problem,
    partition_launch_plan_version_problem, partition_placement_plan_version_problem,
    partition_plan_version_problem,
};

verus! {

// ---------------------------------------------------------------------------
// Topologies
// ---------------------------------------------------------------------------

/// A plan is placed on any workers that own lanes and have ids of their own.
pub proof fn lemma_workers_are_accepted(workers: Seq<RuntimeWorkerView>)
    ensures
        placement_topology_problem(workers) is None <==> {
            &&& workers.len() > 0
            &&& forall|i: int| 0 <= i < workers.len() ==> (#[trigger] workers[i]).lanes > 0
            &&& forall|i: int, j: int|
                0 <= i < j < workers.len() ==> (#[trigger] workers[i]).id != (
                #[trigger] workers[j]).id
        },
{
    let g = |i: int| repeated_worker_problem(workers, i);
    lemma_first_problem_none(workers.len(), g);
    if placement_topology_problem(workers) is None {
        assert forall|i: int, j: int| 0 <= i < j < workers.len() implies (#[trigger] workers[i]).id
            != (#[trigger] workers[j]).id by {
            assert(g(j) is None);
            assert(RuntimeWorker::name_of(workers[i]) != RuntimeWorker::name_of(workers[j]));
        }
    }
    if forall|i: int, j: int|
        0 <= i < j < workers.len() ==> (#[trigger] workers[i]).id != (#[trigger] workers[j]).id {
        assert forall|j: int| 0 <= j < workers.len() implies (#[trigger] g(j)) is None by {
            assert(!repeats_name::<RuntimeWorker>(workers, j));
        }
    }
}

/// A runtime starts on any workers that own lanes.
pub proof fn lemma_topology_is_accepted(topology: RuntimeTopologyView)
    ensures
        runtime_topology_problem(topology) is None <==> {
            &&& topology.workers.len() > 0
            &&& forall|i: int|
                0 <= i < topology.workers.len() ==> (#[trigger] topology.workers[i]).lanes > 0
        },
{
    let g = idle_worker(topology.workers);
    lemma_first_problem_none(topology.workers.len(), g);
    if runtime_topology_problem(topology) is None {
        assert forall|i: int| 0 <= i < topology.workers.len() implies (
        #[trigger] topology.workers[i]).lanes > 0 by {
            assert(g(i) is None);
        }
    }
}

/// Runs, scripts and measurements are made in rounds of at least one step.
pub proof fn lemma_rounds_are_accepted(
    run: RuntimeCheckpointCadence,
    script: RuntimePartitionSessionRunScriptView,
    config: RuntimeAutotuneConfigView,
    candidates: nat,
)
    ensures
        cadence_problem(run) is None <==> run.every_steps > 0,
        script_problem(script) is None <==> script.every_actions > 0,
        autotune_problem(candidates, config) is None <==> candidates > 0 && config.measure_steps
            > 0,
{
}

// ---------------------------------------------------------------------------
// Designs
// ---------------------------------------------------------------------------

proof fn lemma_instances_found(design: CompiledDesign, i: int, k: nat)
    requires
        hierarchy_ends(design, i),
        0 <= i < design.modules@.len(),
        k <= design.modules@[i].instances@.len(),
        every_instance_has_module(design),
    ensures
        instances_problem_below(design, i, k) is None,
    decreases height(design, i), k,
{
    if k > 0 {
        lemma_instances_found(design, i, (k - 1) as nat);
        let instance = design.modules@[i].instances@[k - 1];
        let m = choose|m: int|
            0 <= m < design.modules@.len() && (#[trigger] design.modules@[m]).name@
                == instance.module@;
        assert(has_name(design, instance.module@)(m));
        lemma_first_index(design.modules@.len(), has_name(design, instance.module@));
        assert(child_of(design, i, k - 1) == module_named(design, instance.module@));
        let c = child_of(design, i, k - 1)->0;
        lemma_child_ends(design, i, k - 1);
        lemma_instances_found(design, c, design.modules@[c].instances@.len());
        assert(instances_problem(design, c) is None);
    }
}

/// Whether the module of every instance is there.
pub open spec fn every_instance_has_module(design: CompiledDesign) -> bool {
    forall|i: int, k: int|
        0 <= i < design.modules@.len() && 0 <= k < design.modules@[i].instances@.len()
            ==> exists|m: int|
            0 <= m < design.modules@.len() && (#[trigger] design.modules@[m]).name@
                == (#[trigger] design.modules@[i].instances@[k]).module@
}

/// In a design without missing modules, every module is planned for every number of partitions
/// but none.
pub proof fn lemma_module_is_planned(design: CompiledDesign, module_name: Seq<char>, target: int)
    requires
        every_instance_has_module(design),
        forall|i: int| 0 <= i < design.modules@.len() ==> hierarchy_ends(design, i),
    ensures
        partition_plan_problem(design, module_name, target) is None <==> {
            &&& target != 0
            &&& exists|m: int|
                0 <= m < design.modules@.len() && (#[trigger] design.modules@[m]).name@
                    == module_name
        },
{
    let p = has_name(design, module_name);
    lemma_first_index(design.modules@.len(), p);
    if exists|m: int|
        0 <= m < design.modules@.len() && (#[trigger] design.modules@[m]).name@ == module_name {
        let m = choose|m: int|
            0 <= m < design.modules@.len() && (#[trigger] design.modules@[m]).name@ == module_name;
        assert(p(m));
        let top = module_named(design, module_name)->0;
        assert(hierarchy_ends(design, top));
        lemma_instances_found(design, top, design.modules@[top].instances@.len());
        assert(instances_problem(design, top) is None);
        assert(regions_problem(design, top, target) is None);
    }
}

// ---------------------------------------------------------------------------
// Placed plans
// ---------------------------------------------------------------------------

/// Whether a partition has an assignment.
pub open spec fn is_assigned(
    assignments: Seq<RuntimePartitionAssignmentView>,
    partition: Seq<char>,
) -> bool {
    exists|x: int|
        0 <= x < assignments.len() && (#[trigger] assignments[x]).partition_id == partition
}

proof fn lemma_is_assigned(
    assignments: Seq<RuntimePartitionAssignmentView>,
    partition: Seq<char>,
)
    ensures
        is_assigned(assignments, partition) <==> assignment_of(assignments, partition) is Some,
{
    lemma_last_named::<RuntimePartitionAssignment>(assignments, partition);
}

/// Communication is planned for a plan and a placement of the same module that assigns every
/// partition that drives a boundary, and every one that reads it.
pub proof fn lemma_placed_plan_is_accepted(
    plan: RuntimePartitionPlanView,
    placement: RuntimePartitionPlacementPlanView,
)
    requires
        partition_plan_version_problem(plan.format_version) is None,
        partition_placement_plan_version_problem(placement.format_version) is None,
    ensures
        communication_problem(plan, placement) is None <==> {
            &&& plan.module_name == placement.module_name
            &&& forall|i: int|
                0 <= i < plan.boundary_signals.len() ==> {
                    let boundary = #[trigger] plan.boundary_signals[i];
                    boundary.producer_partition matches Some(producer) ==> {
                        &&& is_assigned(placement.assignments, producer)
                        &&& forall|j: int|
                            0 <= j < boundary.consumer_partitions.len() ==> is_assigned(
                                placement.assignments,
                                #[trigger] boundary.consumer_partitions[j],
                            )
                    }
                }
        },
{
    let assignments = placement.assignments;
    let g = |i: int| boundary_problem(plan.boundary_signals[i], assignments, i);
    lemma_first_problem_none(plan.boundary_signals.len(), g);
    assert forall|i: int| 0 <= i < plan.boundary_signals.len() implies ((#[trigger] g(i)) is None
        <==> {
        let boundary = plan.boundary_signals[i];
        boundary.producer_partition matches Some(producer) ==> {
            &&& is_assigned(assignments, producer)
            &&& forall|j: int|
                0 <= j < boundary.consumer_partitions.len() ==> is_assigned(
                    assignments,
                    #[trigger] boundary.consumer_partitions[j],
                )
        }
    }) by {
        let boundary = plan.boundary_signals[i];
        match boundary.producer_partition {
            Some(producer) => {
                lemma_is_assigned(assignments, producer);
                let h = |j: int|
                    assignment_problem(assignments, boundary.consumer_partitions[j], i);
                lemma_first_problem_none(boundary.consumer_partitions.len(), h);
                assert forall|j: int| 0 <= j < boundary.consumer_partitions.len() implies (is_assigned(
                    assignments,
                    #[trigger] boundary.consumer_partitions[j],
                ) <==> h(j) is None) by {
                    lemma_is_assigned(assignments, boundary.consumer_partitions[j]);
                }
                if g(i) is None {
                    assert forall|j: int| 0 <= j < boundary.consumer_partitions.len() implies is_assigned(
                        assignments,
                        #[trigger] boundary.consumer_partitions[j],
                    ) by {
                        assert(h(j) is None);
                    }
                }
            },
            None => {},
        }
    }
    if communication_problem(plan, placement) is None {
        assert forall|i: int| 0 <= i < plan.boundary_signals.len() implies {
            let boundary = #[trigger] plan.boundary_signals[i];
            boundary.producer_partition matches Some(producer) ==> {
                &&& is_assigned(assignments, producer)
                &&& forall|j: int|
                    0 <= j < boundary.consumer_partitions.len() ==> is_assigned(
                        assignments,
                        #[trigger] boundary.consumer_partitions[j],
                    )
            }
        } by {
            assert(g(i) is None);
        }
    }
}

// ---------------------------------------------------------------------------
// Launches
// ---------------------------------------------------------------------------

/// Whether a route joins two workers that its partitions are on.
pub open spec fn route_holds(
    assignments: Seq<RuntimePartitionAssignmentView>,
    route: RuntimePartitionRouteView,
) -> bool {
    &&& is_on(assignments, route.producer_partition, route.producer_worker)
    &&& is_on(assignments, route.consumer_partition, route.consumer_worker)
}

proof fn lemma_route_holds(
    assignments: Seq<RuntimePartitionAssignmentView>,
    route: RuntimePartitionRouteView,
)
    ensures
        bundle_route_problem(assignments, route) is None <==> route_holds(assignments, route),
{
    lemma_is_on(assignments, route.producer_partition, route.producer_worker);
    lemma_is_on(assignments, route.consumer_partition, route.consumer_worker);
}

/// Plans are bundled if they are of the same module and every route joins the workers that its
/// partitions are on, and a bundle of them is read again.
pub proof fn lemma_plans_are_accepted(bundle: RuntimePartitionBundleView)
    requires
        partition_bundle_version_problem(bundle.format_version) is None,
        partition_plan_version_problem(bundle.partition_plan.format_version) is None,
        partition_placement_plan_version_problem(bundle.placement_plan.format_version) is None,
        partition_communication_plan_version_problem(bundle.communication_plan.format_version)
            is None,
    ensures
        ({
            let plan = bundle.partition_plan;
            let placement = bundle.placement_plan;
            let communication = bundle.communication_plan;
            let sound = {
                &&& plan.module_name == placement.module_name
                &&& plan.module_name == communication.module_name
                &&& forall|r: int|
                    0 <= r < communication.routes.len() ==> route_holds(
                        placement.assignments,
                        #[trigger] communication.routes[r],
                    )
            };
            &&& plans_problem(plan, placement, communication) is None <==> sound
            &&& bundle_problem(bundle) is None <==> sound
        }),
{
    let assignments = bundle.placement_plan.assignments;
    let routes = bundle.communication_plan.routes;
    let g = |r: int| bundle_route_problem(assignments, routes[r]);
    lemma_first_problem_none(routes.len(), g);
    assert forall|r: int| 0 <= r < routes.len() implies ((#[trigger] g(r)) is None <==> route_holds(
        assignments,
        routes[r],
    )) by {
        lemma_route_holds(assignments, routes[r]);
    }
    if first_problem(routes.len(), g) is None {
        assert forall|r: int| 0 <= r < routes.len() implies route_holds(
            assignments,
            #[trigger] routes[r],
        ) by {
            assert(g(r) is None);
        }
    }
}

/// Whether a partition is in a plan.
pub open spec fn is_planned(partitions: Seq<RuntimePartitionView>, id: Seq<char>) -> bool {
    exists|p: int| 0 <= p < partitions.len() && (#[trigger] partitions[p]).id == id
}

/// Whether a worker is in a topology.
pub open spec fn is_worker(workers: Seq<RuntimeWorkerView>, id: Seq<char>) -> bool {
    exists|w: int| 0 <= w < workers.len() && (#[trigger] workers[w]).id == id
}

proof fn lemma_is_worker(workers: Seq<RuntimeWorkerView>, id: Seq<char>)
    ensures
        last_named::<RuntimeWorker>(
            sorted_by_key::<RuntimeWorker, WorkerOrder>(workers),
            id,
        ) is Some <==> is_worker(workers, id),
{
    let order = sorted_by_key::<RuntimeWorker, WorkerOrder>(workers);
    lemma_last_named::<RuntimeWorker>(order, id);
    if is_worker(workers, id) {
        let w = choose|w: int| 0 <= w < workers.len() && (#[trigger] workers[w]).id == id;
        lemma_sorted_by_key_contains::<RuntimeWorker, WorkerOrder>(workers, workers[w]);
        assert(workers.contains(workers[w]));
        let x = choose|x: int| 0 <= x < order.len() && order[x] == workers[w];
        assert(RuntimeWorker::name_of(order[x]) == id);
    }
    if last_named::<RuntimeWorker>(order, id) is Some {
        let x = last_named::<RuntimeWorker>(order, id)->0;
        assert(order.contains(order[x]));
        lemma_sorted_by_key_contains::<RuntimeWorker, WorkerOrder>(workers, order[x]);
        let w = choose|w: int| 0 <= w < workers.len() && workers[w] == order[x];
        assert(workers[w].id == id);
    }
}

/// A bundle is launched if its plans are of the same module, every assignment is of a planned
/// partition to a worker of the topology, and every route joins workers of the topology that its
/// partitions are on.
pub proof fn lemma_bundle_is_launched(bundle: RuntimePartitionBundleView)
    requires
        partition_bundle_version_problem(bundle.format_version) is None,
        partition_plan_version_problem(bundle.partition_plan.format_version) is None,
        partition_placement_plan_version_problem(bundle.placement_plan.format_version) is None,
        partition_communication_plan_version_problem(bundle.communication_plan.format_version)
            is None,
    ensures
        launch_problem(bundle) is None <==> {
            let assignments = bundle.placement_plan.assignments;
            let workers = bundle.placement_plan.topology.workers;
            let routes = bundle.communication_plan.routes;
            &&& bundle.partition_plan.module_name == bundle.placement_plan.module_name
            &&& bundle.partition_plan.module_name == bundle.communication_plan.module_name
            &&& forall|x: int|
                0 <= x < assignments.len() ==> is_planned(
                    bundle.partition_plan.partitions,
                    (#[trigger] assignments[x]).partition_id,
                ) && is_worker(workers, assignments[x].worker_id)
            &&& forall|r: int|
                0 <= r < routes.len() ==> route_holds(assignments, #[trigger] routes[r])
                    && is_worker(workers, routes[r].producer_worker) && is_worker(
                    workers,
                    routes[r].consumer_worker,
                )
        },
{
    let partitions = bundle.partition_plan.partitions;
    let assignments = bundle.placement_plan.assignments;
    let workers = bundle.placement_plan.topology.workers;
    let routes = bundle.communication_plan.routes;
    let sorted = launch_assignments(bundle);
    let order = launch_order(bundle);
    let f = |x: int| launch_assignment_problem(partitions, order, sorted[x]);
    let g = |r: int| launch_route_problem(assignments, order, routes[r], r);
    lemma_first_problem_none(sorted.len(), f);
    lemma_first_problem_none(routes.len(), g);
    assert forall|x: int| 0 <= x < sorted.len() implies ((#[trigger] f(x)) is None <==> is_planned(
        partitions,
        sorted[x].partition_id,
    ) && is_worker(workers, sorted[x].worker_id)) by {
        lemma_last_named::<RuntimePartition>(partitions, sorted[x].partition_id);
        lemma_is_worker(workers, sorted[x].worker_id);
    }
    assert forall|r: int| 0 <= r < routes.len() implies ((#[trigger] g(r)) is None <==> route_holds(
        assignments,
        routes[r],
    ) && is_worker(workers, routes[r].producer_worker) && is_worker(
        workers,
        routes[r].consumer_worker,
    )) by {
        lemma_is_on(assignments, routes[r].producer_partition, routes[r].producer_worker);
        lemma_is_on(assignments, routes[r].consumer_partition, routes[r].consumer_worker);
        lemma_is_worker(workers, routes[r].producer_worker);
        lemma_is_worker(workers, routes[r].consumer_worker);
    }
    if launch_problem(bundle) is None {
        assert forall|x: int| 0 <= x < assignments.len() implies is_planned(
            partitions,
            (#[trigger] assignments[x]).partition_id,
        ) && is_worker(workers, assignments[x].worker_id) by {
            assert(assignments.contains(assignments[x]));
            lemma_sorted_by_key_contains::<RuntimePartitionAssignment, AssignmentOrder>(
                assignments,
                assignments[x],
            );
            let y = choose|y: int| 0 <= y < sorted.len() && sorted[y] == assignments[x];
            assert(f(y) is None);
        }
        assert forall|r: int| 0 <= r < routes.len() implies route_holds(
            assignments,
            #[trigger] routes[r],
        ) && is_worker(workers, routes[r].producer_worker) && is_worker(
            workers,
            routes[r].consumer_worker,
        ) by {
            assert(g(r) is None);
        }
    }
    if forall|x: int|
        0 <= x < assignments.len() ==> is_planned(
            partitions,
            (#[trigger] assignments[x]).partition_id,
        ) && is_worker(workers, assignments[x].worker_id) {
        assert forall|y: int| 0 <= y < sorted.len() implies (#[trigger] f(y)) is None by {
            assert(sorted.contains(sorted[y]));
            lemma_sorted_by_key_contains::<RuntimePartitionAssignment, AssignmentOrder>(
                assignments,
                sorted[y],
            );
            let x = choose|x: int| 0 <= x < assignments.len() && assignments[x] == sorted[y];
            assert(is_planned(partitions, assignments[x].partition_id));
        }
    }
}

/// A launch plan is deployed if no worker has the id of another, and to workers in this process if
/// none of them is taken.
pub proof fn lemma_launch_is_accepted(
    launch: RuntimePartitionLaunchPlanView,
    service: LocalRuntimeWorkerServiceView,
)
    requires
        partition_launch_plan_version_problem(launch.format_version) is None,
    ensures
        deployment_launch_problem(launch) is None <==> forall|i: int, j: int|
            0 <= i < j < launch.workers.len() ==> (#[trigger] launch.workers[i]).worker_id != (
            #[trigger] launch.workers[j]).worker_id,
        local_deployment_problem(launch, service) is None <==> {
            &&& deployment_launch_problem(launch) is None
            &&& forall|i: int|
                0 <= i < launch.workers.len() ==> !service.partition_workers.dom().contains(
                    (#[trigger] launch.workers[i]).worker_id,
                )
        },
{
    let workers = launch.workers;
    let g = |i: int| repeated_launch_problem(workers, i);
    lemma_first_problem_none(workers.len(), g);
    if deployment_launch_problem(launch) is None {
        assert forall|i: int, j: int| 0 <= i < j < workers.len() implies (
        #[trigger] workers[i]).worker_id != (#[trigger] workers[j]).worker_id by {
            assert(g(j) is None);
            assert(RuntimePartitionWorkerLaunch::name_of(workers[i])
                != RuntimePartitionWorkerLaunch::name_of(workers[j]));
        }
    }
    if forall|i: int, j: int|
        0 <= i < j < workers.len() ==> (#[trigger] workers[i]).worker_id != (
        #[trigger] workers[j]).worker_id {
        assert forall|j: int| 0 <= j < workers.len() implies (#[trigger] g(j)) is None by {
            assert(!repeats_name::<RuntimePartitionWorkerLaunch>(workers, j));
        }
    }
    let p = is_taken(service, workers);
    lemma_first_index(workers.len(), p);
    if local_deployment_problem(launch, service) is None {
        assert forall|i: int|
            0 <= i < workers.len() implies !service.partition_workers.dom().contains(
            (#[trigger] workers[i]).worker_id,
        ) by {
            assert(!p(i));
        }
    }
}

// ---------------------------------------------------------------------------
// Surrogate plans
// ---------------------------------------------------------------------------

/// Whether shards own lanes and are of different workers.
pub open spec fn shards_differ(shards: Seq<RuntimeShardInfoView>) -> bool {
    &&& forall|i: int| 0 <= i < shards.len() ==> (#[trigger] shards[i]).lanes > 0
    &&& forall|i: int, j: int|
        0 <= i < j < shards.len() ==> (#[trigger] shards[i]).worker_id != (
        #[trigger] shards[j]).worker_id
}

/// Whether the workers of a plan are those of the shards, lane for lane.
pub open spec fn workers_match(
    shards: Seq<RuntimeShardInfoView>,
    workers: Seq<GemmRuntimeWorkerSummary>,
) -> bool {
    &&& workers.len() == shards.len()
    &&& forall|i: int| 0 <= i < workers.len() ==> has_shard(shards, #[trigger] workers[i])
    &&& forall|i: int, j: int|
        0 <= i < j < workers.len() ==> (#[trigger] workers[i]).worker_id@ != (
        #[trigger] workers[j]).worker_id@
}

/// Whether a worker of a plan has a shard with the same lanes.
pub open spec fn has_shard(
    shards: Seq<RuntimeShardInfoView>,
    worker: GemmRuntimeWorkerSummary,
) -> bool {
    exists|k: int|
        0 <= k < shards.len() && (#[trigger] shards[k]).worker_id == worker.worker_id@
            && shards[k].start_lane == worker.start_lane && shards[k].lanes == worker.lanes
}

/// Whether the worker of an item owns its lane.
pub open spec fn lane_is_owned(
    shards: Seq<RuntimeShardInfoView>,
    item: RuntimeSurrogateItemAttachmentView,
) -> bool {
    exists|k: int|
        0 <= k < shards.len() && (#[trigger] shards[k]).worker_id == item.worker_id
            && shards[k].start_lane <= item.lane < shards[k].start_lane + shards[k].lanes
}

/// Whether a worker of a plan counts its items as they are.
pub open spec fn counts_items(
    worker: GemmRuntimeWorkerSummary,
    items: Seq<RuntimeSurrogateItemAttachmentView>,
) -> bool {
    let id = worker.worker_id@;
    &&& worker.assigned_items == count_if(
        items,
        |x: RuntimeSurrogateItemAttachmentView| x.worker_id == id,
    )
    &&& worker.used_surrogate == count_if(
        items,
        |x: RuntimeSurrogateItemAttachmentView|
            x.worker_id == id && x.source_result == GemmRuntimeSourceResult::Surrogate,
    )
    &&& worker.exact_fallbacks == count_if(
        items,
        |x: RuntimeSurrogateItemAttachmentView|
            x.worker_id == id && x.source_result == GemmRuntimeSourceResult::Exact,
    )
}

proof fn lemma_shards_differ(shards: Seq<RuntimeShardInfoView>)
    ensures
        shards_problem(shards) is None <==> shards_differ(shards),
{
    let g = |i: int| shard_problem(shards, i);
    lemma_first_problem_none(shards.len(), g);
    if shards_problem(shards) is None {
        assert forall|i: int| 0 <= i < shards.len() implies (#[trigger] shards[i]).lanes > 0 by {
            assert(g(i) is None);
        }
        assert forall|i: int, j: int| 0 <= i < j < shards.len() implies (
        #[trigger] shards[i]).worker_id != (#[trigger] shards[j]).worker_id by {
            assert(g(j) is None);
            lemma_find_shard(shards.take(j), shards[j].worker_id);
            assert(shards.take(j)[i] == shards[i]);
        }
    }
    if shards_differ(shards) {
        assert forall|j: int| 0 <= j < shards.len() implies (#[trigger] g(j)) is None by {
            lemma_find_shard(shards.take(j), shards[j].worker_id);
            if find_shard(shards.take(j), shards[j].worker_id) is Some {
                let i = find_shard(shards.take(j), shards[j].worker_id)->0;
                assert(shards.take(j)[i] == shards[i]);
            }
        }
    }
}

proof fn lemma_workers_match(
    label: Seq<char>,
    shards: Seq<RuntimeShardInfoView>,
    workers: Seq<GemmRuntimeWorkerSummary>,
)
    requires
        shards_differ(shards),
        workers.len() == shards.len(),
    ensures
        plan_workers_problem(label, shards, workers) is None <==> workers_match(shards, workers),
{
    let g = |i: int| plan_worker_problem(label, shards, workers, i);
    lemma_first_problem_none(workers.len(), g);
    if plan_workers_problem(label, shards, workers) is None {
        assert forall|i: int| 0 <= i < workers.len() implies has_shard(
            shards,
            #[trigger] workers[i],
        ) by {
            assert(g(i) is None);
            lemma_find_shard(shards, workers[i].worker_id@);
            let k = find_shard(shards, workers[i].worker_id@)->0;
            assert(shards[k].worker_id == workers[i].worker_id@);
        }
        assert forall|i: int, j: int| 0 <= i < j < workers.len() implies (
        #[trigger] workers[i]).worker_id@ != (#[trigger] workers[j]).worker_id@ by {
            assert(g(j) is None);
            let id = workers[j].worker_id@;
            let before = workers.take(j);
            lemma_first_index(before.len(), is_summary_of(before, id));
            assert(before[i] == workers[i]);
            assert(!is_summary_of(before, id)(i));
        }
    }
    if workers_match(shards, workers) {
        assert forall|j: int| 0 <= j < workers.len() implies (#[trigger] g(j)) is None by {
            let id = workers[j].worker_id@;
            assert(has_shard(shards, workers[j]));
            let k = choose|k: int|
                0 <= k < shards.len() && (#[trigger] shards[k]).worker_id == id
                    && shards[k].start_lane == workers[j].start_lane && shards[k].lanes
                    == workers[j].lanes;
            lemma_find_shard(shards, id);
            let f = find_shard(shards, id)->0;
            assert(shards[f].worker_id == shards[k].worker_id);
            assert(f == k);
            let before = workers.take(j);
            lemma_first_index(before.len(), is_summary_of(before, id));
            if find_summary(before, id) is Some {
                let i = find_summary(before, id)->0;
                assert(before[i] == workers[i]);
                assert(is_summary_of(before, id)(i));
            }
        }
    }
}

proof fn lemma_lane_is_owned(
    label: Seq<char>,
    shards: Seq<RuntimeShardInfoView>,
    item: RuntimeSurrogateItemAttachmentView,
)
    requires
        shards_differ(shards),
    ensures
        item_problem(label, shards, item) is None <==> lane_is_owned(shards, item),
{
    lemma_find_shard(shards, item.worker_id);
    if lane_is_owned(shards, item) {
        let k = choose|k: int|
            0 <= k < shards.len() && (#[trigger] shards[k]).worker_id == item.worker_id
                && shards[k].start_lane <= item.lane < shards[k].start_lane + shards[k].lanes;
        let f = find_shard(shards, item.worker_id)->0;
        assert(shards[f].worker_id == shards[k].worker_id);
        assert(f == k);
    }
}

proof fn lemma_counts_items(
    worker: GemmRuntimeWorkerSummary,
    items: Seq<RuntimeSurrogateItemAttachmentView>,
)
    ensures
        summary_counts_match(worker, items, worker.worker_id@) <==> counts_items(worker, items),
{
    let id = worker.worker_id@;
    let s = is_from(GemmRuntimeSourceResult::Surrogate);
    let e = is_from(GemmRuntimeSourceResult::Exact);
    lemma_count_if_same(
        items,
        |x: RuntimeSurrogateItemAttachmentView| x.worker_id == id && is_any()(x),
        |x: RuntimeSurrogateItemAttachmentView| x.worker_id == id,
    );
    lemma_count_if_same(
        items,
        |x: RuntimeSurrogateItemAttachmentView| x.worker_id == id && s(x),
        |x: RuntimeSurrogateItemAttachmentView|
            x.worker_id == id && x.source_result == GemmRuntimeSourceResult::Surrogate,
    );
    lemma_count_if_same(
        items,
        |x: RuntimeSurrogateItemAttachmentView| x.worker_id == id && e(x),
        |x: RuntimeSurrogateItemAttachmentView|
            x.worker_id == id && x.source_result == GemmRuntimeSourceResult::Exact,
    );
    assert(worker_count(items, id, is_any()) == count_if(
        items,
        |x: RuntimeSurrogateItemAttachmentView| x.worker_id == id && is_any()(x),
    ));
    assert(worker_count(items, id, s) == count_if(
        items,
        |x: RuntimeSurrogateItemAttachmentView| x.worker_id == id && s(x),
    ));
    assert(worker_count(items, id, e) == count_if(
        items,
        |x: RuntimeSurrogateItemAttachmentView| x.worker_id == id && e(x),
    ));
}

/// Whether every shard has a worker in a plan that counts its items as they are.
pub open spec fn shards_are_counted(
    shards: Seq<RuntimeShardInfoView>,
    workers: Seq<GemmRuntimeWorkerSummary>,
    items: Seq<RuntimeSurrogateItemAttachmentView>,
) -> bool {
    forall|i: int| 0 <= i < shards.len() ==> is_counted(#[trigger] shards[i], workers, items)
}

/// Whether a shard has a worker in a plan that counts its items as they are.
pub open spec fn is_counted(
    shard: RuntimeShardInfoView,
    workers: Seq<GemmRuntimeWorkerSummary>,
    items: Seq<RuntimeSurrogateItemAttachmentView>,
) -> bool {
    exists|k: int|
        0 <= k < workers.len() && (#[trigger] workers[k]).worker_id@ == shard.worker_id
            && counts_items(workers[k], items)
}

proof fn lemma_shards_are_counted(
    label: Seq<char>,
    shards: Seq<RuntimeShardInfoView>,
    workers: Seq<GemmRuntimeWorkerSummary>,
    items: Seq<RuntimeSurrogateItemAttachmentView>,
)
    requires
        workers_match(shards, workers),
    ensures
        summaries_problem(label, shards, workers, items) is None <==> shards_are_counted(
            shards,
            workers,
            items,
        ),
{
    let g = |i: int| summary_problem(label, shards, workers, items, i);
    lemma_first_problem_none(shards.len(), g);
    assert forall|i: int| 0 <= i < shards.len() implies ((#[trigger] g(i)) is None <==> is_counted(
        shards[i],
        workers,
        items,
    )) by {
        let id = shards[i].worker_id;
        lemma_first_index(workers.len(), is_summary_of(workers, id));
        if find_summary(workers, id) is Some {
            let k = find_summary(workers, id)->0;
            assert(is_summary_of(workers, id)(k));
            lemma_counts_items(workers[k], items);
            if is_counted(shards[i], workers, items) {
                let x = choose|x: int|
                    0 <= x < workers.len() && (#[trigger] workers[x]).worker_id@ == id
                        && counts_items(workers[x], items);
                assert(workers[x].worker_id@ == workers[k].worker_id@);
                assert(x == k);
            }
        } else {
            assert forall|x: int| 0 <= x < workers.len() implies (
            #[trigger] workers[x]).worker_id@ != id by {
                assert(!is_summary_of(workers, id)(x));
            }
        }
    }
    if summaries_problem(label, shards, workers, items) is None {
        assert forall|i: int| 0 <= i < shards.len() implies is_counted(
            #[trigger] shards[i],
            workers,
            items,
        ) by {
            assert(g(i) is None);
        }
    }
}

/// An event plan is attached if it is sound in itself, its workers are those of the shards, each
/// item is on a lane of its worker and marked by where it comes from, and all items are counted.
pub proof fn lemma_event_plan_is_accepted(
    shards: Seq<RuntimeShardInfoView>,
    plan: EventRuntimePlan,
)
    ensures
        event_plan_problem(shards, plan) is None <==> {
            let items = event_items(plan);
            &&& plan.schema@ == EVENT_RUNTIME_PLAN_SCHEMA@
            &&& plan.ok
            &&& plan.errors@.len() == 0
            &&& plan.total_lanes == sum_by(shards, |s: RuntimeShardInfoView| s.lanes as int)
            &&& shards_differ(shards)
            &&& workers_match(shards, plan.workers@)
            &&& forall|i: int|
                0 <= i < items.len() ==> lane_is_owned(shards, #[trigger] items[i])
                    && !(items[i].source_result == GemmRuntimeSourceResult::Surrogate
                    && items[i].exact) && !(items[i].source_result
                    == GemmRuntimeSourceResult::Exact && !items[i].exact)
            &&& shards_are_counted(shards, plan.workers@, items)
        },
{
    let items = event_items(plan);
    lemma_shards_differ(shards);
    if shards_differ(shards) && plan.workers@.len() == shards.len() {
        lemma_workers_match("event"@, shards, plan.workers@);
        let g = |i: int| event_item_problem(shards, event_items(plan)[i]);
        lemma_first_problem_none(plan.items@.len(), g);
        assert forall|i: int| 0 <= i < items.len() implies ((#[trigger] g(i)) is None <==> (
        lane_is_owned(shards, items[i]) && !(items[i].source_result
            == GemmRuntimeSourceResult::Surrogate && items[i].exact) && !(items[i].source_result
            == GemmRuntimeSourceResult::Exact && !items[i].exact))) by {
            lemma_lane_is_owned("event"@, shards, items[i]);
        }
        if first_problem(plan.items@.len(), g) is None {
            assert forall|i: int| 0 <= i < items.len() implies lane_is_owned(
                shards,
                #[trigger] items[i],
            ) && !(items[i].source_result == GemmRuntimeSourceResult::Surrogate && items[i].exact)
                && !(items[i].source_result == GemmRuntimeSourceResult::Exact && !items[i].exact) by {
                assert(g(i) is None);
            }
        }
        if workers_match(shards, plan.workers@) {
            lemma_shards_are_counted("event"@, shards, plan.workers@, items);
        }
    }
}

/// A GEMM plan is attached if it is sound in itself, its workers are those of the shards, each item
/// is on a lane of its worker, and all items are counted.
pub proof fn lemma_gemm_plan_is_accepted(shards: Seq<RuntimeShardInfoView>, plan: GemmRuntimePlan)
    ensures
        gemm_plan_problem(shards, plan) is None <==> {
            let items = gemm_items(plan);
            &&& plan.schema@ == GEMM_RUNTIME_PLAN_SCHEMA@
            &&& plan.ok
            &&& plan.errors@.len() == 0
            &&& plan.total_lanes == sum_by(shards, |s: RuntimeShardInfoView| s.lanes as int)
            &&& shards_differ(shards)
            &&& workers_match(shards, plan.workers@)
            &&& forall|i: int| 0 <= i < items.len() ==> lane_is_owned(shards, #[trigger] items[i])
            &&& shards_are_counted(shards, plan.workers@, items)
        },
{
    let items = gemm_items(plan);
    lemma_shards_differ(shards);
    if shards_differ(shards) && plan.workers@.len() == shards.len() {
        lemma_workers_match("surrogate"@, shards, plan.workers@);
        let g = |i: int| item_problem("surrogate"@, shards, gemm_items(plan)[i]);
        lemma_first_problem_none(plan.items@.len(), g);
        assert forall|i: int| 0 <= i < items.len() implies ((#[trigger] g(i)) is None
            <==> lane_is_owned(shards, items[i])) by {
            lemma_lane_is_owned("surrogate"@, shards, items[i]);
        }
        if first_problem(plan.items@.len(), g) is None {
            assert forall|i: int| 0 <= i < items.len() implies lane_is_owned(
                shards,
                #[trigger] items[i],
            ) by {
                assert(g(i) is None);
            }
        }
        if workers_match(shards, plan.workers@) {
            lemma_shards_are_counted("surrogate"@, shards, plan.workers@, items);
        }
    }
}

} // verus!

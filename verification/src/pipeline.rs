//! From a design to a bundle: partitions, placement and communication in one go.
//!
//! The laws below say how the stages fit together: what one stage plans, the next
//! accepts.

use vstd::prelude::*;

use crate::bundle::{
    bundle_of, bundle_problem, bundle_route_problem, plans_problem,
};
use crate::collect::{concat_below, gather, lemma_concat_contains, lemma_gather_contains};
use crate::communication::{
    assignment_of, assignment_problem, boundary_problem, communication_plan,
    communication_problem, lemma_planned_route_crosses, plan_runtime_partition_communication,
    planned_routes, route_bits,
};
use crate::error::{fails_with, ErrorReport, ErrorReportView};
use crate::hierarchy::{hierarchy_ends, module_named};
use crate::ids::{last_named, lemma_last_named};
use crate::launch::{
    launch_assignment_problem, launch_assignments, launch_order, launch_problem,
    launch_route_problem, AssignmentOrder, WorkerOrder,
};
use crate::model::design::CompiledDesign;
use crate::model::launch::{RuntimePartitionBundle, RuntimePartitionBundleView};
use crate::model::partition::{
    RuntimePartition, RuntimePartitionBoundarySignal, RuntimePartitionConfig,
    RuntimePartitionPlanView, RuntimePartitionView,
};
use crate::model::placement::{
    RuntimePartitionAssignment, RuntimePartitionAssignmentView, RuntimePartitionPlacementPlanView,
};
use crate::model::topology::{
    RuntimeTopology, RuntimeTopologyView, RuntimeWorker, RuntimeWorkerView,
};
use crate::order::{lemma_sorted_by_key, lemma_sorted_by_key_contains};
use crate::partitions::{
    boundary_consumers, boundary_producer, connection_boundary, is_at_path, module_at,
    partition_at_path, partition_plan, partition_plan_fits, partition_plan_problem,
    plan_runtime_partitions, region_boundaries, ByPort,
};
use crate::placement::{
    assigned_to, assignments_made, chosen_worker, compatible, has_cpu, is_best_worker,
    lemma_placing_keeps_workers, loads_after, placed_assignments, placement_fits, placement_order,
    placement_plan, placement_problem, plan_runtime_partition_placement, PlacementOrder,
};
use crate::regions::{instance_named, planned_regions};
use crate::seqs::{last_index, lemma_first_problem_none, lemma_last_index, or_problem};

verus! {

// ---------------------------------------------------------------------------
// Placement
// ---------------------------------------------------------------------------

/// Whether an assignment puts a partition of a plan on a worker of a topology that
/// may take it.
pub open spec fn places(
    assignment: RuntimePartitionAssignmentView,
    partition: RuntimePartitionView,
    worker: RuntimeWorkerView,
    workers: Seq<RuntimeWorkerView>,
) -> bool {
    assignment == assigned_to(partition, worker) && compatible(
        worker.backend,
        partition,
        has_cpu(workers),
    )
}

/// Every assignment of a placement puts a partition of the plan on a worker of the
/// topology. Where there is a CPU worker, external partitions and partitions with
/// memories are not put on a GPU.
pub proof fn lemma_assignment_is_placed(
    plan: RuntimePartitionPlanView,
    workers: Seq<RuntimeWorkerView>,
    x: int,
)
    requires
        0 < workers.len() <= usize::MAX,
        0 <= x < placed_assignments(plan, workers).len(),
    ensures
        exists|i: int, k: int|
            0 <= i < plan.partitions.len() && 0 <= k < workers.len() && #[trigger] places(
                placed_assignments(plan, workers)[x],
                plan.partitions[i],
                workers[k],
                workers,
            ),
{
    let ranked = placement_order(plan);
    let made = assignments_made(workers, ranked);
    let placed = placed_assignments(plan, workers);
    lemma_sorted_by_key::<RuntimePartitionAssignment, AssignmentOrder>(made);
    lemma_sorted_by_key_contains::<RuntimePartitionAssignment, AssignmentOrder>(made, placed[x]);
    assert(placed.contains(placed[x]));
    let y = choose|y: int| 0 <= y < made.len() && made[y] == placed[x];
    lemma_sorted_by_key::<RuntimePartition, PlacementOrder>(plan.partitions);
    lemma_sorted_by_key_contains::<RuntimePartition, PlacementOrder>(plan.partitions, ranked[y]);
    assert(ranked.contains(ranked[y]));
    let i = choose|i: int| 0 <= i < plan.partitions.len() && plan.partitions[i] == ranked[y];
    lemma_placing_keeps_workers(workers, ranked, y as nat);
    let k = chosen_worker(workers, ranked, y);
    let loads = loads_after(workers, ranked, y as nat);
    assert(is_best_worker(loads, ranked[y], has_cpu(workers), k));
    assert(loads[k].backend == workers[k].backend);
    assert(places(placed[x], plan.partitions[i], workers[k], workers));
}

/// Every partition of a plan is assigned, and there are as many assignments as
/// partitions.
pub proof fn lemma_partition_is_assigned(
    plan: RuntimePartitionPlanView,
    workers: Seq<RuntimeWorkerView>,
    i: int,
)
    requires
        0 <= i < plan.partitions.len(),
    ensures
        placed_assignments(plan, workers).len() == plan.partitions.len(),
        exists|x: int|
            0 <= x < placed_assignments(plan, workers).len() && (
            #[trigger] placed_assignments(plan, workers)[x]).partition_id == plan.partitions[i].id,
        assignment_of(placed_assignments(plan, workers), plan.partitions[i].id) is Some,
{
    let ranked = placement_order(plan);
    let made = assignments_made(workers, ranked);
    let placed = placed_assignments(plan, workers);
    lemma_sorted_by_key::<RuntimePartition, PlacementOrder>(plan.partitions);
    lemma_sorted_by_key_contains::<RuntimePartition, PlacementOrder>(
        plan.partitions,
        plan.partitions[i],
    );
    assert(plan.partitions.contains(plan.partitions[i]));
    let y = choose|y: int| 0 <= y < ranked.len() && ranked[y] == plan.partitions[i];
    lemma_sorted_by_key::<RuntimePartitionAssignment, AssignmentOrder>(made);
    lemma_sorted_by_key_contains::<RuntimePartitionAssignment, AssignmentOrder>(made, made[y]);
    assert(made.contains(made[y]));
    let x = choose|x: int| 0 <= x < placed.len() && placed[x] == made[y];
    assert(placed[x].partition_id == plan.partitions[i].id);
    lemma_last_named::<RuntimePartitionAssignment>(placed, plan.partitions[i].id);
}

// ---------------------------------------------------------------------------
// Boundaries
// ---------------------------------------------------------------------------

/// Whether a name is that of a partition of a plan.
pub open spec fn is_partition_id(plan: RuntimePartitionPlanView, name: Seq<char>) -> bool {
    exists|k: int| 0 <= k < plan.partitions.len() && (#[trigger] plan.partitions[k]).id == name
}

/// Whether boundaries speak only of partitions of their plan.
pub open spec fn boundaries_are_closed(plan: RuntimePartitionPlanView) -> bool {
    forall|i: int|
        0 <= i < plan.boundary_signals.len() ==> {
            let boundary = #[trigger] plan.boundary_signals[i];
            &&& boundary.producer_partition is Some ==> is_partition_id(
                plan,
                boundary.producer_partition->0,
            )
            &&& forall|j: int|
                0 <= j < boundary.consumer_partitions.len() ==> is_partition_id(
                    plan,
                    #[trigger] boundary.consumer_partitions[j],
                )
        }
}

/// The boundaries of a planned module speak only of its partitions.
pub proof fn lemma_planned_boundaries_closed(
    design: CompiledDesign,
    module_name: Seq<char>,
    target: int,
)
    ensures
        boundaries_are_closed(partition_plan(design, module_name, target)),
{
    let plan = partition_plan(design, module_name, target);
    let top = module_named(design, module_name)->0;
    let regions = planned_regions(design, top, target);
    let g = |r: int| region_boundaries(design, top, regions, r);
    let all = concat_below(regions.len(), g);
    let sorted = plan.boundary_signals;
    assert forall|k: int| 0 <= k < regions.len() implies is_partition_id(
        plan,
        (#[trigger] regions[k]).id,
    ) by {
        assert(plan.partitions[k].id == regions[k].id);
    }
    assert forall|i: int| 0 <= i < sorted.len() implies {
        let boundary = #[trigger] sorted[i];
        &&& boundary.producer_partition is Some ==> is_partition_id(
            plan,
            boundary.producer_partition->0,
        )
        &&& forall|j: int|
            0 <= j < boundary.consumer_partitions.len() ==> is_partition_id(
                plan,
                #[trigger] boundary.consumer_partitions[j],
            )
    } by {
        let boundary = sorted[i];
        lemma_sorted_by_key_contains::<RuntimePartitionBoundarySignal, ByPort>(all, boundary);
        assert(sorted.contains(boundary));
        lemma_concat_contains(regions.len(), g, boundary);
        let r = choose|r: int| 0 <= r < regions.len() && (#[trigger] g(r)).contains(boundary);
        let path = regions[r].instance_path;
        let m = module_at(design, top, path, (path.len() - 1) as nat)->0;
        let k = instance_named(design, m, path.last())->0;
        let parent = partition_at_path(regions, path.drop_last());
        let h = |c: int| connection_boundary(design, m, k, path, parent, regions[r].id, c);
        let n = design.modules@[m].instances@[k].connections@.len();
        assert(region_boundaries(design, top, regions, r) == gather(n, h));
        lemma_gather_contains(n, h, boundary);
        assert(is_partition_id(plan, regions[r].id));
        lemma_last_index(regions.len(), is_at_path(regions, path.drop_last()));
        if parent is Some {
            let q = last_index(regions.len(), is_at_path(regions, path.drop_last()))->0;
            assert(is_partition_id(plan, regions[q].id));
        }
        let c = choose|c: int| 0 <= c < n && #[trigger] h(c) == Some(boundary);
        let direction = design.modules@[m].instances@[k].connections@[c].direction;
        assert(boundary.consumer_partitions == boundary_consumers(
            direction,
            parent,
            regions[r].id,
        ));
        assert(boundary.producer_partition == boundary_producer(direction, parent, regions[r].id));
        assert forall|j: int| 0 <= j < boundary.consumer_partitions.len() implies is_partition_id(
            plan,
            #[trigger] boundary.consumer_partitions[j],
        ) by {}
    }
}

// ---------------------------------------------------------------------------
// The stages fit together
// ---------------------------------------------------------------------------

/// Communication can be planned for every placement of a plan whose boundaries
/// speak only of its partitions.
pub proof fn lemma_placed_plan_communicates(
    plan: RuntimePartitionPlanView,
    topology: RuntimeTopologyView,
)
    requires
        placement_problem(plan, topology) is None,
        boundaries_are_closed(plan),
    ensures
        communication_problem(plan, placement_plan(plan, topology)) is None,
{
    let placed = placed_assignments(plan, topology.workers);
    let check = |i: int| boundary_problem(plan.boundary_signals[i], placed, i);
    assert forall|i: int| 0 <= i < plan.boundary_signals.len() implies (#[trigger] check(i)) is None by {
        let boundary = plan.boundary_signals[i];
        let inner = |j: int| assignment_problem(placed, boundary.consumer_partitions[j], i);
        assert forall|j: int| 0 <= j < boundary.consumer_partitions.len() implies (#[trigger] inner(
            j,
        )) is None by {
            let name = boundary.consumer_partitions[j];
            assert(is_partition_id(plan, name));
            let k = choose|k: int|
                0 <= k < plan.partitions.len() && (#[trigger] plan.partitions[k]).id == name;
            lemma_partition_is_assigned(plan, topology.workers, k);
        }
        lemma_first_problem_none(boundary.consumer_partitions.len(), inner);
        if boundary.producer_partition is Some {
            let name = boundary.producer_partition->0;
            let k = choose|k: int|
                0 <= k < plan.partitions.len() && (#[trigger] plan.partitions[k]).id == name;
            lemma_partition_is_assigned(plan, topology.workers, k);
        }
    }
    lemma_first_problem_none(plan.boundary_signals.len(), check);
}

/// Planned communication agrees with the placement that it was planned for, so
/// the three plans can be bundled.
pub proof fn lemma_planned_communication_bundles(
    plan: RuntimePartitionPlanView,
    placement: RuntimePartitionPlacementPlanView,
)
    requires
        communication_problem(plan, placement) is None,
        plan.boundary_signals.len() <= usize::MAX,
    ensures
        plans_problem(plan, placement, communication_plan(plan, placement)) is None,
        bundle_problem(bundle_of(plan, placement, communication_plan(plan, placement))) is None,
{
    let routes = planned_routes(plan.boundary_signals, placement.assignments);
    let check = |i: int| bundle_route_problem(placement.assignments, routes[i]);
    assert forall|i: int| 0 <= i < routes.len() implies (#[trigger] check(i)) is None by {
        assert(routes.contains(routes[i]));
        lemma_planned_route_crosses(plan.boundary_signals, placement.assignments, routes[i]);
    }
    lemma_first_problem_none(routes.len(), check);
}

/// The bundle of a placed plan can be launched.
pub proof fn lemma_planned_bundle_launches(
    plan: RuntimePartitionPlanView,
    topology: RuntimeTopologyView,
)
    requires
        placement_problem(plan, topology) is None,
        boundaries_are_closed(plan),
        plan.boundary_signals.len() <= usize::MAX,
        topology.workers.len() <= usize::MAX,
    ensures
        ({
            let placement = placement_plan(plan, topology);
            let communication = communication_plan(plan, placement);
            launch_problem(bundle_of(plan, placement, communication)) is None
        }),
{
    let placement = placement_plan(plan, topology);
    let communication = communication_plan(plan, placement);
    let bundle = bundle_of(plan, placement, communication);
    let workers = launch_order(bundle);
    lemma_placed_plan_communicates(plan, topology);
    lemma_planned_communication_bundles(plan, placement);
    lemma_sorted_by_key::<RuntimeWorker, WorkerOrder>(topology.workers);
    let assignments = launch_assignments(bundle);
    lemma_sorted_by_key::<RuntimePartitionAssignment, AssignmentOrder>(placement.assignments);
    let a = |i: int| launch_assignment_problem(plan.partitions, workers, assignments[i]);
    assert forall|i: int| 0 <= i < assignments.len() implies (#[trigger] a(i)) is None by {
        lemma_sorted_by_key_contains::<RuntimePartitionAssignment, AssignmentOrder>(
            placement.assignments,
            assignments[i],
        );
        assert(assignments.contains(assignments[i]));
        let x = choose|x: int|
            0 <= x < placement.assignments.len() && placement.assignments[x] == assignments[i];
        lemma_worker_is_known(plan, topology, x);
        let (p, k) = choose|p: int, k: int|
            0 <= p < plan.partitions.len() && 0 <= k < topology.workers.len() && #[trigger] places(
                placement.assignments[x],
                plan.partitions[p],
                topology.workers[k],
                topology.workers,
            );
        lemma_last_named::<RuntimePartition>(plan.partitions, assignments[i].partition_id);
        assert(plan.partitions[p].id == assignments[i].partition_id);
    }
    lemma_first_problem_none(assignments.len(), a);
    let r = |r: int|
        launch_route_problem(placement.assignments, workers, communication.routes[r], r);
    assert forall|i: int| 0 <= i < communication.routes.len() implies (#[trigger] r(i)) is None by {
        let route = communication.routes[i];
        assert(communication.routes.contains(route));
        lemma_planned_route_crosses(plan.boundary_signals, placement.assignments, route);
        lemma_last_named::<RuntimePartitionAssignment>(
            placement.assignments,
            route.producer_partition,
        );
        lemma_last_named::<RuntimePartitionAssignment>(
            placement.assignments,
            route.consumer_partition,
        );
        let x = last_named::<RuntimePartitionAssignment>(
            placement.assignments,
            route.producer_partition,
        )->0;
        let y = last_named::<RuntimePartitionAssignment>(
            placement.assignments,
            route.consumer_partition,
        )->0;
        lemma_worker_is_known(plan, topology, x);
        lemma_worker_is_known(plan, topology, y);
    }
    lemma_first_problem_none(communication.routes.len(), r);
}

proof fn lemma_worker_is_known(
    plan: RuntimePartitionPlanView,
    topology: RuntimeTopologyView,
    x: int,
)
    requires
        placement_problem(plan, topology) is None,
        topology.workers.len() <= usize::MAX,
        0 <= x < placed_assignments(plan, topology.workers).len(),
    ensures
        exists|p: int, k: int|
            0 <= p < plan.partitions.len() && 0 <= k < topology.workers.len() && #[trigger] places(
                placed_assignments(plan, topology.workers)[x],
                plan.partitions[p],
                topology.workers[k],
                topology.workers,
            ),
        last_named::<RuntimeWorker>(
            crate::order::sorted_by_key::<RuntimeWorker, WorkerOrder>(topology.workers),
            placed_assignments(plan, topology.workers)[x].worker_id,
        ) is Some,
{
    let placed = placed_assignments(plan, topology.workers);
    let sorted = crate::order::sorted_by_key::<RuntimeWorker, WorkerOrder>(topology.workers);
    lemma_assignment_is_placed(plan, topology.workers, x);
    let (p, k) = choose|p: int, k: int|
        0 <= p < plan.partitions.len() && 0 <= k < topology.workers.len() && #[trigger] places(
            placed[x],
            plan.partitions[p],
            topology.workers[k],
            topology.workers,
        );
    lemma_sorted_by_key_contains::<RuntimeWorker, WorkerOrder>(
        topology.workers,
        topology.workers[k],
    );
    assert(topology.workers.contains(topology.workers[k]));
    let y = choose|y: int| 0 <= y < sorted.len() && sorted[y] == topology.workers[k];
    lemma_last_named::<RuntimeWorker>(sorted, placed[x].worker_id);
    assert(sorted[y].id == placed[x].worker_id);
}

// ---------------------------------------------------------------------------
// Planning a bundle
// ---------------------------------------------------------------------------

/// What keeps a module from being bundled: it cannot be cut, or there is no
/// topology to place it on.
pub open spec fn bundle_plan_problem(
    design: CompiledDesign,
    module_name: Seq<char>,
    target: int,
    topology: RuntimeTopologyView,
) -> Option<ErrorReportView> {
    or_problem(
        partition_plan_problem(design, module_name, target),
        placement_problem(partition_plan(design, module_name, target), topology),
    )
}

/// The bundle of a module on a topology.
pub open spec fn planned_bundle(
    design: CompiledDesign,
    module_name: Seq<char>,
    target: int,
    topology: RuntimeTopologyView,
) -> RuntimePartitionBundleView {
    let plan = partition_plan(design, module_name, target);
    let placement = placement_plan(plan, topology);
    bundle_of(plan, placement, communication_plan(plan, placement))
}

/// Whether all sums of a bundle fit in 64 bits.
pub open spec fn bundle_plan_fits(
    design: CompiledDesign,
    module_name: Seq<char>,
    target: int,
    topology: RuntimeTopologyView,
) -> bool {
    let plan = partition_plan(design, module_name, target);
    &&& placement_fits(plan, topology.workers)
    &&& route_bits(
        planned_routes(plan.boundary_signals, placed_assignments(plan, topology.workers)),
    ) <= u64::MAX
}

/// Plans, places and connects the partitions of a module.
pub fn plan_runtime_partition_bundle(
    design: &CompiledDesign,
    module_name: &str,
    config: RuntimePartitionConfig,
    topology: &RuntimeTopology,
) -> (r: Result<RuntimePartitionBundle, ErrorReport>)
    requires
        match module_named(*design, module_name@) {
            Some(top) => hierarchy_ends(*design, top),
            None => true,
        },
        partition_plan_problem(*design, module_name@, config.target_partitions as int) is None
            ==> partition_plan_fits(*design, module_name@, config.target_partitions as int),
        bundle_plan_problem(
            *design,
            module_name@,
            config.target_partitions as int,
            topology.deep_view(),
        ) is None ==> bundle_plan_fits(
            *design,
            module_name@,
            config.target_partitions as int,
            topology.deep_view(),
        ),
    ensures
        fails_with(
            r,
            bundle_plan_problem(
                *design,
                module_name@,
                config.target_partitions as int,
                topology.deep_view(),
            ),
        ),
        r matches Ok(bundle) ==> bundle.deep_view() == planned_bundle(
            *design,
            module_name@,
            config.target_partitions as int,
            topology.deep_view(),
        ),
{
    let partition_plan = plan_runtime_partitions(design, module_name, config)?;
    let placement_plan = plan_runtime_partition_placement(&partition_plan, topology)?;
    proof {
        let plan = partition_plan.deep_view();
        lemma_planned_boundaries_closed(*design, module_name@, config.target_partitions as int);
        lemma_placed_plan_communicates(plan, topology.deep_view());
        assert(plan.boundary_signals.len() == partition_plan.boundary_signals.len());
        lemma_planned_communication_bundles(plan, placement_plan.deep_view());
    }
    let communication_plan = plan_runtime_partition_communication(&partition_plan, &placement_plan)?;
    RuntimePartitionBundle::from_plans(partition_plan, placement_plan, communication_plan)
}

} // verus!

//! What bundles, launches and deployments owe the plans that they put together.

use vstd::prelude::*;

use crate::bundle::bundle_of;
use crate::collect::{gather, lemma_gather_contains};
use crate::communication::lemma_worker_bits_bound;
use crate::conservation::{
    gathered, lemma_sum_by_gather, lemma_sum_by_index, lemma_sum_by_permutation,
};
use crate::cost::{boundary_of, compute_of, costs_fit, memory_of, state_of};
use crate::deployment::{deployment_health_problem, deployment_report};
use crate::ids::{distinct_names, last_named, lemma_last_named, Named};
use crate::launch::{
    assigned_costs, carried_diagnostic, empty_launch_diagnostic, launch_assignment_problem,
    launch_assignments, launch_fits, launch_order, launch_plan, launch_problem,
    launch_route_problem, lemma_route_indexes, AssignmentOrder, WorkerOrder,
};
use crate::model::communication::{
    RuntimePartitionCommunicationPlanView, RuntimePartitionRouteView,
};
use crate::model::launch::{
    RuntimePartitionBundleSource, RuntimePartitionBundleView, RuntimePartitionLaunchPlanView,
    RuntimePartitionWorkerLaunchView,
};
use crate::model::partition::{RuntimePartition, RuntimePartitionCost, RuntimePartitionPlanView};
use crate::model::placement::{
    RuntimePartitionAssignment, RuntimePartitionAssignmentView, RuntimePartitionPlacementPlanView,
};
use crate::model::session::RuntimePartitionWorkerHealthView;
use crate::model::topology::{RuntimeWorker, RuntimeWorkerView};
use crate::order::{lemma_sorted_by_key, lemma_sorted_by_key_contains, sorted_by_key};
use crate::seqs::{
    lemma_first_problem_none, lemma_sum_by_prefix, lemma_sum_by_single, lemma_sum_by_take, sum_by,
};

verus! {

// ---------------------------------------------------------------------------
// Launches
// ---------------------------------------------------------------------------

/// A measure of the routes that start at a worker.
pub open spec fn sent_by(worker: Seq<char>) -> spec_fn(RuntimePartitionRouteView) -> int {
    |x: RuntimePartitionRouteView|
        if x.producer_worker == worker {
            x.bits_per_transfer as int
        } else {
            0
        }
}

/// A measure of the routes that end at a worker.
pub open spec fn received_by(worker: Seq<char>) -> spec_fn(RuntimePartitionRouteView) -> int {
    |x: RuntimePartitionRouteView|
        if x.consumer_worker == worker {
            x.bits_per_transfer as int
        } else {
            0
        }
}

/// A measure of the assignments to a worker.
pub open spec fn given_by(
    worker: Seq<char>,
    f: spec_fn(RuntimePartitionCost) -> int,
) -> spec_fn(RuntimePartitionAssignmentView) -> int {
    |x: RuntimePartitionAssignmentView|
        if x.worker_id == worker {
            f(x.cost)
        } else {
            0
        }
}

/// The worker at a place of a launch plan, where no two workers of the topology share an id.
proof fn lemma_launched_worker(bundle: RuntimePartitionBundleView, k: int) -> (i: int)
    requires
        distinct_names::<RuntimeWorker>(bundle.placement_plan.topology.workers),
        0 <= k < launch_plan(bundle).workers.len(),
    ensures
        0 <= i < bundle.placement_plan.topology.workers.len(),
        launch_order(bundle)[k] == bundle.placement_plan.topology.workers[i],
        last_named::<RuntimeWorker>(launch_order(bundle), launch_order(bundle)[k].id) == Some(k),
{
    let workers = bundle.placement_plan.topology.workers;
    let sorted = launch_order(bundle);
    lemma_sorted_by_key::<RuntimeWorker, WorkerOrder>(workers);
    lemma_sorted_by_key_contains::<RuntimeWorker, WorkerOrder>(workers, sorted[k]);
    assert(sorted.contains(sorted[k]));
    let i = choose|i: int| 0 <= i < workers.len() && workers[i] == sorted[k];
    lemma_last_named::<RuntimeWorker>(sorted, sorted[k].id);
    let l = last_named::<RuntimeWorker>(sorted, sorted[k].id)->0;
    if l != k {
        lemma_sorted_ids_differ(workers, k, l);
    }
    i
}

proof fn lemma_sorted_ids_differ(workers: Seq<RuntimeWorkerView>, k: int, l: int)
    requires
        distinct_names::<RuntimeWorker>(workers),
        0 <= k < l < workers.len(),
    ensures
        sorted_by_key::<RuntimeWorker, WorkerOrder>(workers)[k].id != sorted_by_key::<
            RuntimeWorker,
            WorkerOrder,
        >(workers)[l].id,
{
    let sorted = sorted_by_key::<RuntimeWorker, WorkerOrder>(workers);
    lemma_sorted_by_key::<RuntimeWorker, WorkerOrder>(workers);
    let id = sorted[k].id;
    let one = |w: RuntimeWorkerView|
        if w.id == id {
            1int
        } else {
            0int
        };
    lemma_sum_by_permutation(sorted, workers, one);
    lemma_sorted_by_key_contains::<RuntimeWorker, WorkerOrder>(workers, sorted[k]);
    assert(sorted.contains(sorted[k]));
    let i = choose|i: int| 0 <= i < workers.len() && workers[i] == sorted[k];
    assert forall|j: int| 0 <= j < workers.len() && j != i implies one(#[trigger] workers[j]) == 0 by {
        if j < i {
            assert(RuntimeWorker::name_of(workers[j]) != RuntimeWorker::name_of(workers[i]));
        } else {
            assert(RuntimeWorker::name_of(workers[i]) != RuntimeWorker::name_of(workers[j]));
        }
    }
    lemma_sum_by_single(workers, one, i);
    // The worker counts once, so it stands at one place alone.
    lemma_sum_by_take(sorted, k, one);
    lemma_sum_by_take(sorted, l, one);
    lemma_sum_by_prefix(sorted, 0, k, one);
    lemma_sum_by_prefix(sorted, k + 1, l, one);
    lemma_sum_by_prefix(sorted, l + 1, sorted.len() as int, one);
    assert(sorted.take(sorted.len() as int) =~= sorted);
    assert(sorted.take(0) =~= Seq::empty());
}

/// A worker launches as the topology describes it. It sends the routes that start at it and
/// receives those that end at it, and the bits that it sends and receives are those of these
/// routes.
pub proof fn lemma_launched_worker_has_its_routes(
    bundle: RuntimePartitionBundleView,
    k: int,
    r: usize,
)
    requires
        distinct_names::<RuntimeWorker>(bundle.placement_plan.topology.workers),
        bundle.communication_plan.routes.len() <= usize::MAX,
        launch_fits(bundle),
        0 <= k < launch_plan(bundle).workers.len(),
    ensures
        ({
            let worker = launch_plan(bundle).workers[k];
            let routes = bundle.communication_plan.routes;
            &&& exists|i: int|
                0 <= i < bundle.placement_plan.topology.workers.len() && {
                    let t = #[trigger] bundle.placement_plan.topology.workers[i];
                    t.id == worker.worker_id && t.backend == worker.backend && t.node == worker.node
                }
            &&& worker.outbound_routes.contains(r) <==> r < routes.len()
                && routes[r as int].producer_worker == worker.worker_id
            &&& worker.inbound_routes.contains(r) <==> r < routes.len()
                && routes[r as int].consumer_worker == worker.worker_id
            &&& worker.outbound_bits == sum_by(routes, sent_by(worker.worker_id))
            &&& worker.inbound_bits == sum_by(routes, received_by(worker.worker_id))
            &&& worker.outbound_route_specs.len() == worker.outbound_routes.len()
            &&& worker.inbound_route_specs.len() == worker.inbound_routes.len()
        }),
{
    let routes = bundle.communication_plan.routes;
    let i = lemma_launched_worker(bundle, k);
    let id = launch_order(bundle)[k].id;
    let t = bundle.placement_plan.topology.workers[i];
    assert(t.id == id);
    lemma_route_indexes(routes, id, r);
    lemma_worker_bits_bound(routes, id);
    lemma_sum_by_index(
        routes,
        sent_by(id),
        |x: int|
            if routes[x].producer_worker == id {
                routes[x].bits_per_transfer as int
            } else {
                0
            },
    );
    lemma_sum_by_index(
        routes,
        received_by(id),
        |x: int|
            if routes[x].consumer_worker == id {
                routes[x].bits_per_transfer as int
            } else {
                0
            },
    );
}

proof fn lemma_costs_given(
    assignments: Seq<RuntimePartitionAssignmentView>,
    sorted: Seq<RuntimePartitionAssignmentView>,
    worker: Seq<char>,
    f: spec_fn(RuntimePartitionCost) -> int,
)
    requires
        sorted.to_multiset() == assignments.to_multiset(),
    ensures
        sum_by(assigned_costs(sorted, worker), f) == sum_by(assignments, given_by(worker, f)),
{
    let g = |i: int|
        if sorted[i].worker_id == worker {
            Some(sorted[i].cost)
        } else {
            None
        };
    lemma_sum_by_gather(sorted.len(), g, f);
    lemma_sum_by_index(sorted, given_by(worker, f), gathered(g, f));
    lemma_sum_by_permutation(sorted, assignments, given_by(worker, f));
}

/// What a worker launches costs what the partitions that are assigned to it cost together, in each
/// of the four numbers.
pub proof fn lemma_launched_worker_cost(bundle: RuntimePartitionBundleView, k: int)
    requires
        distinct_names::<RuntimeWorker>(bundle.placement_plan.topology.workers),
        launch_fits(bundle),
        0 <= k < launch_plan(bundle).workers.len(),
    ensures
        ({
            let worker = launch_plan(bundle).workers[k];
            let assignments = bundle.placement_plan.assignments;
            let id = worker.worker_id;
            &&& worker.cost.compute_ops == sum_by(
                assignments,
                given_by(id, |c: RuntimePartitionCost| c.compute_ops as int),
            )
            &&& worker.cost.state_bits == sum_by(
                assignments,
                given_by(id, |c: RuntimePartitionCost| c.state_bits as int),
            )
            &&& worker.cost.memory_bits == sum_by(
                assignments,
                given_by(id, |c: RuntimePartitionCost| c.memory_bits as int),
            )
            &&& worker.cost.boundary_bits == sum_by(
                assignments,
                given_by(id, |c: RuntimePartitionCost| c.boundary_bits as int),
            )
        }),
{
    let assignments = bundle.placement_plan.assignments;
    let sorted = launch_assignments(bundle);
    let i = lemma_launched_worker(bundle, k);
    let id = launch_order(bundle)[k].id;
    assert(bundle.placement_plan.topology.workers[i].id == id);
    lemma_sorted_by_key::<RuntimePartitionAssignment, AssignmentOrder>(assignments);
    let costs = assigned_costs(sorted, id);
    assert(costs_fit(costs));
    lemma_costs_given(assignments, sorted, id, compute_of());
    lemma_costs_given(assignments, sorted, id, state_of());
    lemma_costs_given(assignments, sorted, id, memory_of());
    lemma_costs_given(assignments, sorted, id, boundary_of());
    lemma_sum_by_prefix(costs, 0, costs.len() as int, compute_of());
    lemma_sum_by_prefix(costs, 0, costs.len() as int, state_of());
    lemma_sum_by_prefix(costs, 0, costs.len() as int, memory_of());
    lemma_sum_by_prefix(costs, 0, costs.len() as int, boundary_of());
    assert(costs.take(costs.len() as int) =~= costs);
    assert(compute_of() =~= (|c: RuntimePartitionCost| c.compute_ops as int));
    assert(state_of() =~= (|c: RuntimePartitionCost| c.state_bits as int));
    assert(memory_of() =~= (|c: RuntimePartitionCost| c.memory_bits as int));
    assert(boundary_of() =~= (|c: RuntimePartitionCost| c.boundary_bits as int));
}

/// A launched route is the route of the communication plan with its number.
pub proof fn lemma_launched_route_is_planned(bundle: RuntimePartitionBundleView, r: int)
    requires
        0 <= r < bundle.communication_plan.routes.len() <= usize::MAX,
    ensures
        ({
            let launched = launch_plan(bundle).routes[r];
            let route = bundle.communication_plan.routes[r];
            &&& launch_plan(bundle).routes.len() == bundle.communication_plan.routes.len()
            &&& launched.route_index == r
            &&& launched.boundary_index == route.boundary_index
            &&& launched.signal == route.signal
            &&& launched.port_name == route.port_name
            &&& launched.instance_path == route.instance_path
            &&& launched.producer_partition == route.producer_partition
            &&& launched.producer_worker == route.producer_worker
            &&& launched.consumer_partition == route.consumer_partition
            &&& launched.consumer_worker == route.consumer_worker
            &&& launched.width == route.width
            &&& launched.bits_per_transfer == route.bits_per_transfer
        }),
{
}

/// A bundle that can be launched assigns partitions of its plan to workers of its topology, and
/// its routes run between the workers that their partitions are assigned to.
pub proof fn lemma_launchable_bundle_is_consistent(
    bundle: RuntimePartitionBundleView,
    i: int,
    r: int,
)
    requires
        launch_problem(bundle) is None,
        distinct_names::<RuntimePartitionAssignment>(bundle.placement_plan.assignments),
        0 <= i < bundle.placement_plan.assignments.len(),
        0 <= r < bundle.communication_plan.routes.len(),
    ensures
        ({
            let assignments = bundle.placement_plan.assignments;
            let route = bundle.communication_plan.routes[r];
            &&& exists|p: int|
                0 <= p < bundle.partition_plan.partitions.len() && (
                #[trigger] bundle.partition_plan.partitions[p]).id == assignments[i].partition_id
            &&& exists|w: int|
                0 <= w < bundle.placement_plan.topology.workers.len() && (
                #[trigger] bundle.placement_plan.topology.workers[w]).id == assignments[i].worker_id
            &&& assignments[i].partition_id == route.producer_partition ==> assignments[i].worker_id
                == route.producer_worker
            &&& assignments[i].partition_id == route.consumer_partition ==> assignments[i].worker_id
                == route.consumer_worker
            &&& exists|x: int|
                0 <= x < assignments.len() && (#[trigger] assignments[x]).partition_id
                    == route.producer_partition
            &&& exists|x: int|
                0 <= x < assignments.len() && (#[trigger] assignments[x]).partition_id
                    == route.consumer_partition
        }),
{
    let assignments = bundle.placement_plan.assignments;
    let sorted = launch_assignments(bundle);
    let workers = bundle.placement_plan.topology.workers;
    let order = launch_order(bundle);
    let partitions = bundle.partition_plan.partitions;
    let routes = bundle.communication_plan.routes;
    let f = |x: int|
        launch_assignment_problem(partitions, order, sorted[x]);
    let g = |x: int| launch_route_problem(assignments, order, routes[x], x);
    lemma_first_problem_none(sorted.len(), f);
    lemma_first_problem_none(routes.len(), g);
    lemma_sorted_by_key::<RuntimePartitionAssignment, AssignmentOrder>(assignments);
    lemma_sorted_by_key_contains::<RuntimePartitionAssignment, AssignmentOrder>(
        assignments,
        assignments[i],
    );
    assert(assignments.contains(assignments[i]));
    let x = choose|x: int| 0 <= x < sorted.len() && sorted[x] == assignments[i];
    assert(f(x) is None);
    lemma_last_named::<RuntimePartition>(partitions, assignments[i].partition_id);
    let p = last_named::<RuntimePartition>(partitions, assignments[i].partition_id)->0;
    assert(partitions[p].id == assignments[i].partition_id);
    lemma_last_named::<RuntimeWorker>(order, assignments[i].worker_id);
    let o = last_named::<RuntimeWorker>(order, assignments[i].worker_id)->0;
    lemma_sorted_by_key_contains::<RuntimeWorker, WorkerOrder>(workers, order[o]);
    assert(order.contains(order[o]));
    let w = choose|w: int| 0 <= w < workers.len() && workers[w] == order[o];
    assert(workers[w].id == assignments[i].worker_id);
    assert(g(r) is None);
    let route = routes[r];
    lemma_last_named::<RuntimePartitionAssignment>(assignments, route.producer_partition);
    lemma_last_named::<RuntimePartitionAssignment>(assignments, route.consumer_partition);
    let a = last_named::<RuntimePartitionAssignment>(assignments, route.producer_partition)->0;
    let b = last_named::<RuntimePartitionAssignment>(assignments, route.consumer_partition)->0;
    assert(assignments[a].partition_id == route.producer_partition);
    assert(assignments[b].partition_id == route.consumer_partition);
    lemma_same_assignment(assignments, i, a);
    lemma_same_assignment(assignments, i, b);
}

proof fn lemma_same_assignment(assignments: Seq<RuntimePartitionAssignmentView>, i: int, a: int)
    requires
        distinct_names::<RuntimePartitionAssignment>(assignments),
        0 <= i < assignments.len(),
        0 <= a < assignments.len(),
    ensures
        assignments[i].partition_id == assignments[a].partition_id ==> i == a,
{
    if i < a {
        assert(RuntimePartitionAssignment::name_of(assignments[i])
            != RuntimePartitionAssignment::name_of(assignments[a]));
    } else if a < i {
        assert(RuntimePartitionAssignment::name_of(assignments[a])
            != RuntimePartitionAssignment::name_of(assignments[i]));
    }
}

// ---------------------------------------------------------------------------
// Findings of bundles and launches
// ---------------------------------------------------------------------------

/// A bundle tells all that its plans were told, in their order, and where it comes from.
pub proof fn lemma_bundle_tells_all(
    plan: RuntimePartitionPlanView,
    placement: RuntimePartitionPlacementPlanView,
    communication: RuntimePartitionCommunicationPlanView,
)
    ensures
        ({
            let told = bundle_of(plan, placement, communication).diagnostics;
            let advice = bundle_of(plan, placement, communication).recommendations;
            let a = plan.diagnostics.len() as int;
            let b = a + placement.diagnostics.len();
            let c = plan.recommendations.len() as int;
            let d = c + placement.recommendations.len();
            &&& told.len() == b + communication.diagnostics.len()
            &&& advice.len() == d + communication.recommendations.len()
            &&& forall|i: int|
                0 <= i < a ==> (#[trigger] told[i]).source
                    == RuntimePartitionBundleSource::Partition && told[i].message
                    == plan.diagnostics[i].message && told[i].severity
                    == plan.diagnostics[i].severity
            &&& forall|i: int|
                a <= i < b ==> (#[trigger] told[i]).source
                    == RuntimePartitionBundleSource::Placement && told[i].message
                    == placement.diagnostics[i - a].message && told[i].severity
                    == placement.diagnostics[i - a].severity
            &&& forall|i: int|
                b <= i < told.len() ==> (#[trigger] told[i]).source
                    == RuntimePartitionBundleSource::Communication && told[i].message
                    == communication.diagnostics[i - b].message && told[i].severity
                    == communication.diagnostics[i - b].severity
            &&& forall|i: int|
                0 <= i < c ==> (#[trigger] advice[i]).source
                    == RuntimePartitionBundleSource::Partition && advice[i].message
                    == plan.recommendations[i].message
            &&& forall|i: int|
                c <= i < d ==> (#[trigger] advice[i]).source
                    == RuntimePartitionBundleSource::Placement && advice[i].message
                    == placement.recommendations[i - c].message
            &&& forall|i: int|
                d <= i < advice.len() ==> (#[trigger] advice[i]).source
                    == RuntimePartitionBundleSource::Communication && advice[i].message
                    == communication.recommendations[i - d].message
        }),
{
}

/// A launch tells all that its bundle tells, and then of every worker without partitions, and of
/// no other worker.
pub proof fn lemma_launch_tells_of_idle_workers(bundle: RuntimePartitionBundleView, id: Seq<char>)
    ensures
        ({
            let told = launch_plan(bundle).diagnostics;
            let workers = launch_plan(bundle).workers;
            let n = bundle.diagnostics.len() as int;
            &&& told.len() >= n
            &&& forall|i: int|
                0 <= i < n ==> (#[trigger] told[i]).message == bundle.diagnostics[i].message
                    && told[i].severity == bundle.diagnostics[i].severity && told[i].code
                    == bundle.diagnostics[i].code
            &&& (exists|i: int|
                n <= i < told.len() && (#[trigger] told[i]).worker_id == Some(id)) <==> (exists|
                k: int,
            |
                0 <= k < workers.len() && (#[trigger] workers[k]).worker_id == id
                    && workers[k].partitions.len() == 0)
        }),
{
    let told = launch_plan(bundle).diagnostics;
    let workers = launch_plan(bundle).workers;
    let n = bundle.diagnostics.len() as int;
    let g = |k: int| empty_launch_diagnostic(workers[k]);
    let idle = gather(workers.len(), g);
    let carried = Seq::new(
        bundle.diagnostics.len(),
        |i: int| carried_diagnostic(bundle.diagnostics[i]),
    );
    assert(told == carried + idle);
    if exists|i: int| n <= i < told.len() && (#[trigger] told[i]).worker_id == Some(id) {
        let i = choose|i: int| n <= i < told.len() && (#[trigger] told[i]).worker_id == Some(id);
        assert(told[i] == idle[i - n]);
        assert(idle.contains(told[i]));
        lemma_gather_contains(workers.len(), g, told[i]);
        let k = choose|k: int| 0 <= k < workers.len() && #[trigger] g(k) == Some(told[i]);
        assert(workers[k].worker_id == id);
    }
    if exists|k: int|
        0 <= k < workers.len() && (#[trigger] workers[k]).worker_id == id
            && workers[k].partitions.len() == 0 {
        let k = choose|k: int|
            0 <= k < workers.len() && (#[trigger] workers[k]).worker_id == id
                && workers[k].partitions.len() == 0;
        let d = g(k)->0;
        assert(g(k) == Some(d));
        lemma_gather_contains(workers.len(), g, d);
        let x = choose|x: int| 0 <= x < idle.len() && idle[x] == d;
        assert(told[n + x] == d);
    }
}

// ---------------------------------------------------------------------------
// Deployments
// ---------------------------------------------------------------------------

/// A worker is taken for deployed exactly when it says that it is initialized, and reports the
/// backend, node, partitions, routes and bits that it was given to launch.
pub proof fn lemma_deployed_worker_reports_its_launch(
    worker: RuntimePartitionWorkerLaunchView,
    health: RuntimePartitionWorkerHealthView,
)
    ensures
        deployment_health_problem(worker, health) is None <==> {
            &&& health.initialized
            &&& health.backend == Some(worker.backend)
            &&& health.node == Some(worker.node)
            &&& health.partitions == worker.partitions
            &&& health.outbound_routes == worker.outbound_routes
            &&& health.inbound_routes == worker.inbound_routes
            &&& health.outbound_bits == worker.outbound_bits
            &&& health.inbound_bits == worker.inbound_bits
        },
{
}

/// The report of a deployment has every worker of the launch, in its order, and each passes for
/// deployed.
pub proof fn lemma_deployment_report_is_healthy(launch: RuntimePartitionLaunchPlanView, i: int)
    requires
        0 <= i < launch.workers.len(),
    ensures
        deployment_report(launch).workers.len() == launch.workers.len(),
        deployment_report(launch).workers[i].worker_id == launch.workers[i].worker_id,
        deployment_report(launch).module_name == launch.module_name,
        deployment_report(launch).diagnostics == launch.diagnostics,
        deployment_health_problem(launch.workers[i], deployment_report(launch).workers[i]) is None,
{
}

} // verus!

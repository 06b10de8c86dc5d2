//! What moves between the workers of a placement, and what the placement is told of it.

use vstd::prelude::*;

use crate::collect::{concat_below, gather, lemma_sum_below_grows, lemma_sum_below_same, sum_below};
use crate::communication::{
    boundary_routes, lemma_crossing_pair_has_route, planned_routes, route_of, unsorted_routes,
    RouteOrder,
};
use crate::conservation::{
    gathered, lemma_sum_at_least, lemma_sum_by_concat, lemma_sum_by_gather, lemma_sum_by_index,
    lemma_sum_by_permutation,
};
use crate::cost::split_score;
use crate::finding_laws::{lemma_gather_alike, lemma_placement_diagnostic, placement_is_told};
use crate::ids::lemma_last_named;
use crate::model::communication::{RuntimePartitionRoute, RuntimePartitionRouteView};
use crate::model::partition::{
    RuntimePartition, RuntimePartitionBoundarySignalView, RuntimePartitionPlanView,
};
use crate::model::placement::{
    RuntimePartitionAssignment, RuntimePartitionAssignmentView,
    RuntimePartitionPlacementDiagnosticCode, RuntimePartitionPlacementDiagnosticView,
    RuntimePartitionWorkerSummaryView,
};
use crate::model::topology::RuntimeWorkerView;
use crate::order::{lemma_sorted_by_key, lemma_sorted_by_key_contains};
use crate::placement::{
    balance_diagnostics, balance_recommendations, cpu_fallback_diagnostic, crosses_at,
    crossing_bits, crossing_bits_to, crossing_diagnostic, crossing_is_high, crossing_recommendation,
    final_loads, has_cpu, has_gpu, heaviest, is_heaviest, leaving_bits,
    lemma_crossing_bits_to_bound, lemma_crossing_bounds, overloaded, placed_assignments,
    placed_summaries, placement_diagnostics, placement_fits, placement_order,
    placement_recommendations, placement_topology_problem, producing_worker, reaching_bits,
    total_crossing_bits, total_score, worker_of, PlacementOrder,
};
use crate::placement_laws::{lemma_placed_loads_are_idle, lemma_placed_loads_cover};
use crate::seqs::{last_index, lemma_last_index, sum_by};

verus! {

// ---------------------------------------------------------------------------
// Traffic
// ---------------------------------------------------------------------------

/// Whether a partition is on a worker: the last assignment of the partition says so.
pub open spec fn is_on(
    assignments: Seq<RuntimePartitionAssignmentView>,
    partition: Seq<char>,
    worker: Seq<char>,
) -> bool {
    exists|x: int|
        0 <= x < assignments.len() && (#[trigger] assignments[x]).partition_id == partition
            && assignments[x].worker_id == worker && forall|y: int|
            x < y < assignments.len() ==> (#[trigger] assignments[y]).partition_id != partition
}

/// Where a partition is, as it is looked up.
pub proof fn lemma_is_on(
    assignments: Seq<RuntimePartitionAssignmentView>,
    partition: Seq<char>,
    worker: Seq<char>,
)
    ensures
        is_on(assignments, partition, worker) <==> worker_of(assignments, partition) == Some(
            worker,
        ),
{
    lemma_last_named::<RuntimePartitionAssignment>(assignments, partition);
    if is_on(assignments, partition, worker) {
        let x = choose|x: int|
            0 <= x < assignments.len() && (#[trigger] assignments[x]).partition_id == partition
                && assignments[x].worker_id == worker && forall|y: int|
                x < y < assignments.len() ==> (#[trigger] assignments[y]).partition_id
                    != partition;
        assert(assignments[x].partition_id == partition);
    }
}

/// A boundary without consumers moves nothing. Every consumer on another worker than the producer
/// adds the width of the boundary, to the worker that it is on and to no other.
pub proof fn lemma_one_more_consumer_is_reached(
    boundary: RuntimePartitionBoundarySignalView,
    assignments: Seq<RuntimePartitionAssignmentView>,
    producer: Seq<char>,
    consumer: Seq<char>,
    from: Seq<char>,
    to: Seq<char>,
    worker: Seq<char>,
)
    requires
        boundary.producer_partition == Some(producer),
        is_on(assignments, producer, from),
        is_on(assignments, consumer, to),
    ensures
        boundary.consumer_partitions.len() == 0 ==> crossing_bits(boundary, assignments) == 0,
        boundary.consumer_partitions.len() == 0 ==> crossing_bits_to(boundary, assignments, worker)
            == 0,
        ({
            let wider = RuntimePartitionBoundarySignalView {
                consumer_partitions: boundary.consumer_partitions.push(consumer),
                ..boundary
            };
            &&& crossing_bits(wider, assignments) - crossing_bits(boundary, assignments) == (if from
                != to {
                boundary.width as int
            } else {
                0
            })
            &&& crossing_bits_to(wider, assignments, worker) - crossing_bits_to(
                boundary,
                assignments,
                worker,
            ) == (if from != to && to == worker {
                boundary.width as int
            } else {
                0
            })
        }),
{
    lemma_is_on(assignments, producer, from);
    lemma_is_on(assignments, consumer, to);
    let wider = RuntimePartitionBoundarySignalView {
        consumer_partitions: boundary.consumer_partitions.push(consumer),
        ..boundary
    };
    let n = boundary.consumer_partitions.len();
    let f = |b: RuntimePartitionBoundarySignalView|
        |j: int|
            if crosses_at(b, assignments, j) {
                b.width as int
            } else {
                0
            };
    let g = |b: RuntimePartitionBoundarySignalView|
        |j: int|
            if crosses_at(b, assignments, j) && worker_of(assignments, b.consumer_partitions[j])
                == Some(worker) {
                b.width as int
            } else {
                0
            };
    assert(crossing_bits(wider, assignments) == sum_below(n + 1, f(wider)));
    assert(crossing_bits(boundary, assignments) == sum_below(n, f(boundary)));
    assert(crossing_bits_to(wider, assignments, worker) == sum_below(n + 1, g(wider)));
    assert(crossing_bits_to(boundary, assignments, worker) == sum_below(n, g(boundary)));
    assert forall|j: int| 0 <= j < n implies #[trigger] f(wider)(j) == f(boundary)(j) by {
        assert(wider.consumer_partitions[j] == boundary.consumer_partitions[j]);
    }
    assert forall|j: int| 0 <= j < n implies #[trigger] g(wider)(j) == g(boundary)(j) by {
        assert(wider.consumer_partitions[j] == boundary.consumer_partitions[j]);
    }
    lemma_sum_below_same(n, f(wider), f(boundary));
    lemma_sum_below_same(n, g(wider), g(boundary));
    assert(wider.consumer_partitions[n as int] == consumer);
}

/// Boundaries move nothing where there are none. Every boundary adds what it moves: in all, out of
/// the worker of its producer, and into the workers of its consumers.
pub proof fn lemma_one_more_boundary_is_moved(
    boundaries: Seq<RuntimePartitionBoundarySignalView>,
    assignments: Seq<RuntimePartitionAssignmentView>,
    boundary: RuntimePartitionBoundarySignalView,
    producer: Seq<char>,
    from: Seq<char>,
    worker: Seq<char>,
)
    requires
        boundary.producer_partition == Some(producer),
        is_on(assignments, producer, from),
    ensures
        boundaries.len() == 0 ==> total_crossing_bits(boundaries, assignments) == 0,
        boundaries.len() == 0 ==> leaving_bits(boundaries, assignments, worker) == 0,
        boundaries.len() == 0 ==> reaching_bits(boundaries, assignments, worker) == 0,
        total_crossing_bits(boundaries.push(boundary), assignments) == total_crossing_bits(
            boundaries,
            assignments,
        ) + crossing_bits(boundary, assignments),
        leaving_bits(boundaries.push(boundary), assignments, worker) == leaving_bits(
            boundaries,
            assignments,
            worker,
        ) + (if from == worker {
            crossing_bits(boundary, assignments)
        } else {
            0
        }),
        reaching_bits(boundaries.push(boundary), assignments, worker) == reaching_bits(
            boundaries,
            assignments,
            worker,
        ) + crossing_bits_to(boundary, assignments, worker),
{
    lemma_is_on(assignments, producer, from);
    let more = boundaries.push(boundary);
    let n = boundaries.len();
    let all = |b: Seq<RuntimePartitionBoundarySignalView>| |i: int| crossing_bits(b[i], assignments);
    let out = |b: Seq<RuntimePartitionBoundarySignalView>|
        |i: int|
            if producing_worker(b[i], assignments) == Some(worker) {
                crossing_bits(b[i], assignments)
            } else {
                0
            };
    let inb = |b: Seq<RuntimePartitionBoundarySignalView>|
        |i: int| crossing_bits_to(b[i], assignments, worker);
    assert(total_crossing_bits(more, assignments) == sum_below(n + 1, all(more)));
    assert(total_crossing_bits(boundaries, assignments) == sum_below(n, all(boundaries)));
    assert(leaving_bits(more, assignments, worker) == sum_below(n + 1, out(more)));
    assert(leaving_bits(boundaries, assignments, worker) == sum_below(n, out(boundaries)));
    assert(reaching_bits(more, assignments, worker) == sum_below(n + 1, inb(more)));
    assert(reaching_bits(boundaries, assignments, worker) == sum_below(n, inb(boundaries)));
    assert(forall|i: int| 0 <= i < n ==> more[i] == boundaries[i]);
    lemma_sum_below_same(n, all(more), all(boundaries));
    lemma_sum_below_same(n, out(more), out(boundaries));
    lemma_sum_below_same(n, inb(more), inb(boundaries));
    assert(more[n as int] == boundary);
}

/// A placement sums up what reaches and what leaves each worker.
pub proof fn lemma_worker_traffic_is_summed(
    plan: RuntimePartitionPlanView,
    workers: Seq<RuntimeWorkerView>,
    a: int,
)
    requires
        workers.len() <= usize::MAX,
        placement_topology_problem(workers) is None,
        placement_fits(plan, workers),
        0 <= a < workers.len(),
    ensures
        ({
            let summary = placed_summaries(plan, workers)[a];
            let assignments = placed_assignments(plan, workers);
            &&& summary.worker_id == workers[a].id
            &&& summary.backend == workers[a].backend
            &&& summary.node == workers[a].node
            &&& summary.inbound_boundary_bits == reaching_bits(
                plan.boundary_signals,
                assignments,
                workers[a].id,
            )
            &&& summary.outbound_boundary_bits == leaving_bits(
                plan.boundary_signals,
                assignments,
                workers[a].id,
            )
        }),
{
    lemma_placed_loads_cover(plan, workers);
    lemma_placed_loads_are_idle(plan, workers, a);
    lemma_crossing_bounds(
        plan.boundary_signals,
        placed_assignments(plan, workers),
        workers[a].id,
    );
}

/// A boundary from one worker to another is counted where it leaves and where it arrives.
pub proof fn lemma_crossing_is_counted(
    plan: RuntimePartitionPlanView,
    workers: Seq<RuntimeWorkerView>,
    i: int,
    j: int,
    producer: Seq<char>,
    a: int,
    b: int,
)
    requires
        workers.len() <= usize::MAX,
        placement_topology_problem(workers) is None,
        placement_fits(plan, workers),
        0 <= i < plan.boundary_signals.len(),
        0 <= j < plan.boundary_signals[i].consumer_partitions.len(),
        0 <= a < workers.len(),
        0 <= b < workers.len(),
        plan.boundary_signals[i].producer_partition == Some(producer),
        is_on(placed_assignments(plan, workers), producer, workers[a].id),
        is_on(
            placed_assignments(plan, workers),
            plan.boundary_signals[i].consumer_partitions[j],
            workers[b].id,
        ),
        workers[a].id != workers[b].id,
    ensures
        placed_summaries(plan, workers)[a].outbound_boundary_bits
            >= plan.boundary_signals[i].width,
        placed_summaries(plan, workers)[b].inbound_boundary_bits >= plan.boundary_signals[i].width,
        crossing_bits(plan.boundary_signals[i], placed_assignments(plan, workers))
            >= plan.boundary_signals[i].width,
{
    let assignments = placed_assignments(plan, workers);
    let boundaries = plan.boundary_signals;
    let boundary = boundaries[i];
    lemma_worker_traffic_is_summed(plan, workers, a);
    lemma_worker_traffic_is_summed(plan, workers, b);
    lemma_is_on(assignments, producer, workers[a].id);
    lemma_is_on(assignments, boundary.consumer_partitions[j], workers[b].id);
    let n = boundary.consumer_partitions.len();
    let to = |x: int|
        if crosses_at(boundary, assignments, x) && worker_of(
            assignments,
            boundary.consumer_partitions[x],
        ) == Some(workers[b].id) {
            boundary.width as int
        } else {
            0
        };
    assert(to(j) == boundary.width);
    lemma_sum_below_grows((j + 1) as nat, n, to);
    lemma_sum_below_grows(j as nat, n, to);
    lemma_crossing_bits_to_bound(boundary, assignments, workers[b].id);
    assert(crossing_bits_to(boundary, assignments, workers[b].id) >= boundary.width);
    let m = boundaries.len();
    let out = |x: int|
        if producing_worker(boundaries[x], assignments) == Some(workers[a].id) {
            crossing_bits(boundaries[x], assignments)
        } else {
            0
        };
    let inb = |x: int| crossing_bits_to(boundaries[x], assignments, workers[b].id);
    assert forall|x: int| 0 <= x < m implies #[trigger] out(x) >= 0 && inb(x) >= 0 by {
        lemma_crossing_bits_to_bound(boundaries[x], assignments, workers[b].id);
    }
    assert forall|x: int| 0 <= x < m implies #[trigger] inb(x) >= 0 by {
        assert(out(x) >= 0);
    }
    lemma_sum_below_grows((i + 1) as nat, m, out);
    lemma_sum_below_grows(i as nat, m, out);
    lemma_sum_below_grows((i + 1) as nat, m, inb);
    lemma_sum_below_grows(i as nat, m, inb);
    assert(out(i) >= boundary.width && inb(i) >= boundary.width);
}

// ---------------------------------------------------------------------------
// Routes
// ---------------------------------------------------------------------------

/// A boundary from one worker to another has a route, which names both workers and both
/// partitions, and carries the boundary as it is.
pub proof fn lemma_crossing_is_routed(
    boundaries: Seq<RuntimePartitionBoundarySignalView>,
    assignments: Seq<RuntimePartitionAssignmentView>,
    i: int,
    j: int,
    producer: Seq<char>,
    from: Seq<char>,
    to: Seq<char>,
) -> (route: RuntimePartitionRouteView)
    requires
        0 <= i < boundaries.len() <= usize::MAX,
        0 <= j < boundaries[i].consumer_partitions.len(),
        boundaries[i].producer_partition == Some(producer),
        is_on(assignments, producer, from),
        is_on(assignments, boundaries[i].consumer_partitions[j], to),
        from != to,
    ensures
        planned_routes(boundaries, assignments).contains(route),
        route.boundary_index == i,
        route.signal == boundaries[i].signal,
        route.port_name == boundaries[i].port_name,
        route.instance_path == boundaries[i].instance_path,
        route.producer_partition == producer,
        route.producer_worker == from,
        route.consumer_partition == boundaries[i].consumer_partitions[j],
        route.consumer_worker == to,
        route.width == boundaries[i].width,
        route.bits_per_transfer == boundaries[i].width,
{
    lemma_is_on(assignments, producer, from);
    lemma_is_on(assignments, boundaries[i].consumer_partitions[j], to);
    lemma_crossing_pair_has_route(boundaries, assignments, i, j);
    route_of(boundaries[i], assignments, i, j)->0
}

proof fn lemma_routes_of_boundaries(
    boundaries: Seq<RuntimePartitionBoundarySignalView>,
    assignments: Seq<RuntimePartitionAssignmentView>,
    n: nat,
    f: spec_fn(RuntimePartitionRouteView) -> int,
    g: spec_fn(int) -> Seq<RuntimePartitionRouteView>,
)
    requires
        n <= boundaries.len(),
        f == (|r: RuntimePartitionRouteView| r.bits_per_transfer as int),
        g == (|i: int| boundary_routes(boundaries[i], assignments, i)),
    ensures
        sum_by(concat_below(n, g), f) == sum_below(
            n,
            |i: int| crossing_bits(boundaries[i], assignments),
        ),
    decreases n,
{
    let all = |i: int| crossing_bits(boundaries[i], assignments);
    if n > 0 {
        let k = n - 1;
        lemma_routes_of_boundaries(boundaries, assignments, (n - 1) as nat, f, g);
        assert(concat_below(n, g) == concat_below((n - 1) as nat, g) + g(k));
        lemma_sum_by_concat(concat_below((n - 1) as nat, g), g(k), f);
        let boundary = boundaries[k];
        let h = |j: int| route_of(boundary, assignments, k, j);
        let c = |j: int|
            if crosses_at(boundary, assignments, j) {
                boundary.width as int
            } else {
                0
            };
        lemma_sum_by_gather(boundary.consumer_partitions.len(), h, f);
        assert forall|j: int| 0 <= j < boundary.consumer_partitions.len() implies #[trigger] gathered(
            h,
            f,
        )(j) == c(j) by {}
        lemma_sum_below_same(boundary.consumer_partitions.len(), gathered(h, f), c);
        assert(sum_by(g(k), f) == all(k));
    } else {
        assert(concat_below(n, g) == Seq::<RuntimePartitionRouteView>::empty());
    }
}

/// The routes of a plan move what its placement counts between workers, no bit more or less.
pub proof fn lemma_routes_move_what_crosses(
    boundaries: Seq<RuntimePartitionBoundarySignalView>,
    assignments: Seq<RuntimePartitionAssignmentView>,
)
    ensures
        sum_by(
            planned_routes(boundaries, assignments),
            |r: RuntimePartitionRouteView| r.bits_per_transfer as int,
        ) == total_crossing_bits(boundaries, assignments),
{
    let f = |r: RuntimePartitionRouteView| r.bits_per_transfer as int;
    let g = |i: int| boundary_routes(boundaries[i], assignments, i);
    lemma_routes_of_boundaries(boundaries, assignments, boundaries.len(), f, g);
    lemma_sorted_by_key::<RuntimePartitionRoute, RouteOrder>(
        unsorted_routes(boundaries, assignments),
    );
    lemma_sum_by_permutation(
        planned_routes(boundaries, assignments),
        unsorted_routes(boundaries, assignments),
        f,
    );
}

// ---------------------------------------------------------------------------
// Findings
// ---------------------------------------------------------------------------

/// A partition that is external or has memories is told to run on a CPU where there are both CPU
/// and GPU workers, and no other partition is.
pub proof fn lemma_fallback_is_told(
    plan: RuntimePartitionPlanView,
    workers: Seq<RuntimeWorkerView>,
    i: int,
)
    requires
        0 <= i < plan.partitions.len(),
        forall|j: int|
            0 <= j < plan.partitions.len() && j != i ==> (#[trigger] plan.partitions[j]).id
                != plan.partitions[i].id,
    ensures
        placement_is_told(
            placement_diagnostics(plan, workers),
            RuntimePartitionPlacementDiagnosticCode::CpuFallback,
            Some(plan.partitions[i].id),
            None,
        ) <==> {
            &&& plan.partitions[i].external || plan.partitions[i].cost.memory_bits > 0
            &&& exists|k: int|
                0 <= k < workers.len() && !((#[trigger] workers[k]).backend is Gpu)
            &&& exists|k: int| 0 <= k < workers.len() && (#[trigger] workers[k]).backend is Gpu
        },
{
    let all = placement_diagnostics(plan, workers);
    let code = RuntimePartitionPlacementDiagnosticCode::CpuFallback;
    let ranked = placement_order(plan);
    let p = plan.partitions[i];
    lemma_sorted_by_key::<RuntimePartition, PlacementOrder>(plan.partitions);
    lemma_sorted_by_key_contains::<RuntimePartition, PlacementOrder>(plan.partitions, p);
    assert(plan.partitions.contains(p));
    assert(ranked.contains(p));
    let at = choose|at: int| 0 <= at < ranked.len() && ranked[at] == p;
    assert(has_cpu(workers) <==> exists|k: int|
        0 <= k < workers.len() && !((#[trigger] workers[k]).backend is Gpu));
    assert(has_gpu(workers) <==> exists|k: int|
        0 <= k < workers.len() && (#[trigger] workers[k]).backend is Gpu);
    if placement_is_told(all, code, Some(p.id), None) {
        let d = choose|d: RuntimePartitionPlacementDiagnosticView| #[trigger]
            all.contains(d) && d.code == code && d.partition_id == Some(p.id)
                && d.boundary_index is None;
        lemma_placement_diagnostic(plan, workers, d);
        let spread = balance_diagnostics(plan.partitions.len(), final_loads(plan, workers));
        if spread.contains(d) {
            let x = choose|x: int| 0 <= x < spread.len() && spread[x] == d;
            assert(spread[x].code != code);
        }
        let x = choose|x: int|
            0 <= x < ranked.len() && #[trigger] cpu_fallback_diagnostic(workers, ranked, x) == Some(
                d,
            );
        assert(ranked.contains(ranked[x]));
        lemma_sorted_by_key_contains::<RuntimePartition, PlacementOrder>(
            plan.partitions,
            ranked[x],
        );
        let y = choose|y: int| 0 <= y < plan.partitions.len() && plan.partitions[y] == ranked[x];
        assert(plan.partitions[y].id == p.id);
        assert(y == i);
    }
    if cpu_fallback_diagnostic(workers, ranked, at) is Some {
        let d = cpu_fallback_diagnostic(workers, ranked, at)->0;
        lemma_placement_diagnostic(plan, workers, d);
        assert(all.contains(d));
    }
}

/// Whether a placement is told that a worker has too much.
pub open spec fn worker_is_told(
    diagnostics: Seq<RuntimePartitionPlacementDiagnosticView>,
    worker: Seq<char>,
) -> bool {
    exists|d: RuntimePartitionPlacementDiagnosticView| #[trigger]
        diagnostics.contains(d) && d.code
            == RuntimePartitionPlacementDiagnosticCode::WorkerImbalance && d.worker_id == Some(
            worker,
        )
}

/// What a worker weighs: the operations, state bits and memory bits of its partitions.
pub open spec fn weight() -> spec_fn(RuntimePartitionWorkerSummaryView) -> int {
    |w: RuntimePartitionWorkerSummaryView|
        w.cost.compute_ops + w.cost.state_bits + w.cost.memory_bits
}

/// The one worker that weighs most is told to be out of balance if it weighs more than twice the
/// average of at least two workers.
pub proof fn lemma_overload_is_told(
    plan: RuntimePartitionPlanView,
    workers: Seq<RuntimeWorkerView>,
    k: int,
)
    requires
        2 <= workers.len() <= usize::MAX,
        placement_topology_problem(workers) is None,
        placement_fits(plan, workers),
        0 <= k < workers.len(),
        ({
            let placed = placed_summaries(plan, workers);
            &&& forall|j: int|
                0 <= j < placed.len() && j != k ==> weight()(#[trigger] placed[j]) < weight()(
                    placed[k],
                )
            &&& weight()(placed[k]) * placed.len() <= u64::MAX
            &&& sum_by(placed, weight()) * 2 <= u64::MAX
        }),
    ensures
        ({
            let placed = placed_summaries(plan, workers);
            worker_is_told(placement_diagnostics(plan, workers), workers[k].id) <==> weight()(
                placed[k],
            ) * placed.len() > 2 * sum_by(placed, weight())
        }),
{
    let placed = placed_summaries(plan, workers);
    let loads = final_loads(plan, workers);
    let all = placement_diagnostics(plan, workers);
    let w = weight();
    lemma_placed_loads_cover(plan, workers);
    lemma_worker_traffic_is_summed(plan, workers, k);
    let n = placed.len() as int;
    assert(n == workers.len());
    let heavy = w(placed[k]);
    assert(heavy <= heavy * n) by (nonlinear_arith)
        requires
            n >= 2,
            heavy >= 0,
    ;
    assert forall|j: int| 0 <= j < n implies split_score((#[trigger] loads[j]).cost) == w(
        placed[j],
    ) by {
        assert(placed[j].cost == loads[j].cost);
        if j != k {
            assert(w(placed[j]) < w(placed[k]));
        }
    }
    let g = |j: int| split_score(loads[j].cost) as int;
    assert forall|j: int| 0 <= j < placed.len() implies w(#[trigger] placed[j]) == g(j) by {
        assert(split_score(loads[j].cost) == w(placed[j]));
    }
    lemma_sum_by_index(placed, w, g);
    assert(total_score(loads) == sum_by(placed, w));
    let most = |j: int| is_heaviest(loads, j);
    lemma_last_index(loads.len(), most);
    assert(most(k)) by {
        assert forall|j: int| 0 <= j < loads.len() implies split_score((#[trigger] loads[j]).cost)
            <= split_score(loads[k].cost) by {
            assert(split_score(loads[k].cost) == w(placed[k]));
            if j != k {
                assert(w(placed[j]) < w(placed[k]));
            }
        }
    }
    assert(heaviest(loads) == last_index(loads.len(), most));
    let found = last_index(loads.len(), most);
    assert(found is Some);
    assert(most(found->0));
    assert(split_score(loads[k].cost) <= split_score(loads[found->0].cost));
    if found->0 != k {
        assert(w(placed[found->0]) < w(placed[k]));
    }
    assert(found == Some(k));
    lemma_sum_at_least(placed, w, k);
    assert(heavy == 0 ==> heavy * n == 0) by (nonlinear_arith);
    assert(split_score(loads[k].cost) * loads.len() == heavy * n);
    assert(overloaded(loads) is Some <==> heavy * n > 2 * sum_by(placed, w));
    assert(overloaded(loads) is Some ==> overloaded(loads) == Some(k));
    let spread = balance_diagnostics(plan.partitions.len(), loads);
    if worker_is_told(all, workers[k].id) {
        let d = choose|d: RuntimePartitionPlacementDiagnosticView| #[trigger]
            all.contains(d) && d.code == RuntimePartitionPlacementDiagnosticCode::WorkerImbalance
                && d.worker_id == Some(workers[k].id);
        lemma_placement_diagnostic(plan, workers, d);
        assert(spread.contains(d));
        let x = choose|x: int| 0 <= x < spread.len() && spread[x] == d;
        assert(overloaded(loads) is Some);
    }
    if overloaded(loads) is Some {
        let d = spread.last();
        assert(d.code == RuntimePartitionPlacementDiagnosticCode::WorkerImbalance);
        assert(d.worker_id == Some(workers[k].id));
        assert(spread.contains(d)) by {
            assert(spread[spread.len() - 1] == d);
        }
        lemma_placement_diagnostic(plan, workers, d);
        assert(all.contains(d));
    }
}

/// A placement gets a recommendation for everything that it is told but for CPU placement.
pub proof fn lemma_placement_is_advised(
    plan: RuntimePartitionPlanView,
    workers: Seq<RuntimeWorkerView>,
)
    ensures
        placement_recommendations(plan, workers).len() == placement_diagnostics(plan, workers).len()
            - gather(
            placement_order(plan).len(),
            |i: int| cpu_fallback_diagnostic(workers, placement_order(plan), i),
        ).len(),
{
    let assignments = placed_assignments(plan, workers);
    let high = crossing_is_high(plan, assignments);
    lemma_gather_alike(
        plan.boundary_signals.len(),
        |i: int| crossing_diagnostic(plan.boundary_signals, assignments, high, i),
        |i: int| crossing_recommendation(plan.boundary_signals, assignments, high, i),
    );
    let loads = final_loads(plan, workers);
    assert(balance_diagnostics(plan.partitions.len(), loads).len() == balance_recommendations(
        plan.partitions.len(),
        loads,
    ).len());
}

} // verus!

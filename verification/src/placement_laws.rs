//! What holds of a placement as a whole: its traffic adds up, and its workers are balanced.

use vstd::prelude::*;

use crate::collect::{lemma_sum_below_one, lemma_sum_below_same, lemma_sum_below_swap, sum_below};
use crate::cost::{cost_sum, cost_sum_fits, split_score};
use crate::ids::{distinct_names, last_named, lemma_last_named, Named};
use crate::launch::AssignmentOrder;
use crate::model::partition::{
    RuntimePartition, RuntimePartitionBoundarySignalView, RuntimePartitionCost,
    RuntimePartitionPlanView, RuntimePartitionView,
};
use crate::model::placement::{
    RuntimePartitionAssignment, RuntimePartitionAssignmentView, RuntimePartitionWorkerSummary,
    RuntimePartitionWorkerSummaryView,
};
use crate::model::topology::RuntimeWorkerView;
use crate::order::{
    key_le, lemma_pair_ranked, lemma_sorted_by_key, lemma_sorted_by_key_contains, SortKey,
};
use crate::placement::{
    assigned_to, assignments_made, chosen_worker, compatible, crosses_at, crossing_bits,
    crossing_bits_to, final_loads, has_cpu, has_gpu, is_gpu_backend, lemma_crossing_bounds,
    lemma_distinct_loads, lemma_placing_keeps_workers, load_fits, load_key, load_le,
    load_with_traffic, loads_after, loads_fit, loads_of, placed_assignments, placed_summaries,
    placement_fits, placement_order, placement_topology_problem, producing_worker,
    total_crossing_bits, traffic_fits, worker_of, PlacementOrder,
};

verus! {

// ---------------------------------------------------------------------------
// Traffic
// ---------------------------------------------------------------------------

/// Whether all loads are of different workers, and every assignment is to one of them.
pub open spec fn loads_cover(
    loads: Seq<RuntimePartitionWorkerSummaryView>,
    assignments: Seq<RuntimePartitionAssignmentView>,
) -> bool {
    &&& distinct_names::<RuntimePartitionWorkerSummary>(loads)
    &&& forall|i: int|
        0 <= i < assignments.len() ==> exists|k: int|
            0 <= k < loads.len() && (#[trigger] loads[k]).worker_id == (
            #[trigger] assignments[i]).worker_id
}

proof fn lemma_covered_worker(
    loads: Seq<RuntimePartitionWorkerSummaryView>,
    assignments: Seq<RuntimePartitionAssignmentView>,
    partition: Seq<char>,
) -> (k: int)
    requires
        loads_cover(loads, assignments),
        worker_of(assignments, partition) is Some,
    ensures
        0 <= k < loads.len(),
        worker_of(assignments, partition) == Some(loads[k].worker_id),
        forall|j: int|
            0 <= j < loads.len() && j != k ==> (#[trigger] loads[j]).worker_id
                != loads[k].worker_id,
{
    lemma_last_named::<RuntimePartitionAssignment>(assignments, partition);
    let i = last_named::<RuntimePartitionAssignment>(assignments, partition)->0;
    assert(worker_of(assignments, partition) == Some(assignments[i].worker_id));
    let k = choose|k: int|
        0 <= k < loads.len() && (#[trigger] loads[k]).worker_id == assignments[i].worker_id;
    k
}

proof fn lemma_boundary_leaves_one(
    loads: Seq<RuntimePartitionWorkerSummaryView>,
    boundary: RuntimePartitionBoundarySignalView,
    assignments: Seq<RuntimePartitionAssignmentView>,
)
    requires
        loads_cover(loads, assignments),
    ensures
        sum_below(
            loads.len(),
            |k: int|
                if producing_worker(boundary, assignments) == Some(loads[k].worker_id) {
                    crossing_bits(boundary, assignments)
                } else {
                    0
                },
        ) == crossing_bits(boundary, assignments),
        producing_worker(boundary, assignments) is None ==> crossing_bits(boundary, assignments)
            == 0,
{
    let f = |k: int|
        if producing_worker(boundary, assignments) == Some(loads[k].worker_id) {
            crossing_bits(boundary, assignments)
        } else {
            0
        };
    if producing_worker(boundary, assignments) is None {
        let moved = |j: int|
            if crosses_at(boundary, assignments, j) {
                boundary.width as int
            } else {
                0
            };
        lemma_sum_below_one(boundary.consumer_partitions.len(), moved, -1);
        lemma_sum_below_one(loads.len(), f, -1);
    } else {
        let k = lemma_covered_worker(loads, assignments, boundary.producer_partition->0);
        lemma_sum_below_one(loads.len(), f, k);
    }
}

proof fn lemma_boundary_reaches_all(
    loads: Seq<RuntimePartitionWorkerSummaryView>,
    boundary: RuntimePartitionBoundarySignalView,
    assignments: Seq<RuntimePartitionAssignmentView>,
)
    requires
        loads_cover(loads, assignments),
    ensures
        sum_below(
            loads.len(),
            |k: int| crossing_bits_to(boundary, assignments, loads[k].worker_id),
        ) == crossing_bits(boundary, assignments),
{
    let m = loads.len();
    let n = boundary.consumer_partitions.len();
    let f = |k: int, j: int|
        if crosses_at(boundary, assignments, j) && worker_of(
            assignments,
            boundary.consumer_partitions[j],
        ) == Some(loads[k].worker_id) {
            boundary.width as int
        } else {
            0
        };
    let all = |j: int|
        if crosses_at(boundary, assignments, j) {
            boundary.width as int
        } else {
            0
        };
    let columns = |j: int| sum_below(m, |k: int| f(k, j));
    lemma_sum_below_swap(m, n, f);
    assert forall|j: int| 0 <= j < n implies #[trigger] columns(j) == all(j) by {
        let column = |k: int| f(k, j);
        if crosses_at(boundary, assignments, j) {
            let k = lemma_covered_worker(loads, assignments, boundary.consumer_partitions[j]);
            lemma_sum_below_one(m, column, k);
        } else {
            lemma_sum_below_one(m, column, -1);
        }
    }
    lemma_sum_below_same(n, columns, all);
    let to = |k: int| crossing_bits_to(boundary, assignments, loads[k].worker_id);
    let rows = |k: int| sum_below(n, |j: int| f(k, j));
    assert forall|k: int| 0 <= k < m implies #[trigger] to(k) == rows(k) by {
        let row = |j: int| f(k, j);
        let given = |j: int|
            if crosses_at(boundary, assignments, j) && worker_of(
                assignments,
                boundary.consumer_partitions[j],
            ) == Some(loads[k].worker_id) {
                boundary.width as int
            } else {
                0
            };
        lemma_sum_below_same(n, row, given);
    }
    lemma_sum_below_same(m, to, rows);
}

/// What leaves all workers is what reaches all workers: the bits that all boundaries move between
/// workers. Adding traffic to loads changes nothing else of them, and a boundary without a
/// producer adds none.
pub proof fn lemma_traffic_adds_up(
    loads: Seq<RuntimePartitionWorkerSummaryView>,
    boundaries: Seq<RuntimePartitionBoundarySignalView>,
    assignments: Seq<RuntimePartitionAssignmentView>,
)
    requires
        loads_cover(loads, assignments),
        forall|k: int|
            0 <= k < loads.len() ==> traffic_fits(#[trigger] loads[k], boundaries, assignments),
    ensures
        sum_below(
            loads.len(),
            |k: int|
                load_with_traffic(loads[k], boundaries, assignments).outbound_boundary_bits
                    - loads[k].outbound_boundary_bits,
        ) == total_crossing_bits(boundaries, assignments),
        sum_below(
            loads.len(),
            |k: int|
                load_with_traffic(loads[k], boundaries, assignments).inbound_boundary_bits
                    - loads[k].inbound_boundary_bits,
        ) == total_crossing_bits(boundaries, assignments),
        forall|k: int|
            0 <= k < loads.len() ==> {
                let after = load_with_traffic(#[trigger] loads[k], boundaries, assignments);
                &&& after.cost == loads[k].cost
                &&& after.partitions == loads[k].partitions
            },
        forall|i: int|
            0 <= i < boundaries.len() && (#[trigger] boundaries[i]).producer_partition is None
                ==> crossing_bits(boundaries[i], assignments) == 0,
{
    let m = loads.len();
    let n = boundaries.len();
    let all = |i: int| crossing_bits(boundaries[i], assignments);
    let out = |k: int, i: int|
        if producing_worker(boundaries[i], assignments) == Some(loads[k].worker_id) {
            crossing_bits(boundaries[i], assignments)
        } else {
            0
        };
    let inb = |k: int, i: int| crossing_bits_to(boundaries[i], assignments, loads[k].worker_id);
    lemma_sum_below_swap(m, n, out);
    lemma_sum_below_swap(m, n, inb);
    let out_columns = |i: int| sum_below(m, |k: int| out(k, i));
    let inb_columns = |i: int| sum_below(m, |k: int| inb(k, i));
    assert forall|i: int| 0 <= i < n implies #[trigger] out_columns(i) == all(i) && all(i)
        == inb_columns(i) && (boundaries[i].producer_partition is None ==> all(i) == 0) by {
        let b = boundaries[i];
        lemma_boundary_leaves_one(loads, b, assignments);
        lemma_boundary_reaches_all(loads, b, assignments);
        lemma_sum_below_same(
            m,
            |k: int| out(k, i),
            |k: int|
                if producing_worker(b, assignments) == Some(loads[k].worker_id) {
                    crossing_bits(b, assignments)
                } else {
                    0
                },
        );
        lemma_sum_below_same(
            m,
            |k: int| inb(k, i),
            |k: int| crossing_bits_to(b, assignments, loads[k].worker_id),
        );
    }
    assert forall|i: int| 0 <= i < n implies #[trigger] all(i) == inb_columns(i) by {
        assert(out_columns(i) == all(i));
    }
    assert forall|i: int|
        0 <= i < n && (#[trigger] boundaries[i]).producer_partition is None implies crossing_bits(
        boundaries[i],
        assignments,
    ) == 0 by {
        assert(out_columns(i) == all(i));
    }
    lemma_sum_below_same(n, out_columns, all);
    lemma_sum_below_same(n, all, inb_columns);
    let out_rows = |k: int| sum_below(n, |i: int| out(k, i));
    let inb_rows = |k: int| sum_below(n, |i: int| inb(k, i));
    let out_grown = |k: int|
        load_with_traffic(loads[k], boundaries, assignments).outbound_boundary_bits
            - loads[k].outbound_boundary_bits;
    let inb_grown = |k: int|
        load_with_traffic(loads[k], boundaries, assignments).inbound_boundary_bits
            - loads[k].inbound_boundary_bits;
    assert forall|k: int| 0 <= k < m implies #[trigger] out_grown(k) == out_rows(k) && inb_grown(k)
        == inb_rows(k) by {
        let id = loads[k].worker_id;
        lemma_crossing_bounds(boundaries, assignments, id);
        assert(traffic_fits(loads[k], boundaries, assignments));
        lemma_sum_below_same(
            n,
            |i: int| out(k, i),
            |i: int|
                if producing_worker(boundaries[i], assignments) == Some(id) {
                    crossing_bits(boundaries[i], assignments)
                } else {
                    0
                },
        );
        lemma_sum_below_same(
            n,
            |i: int| inb(k, i),
            |i: int| crossing_bits_to(boundaries[i], assignments, id),
        );
    }
    assert forall|k: int| 0 <= k < m implies #[trigger] inb_grown(k) == inb_rows(k) by {
        assert(out_grown(k) == out_rows(k));
    }
    lemma_sum_below_same(m, out_grown, out_rows);
    lemma_sum_below_same(m, inb_grown, inb_rows);
}

/// A placed plan has one load for each worker, and assigns partitions to workers alone.
pub proof fn lemma_placed_loads_cover(
    plan: RuntimePartitionPlanView,
    workers: Seq<RuntimeWorkerView>,
)
    requires
        workers.len() <= usize::MAX,
        placement_topology_problem(workers) is None,
    ensures
        loads_of(final_loads(plan, workers), workers),
        loads_cover(final_loads(plan, workers), placed_assignments(plan, workers)),
{
    let ranked = placement_order(plan);
    let loads = final_loads(plan, workers);
    let assignments = placed_assignments(plan, workers);
    lemma_sorted_by_key::<RuntimePartition, PlacementOrder>(plan.partitions);
    lemma_placing_keeps_workers(workers, ranked, plan.partitions.len());
    lemma_distinct_loads(loads, workers);
    assert forall|x: int| 0 <= x < assignments.len() implies exists|k: int|
        0 <= k < loads.len() && (#[trigger] loads[k]).worker_id == (
        #[trigger] assignments[x]).worker_id by {
        let i = lemma_assignment_is_made(plan, workers, x);
        let k = chosen_worker(workers, ranked, i);
        assert(loads[k].worker_id == assignments[x].worker_id);
    }
}

/// The place in which an assignment was made.
proof fn lemma_assignment_is_made(
    plan: RuntimePartitionPlanView,
    workers: Seq<RuntimeWorkerView>,
    x: int,
) -> (i: int)
    requires
        0 < workers.len() <= usize::MAX,
        0 <= x < placed_assignments(plan, workers).len(),
    ensures
        0 <= i < placement_order(plan).len(),
        0 <= chosen_worker(workers, placement_order(plan), i) < workers.len(),
        placed_assignments(plan, workers)[x] == assigned_to(
            placement_order(plan)[i],
            workers[chosen_worker(workers, placement_order(plan), i)],
        ),
{
    let ranked = placement_order(plan);
    let made = assignments_made(workers, ranked);
    let assignments = placed_assignments(plan, workers);
    lemma_sorted_by_key_contains::<RuntimePartitionAssignment, AssignmentOrder>(
        made,
        assignments[x],
    );
    assert(assignments.contains(assignments[x]));
    let i = choose|i: int| 0 <= i < made.len() && made[i] == assignments[x];
    lemma_placing_keeps_workers(workers, ranked, i as nat);
    i
}

pub proof fn lemma_placed_loads_are_idle(
    plan: RuntimePartitionPlanView,
    workers: Seq<RuntimeWorkerView>,
    k: int,
)
    requires
        0 <= k < workers.len() <= usize::MAX,
        placement_fits(plan, workers),
    ensures
        0 <= k < final_loads(plan, workers).len(),
        final_loads(plan, workers)[k].inbound_boundary_bits == 0,
        final_loads(plan, workers)[k].outbound_boundary_bits == 0,
        traffic_fits(
            final_loads(plan, workers)[k],
            plan.boundary_signals,
            placed_assignments(plan, workers),
        ),
{
    lemma_sorted_by_key::<RuntimePartition, PlacementOrder>(plan.partitions);
    lemma_placing_keeps_workers(workers, placement_order(plan), plan.partitions.len());
    lemma_crossing_bounds(
        plan.boundary_signals,
        placed_assignments(plan, workers),
        final_loads(plan, workers)[k].worker_id,
    );
}

/// The workers of a placed plan send together what they receive together: the bits that its
/// boundaries move between workers.
pub proof fn lemma_placed_traffic_adds_up(
    plan: RuntimePartitionPlanView,
    workers: Seq<RuntimeWorkerView>,
)
    requires
        workers.len() <= usize::MAX,
        placement_topology_problem(workers) is None,
        placement_fits(plan, workers),
    ensures
        ({
            let moved = total_crossing_bits(
                plan.boundary_signals,
                placed_assignments(plan, workers),
            );
            let placed = placed_summaries(plan, workers);
            &&& sum_below(placed.len(), |k: int| placed[k].outbound_boundary_bits as int) == moved
            &&& sum_below(placed.len(), |k: int| placed[k].inbound_boundary_bits as int) == moved
        }),
{
    let loads = final_loads(plan, workers);
    let assignments = placed_assignments(plan, workers);
    let boundaries = plan.boundary_signals;
    let placed = placed_summaries(plan, workers);
    lemma_placed_loads_cover(plan, workers);
    assert forall|k: int| 0 <= k < loads.len() implies traffic_fits(
        #[trigger] loads[k],
        boundaries,
        assignments,
    ) by {
        lemma_placed_loads_are_idle(plan, workers, k);
    }
    lemma_traffic_adds_up(loads, boundaries, assignments);
    let out_grown = |k: int|
        load_with_traffic(loads[k], boundaries, assignments).outbound_boundary_bits
            - loads[k].outbound_boundary_bits;
    let inb_grown = |k: int|
        load_with_traffic(loads[k], boundaries, assignments).inbound_boundary_bits
            - loads[k].inbound_boundary_bits;
    let out = |k: int| placed[k].outbound_boundary_bits as int;
    let inb = |k: int| placed[k].inbound_boundary_bits as int;
    assert forall|k: int| 0 <= k < loads.len() implies #[trigger] out(k) == out_grown(k) by {
        lemma_placed_loads_are_idle(plan, workers, k);
    }
    assert forall|k: int| 0 <= k < loads.len() implies #[trigger] inb(k) == inb_grown(k) by {
        lemma_placed_loads_are_idle(plan, workers, k);
    }
    lemma_sum_below_same(loads.len(), out, out_grown);
    lemma_sum_below_same(loads.len(), inb, inb_grown);
}

// ---------------------------------------------------------------------------
// Balance
// ---------------------------------------------------------------------------

/// A cost weighs no less with another one added, and no more than the two by themselves.
proof fn lemma_score_of_sum(a: RuntimePartitionCost, b: RuntimePartitionCost)
    requires
        cost_sum_fits(a, b),
    ensures
        split_score(a) <= split_score(cost_sum(a, b)) <= split_score(a) + split_score(b),
{
}

/// Of two partitions, the one that is placed later weighs no more.
pub proof fn lemma_heavy_first(plan: RuntimePartitionPlanView, i: int, k: int)
    requires
        0 <= i <= k < placement_order(plan).len(),
    ensures
        split_score(placement_order(plan)[k].cost) <= split_score(placement_order(plan)[i].cost),
{
    let ranked = placement_order(plan);
    lemma_sorted_by_key::<RuntimePartition, PlacementOrder>(plan.partitions);
    assert(key_le::<RuntimePartition, PlacementOrder>(ranked[i], ranked[k]));
    lemma_pair_ranked::<u64, String>(
        PlacementOrder::key(ranked[i]),
        PlacementOrder::key(ranked[k]),
    );
}

/// The worker that takes the next partition weighs no more than any other so far.
proof fn lemma_takes_lightest(
    workers: Seq<RuntimeWorkerView>,
    ranked: Seq<RuntimePartitionView>,
    i: int,
    b: int,
)
    requires
        0 < workers.len() <= usize::MAX,
        !has_gpu(workers),
        0 <= i < ranked.len(),
        0 <= b < workers.len(),
    ensures
        0 <= chosen_worker(workers, ranked, i) < workers.len(),
        split_score(
            loads_after(workers, ranked, i as nat)[chosen_worker(workers, ranked, i)].cost,
        ) <= split_score(loads_after(workers, ranked, i as nat)[b].cost),
{
    let loads = loads_after(workers, ranked, i as nat);
    let a = chosen_worker(workers, ranked, i);
    lemma_placing_keeps_workers(workers, ranked, i as nat);
    assert(!is_gpu_backend(workers[b].backend));
    assert(loads[b].backend == workers[b].backend);
    assert(compatible(loads[b].backend, ranked[i], has_cpu(workers)));
    assert(load_le(loads, a, b));
    lemma_pair_ranked::<u64, (usize, (String, usize))>(load_key(loads, a), load_key(loads, b));
}

proof fn lemma_balanced_after(
    plan: RuntimePartitionPlanView,
    workers: Seq<RuntimeWorkerView>,
    n: nat,
    i: int,
    b: int,
)
    requires
        0 < workers.len() <= usize::MAX,
        !has_gpu(workers),
        loads_fit(workers, placement_order(plan)),
        0 <= i < n <= placement_order(plan).len(),
        0 <= b < workers.len(),
    ensures
        ({
            let ranked = placement_order(plan);
            let loads = loads_after(workers, ranked, n);
            let a = chosen_worker(workers, ranked, i);
            split_score(loads[a].cost) <= split_score(loads[b].cost) + split_score(ranked[i].cost)
        }),
    decreases n,
{
    let ranked = placement_order(plan);
    let a = chosen_worker(workers, ranked, i);
    let last = n - 1;
    let taker = chosen_worker(workers, ranked, last);
    let before = loads_after(workers, ranked, last as nat);
    lemma_placing_keeps_workers(workers, ranked, i as nat);
    lemma_placing_keeps_workers(workers, ranked, last as nat);
    lemma_takes_lightest(workers, ranked, last, b);
    lemma_heavy_first(plan, i, last);
    assert(load_fits(workers, ranked, last));
    reveal(load_fits);
    lemma_score_of_sum(before[taker].cost, ranked[last].cost);
    if taker != a && i < last {
        lemma_balanced_after(plan, workers, last as nat, i, b);
    }
}

/// On a topology without a GPU worker no worker carries much more than another: without the
/// lightest of its partitions, and so without any of them, it would weigh no more.
pub proof fn lemma_placement_is_balanced(
    plan: RuntimePartitionPlanView,
    workers: Seq<RuntimeWorkerView>,
    a: int,
    b: int,
    x: int,
)
    requires
        workers.len() <= usize::MAX,
        placement_topology_problem(workers) is None,
        placement_fits(plan, workers),
        !has_gpu(workers),
        0 <= a < workers.len(),
        0 <= b < workers.len(),
        0 <= x < placed_assignments(plan, workers).len(),
        placed_assignments(plan, workers)[x].worker_id == workers[a].id,
    ensures
        ({
            let placed = placed_summaries(plan, workers);
            let partition = placed_assignments(plan, workers)[x];
            split_score(placed[a].cost) - split_score(partition.cost) <= split_score(placed[b].cost)
        }),
{
    let ranked = placement_order(plan);
    let loads = final_loads(plan, workers);
    lemma_sorted_by_key::<RuntimePartition, PlacementOrder>(plan.partitions);
    lemma_placed_loads_cover(plan, workers);
    let i = lemma_assignment_is_made(plan, workers, x);
    let k = chosen_worker(workers, ranked, i);
    assert(loads[k].worker_id == loads[a].worker_id);
    if k < a {
        assert(RuntimePartitionWorkerSummary::name_of(loads[k])
            != RuntimePartitionWorkerSummary::name_of(loads[a]));
    } else if a < k {
        assert(RuntimePartitionWorkerSummary::name_of(loads[a])
            != RuntimePartitionWorkerSummary::name_of(loads[k]));
    }
    lemma_balanced_after(plan, workers, ranked.len(), i, b);
}

} // verus!

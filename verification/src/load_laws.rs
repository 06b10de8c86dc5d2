//! What the workers of a placement carry: the heaviest partitions first, the same weight as far as
//! it can be shared, and all costs of the plan between them.

use vstd::prelude::*;

use crate::conservation::{lemma_sum_by_mapped, lemma_sum_by_permutation};
use crate::launch::AssignmentOrder;
use crate::model::partition::{
    RuntimePartition, RuntimePartitionCost, RuntimePartitionPlanView, RuntimePartitionView,
};
use crate::model::placement::{
    RuntimePartitionAssignment, RuntimePartitionAssignmentView, RuntimePartitionWorkerSummary,
};
use crate::model::topology::RuntimeWorkerView;
use crate::ids::{distinct_names, Named};
use crate::order::{lemma_sorted_by_key, lemma_sorted_by_key_contains};
use crate::pipeline::{lemma_assignment_is_placed, places};
use crate::placement::{
    assignments_made, chosen_worker, final_loads, has_cpu, has_gpu, is_gpu_backend,
    lemma_distinct_loads, lemma_placing_keeps_workers, load_fits, loads_after, loads_fit,
    placed_assignments, placed_summaries, placement_fits, placement_order,
    placement_topology_problem, PlacementOrder,
};
use crate::placement_laws::{lemma_heavy_first, lemma_placement_is_balanced};
use crate::seqs::{lemma_sum_by_push, sum_by};

verus! {

// ---------------------------------------------------------------------------
// Weight
// ---------------------------------------------------------------------------

/// Partitions are placed from the heaviest to the lightest: of two partitions, the one with more
/// operations, state bits and memory bits together is placed first.
pub proof fn lemma_heaviest_is_placed_first(plan: RuntimePartitionPlanView, i: int, k: int)
    requires
        0 <= i < placement_order(plan).len(),
        0 <= k < placement_order(plan).len(),
        ({
            let a = placement_order(plan)[i].cost;
            let b = placement_order(plan)[k].cost;
            &&& a.compute_ops + a.state_bits + a.memory_bits > b.compute_ops + b.state_bits
                + b.memory_bits
            &&& a.compute_ops + a.state_bits + a.memory_bits <= u64::MAX
        }),
    ensures
        i < k,
{
    if k <= i {
        lemma_heavy_first(plan, k, i);
    }
}

/// Where the ids that a worker lists come from: partitions in placement order.
proof fn lemma_listed_in_order(
    workers: Seq<RuntimeWorkerView>,
    ranked: Seq<RuntimePartitionView>,
    n: nat,
    a: int,
    j: int,
    k: int,
) -> (r: (int, int))
    requires
        0 < workers.len() <= usize::MAX,
        n <= ranked.len(),
        0 <= a < workers.len(),
        0 <= j < k < loads_after(workers, ranked, n)[a].partitions.len(),
    ensures
        0 <= r.0 < r.1 < n,
        loads_after(workers, ranked, n)[a].partitions[j] == ranked[r.0].id,
        loads_after(workers, ranked, n)[a].partitions[k] == ranked[r.1].id,
    decreases n,
{
    if n > 0 {
        let last = n - 1;
        lemma_placing_keeps_workers(workers, ranked, last as nat);
        let before = loads_after(workers, ranked, last as nat);
        if k < before[a].partitions.len() {
            lemma_listed_in_order(workers, ranked, last as nat, a, j, k)
        } else {
            let x = lemma_listed_somewhere(workers, ranked, last as nat, a, j);
            (x, last)
        }
    } else {
        (0, 0)
    }
}

proof fn lemma_listed_somewhere(
    workers: Seq<RuntimeWorkerView>,
    ranked: Seq<RuntimePartitionView>,
    n: nat,
    a: int,
    j: int,
) -> (x: int)
    requires
        0 < workers.len() <= usize::MAX,
        n <= ranked.len(),
        0 <= a < workers.len(),
        0 <= j < loads_after(workers, ranked, n)[a].partitions.len(),
    ensures
        0 <= x < n,
        loads_after(workers, ranked, n)[a].partitions[j] == ranked[x].id,
    decreases n,
{
    if n > 0 {
        let last = n - 1;
        lemma_placing_keeps_workers(workers, ranked, last as nat);
        let before = loads_after(workers, ranked, last as nat);
        if j < before[a].partitions.len() {
            lemma_listed_somewhere(workers, ranked, last as nat, a, j)
        } else {
            last
        }
    } else {
        0
    }
}

/// Every worker lists its partitions from the heaviest to the lightest, by their operations, state
/// bits and memory bits together.
pub proof fn lemma_workers_list_heaviest_first(
    plan: RuntimePartitionPlanView,
    workers: Seq<RuntimeWorkerView>,
    a: int,
    j: int,
    k: int,
) -> (r: (int, int))
    requires
        workers.len() <= usize::MAX,
        placement_topology_problem(workers) is None,
        0 <= a < workers.len(),
        0 <= j < k < placed_summaries(plan, workers)[a].partitions.len(),
        forall|i: int|
            0 <= i < plan.partitions.len() ==> {
                let c = (#[trigger] plan.partitions[i]).cost;
                c.compute_ops + c.state_bits + c.memory_bits <= u64::MAX
            },
    ensures
        0 <= r.0 < plan.partitions.len(),
        0 <= r.1 < plan.partitions.len(),
        placed_summaries(plan, workers)[a].partitions[j] == plan.partitions[r.0].id,
        placed_summaries(plan, workers)[a].partitions[k] == plan.partitions[r.1].id,
        ({
            let first = plan.partitions[r.0].cost;
            let second = plan.partitions[r.1].cost;
            first.compute_ops + first.state_bits + first.memory_bits >= second.compute_ops
                + second.state_bits + second.memory_bits
        }),
{
    let ranked = placement_order(plan);
    lemma_sorted_by_key::<RuntimePartition, PlacementOrder>(plan.partitions);
    lemma_placing_keeps_workers(workers, ranked, plan.partitions.len());
    let (x, y) = lemma_listed_in_order(workers, ranked, plan.partitions.len(), a, j, k);
    lemma_heavy_first(plan, x, y);
    lemma_sorted_by_key_contains::<RuntimePartition, PlacementOrder>(plan.partitions, ranked[x]);
    lemma_sorted_by_key_contains::<RuntimePartition, PlacementOrder>(plan.partitions, ranked[y]);
    assert(ranked.contains(ranked[x]) && ranked.contains(ranked[y]));
    let p = choose|p: int| 0 <= p < plan.partitions.len() && plan.partitions[p] == ranked[x];
    let q = choose|q: int| 0 <= q < plan.partitions.len() && plan.partitions[q] == ranked[y];
    (p, q)
}

/// On a topology without a GPU worker no worker carries much more than another: what a worker
/// computes, holds in registers and holds in memories, without the part of any one of its
/// partitions, is no more than what any other worker has.
pub proof fn lemma_weight_is_shared(
    plan: RuntimePartitionPlanView,
    workers: Seq<RuntimeWorkerView>,
    a: int,
    b: int,
    x: int,
)
    requires
        workers.len() <= usize::MAX,
        placement_topology_problem(workers) is None,
        placement_fits(plan, workers),
        forall|k: int| 0 <= k < workers.len() ==> !((#[trigger] workers[k]).backend is Gpu),
        0 <= a < workers.len(),
        0 <= b < workers.len(),
        0 <= x < placed_assignments(plan, workers).len(),
        placed_assignments(plan, workers)[x].worker_id == workers[a].id,
        ({
            let c = placed_summaries(plan, workers)[a].cost;
            c.compute_ops + c.state_bits + c.memory_bits <= u64::MAX
        }),
    ensures
        ({
            let mine = placed_summaries(plan, workers)[a].cost;
            let other = placed_summaries(plan, workers)[b].cost;
            let part = placed_assignments(plan, workers)[x].cost;
            (mine.compute_ops + mine.state_bits + mine.memory_bits) - (part.compute_ops
                + part.state_bits + part.memory_bits) <= other.compute_ops + other.state_bits
                + other.memory_bits
        }),
{
    assert(!has_gpu(workers));
    lemma_placement_is_balanced(plan, workers, a, b, x);
}

// ---------------------------------------------------------------------------
// Shares
// ---------------------------------------------------------------------------

/// What the assignments to a worker measure together.
pub open spec fn given_to(
    assignments: Seq<RuntimePartitionAssignmentView>,
    worker: Seq<char>,
    f: spec_fn(RuntimePartitionCost) -> int,
) -> int {
    sum_by(
        assignments,
        |x: RuntimePartitionAssignmentView|
            if x.worker_id == worker {
                f(x.cost)
            } else {
                0
            },
    )
}

/// Whether a measure of costs is one of their four numbers.
pub open spec fn is_number(f: spec_fn(RuntimePartitionCost) -> int) -> bool {
    ||| f == (|c: RuntimePartitionCost| c.compute_ops as int)
    ||| f == (|c: RuntimePartitionCost| c.state_bits as int)
    ||| f == (|c: RuntimePartitionCost| c.memory_bits as int)
    ||| f == (|c: RuntimePartitionCost| c.boundary_bits as int)
}

proof fn lemma_load_is_given(
    workers: Seq<RuntimeWorkerView>,
    ranked: Seq<RuntimePartitionView>,
    n: nat,
    a: int,
    f: spec_fn(RuntimePartitionCost) -> int,
)
    requires
        0 < workers.len() <= usize::MAX,
        distinct_names::<RuntimePartitionWorkerSummary>(loads_after(workers, ranked, 0)),
        loads_fit(workers, ranked),
        n <= ranked.len(),
        0 <= a < workers.len(),
        is_number(f),
    ensures
        f(loads_after(workers, ranked, n)[a].cost) == given_to(
            assignments_made(workers, ranked).take(n as int),
            workers[a].id,
            f,
        ),
    decreases n,
{
    let made = assignments_made(workers, ranked);
    let g = |x: RuntimePartitionAssignmentView|
        if x.worker_id == workers[a].id {
            f(x.cost)
        } else {
            0
        };
    if n > 0 {
        let last = n - 1;
        lemma_load_is_given(workers, ranked, last as nat, a, f);
        lemma_placing_keeps_workers(workers, ranked, last as nat);
        let k = chosen_worker(workers, ranked, last);
        assert(load_fits(workers, ranked, last));
        reveal(load_fits);
        assert(made.take(n as int) =~= made.take(last).push(made[last]));
        lemma_sum_by_push(made.take(last), made[last], g);
        let first = loads_after(workers, ranked, 0);
        if k < a {
            assert(RuntimePartitionWorkerSummary::name_of(first[k])
                != RuntimePartitionWorkerSummary::name_of(first[a]));
        } else if a < k {
            assert(RuntimePartitionWorkerSummary::name_of(first[a])
                != RuntimePartitionWorkerSummary::name_of(first[k]));
        }
    } else {
        assert(made.take(0) =~= Seq::empty());
    }
}

/// What a worker is said to cost is what the partitions that are assigned to it cost together, in
/// each of the four numbers.
pub proof fn lemma_worker_cost_is_given(
    plan: RuntimePartitionPlanView,
    workers: Seq<RuntimeWorkerView>,
    a: int,
    f: spec_fn(RuntimePartitionCost) -> int,
)
    requires
        workers.len() <= usize::MAX,
        placement_topology_problem(workers) is None,
        placement_fits(plan, workers),
        0 <= a < workers.len(),
        is_number(f),
    ensures
        f(placed_summaries(plan, workers)[a].cost) == given_to(
            placed_assignments(plan, workers),
            workers[a].id,
            f,
        ),
        placed_summaries(plan, workers)[a].worker_id == workers[a].id,
{
    let ranked = placement_order(plan);
    let made = assignments_made(workers, ranked);
    lemma_sorted_by_key::<RuntimePartition, PlacementOrder>(plan.partitions);
    lemma_placing_keeps_workers(workers, ranked, 0);
    lemma_placing_keeps_workers(workers, ranked, plan.partitions.len());
    lemma_distinct_loads(loads_after(workers, ranked, 0), workers);
    lemma_load_is_given(workers, ranked, plan.partitions.len(), a, f);
    assert(made.take(made.len() as int) =~= made);
    lemma_sorted_by_key::<RuntimePartitionAssignment, AssignmentOrder>(made);
    lemma_sum_by_permutation(
        placed_assignments(plan, workers),
        made,
        |x: RuntimePartitionAssignmentView|
            if x.worker_id == workers[a].id {
                f(x.cost)
            } else {
                0
            },
    );
}

/// The assignments of a plan cost together what its partitions cost together.
pub proof fn lemma_assignments_keep_costs(
    plan: RuntimePartitionPlanView,
    workers: Seq<RuntimeWorkerView>,
    f: spec_fn(RuntimePartitionCost) -> int,
)
    ensures
        placed_assignments(plan, workers).len() == plan.partitions.len(),
        sum_by(placed_assignments(plan, workers), |x: RuntimePartitionAssignmentView| f(x.cost))
            == sum_by(plan.partitions, |p: RuntimePartitionView| f(p.cost)),
{
    let ranked = placement_order(plan);
    let made = assignments_made(workers, ranked);
    let of_assignment = |x: RuntimePartitionAssignmentView| f(x.cost);
    let of_partition = |p: RuntimePartitionView| f(p.cost);
    lemma_sorted_by_key::<RuntimePartition, PlacementOrder>(plan.partitions);
    lemma_sorted_by_key::<RuntimePartitionAssignment, AssignmentOrder>(made);
    lemma_sum_by_permutation(placed_assignments(plan, workers), made, of_assignment);
    lemma_sum_by_mapped(made, ranked, of_assignment, of_partition);
    lemma_sum_by_permutation(ranked, plan.partitions, of_partition);
}

/// A partition that is external or has memories is not put on a GPU worker where there is another
/// one; and an assignment tells the backend and node of its worker, and the cost and path of its
/// partition.
pub proof fn lemma_assignment_is_suitable(
    plan: RuntimePartitionPlanView,
    workers: Seq<RuntimeWorkerView>,
    x: int,
) -> (r: (int, int))
    requires
        workers.len() <= usize::MAX,
        placement_topology_problem(workers) is None,
        0 <= x < placed_assignments(plan, workers).len(),
    ensures
        0 <= r.0 < plan.partitions.len(),
        0 <= r.1 < workers.len(),
        ({
            let assignment = placed_assignments(plan, workers)[x];
            let partition = plan.partitions[r.0];
            let worker = workers[r.1];
            &&& assignment.partition_id == partition.id
            &&& assignment.instance_path == partition.instance_path
            &&& assignment.cost == partition.cost
            &&& assignment.worker_id == worker.id
            &&& assignment.backend == worker.backend
            &&& assignment.node == worker.node
            &&& (partition.external || partition.cost.memory_bits > 0) && (exists|k: int|
                0 <= k < workers.len() && !((#[trigger] workers[k]).backend is Gpu))
                ==> !(worker.backend is Gpu)
        }),
{
    lemma_assignment_is_placed(plan, workers, x);
    let (i, k) = choose|i: int, k: int|
        0 <= i < plan.partitions.len() && 0 <= k < workers.len() && #[trigger] places(
            placed_assignments(plan, workers)[x],
            plan.partitions[i],
            workers[k],
            workers,
        );
    if exists|k: int| 0 <= k < workers.len() && !((#[trigger] workers[k]).backend is Gpu) {
        let k = choose|k: int| 0 <= k < workers.len() && !((#[trigger] workers[k]).backend is Gpu);
        assert(!is_gpu_backend(workers[k].backend));
        assert(has_cpu(workers));
    }
    (i, k)
}

proof fn lemma_chosen_lists(
    workers: Seq<RuntimeWorkerView>,
    ranked: Seq<RuntimePartitionView>,
    n: nat,
    i: int,
)
    requires
        0 < workers.len() <= usize::MAX,
        0 <= i < n <= ranked.len(),
    ensures
        loads_after(workers, ranked, n)[chosen_worker(workers, ranked, i)].partitions.contains(
            ranked[i].id,
        ),
    decreases n,
{
    let last = n - 1;
    let a = chosen_worker(workers, ranked, i);
    lemma_placing_keeps_workers(workers, ranked, last as nat);
    lemma_placing_keeps_workers(workers, ranked, i as nat);
    let before = loads_after(workers, ranked, last as nat);
    let after = loads_after(workers, ranked, n);
    if i < last {
        lemma_chosen_lists(workers, ranked, last as nat, i);
        let j = choose|j: int|
            0 <= j < before[a].partitions.len() && before[a].partitions[j] == ranked[i].id;
        assert(after[a].partitions[j] == ranked[i].id);
    } else {
        assert(after[a].partitions[before[a].partitions.len() as int] == ranked[i].id);
    }
}

/// A worker lists every partition that is assigned to it.
pub proof fn lemma_assigned_partition_is_listed(
    plan: RuntimePartitionPlanView,
    workers: Seq<RuntimeWorkerView>,
    a: int,
    x: int,
)
    requires
        workers.len() <= usize::MAX,
        placement_topology_problem(workers) is None,
        0 <= a < workers.len(),
        0 <= x < placed_assignments(plan, workers).len(),
        placed_assignments(plan, workers)[x].worker_id == workers[a].id,
    ensures
        placed_summaries(plan, workers)[a].partitions.contains(
            placed_assignments(plan, workers)[x].partition_id,
        ),
{
    let ranked = placement_order(plan);
    let made = assignments_made(workers, ranked);
    let assignments = placed_assignments(plan, workers);
    lemma_sorted_by_key::<RuntimePartition, PlacementOrder>(plan.partitions);
    lemma_sorted_by_key_contains::<RuntimePartitionAssignment, AssignmentOrder>(
        made,
        assignments[x],
    );
    assert(assignments.contains(assignments[x]));
    let i = choose|i: int| 0 <= i < made.len() && made[i] == assignments[x];
    lemma_placing_keeps_workers(workers, ranked, i as nat);
    lemma_placing_keeps_workers(workers, ranked, plan.partitions.len());
    lemma_chosen_lists(workers, ranked, plan.partitions.len(), i);
    let loads = final_loads(plan, workers);
    lemma_distinct_loads(loads, workers);
    let k = chosen_worker(workers, ranked, i);
    if k < a {
        assert(RuntimePartitionWorkerSummary::name_of(loads[k])
            != RuntimePartitionWorkerSummary::name_of(loads[a]));
    } else if a < k {
        assert(RuntimePartitionWorkerSummary::name_of(loads[a])
            != RuntimePartitionWorkerSummary::name_of(loads[k]));
    }
}

} // verus!

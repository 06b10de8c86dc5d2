//! Placing partitions onto workers.
//!
//! Partitions are taken from the heaviest to the lightest, and each goes to the
//! compatible worker with the smallest load so far.

use vstd::prelude::*;

use crate::collect::{
    append_items, build_items, check_each, gather, gather_items, lemma_sum_below_grows,
    lemma_sum_below_mono, sum_below, sum_items,
};
use crate::communication::{assignment_of, traffic_is_high};
use crate::cost::{
    add_partition_cost, cost_sum, cost_sum_fits, no_cost, partition_split_score, saturated,
    saturating_product, split_score,
};
use crate::error::{error, fails_with, report, ErrorReport, ErrorReportView};
use crate::ids::{distinct_names, find_last_named, is_repeated_name, repeats_name, Named};
use crate::launch::AssignmentOrder;
use crate::model::partition::{
    RuntimePartition, RuntimePartitionBoundarySignalView, RuntimePartitionCost,
    RuntimePartitionDiagnosticSeverity, RuntimePartitionPlan, RuntimePartitionPlanView,
    RuntimePartitionView,
};
use crate::model::placement::{
    RuntimePartitionAssignment, RuntimePartitionAssignmentView, RuntimePartitionPlacementDiagnostic,
    RuntimePartitionPlacementDiagnosticCode, RuntimePartitionPlacementDiagnosticView,
    RuntimePartitionPlacementPlan, RuntimePartitionPlacementPlanView,
    RuntimePartitionPlacementRecommendation, RuntimePartitionPlacementRecommendationCode,
    RuntimePartitionPlacementRecommendationView, RuntimePartitionWorkerSummary,
    RuntimePartitionWorkerSummaryView, RUNTIME_PARTITION_PLACEMENT_FORMAT_VERSION,
};
use crate::model::topology::{
    RuntimeBackend, RuntimeTopology, RuntimeTopologyView, RuntimeWorker, RuntimeWorkerView,
};
use crate::order::{
    lemma_pair_ranked, lemma_ranked_chain, lemma_ranked_same, lemma_sorted_by_key, sort_by_key,
    sorted_by_key, Ranked, SortKey,
};
use crate::seqs::{
    first_problem, last_index, lemma_first_problem_none, lemma_last_index_is, no_items, or_problem,
    push_item,
};
use crate::text::{append_decimal, decimal, join_text, joined, same_text};
use crate::versions::partition_plan_version_problem;

verus! {

// ---------------------------------------------------------------------------
// Topologies that partitions can be placed on
// ---------------------------------------------------------------------------

pub open spec fn topology_report(message: Seq<char>) -> ErrorReportView {
    report("E_RUNTIME_PARTITION_PLACEMENT_TOPOLOGY"@, message)
}

/// A topology needs a worker, every worker a lane, and no two workers may share
/// an id.
pub open spec fn placement_topology_problem(workers: Seq<RuntimeWorkerView>) -> Option<
    ErrorReportView,
> {
    if workers.len() == 0 {
        Some(topology_report("runtime partition placement requires at least one worker"@))
    } else if exists|i: int| 0 <= i < workers.len() && (#[trigger] workers[i]).lanes == 0 {
        Some(topology_report("runtime partition placement workers must have at least one lane"@))
    } else {
        first_problem(workers.len(), |i: int| repeated_worker_problem(workers, i))
    }
}

pub open spec fn repeated_worker_problem(workers: Seq<RuntimeWorkerView>, i: int) -> Option<
    ErrorReportView,
> {
    if repeats_name::<RuntimeWorker>(workers, i) {
        Some(
            topology_report(
                "runtime partition placement has duplicate worker `"@ + workers[i].id + "`"@,
            ),
        )
    } else {
        None
    }
}

/// What keeps a plan from being placed.
pub open spec fn placement_problem(
    plan: RuntimePartitionPlanView,
    topology: RuntimeTopologyView,
) -> Option<ErrorReportView> {
    or_problem(
        partition_plan_version_problem(plan.format_version),
        placement_topology_problem(topology.workers),
    )
}

// ---------------------------------------------------------------------------
// Choosing workers
// ---------------------------------------------------------------------------

pub open spec fn is_gpu_backend(backend: RuntimeBackend) -> bool {
    backend is Gpu
}

/// Whether a topology has a worker that is not a GPU.
pub open spec fn has_cpu(workers: Seq<RuntimeWorkerView>) -> bool {
    exists|i: int| 0 <= i < workers.len() && !is_gpu_backend((#[trigger] workers[i]).backend)
}

/// Whether a topology has a GPU worker.
pub open spec fn has_gpu(workers: Seq<RuntimeWorkerView>) -> bool {
    exists|i: int| 0 <= i < workers.len() && is_gpu_backend((#[trigger] workers[i]).backend)
}

/// External partitions and partitions with memories do not run well on a GPU.
pub open spec fn gpu_hostile(partition: RuntimePartitionView) -> bool {
    partition.external || partition.cost.memory_bits > 0
}

/// Whether a worker may take a partition: a GPU-hostile one goes to a GPU only if
/// there is no other worker.
pub open spec fn compatible(
    backend: RuntimeBackend,
    partition: RuntimePartitionView,
    cpu_exists: bool,
) -> bool {
    !(cpu_exists && is_gpu_backend(backend) && gpu_hostile(partition))
}

/// The type of the key by which loads are compared.
pub type LoadKey = (u64, (usize, (String, usize)));

/// Loads are compared by weight, number of partitions, worker id and position.
pub open spec fn load_key(loads: Seq<RuntimePartitionWorkerSummaryView>, k: int) -> (
    u64,
    (usize, (Seq<char>, usize)),
) {
    (
        split_score(loads[k].cost),
        (loads[k].partitions.len() as usize, (loads[k].worker_id, k as usize)),
    )
}

/// Whether load `j` is no greater than load `k`.
pub open spec fn load_le(loads: Seq<RuntimePartitionWorkerSummaryView>, j: int, k: int) -> bool {
    LoadKey::ranked_le(load_key(loads, j), load_key(loads, k))
}

/// Whether `k` is the compatible worker with the smallest load.
pub open spec fn is_best_worker(
    loads: Seq<RuntimePartitionWorkerSummaryView>,
    partition: RuntimePartitionView,
    cpu_exists: bool,
    k: int,
) -> bool {
    &&& 0 <= k < loads.len()
    &&& compatible(loads[k].backend, partition, cpu_exists)
    &&& forall|j: int|
        0 <= j < loads.len() && compatible(loads[j].backend, partition, cpu_exists)
            ==> #[trigger] load_le(loads, k, j)
}

/// The compatible worker with the smallest load.
#[verifier::opaque]
pub open spec fn best_worker(
    loads: Seq<RuntimePartitionWorkerSummaryView>,
    partition: RuntimePartitionView,
    cpu_exists: bool,
) -> int {
    choose|k: int| is_best_worker(loads, partition, cpu_exists, k)
}

/// There is only one best worker.
pub proof fn lemma_best_worker_unique(
    loads: Seq<RuntimePartitionWorkerSummaryView>,
    partition: RuntimePartitionView,
    cpu_exists: bool,
    k: int,
)
    requires
        loads.len() <= usize::MAX,
        is_best_worker(loads, partition, cpu_exists, k),
    ensures
        best_worker(loads, partition, cpu_exists) == k,
{
    reveal(best_worker);
    let b = best_worker(loads, partition, cpu_exists);
    assert(is_best_worker(loads, partition, cpu_exists, b));
    assert(load_le(loads, k, b));
    assert(load_le(loads, b, k));
    lemma_ranked_same::<LoadKey>(load_key(loads, k), load_key(loads, b));
}

/// Partitions are placed from the heaviest to the lightest, and by id where the
/// weight is the same.
pub struct PlacementOrder {}

impl SortKey<RuntimePartition> for PlacementOrder {
    type Key = (u64, String);

    open spec fn key(v: RuntimePartitionView) -> (u64, Seq<char>) {
        ((u64::MAX - split_score(v.cost)) as u64, v.id)
    }

    fn is_key_le(a: &RuntimePartition, b: &RuntimePartition) -> bool {
        proof {
            lemma_pair_ranked::<u64, String>(
                Self::key(a.deep_view()),
                Self::key(b.deep_view()),
            );
        }
        let left: u64 = partition_split_score(a.cost);
        let right: u64 = partition_split_score(b.cost);
        if left != right {
            return left > right;
        }
        a.id.is_ranked_le(&b.id)
    }
}

/// The partitions of a plan, in placement order.
pub open spec fn placement_order(plan: RuntimePartitionPlanView) -> Seq<RuntimePartitionView> {
    sorted_by_key::<RuntimePartition, PlacementOrder>(plan.partitions)
}

/// A worker without load.
pub open spec fn empty_load(worker: RuntimeWorkerView) -> RuntimePartitionWorkerSummaryView {
    RuntimePartitionWorkerSummaryView {
        worker_id: worker.id,
        backend: worker.backend,
        node: worker.node,
        partitions: seq![],
        cost: no_cost(),
        inbound_boundary_bits: 0,
        outbound_boundary_bits: 0,
    }
}

/// A load with one more partition.
pub open spec fn load_with(
    load: RuntimePartitionWorkerSummaryView,
    partition: RuntimePartitionView,
) -> RuntimePartitionWorkerSummaryView {
    RuntimePartitionWorkerSummaryView {
        partitions: load.partitions.push(partition.id),
        cost: cost_sum(load.cost, partition.cost),
        ..load
    }
}

/// The loads after the first `n` partitions were placed.
pub open spec fn loads_after(
    workers: Seq<RuntimeWorkerView>,
    ranked: Seq<RuntimePartitionView>,
    n: nat,
) -> Seq<RuntimePartitionWorkerSummaryView>
    decreases n,
{
    if n == 0 {
        Seq::new(workers.len(), |k: int| empty_load(workers[k]))
    } else {
        let loads = loads_after(workers, ranked, (n - 1) as nat);
        let k = best_worker(loads, ranked[n - 1], has_cpu(workers));
        loads.update(k, load_with(loads[k], ranked[n - 1]))
    }
}

/// The worker that partition `i` is placed on.
pub open spec fn chosen_worker(
    workers: Seq<RuntimeWorkerView>,
    ranked: Seq<RuntimePartitionView>,
    i: int,
) -> int {
    best_worker(loads_after(workers, ranked, i as nat), ranked[i], has_cpu(workers))
}

/// The assignment of a partition to a worker.
pub open spec fn assigned_to(
    partition: RuntimePartitionView,
    worker: RuntimeWorkerView,
) -> RuntimePartitionAssignmentView {
    RuntimePartitionAssignmentView {
        partition_id: partition.id,
        worker_id: worker.id,
        backend: worker.backend,
        node: worker.node,
        instance_path: partition.instance_path,
        cost: partition.cost,
    }
}

/// The assignments in the order in which they are made.
pub open spec fn assignments_made(
    workers: Seq<RuntimeWorkerView>,
    ranked: Seq<RuntimePartitionView>,
) -> Seq<RuntimePartitionAssignmentView> {
    Seq::new(
        ranked.len(),
        |i: int| assigned_to(ranked[i], workers[chosen_worker(workers, ranked, i)]),
    )
}

/// The assignments of a plan, by partition id.
pub open spec fn placed_assignments(
    plan: RuntimePartitionPlanView,
    workers: Seq<RuntimeWorkerView>,
) -> Seq<RuntimePartitionAssignmentView> {
    sorted_by_key::<RuntimePartitionAssignment, AssignmentOrder>(
        assignments_made(workers, placement_order(plan)),
    )
}

/// The loads after all partitions were placed.
pub open spec fn final_loads(
    plan: RuntimePartitionPlanView,
    workers: Seq<RuntimeWorkerView>,
) -> Seq<RuntimePartitionWorkerSummaryView> {
    loads_after(workers, placement_order(plan), plan.partitions.len())
}

// ---------------------------------------------------------------------------
// Traffic between workers
// ---------------------------------------------------------------------------

/// The worker that a partition is assigned to.
pub open spec fn worker_of(
    assignments: Seq<RuntimePartitionAssignmentView>,
    partition: Seq<char>,
) -> Option<Seq<char>> {
    match assignment_of(assignments, partition) {
        Some(a) => Some(a.worker_id),
        None => None,
    }
}

/// The worker that produces a boundary.
pub open spec fn producing_worker(
    boundary: RuntimePartitionBoundarySignalView,
    assignments: Seq<RuntimePartitionAssignmentView>,
) -> Option<Seq<char>> {
    match boundary.producer_partition {
        Some(p) => worker_of(assignments, p),
        None => None,
    }
}

/// Whether a boundary crosses to another worker at its consumer `j`.
pub open spec fn crosses_at(
    boundary: RuntimePartitionBoundarySignalView,
    assignments: Seq<RuntimePartitionAssignmentView>,
    j: int,
) -> bool {
    let from = producing_worker(boundary, assignments);
    let to = worker_of(assignments, boundary.consumer_partitions[j]);
    from is Some && to is Some && from != to
}

/// The bits that a boundary moves between workers.
pub open spec fn crossing_bits(
    boundary: RuntimePartitionBoundarySignalView,
    assignments: Seq<RuntimePartitionAssignmentView>,
) -> int {
    sum_below(
        boundary.consumer_partitions.len(),
        |j: int|
            if crosses_at(boundary, assignments, j) {
                boundary.width as int
            } else {
                0
            },
    )
}

/// The bits that a boundary moves to a worker.
pub open spec fn crossing_bits_to(
    boundary: RuntimePartitionBoundarySignalView,
    assignments: Seq<RuntimePartitionAssignmentView>,
    worker: Seq<char>,
) -> int {
    sum_below(
        boundary.consumer_partitions.len(),
        |j: int|
            if crosses_at(boundary, assignments, j) && worker_of(
                assignments,
                boundary.consumer_partitions[j],
            ) == Some(worker) {
                boundary.width as int
            } else {
                0
            },
    )
}

/// The bits that all boundaries move between workers.
pub open spec fn total_crossing_bits(
    boundaries: Seq<RuntimePartitionBoundarySignalView>,
    assignments: Seq<RuntimePartitionAssignmentView>,
) -> int {
    sum_below(boundaries.len(), |i: int| crossing_bits(boundaries[i], assignments))
}

/// The boundary bits that leave a worker.
pub open spec fn leaving_bits(
    boundaries: Seq<RuntimePartitionBoundarySignalView>,
    assignments: Seq<RuntimePartitionAssignmentView>,
    worker: Seq<char>,
) -> int {
    sum_below(
        boundaries.len(),
        |i: int|
            if producing_worker(boundaries[i], assignments) == Some(worker) {
                crossing_bits(boundaries[i], assignments)
            } else {
                0
            },
    )
}

/// The boundary bits that reach a worker.
pub open spec fn reaching_bits(
    boundaries: Seq<RuntimePartitionBoundarySignalView>,
    assignments: Seq<RuntimePartitionAssignmentView>,
    worker: Seq<char>,
) -> int {
    sum_below(boundaries.len(), |i: int| crossing_bits_to(boundaries[i], assignments, worker))
}

/// A load to which the traffic of its worker was added.
pub open spec fn load_with_traffic(
    load: RuntimePartitionWorkerSummaryView,
    boundaries: Seq<RuntimePartitionBoundarySignalView>,
    assignments: Seq<RuntimePartitionAssignmentView>,
) -> RuntimePartitionWorkerSummaryView {
    RuntimePartitionWorkerSummaryView {
        inbound_boundary_bits: (load.inbound_boundary_bits + reaching_bits(
            boundaries,
            assignments,
            load.worker_id,
        )) as u64,
        outbound_boundary_bits: (load.outbound_boundary_bits + leaving_bits(
            boundaries,
            assignments,
            load.worker_id,
        )) as u64,
        ..load
    }
}

/// Whether a load can take the traffic of its worker.
pub open spec fn traffic_fits(
    load: RuntimePartitionWorkerSummaryView,
    boundaries: Seq<RuntimePartitionBoundarySignalView>,
    assignments: Seq<RuntimePartitionAssignmentView>,
) -> bool {
    &&& load.inbound_boundary_bits + reaching_bits(boundaries, assignments, load.worker_id)
        <= u64::MAX
    &&& load.outbound_boundary_bits + leaving_bits(boundaries, assignments, load.worker_id)
        <= u64::MAX
}

/// The loads of all workers with their traffic.
pub open spec fn placed_summaries(
    plan: RuntimePartitionPlanView,
    workers: Seq<RuntimeWorkerView>,
) -> Seq<RuntimePartitionWorkerSummaryView> {
    final_loads(plan, workers).map_values(
        |load: RuntimePartitionWorkerSummaryView|
            load_with_traffic(load, plan.boundary_signals, placed_assignments(plan, workers)),
    )
}

// ---------------------------------------------------------------------------
// Findings
// ---------------------------------------------------------------------------

/// The diagnostic of a GPU-hostile partition that a CPU worker takes although
/// there is a GPU.
pub open spec fn cpu_fallback_diagnostic(
    workers: Seq<RuntimeWorkerView>,
    ranked: Seq<RuntimePartitionView>,
    i: int,
) -> Option<RuntimePartitionPlacementDiagnosticView> {
    let partition = ranked[i];
    if has_cpu(workers) && has_gpu(workers) && gpu_hostile(partition) {
        Some(
            RuntimePartitionPlacementDiagnosticView {
                code: RuntimePartitionPlacementDiagnosticCode::CpuFallback,
                severity: RuntimePartitionDiagnosticSeverity::Info,
                message: "partition `"@ + partition.id
                    + "` uses CPU placement because external or memory-heavy partitions are GPU-hostile in v1"@,
                worker_id: Some(workers[chosen_worker(workers, ranked, i)].id),
                partition_id: Some(partition.id),
                boundary_index: None,
            },
        )
    } else {
        None
    }
}

/// Whether a boundary is reported: it crosses workers and is wide, or all
/// crossing traffic is high.
pub open spec fn crossing_is_reported(
    boundary: RuntimePartitionBoundarySignalView,
    assignments: Seq<RuntimePartitionAssignmentView>,
    high: bool,
) -> bool {
    crossing_bits(boundary, assignments) != 0 && (boundary.width >= 1024 || high)
}

/// The diagnostic of such a boundary.
pub open spec fn crossing_diagnostic(
    boundaries: Seq<RuntimePartitionBoundarySignalView>,
    assignments: Seq<RuntimePartitionAssignmentView>,
    high: bool,
    i: int,
) -> Option<RuntimePartitionPlacementDiagnosticView> {
    let boundary = boundaries[i];
    if crossing_is_reported(boundary, assignments, high) {
        Some(
            RuntimePartitionPlacementDiagnosticView {
                code: RuntimePartitionPlacementDiagnosticCode::HighCrossWorkerBoundaryTraffic,
                severity: RuntimePartitionDiagnosticSeverity::Warning,
                message: "boundary `"@ + boundary.port_name + "` on `"@ + joined(
                    boundary.instance_path,
                    "."@,
                ) + "` moves "@ + decimal(crossing_bits(boundary, assignments) as nat)
                    + " bits across workers"@,
                worker_id: producing_worker(boundary, assignments),
                partition_id: boundary.producer_partition,
                boundary_index: Some(i as usize),
            },
        )
    } else {
        None
    }
}

/// The recommendation for such a boundary.
pub open spec fn crossing_recommendation(
    boundaries: Seq<RuntimePartitionBoundarySignalView>,
    assignments: Seq<RuntimePartitionAssignmentView>,
    high: bool,
    i: int,
) -> Option<RuntimePartitionPlacementRecommendationView> {
    let boundary = boundaries[i];
    if crossing_is_reported(boundary, assignments, high) {
        Some(
            RuntimePartitionPlacementRecommendationView {
                code: RuntimePartitionPlacementRecommendationCode::CoLocatePartitions,
                message: "consider placing partitions connected by `"@ + joined(
                    boundary.instance_path,
                    "."@,
                ) + "` on the same worker or node"@,
                worker_id: None,
                partition_id: boundary.producer_partition,
                boundary_index: Some(i as usize),
            },
        )
    } else {
        None
    }
}

/// The weight of all loads.
pub open spec fn total_score(loads: Seq<RuntimePartitionWorkerSummaryView>) -> int {
    sum_below(loads.len(), |k: int| split_score(loads[k].cost) as int)
}

/// Whether load `k` weighs no less than any other.
pub open spec fn is_heaviest(loads: Seq<RuntimePartitionWorkerSummaryView>, k: int) -> bool {
    forall|j: int|
        0 <= j < loads.len() ==> split_score((#[trigger] loads[j]).cost) <= split_score(
            loads[k].cost,
        )
}

/// The last of the heaviest loads.
pub open spec fn heaviest(loads: Seq<RuntimePartitionWorkerSummaryView>) -> Option<int> {
    last_index(loads.len(), |k: int| is_heaviest(loads, k))
}

/// The load that is more than twice the average, if there is one.
pub open spec fn overloaded(loads: Seq<RuntimePartitionWorkerSummaryView>) -> Option<int> {
    if loads.len() < 2 || total_score(loads) == 0 {
        None
    } else {
        match heaviest(loads) {
            None => None,
            Some(k) => if saturated(split_score(loads[k].cost) * loads.len()) <= saturated(
                total_score(loads) * 2,
            ) {
                None
            } else {
                Some(k)
            },
        }
    }
}

/// The diagnostics of how partitions spread over workers.
pub open spec fn balance_diagnostics(
    partition_count: nat,
    loads: Seq<RuntimePartitionWorkerSummaryView>,
) -> Seq<RuntimePartitionPlacementDiagnosticView> {
    (if partition_count > loads.len() {
        seq![
            RuntimePartitionPlacementDiagnosticView {
                code: RuntimePartitionPlacementDiagnosticCode::UnderProvisionedWorkers,
                severity: RuntimePartitionDiagnosticSeverity::Info,
                message: "placement maps "@ + decimal(partition_count) + " partitions onto "@
                    + decimal(loads.len()) + " workers"@,
                worker_id: None,
                partition_id: None,
                boundary_index: None,
            },
        ]
    } else {
        seq![]
    }) + (match overloaded(loads) {
        Some(k) => seq![
            RuntimePartitionPlacementDiagnosticView {
                code: RuntimePartitionPlacementDiagnosticCode::WorkerImbalance,
                severity: RuntimePartitionDiagnosticSeverity::Warning,
                message: "worker `"@ + loads[k].worker_id
                    + "` has more than 2x average placed cost"@,
                worker_id: Some(loads[k].worker_id),
                partition_id: None,
                boundary_index: None,
            },
        ],
        None => seq![],
    })
}

/// The recommendations for how partitions spread over workers.
pub open spec fn balance_recommendations(
    partition_count: nat,
    loads: Seq<RuntimePartitionWorkerSummaryView>,
) -> Seq<RuntimePartitionPlacementRecommendationView> {
    (if partition_count > loads.len() {
        seq![
            RuntimePartitionPlacementRecommendationView {
                code: RuntimePartitionPlacementRecommendationCode::AddWorkers,
                message: "add workers or reduce target partitions to lower per-worker multiplexing"@,
                worker_id: None,
                partition_id: None,
                boundary_index: None,
            },
        ]
    } else {
        seq![]
    }) + (match overloaded(loads) {
        Some(k) => seq![
            RuntimePartitionPlacementRecommendationView {
                code: RuntimePartitionPlacementRecommendationCode::MovePartition,
                message: "move a partition away from worker `"@ + loads[k].worker_id
                    + "` or split its heaviest assigned partition"@,
                worker_id: Some(loads[k].worker_id),
                partition_id: None,
                boundary_index: None,
            },
        ],
        None => seq![],
    })
}

/// Whether crossing traffic is high for a plan.
pub open spec fn crossing_is_high(
    plan: RuntimePartitionPlanView,
    assignments: Seq<RuntimePartitionAssignmentView>,
) -> bool {
    traffic_is_high(plan.total_cost, total_crossing_bits(plan.boundary_signals, assignments))
}

/// All diagnostics of a placement.
pub open spec fn placement_diagnostics(
    plan: RuntimePartitionPlanView,
    workers: Seq<RuntimeWorkerView>,
) -> Seq<RuntimePartitionPlacementDiagnosticView> {
    let ranked = placement_order(plan);
    let assignments = placed_assignments(plan, workers);
    let high = crossing_is_high(plan, assignments);
    gather(ranked.len(), |i: int| cpu_fallback_diagnostic(workers, ranked, i)) + gather(
        plan.boundary_signals.len(),
        |i: int| crossing_diagnostic(plan.boundary_signals, assignments, high, i),
    ) + balance_diagnostics(plan.partitions.len(), final_loads(plan, workers))
}

/// All recommendations of a placement.
pub open spec fn placement_recommendations(
    plan: RuntimePartitionPlanView,
    workers: Seq<RuntimeWorkerView>,
) -> Seq<RuntimePartitionPlacementRecommendationView> {
    let assignments = placed_assignments(plan, workers);
    let high = crossing_is_high(plan, assignments);
    gather(
        plan.boundary_signals.len(),
        |i: int| crossing_recommendation(plan.boundary_signals, assignments, high, i),
    ) + balance_recommendations(plan.partitions.len(), final_loads(plan, workers))
}

/// The placement of a plan on a topology.
pub open spec fn placement_plan(
    plan: RuntimePartitionPlanView,
    topology: RuntimeTopologyView,
) -> RuntimePartitionPlacementPlanView {
    RuntimePartitionPlacementPlanView {
        format_version: RUNTIME_PARTITION_PLACEMENT_FORMAT_VERSION,
        module_name: plan.module_name,
        topology,
        assignments: placed_assignments(plan, topology.workers),
        worker_summaries: placed_summaries(plan, topology.workers),
        total_cost: plan.total_cost,
        diagnostics: placement_diagnostics(plan, topology.workers),
        recommendations: placement_recommendations(plan, topology.workers),
    }
}

/// Whether the worker that partition `i` goes to can take its cost.
#[verifier::opaque]
pub open spec fn load_fits(
    workers: Seq<RuntimeWorkerView>,
    ranked: Seq<RuntimePartitionView>,
    i: int,
) -> bool {
    cost_sum_fits(
        loads_after(workers, ranked, i as nat)[chosen_worker(workers, ranked, i)].cost,
        ranked[i].cost,
    )
}

/// Whether all workers can take the costs of the partitions that they are given.
pub open spec fn loads_fit(
    workers: Seq<RuntimeWorkerView>,
    ranked: Seq<RuntimePartitionView>,
) -> bool {
    forall|i: int| 0 <= i < ranked.len() ==> #[trigger] load_fits(workers, ranked, i)
}

/// Whether all sums of a placement fit in 64 bits.
pub open spec fn placement_fits(
    plan: RuntimePartitionPlanView,
    workers: Seq<RuntimeWorkerView>,
) -> bool {
    &&& loads_fit(workers, placement_order(plan))
    &&& workers.len() >= 2 ==> total_score(final_loads(plan, workers)) <= u64::MAX
    &&& total_crossing_bits(plan.boundary_signals, placed_assignments(plan, workers)) <= u64::MAX
}

// ---------------------------------------------------------------------------
// A worker for every partition
// ---------------------------------------------------------------------------

proof fn lemma_load_chain(loads: Seq<RuntimePartitionWorkerSummaryView>, i: int, j: int, k: int)
    requires
        load_le(loads, i, j),
        load_le(loads, j, k),
    ensures
        load_le(loads, i, k),
{
    lemma_ranked_chain::<LoadKey>(load_key(loads, i), load_key(loads, j), load_key(loads, k));
}

proof fn lemma_load_total(loads: Seq<RuntimePartitionWorkerSummaryView>, i: int, j: int)
    ensures
        load_le(loads, i, j) || load_le(loads, j, i),
        load_le(loads, i, i),
{
    lemma_ranked_same::<LoadKey>(load_key(loads, i), load_key(loads, j));
    lemma_ranked_same::<LoadKey>(load_key(loads, i), load_key(loads, i));
}

proof fn lemma_best_worker_exists(
    loads: Seq<RuntimePartitionWorkerSummaryView>,
    partition: RuntimePartitionView,
    cpu_exists: bool,
    n: int,
) -> (k: int)
    requires
        0 <= n <= loads.len(),
        exists|j: int|
            0 <= j < n && compatible((#[trigger] loads[j]).backend, partition, cpu_exists),
    ensures
        0 <= k < n,
        compatible(loads[k].backend, partition, cpu_exists),
        forall|j: int|
            0 <= j < n && compatible(loads[j].backend, partition, cpu_exists) ==> #[trigger] load_le(
                loads,
                k,
                j,
            ),
    decreases n,
{
    let last = n - 1;
    lemma_load_total(loads, last, last);
    if exists|j: int|
        0 <= j < last && compatible((#[trigger] loads[j]).backend, partition, cpu_exists) {
        let k = lemma_best_worker_exists(loads, partition, cpu_exists, last);
        lemma_load_total(loads, k, last);
        if compatible(loads[last].backend, partition, cpu_exists) && load_le(loads, last, k) {
            assert forall|j: int|
                0 <= j < n && compatible(
                    loads[j].backend,
                    partition,
                    cpu_exists,
                ) implies #[trigger] load_le(loads, last, j) by {
                if j < last {
                    assert(load_le(loads, k, j));
                    lemma_load_chain(loads, last, k, j);
                }
            }
            last
        } else {
            k
        }
    } else {
        let j = choose|j: int|
            0 <= j < n && compatible((#[trigger] loads[j]).backend, partition, cpu_exists);
        assert(j == last);
        last
    }
}

/// Whether loads are those of given workers.
pub open spec fn loads_of(
    loads: Seq<RuntimePartitionWorkerSummaryView>,
    workers: Seq<RuntimeWorkerView>,
) -> bool {
    &&& loads.len() == workers.len()
    &&& forall|k: int|
        0 <= k < workers.len() ==> {
            &&& (#[trigger] loads[k]).worker_id == workers[k].id
            &&& loads[k].backend == workers[k].backend
            &&& loads[k].node == workers[k].node
        }
}

proof fn lemma_some_worker_compatible(
    loads: Seq<RuntimePartitionWorkerSummaryView>,
    workers: Seq<RuntimeWorkerView>,
    partition: RuntimePartitionView,
)
    requires
        loads_of(loads, workers),
        workers.len() > 0,
    ensures
        exists|j: int|
            0 <= j < loads.len() && compatible(
                (#[trigger] loads[j]).backend,
                partition,
                has_cpu(workers),
            ),
{
    if has_cpu(workers) {
        let j = choose|j: int|
            0 <= j < workers.len() && !is_gpu_backend((#[trigger] workers[j]).backend);
        assert(compatible(loads[j].backend, partition, has_cpu(workers)));
    } else {
        assert(compatible(loads[0].backend, partition, has_cpu(workers)));
    }
}

/// On a topology with a worker every partition finds a compatible worker, and
/// placing keeps the workers and moves nothing between them.
pub proof fn lemma_placing_keeps_workers(
    workers: Seq<RuntimeWorkerView>,
    ranked: Seq<RuntimePartitionView>,
    n: nat,
)
    requires
        0 < workers.len() <= usize::MAX,
        n <= ranked.len(),
    ensures
        loads_of(loads_after(workers, ranked, n), workers),
        forall|k: int|
            0 <= k < workers.len() ==> {
                &&& (#[trigger] loads_after(workers, ranked, n)[k]).inbound_boundary_bits == 0
                &&& loads_after(workers, ranked, n)[k].outbound_boundary_bits == 0
            },
        n < ranked.len() ==> is_best_worker(
            loads_after(workers, ranked, n),
            ranked[n as int],
            has_cpu(workers),
            chosen_worker(workers, ranked, n as int),
        ),
    decreases n,
{
    reveal(best_worker);
    let loads = loads_after(workers, ranked, n);
    if n > 0 {
        lemma_placing_keeps_workers(workers, ranked, (n - 1) as nat);
    }
    if n < ranked.len() {
        lemma_some_worker_compatible(loads, workers, ranked[n as int]);
        let k = lemma_best_worker_exists(
            loads,
            ranked[n as int],
            has_cpu(workers),
            loads.len() as int,
        );
        assert(is_best_worker(loads, ranked[n as int], has_cpu(workers), k));
    }
}

/// The loads of the workers of a topology are of different workers.
pub proof fn lemma_distinct_loads(
    loads: Seq<RuntimePartitionWorkerSummaryView>,
    workers: Seq<RuntimeWorkerView>,
)
    requires
        loads_of(loads, workers),
        placement_topology_problem(workers) is None,
    ensures
        distinct_names::<RuntimePartitionWorkerSummary>(loads),
{
    let check = |i: int| repeated_worker_problem(workers, i);
    lemma_first_problem_none(workers.len(), check);
    assert forall|i: int, j: int| 0 <= i < j < loads.len() implies #[trigger] loads[i].worker_id
        != #[trigger] loads[j].worker_id by {
        assert(check(j) is None);
        assert(!repeats_name::<RuntimeWorker>(workers, j));
        assert(RuntimeWorker::name_of(workers[i]) != RuntimeWorker::name_of(workers[j]));
    }
}

// ---------------------------------------------------------------------------
// Planning
// ---------------------------------------------------------------------------

fn validate_partition_placement_topology(topology: &RuntimeTopology) -> (r: Result<(), ErrorReport>)
    ensures
        fails_with(r, placement_topology_problem(topology.deep_view().workers)),
{
    let workers = &topology.workers;
    let ghost ws = topology.deep_view().workers;
    if workers.len() == 0 {
        return Err(
            error(
                "E_RUNTIME_PARTITION_PLACEMENT_TOPOLOGY",
                "runtime partition placement requires at least one worker",
            ),
        );
    }
    let mut i: usize = 0;
    while i < workers.len()
        invariant
            i <= workers.len(),
            workers == topology.workers,
            ws == topology.deep_view().workers,
            ws.len() > 0,
            forall|j: int| 0 <= j < i ==> (#[trigger] ws[j]).lanes != 0,
        decreases workers.len() - i,
    {
        proof {
            assert(ws[i as int] == workers[i as int].deep_view());
        }
        if workers[i].lanes == 0 {
            return Err(
                error(
                    "E_RUNTIME_PARTITION_PLACEMENT_TOPOLOGY",
                    "runtime partition placement workers must have at least one lane",
                ),
            );
        }
        i = i + 1;
    }
    let ghost g = |i: int| repeated_worker_problem(ws, i);
    check_each(
        workers.len(),
        |i: usize| -> (y: Result<(), ErrorReport>)
            requires i < workers.len(),
            ensures fails_with(y, g(i as int))
        {
            proof {
                assert(ws[i as int] == workers[i as int].deep_view());
                assert(ws =~= workers.deep_view());
            }
            if is_repeated_name(workers, i) {
                let mut message = "runtime partition placement has duplicate worker `".to_owned();
                message.append(workers[i].id.as_str());
                message.append("`");
                return Err(error("E_RUNTIME_PARTITION_PLACEMENT_TOPOLOGY", message.as_str()));
            }
            Ok(())
        },
        Ghost(g),
    )
}

fn is_gpu(backend: RuntimeBackend) -> (r: bool)
    ensures
        r == is_gpu_backend(backend),
{
    match backend {
        RuntimeBackend::Gpu(_) => true,
        _ => false,
    }
}

fn any_backend(workers: &Vec<RuntimeWorker>, gpu: bool) -> (r: bool)
    ensures
        gpu ==> r == has_gpu(workers.deep_view()),
        !gpu ==> r == has_cpu(workers.deep_view()),
{
    let ghost ws = workers.deep_view();
    let mut i: usize = 0;
    while i < workers.len()
        invariant
            i <= workers.len(),
            ws == workers.deep_view(),
            forall|j: int| 0 <= j < i ==> is_gpu_backend((#[trigger] ws[j]).backend) != gpu,
        decreases workers.len() - i,
    {
        proof {
            assert(ws[i as int] == workers[i as int].deep_view());
        }
        if is_gpu(workers[i].backend) == gpu {
            return true;
        }
        i = i + 1;
    }
    false
}

fn partition_gpu_hostile(partition: &RuntimePartition) -> (r: bool)
    ensures
        r == gpu_hostile(partition.deep_view()),
{
    partition.external || partition.cost.memory_bits > 0
}

fn placement_worker_compatible(
    load: &RuntimePartitionWorkerSummary,
    partition: &RuntimePartition,
    cpu_exists: bool,
) -> (r: bool)
    ensures
        r == compatible(load.deep_view().backend, partition.deep_view(), cpu_exists),
{
    !(cpu_exists && is_gpu(load.backend) && partition_gpu_hostile(partition))
}

fn is_load_le(loads: &Vec<RuntimePartitionWorkerSummary>, j: usize, k: usize) -> (r: bool)
    requires
        j < loads.len(),
        k < loads.len(),
    ensures
        r == load_le(loads.deep_view(), j as int, k as int),
{
    proof {
        let ls = loads.deep_view();
        assert(ls[j as int] == loads[j as int].deep_view());
        assert(ls[k as int] == loads[k as int].deep_view());
        assert(loads[j as int].partitions.deep_view().len() == loads[j as int].partitions.len());
        assert(loads[k as int].partitions.deep_view().len() == loads[k as int].partitions.len());
        let x = load_key(ls, j as int);
        let y = load_key(ls, k as int);
        lemma_pair_ranked::<u64, (usize, (String, usize))>(x, y);
        lemma_pair_ranked::<usize, (String, usize)>(x.1, y.1);
        lemma_pair_ranked::<String, usize>(x.1.1, y.1.1);
    }
    let left: u64 = partition_split_score(loads[j].cost);
    let right: u64 = partition_split_score(loads[k].cost);
    if left != right {
        return left < right;
    }
    if loads[j].partitions.len() != loads[k].partitions.len() {
        return loads[j].partitions.len() < loads[k].partitions.len();
    }
    if !same_text(loads[j].worker_id.as_str(), loads[k].worker_id.as_str()) {
        return loads[j].worker_id.is_ranked_le(&loads[k].worker_id);
    }
    j <= k
}

fn best_placement_worker(
    loads: &Vec<RuntimePartitionWorkerSummary>,
    partition: &RuntimePartition,
    cpu_exists: bool,
) -> (r: Option<usize>)
    ensures
        match r {
            Some(k) => is_best_worker(
                loads.deep_view(),
                partition.deep_view(),
                cpu_exists,
                k as int,
            ),
            None => forall|j: int|
                0 <= j < loads.len() ==> !compatible(
                    (#[trigger] loads.deep_view()[j]).backend,
                    partition.deep_view(),
                    cpu_exists,
                ),
        },
{
    let ghost ls = loads.deep_view();
    let ghost p = partition.deep_view();
    let mut best: Option<usize> = None;
    let mut i: usize = 0;
    while i < loads.len()
        invariant
            i <= loads.len(),
            ls == loads.deep_view(),
            p == partition.deep_view(),
            match best {
                Some(k) => k < i && compatible(ls[k as int].backend, p, cpu_exists) && forall|
                    j: int,
                |
                    0 <= j < i && compatible(ls[j].backend, p, cpu_exists) ==> #[trigger] load_le(
                        ls,
                        k as int,
                        j,
                    ),
                None => forall|j: int|
                    0 <= j < i ==> !compatible((#[trigger] ls[j]).backend, p, cpu_exists),
            },
        decreases loads.len() - i,
    {
        proof {
            assert(ls[i as int] == loads[i as int].deep_view());
            lemma_load_total(ls, i as int, i as int);
        }
        if placement_worker_compatible(&loads[i], partition, cpu_exists) {
            match best {
                None => {
                    best = Some(i);
                },
                Some(k) => {
                    proof {
                        lemma_load_total(ls, k as int, i as int);
                    }
                    if !is_load_le(loads, k, i) {
                        proof {
                            assert forall|j: int|
                                0 <= j < i + 1 && compatible(
                                    ls[j].backend,
                                    p,
                                    cpu_exists,
                                ) implies #[trigger] load_le(ls, i as int, j) by {
                                if j < i {
                                    assert(load_le(ls, k as int, j));
                                    lemma_load_chain(ls, i as int, k as int, j);
                                }
                            }
                        }
                        best = Some(i);
                    }
                },
            }
        }
        i = i + 1;
    }
    best
}

fn load_worker(load: &RuntimePartitionWorkerSummary, partition: &RuntimePartition) -> (r:
    RuntimePartitionWorkerSummary)
    requires
        cost_sum_fits(load.cost, partition.cost),
    ensures
        r.deep_view() == load_with(load.deep_view(), partition.deep_view()),
{
    let mut r = load.clone();
    add_partition_cost(&mut r.cost, &partition.cost);
    push_item(&mut r.partitions, partition.id.clone());
    r
}

fn assign(partition: &RuntimePartition, worker: &RuntimeWorker) -> (r: RuntimePartitionAssignment)
    ensures
        r.deep_view() == assigned_to(partition.deep_view(), worker.deep_view()),
{
    let instance_path = partition.instance_path.clone();
    proof {
        assert(instance_path.deep_view() =~= partition.instance_path.deep_view());
    }
    RuntimePartitionAssignment {
        partition_id: partition.id.clone(),
        worker_id: worker.id.clone(),
        backend: worker.backend,
        node: worker.node.clone(),
        instance_path,
        cost: partition.cost,
    }
}

/// What the greedy placement gives.
struct Placed {
    loads: Vec<RuntimePartitionWorkerSummary>,
    assignments: Vec<RuntimePartitionAssignment>,
    diagnostics: Vec<RuntimePartitionPlacementDiagnostic>,
}

/// Workers without load.
fn empty_loads(workers: &Vec<RuntimeWorker>) -> (r: Vec<RuntimePartitionWorkerSummary>)
    ensures
        r.deep_view() == Seq::new(
            workers.deep_view().len(),
            |k: int| empty_load(workers.deep_view()[k]),
        ),
{
    let ghost ws = workers.deep_view();
    let ghost initial = |k: int| empty_load(ws[k]);
    let loads = build_items(
        workers.len(),
        |k: usize| -> (y: RuntimePartitionWorkerSummary)
            requires k < workers.len(),
            ensures y.deep_view() == initial(k as int)
        {
            proof {
                assert(ws[k as int] == workers[k as int].deep_view());
            }
            RuntimePartitionWorkerSummary {
                worker_id: workers[k].id.clone(),
                backend: workers[k].backend,
                node: workers[k].node.clone(),
                partitions: no_items(),
                cost: RuntimePartitionCost::default(),
                inbound_boundary_bits: 0,
                outbound_boundary_bits: 0,
            }
        },
        Ghost(initial),
    );
    proof {
        assert(loads.deep_view() =~= Seq::new(ws.len(), |k: int| empty_load(ws[k])));
    }
    loads
}

/// Finds the worker that the next partition goes to.
fn next_worker(
    loads: &Vec<RuntimePartitionWorkerSummary>,
    ranked: &Vec<RuntimePartition>,
    workers: &Vec<RuntimeWorker>,
    i: usize,
    cpu_exists: bool,
) -> (k: usize)
    requires
        workers.len() > 0,
        i < ranked.len(),
        cpu_exists == has_cpu(workers.deep_view()),
        loads.deep_view() == loads_after(workers.deep_view(), ranked.deep_view(), i as nat),
    ensures
        k < loads.len(),
        k < workers.len(),
        k == chosen_worker(workers.deep_view(), ranked.deep_view(), i as int),
{
    let ghost ws = workers.deep_view();
    let ghost ps = ranked.deep_view();
    let ghost ls = loads.deep_view();
    proof {
        assert(ps[i as int] == ranked[i as int].deep_view());
        assert(ws.len() == workers.len());
        lemma_placing_keeps_workers(ws, ps, i as nat);
        lemma_some_worker_compatible(ls, ws, ps[i as int]);
        assert(ls.len() == loads.len());
    }
    match best_placement_worker(loads, &ranked[i], cpu_exists) {
        Some(k) => {
            proof {
                lemma_best_worker_unique(ls, ps[i as int], cpu_exists, k as int);
            }
            k
        },
        None => {
            proof {
                let j = choose|j: int|
                    0 <= j < ls.len() && compatible(
                        (#[trigger] ls[j]).backend,
                        ps[i as int],
                        has_cpu(ws),
                    );
                assert(!compatible(ls[j].backend, ps[i as int], cpu_exists));
                assert(false);
            }
            0
        },
    }
}

/// Reports a partition that a CPU worker takes because it would not run well on a GPU.
fn cpu_fallback(partition: &RuntimePartition, worker: &RuntimeWorker) -> (r:
    RuntimePartitionPlacementDiagnostic)
    ensures
        r.deep_view() == (RuntimePartitionPlacementDiagnosticView {
            code: RuntimePartitionPlacementDiagnosticCode::CpuFallback,
            severity: RuntimePartitionDiagnosticSeverity::Info,
            message: "partition `"@ + partition.deep_view().id
                + "` uses CPU placement because external or memory-heavy partitions are GPU-hostile in v1"@,
            worker_id: Some(worker.deep_view().id),
            partition_id: Some(partition.deep_view().id),
            boundary_index: None,
        }),
{
    let mut message = "partition `".to_owned();
    message.append(partition.id.as_str());
    message.append(
        "` uses CPU placement because external or memory-heavy partitions are GPU-hostile in v1",
    );
    RuntimePartitionPlacementDiagnostic {
        code: RuntimePartitionPlacementDiagnosticCode::CpuFallback,
        severity: RuntimePartitionDiagnosticSeverity::Info,
        message,
        worker_id: Some(worker.id.clone()),
        partition_id: Some(partition.id.clone()),
        boundary_index: None,
    }
}

/// Gives the next partition to a worker.
fn take_partition(
    loads: &mut Vec<RuntimePartitionWorkerSummary>,
    ranked: &Vec<RuntimePartition>,
    workers: &Vec<RuntimeWorker>,
    i: usize,
    k: usize,
)
    requires
        i < ranked.len(),
        k < old(loads).len(),
        k == chosen_worker(workers.deep_view(), ranked.deep_view(), i as int),
        old(loads).deep_view() == loads_after(workers.deep_view(), ranked.deep_view(), i as nat),
        load_fits(workers.deep_view(), ranked.deep_view(), i as int),
    ensures
        final(loads).deep_view() == loads_after(
            workers.deep_view(),
            ranked.deep_view(),
            (i + 1) as nat,
        ),
{
    let ghost ls = loads.deep_view();
    proof {
        reveal(load_fits);
        assert(ls[k as int] == loads[k as int].deep_view());
        assert(ranked.deep_view()[i as int] == ranked[i as int].deep_view());
    }
    let loaded = load_worker(&loads[k], &ranked[i]);
    let ghost load = loaded.deep_view();
    loads.set(k, loaded);
    proof {
        assert(loads.deep_view() =~= ls.update(k as int, load));
    }
}

/// Chooses a worker for each partition, one after another.
fn choose_workers(ranked: &Vec<RuntimePartition>, workers: &Vec<RuntimeWorker>) -> (r: (
    Vec<RuntimePartitionWorkerSummary>,
    Vec<usize>,
))
    requires
        workers.len() > 0,
        loads_fit(workers.deep_view(), ranked.deep_view()),
    ensures
        r.0.deep_view() == loads_after(
            workers.deep_view(),
            ranked.deep_view(),
            ranked.deep_view().len(),
        ),
        r.1.len() == ranked.len(),
        forall|i: int|
            0 <= i < ranked.len() ==> (#[trigger] r.1[i]) < workers.len() && r.1[i]
                == chosen_worker(workers.deep_view(), ranked.deep_view(), i),
{
    let ghost ws = workers.deep_view();
    let ghost ps = ranked.deep_view();
    let cpu_exists: bool = any_backend(workers, false);
    let mut loads = empty_loads(workers);
    let mut chosen: Vec<usize> = Vec::new();
    let mut i: usize = 0;
    while i < ranked.len()
        invariant
            i <= ranked.len(),
            workers.len() > 0,
            ws == workers.deep_view(),
            ps == ranked.deep_view(),
            cpu_exists == has_cpu(ws),
            loads_fit(ws, ps),
            loads.deep_view() == loads_after(ws, ps, i as nat),
            chosen.len() == i,
            forall|j: int|
                0 <= j < i ==> (#[trigger] chosen[j]) < workers.len() && chosen[j]
                    == chosen_worker(ws, ps, j),
        decreases ranked.len() - i,
    {
        let k: usize = next_worker(&loads, ranked, workers, i, cpu_exists);
        proof {
            assert(load_fits(ws, ps, i as int));
        }
        take_partition(&mut loads, ranked, workers, i, k);
        chosen.push(k);
        i = i + 1;
    }
    (loads, chosen)
}

fn place_partitions(ranked: &Vec<RuntimePartition>, workers: &Vec<RuntimeWorker>) -> (r: Placed)
    requires
        workers.len() > 0,
        loads_fit(workers.deep_view(), ranked.deep_view()),
    ensures
        r.loads.deep_view() == loads_after(
            workers.deep_view(),
            ranked.deep_view(),
            ranked.deep_view().len(),
        ),
        r.assignments.deep_view() == assignments_made(workers.deep_view(), ranked.deep_view()),
        r.diagnostics.deep_view() == gather(
            ranked.deep_view().len(),
            |i: int| cpu_fallback_diagnostic(workers.deep_view(), ranked.deep_view(), i),
        ),
{
    let ghost ws = workers.deep_view();
    let ghost ps = ranked.deep_view();
    let cpu_exists: bool = any_backend(workers, false);
    let gpu_exists: bool = any_backend(workers, true);
    let (loads, chosen) = choose_workers(ranked, workers);
    let ghost made = |i: int| assigned_to(ps[i], ws[chosen_worker(ws, ps, i)]);
    let assignments = build_items(
        ranked.len(),
        |i: usize| -> (y: RuntimePartitionAssignment)
            requires
                i < ranked.len(),
                i < chosen.len(),
                chosen[i as int] < workers.len(),
                chosen[i as int] == chosen_worker(ws, ps, i as int),
            ensures y.deep_view() == made(i as int)
        {
            let k: usize = chosen[i];
            proof {
                assert(ps[i as int] == ranked[i as int].deep_view());
                assert(ws[k as int] == workers[k as int].deep_view());
            }
            assign(&ranked[i], &workers[k])
        },
        Ghost(made),
    );
    let ghost fallback = |i: int| cpu_fallback_diagnostic(ws, ps, i);
    let diagnostics = gather_items(
        ranked.len(),
        |i: usize| -> (y: Option<RuntimePartitionPlacementDiagnostic>)
            requires
                i < ranked.len(),
                i < chosen.len(),
                chosen[i as int] < workers.len(),
                chosen[i as int] == chosen_worker(ws, ps, i as int),
                cpu_exists == has_cpu(ws),
                gpu_exists == has_gpu(ws),
            ensures y.deep_view() == fallback(i as int)
        {
            let k: usize = chosen[i];
            proof {
                assert(ps[i as int] == ranked[i as int].deep_view());
                assert(ws[k as int] == workers[k as int].deep_view());
            }
            if cpu_exists && gpu_exists && partition_gpu_hostile(&ranked[i]) {
                Some(cpu_fallback(&ranked[i], &workers[k]))
            } else {
                None
            }
        },
        Ghost(fallback),
    );
    proof {
        assert(ps.len() == ranked.len());
        assert(assignments.deep_view() =~= assignments_made(ws, ps));
    }
    Placed { loads, assignments, diagnostics }
}

fn assigned_worker(assignments: &Vec<RuntimePartitionAssignment>, partition: &str) -> (r: Option<
    String,
>)
    ensures
        r.deep_view() == worker_of(assignments.deep_view(), partition@),
{
    match find_last_named(assignments, partition) {
        Some(k) => {
            proof {
                assert(assignments.deep_view()[k as int] == assignments[k as int].deep_view());
            }
            Some(assignments[k].worker_id.clone())
        },
        None => None,
    }
}

fn boundary_worker(
    plan: &RuntimePartitionPlan,
    assignments: &Vec<RuntimePartitionAssignment>,
    i: usize,
) -> (r: Option<String>)
    requires
        i < plan.boundary_signals.len(),
    ensures
        r.deep_view() == producing_worker(
            plan.deep_view().boundary_signals[i as int],
            assignments.deep_view(),
        ),
{
    proof {
        assert(plan.deep_view().boundary_signals[i as int]
            == plan.boundary_signals[i as int].deep_view());
    }
    match &plan.boundary_signals[i].producer_partition {
        Some(p) => assigned_worker(assignments, p.as_str()),
        None => None,
    }
}

/// The bits of one consumer, counted only if `to` is none or the consumer's worker.
fn consumer_bits(
    plan: &RuntimePartitionPlan,
    assignments: &Vec<RuntimePartitionAssignment>,
    i: usize,
    j: usize,
    to: Option<&str>,
) -> (r: u64)
    requires
        i < plan.boundary_signals.len(),
        j < plan.boundary_signals[i as int].consumer_partitions.len(),
    ensures
        ({
            let boundary = plan.deep_view().boundary_signals[i as int];
            let a = assignments.deep_view();
            r == if crosses_at(boundary, a, j as int) && (to is None || worker_of(
                a,
                boundary.consumer_partitions[j as int],
            ) == Some(to->0@)) {
                boundary.width as int
            } else {
                0
            }
        }),
{
    let boundary = &plan.boundary_signals[i];
    proof {
        assert(plan.deep_view().boundary_signals[i as int] == boundary.deep_view());
        assert(boundary.deep_view().consumer_partitions[j as int]
            == boundary.consumer_partitions[j as int]@);
    }
    let from = match boundary_worker(plan, assignments, i) {
        Some(w) => w,
        None => {
            return 0;
        },
    };
    let target = match assigned_worker(assignments, boundary.consumer_partitions[j].as_str()) {
        Some(w) => w,
        None => {
            return 0;
        },
    };
    if same_text(from.as_str(), target.as_str()) {
        return 0;
    }
    match to {
        Some(worker) => {
            if !same_text(target.as_str(), worker) {
                return 0;
            }
        },
        None => {},
    }
    boundary.width as u64
}

fn crossing_bits_total(
    plan: &RuntimePartitionPlan,
    assignments: &Vec<RuntimePartitionAssignment>,
    i: usize,
) -> (r: u64)
    requires
        i < plan.boundary_signals.len(),
        crossing_bits(plan.deep_view().boundary_signals[i as int], assignments.deep_view())
            <= u64::MAX,
    ensures
        r == crossing_bits(plan.deep_view().boundary_signals[i as int], assignments.deep_view()),
{
    let ghost b = plan.deep_view().boundary_signals[i as int];
    let ghost a = assignments.deep_view();
    let ghost g = |j: int|
        if crosses_at(b, a, j) {
            b.width as int
        } else {
            0
        };
    let n: usize = plan.boundary_signals[i].consumer_partitions.len();
    proof {
        assert(b == plan.boundary_signals[i as int].deep_view());
    }
    sum_items(
        n,
        |j: usize| -> (y: u64)
            requires
                i < plan.boundary_signals.len(),
                j < plan.boundary_signals[i as int].consumer_partitions.len(),
            ensures y == g(j as int)
        {
            consumer_bits(plan, assignments, i, j, None)
        },
        Ghost(g),
    )
}

fn crossing_bits_to_total(
    plan: &RuntimePartitionPlan,
    assignments: &Vec<RuntimePartitionAssignment>,
    i: usize,
    worker: &str,
) -> (r: u64)
    requires
        i < plan.boundary_signals.len(),
        crossing_bits_to(
            plan.deep_view().boundary_signals[i as int],
            assignments.deep_view(),
            worker@,
        ) <= u64::MAX,
    ensures
        r == crossing_bits_to(
            plan.deep_view().boundary_signals[i as int],
            assignments.deep_view(),
            worker@,
        ),
{
    let ghost b = plan.deep_view().boundary_signals[i as int];
    let ghost a = assignments.deep_view();
    let ghost g = |j: int|
        if crosses_at(b, a, j) && worker_of(a, b.consumer_partitions[j]) == Some(worker@) {
            b.width as int
        } else {
            0
        };
    let n: usize = plan.boundary_signals[i].consumer_partitions.len();
    proof {
        assert(b == plan.boundary_signals[i as int].deep_view());
    }
    sum_items(
        n,
        |j: usize| -> (y: u64)
            requires
                i < plan.boundary_signals.len(),
                j < plan.boundary_signals[i as int].consumer_partitions.len(),
            ensures y == g(j as int)
        {
            consumer_bits(plan, assignments, i, j, Some(worker))
        },
        Ghost(g),
    )
}

/// A boundary moves no more to one worker than to all.
pub proof fn lemma_crossing_bits_to_bound(
    boundary: RuntimePartitionBoundarySignalView,
    assignments: Seq<RuntimePartitionAssignmentView>,
    worker: Seq<char>,
)
    ensures
        0 <= crossing_bits_to(boundary, assignments, worker) <= crossing_bits(
            boundary,
            assignments,
        ),
{
    let n = boundary.consumer_partitions.len();
    let to = |j: int|
        if crosses_at(boundary, assignments, j) && worker_of(
            assignments,
            boundary.consumer_partitions[j],
        ) == Some(worker) {
            boundary.width as int
        } else {
            0
        };
    let all = |j: int|
        if crosses_at(boundary, assignments, j) {
            boundary.width as int
        } else {
            0
        };
    lemma_sum_below_mono(n, to, all);
    lemma_sum_below_grows(0, n, to);
}

/// No boundary moves more than all, and no worker sends or receives more than
/// all.
pub proof fn lemma_crossing_bounds(
    boundaries: Seq<RuntimePartitionBoundarySignalView>,
    assignments: Seq<RuntimePartitionAssignmentView>,
    worker: Seq<char>,
)
    ensures
        forall|i: int|
            0 <= i < boundaries.len() ==> 0 <= #[trigger] crossing_bits(
                boundaries[i],
                assignments,
            ) <= total_crossing_bits(boundaries, assignments),
        0 <= leaving_bits(boundaries, assignments, worker) <= total_crossing_bits(
            boundaries,
            assignments,
        ),
        0 <= reaching_bits(boundaries, assignments, worker) <= total_crossing_bits(
            boundaries,
            assignments,
        ),
{
    let n = boundaries.len();
    let all = |i: int| crossing_bits(boundaries[i], assignments);
    let out = |i: int|
        if producing_worker(boundaries[i], assignments) == Some(worker) {
            crossing_bits(boundaries[i], assignments)
        } else {
            0
        };
    let inb = |i: int| crossing_bits_to(boundaries[i], assignments, worker);
    assert forall|i: int| 0 <= i < n implies 0 <= #[trigger] inb(i) <= all(i) by {
        lemma_crossing_bits_to_bound(boundaries[i], assignments, worker);
    }
    assert forall|i: int| 0 <= i < n implies #[trigger] all(i) >= 0 by {
        assert(inb(i) <= all(i));
    }
    assert forall|i: int| 0 <= i < n implies 0 <= #[trigger] out(i) <= all(i) by {
        assert(all(i) >= 0);
    }
    lemma_sum_below_mono(n, out, all);
    lemma_sum_below_mono(n, inb, all);
    lemma_sum_below_grows(0, n, out);
    lemma_sum_below_grows(0, n, inb);
    assert forall|i: int| 0 <= i < n implies 0 <= #[trigger] crossing_bits(
        boundaries[i],
        assignments,
    ) <= total_crossing_bits(boundaries, assignments) by {
        assert(all(i) >= 0);
        lemma_sum_below_grows(i as nat, n, all);
        lemma_sum_below_grows((i + 1) as nat, n, all);
    }
}

fn load_traffic(
    plan: &RuntimePartitionPlan,
    assignments: &Vec<RuntimePartitionAssignment>,
    load: &RuntimePartitionWorkerSummary,
) -> (r: RuntimePartitionWorkerSummary)
    requires
        total_crossing_bits(plan.deep_view().boundary_signals, assignments.deep_view())
            <= u64::MAX,
        traffic_fits(
            load.deep_view(),
            plan.deep_view().boundary_signals,
            assignments.deep_view(),
        ),
    ensures
        r.deep_view() == load_with_traffic(
            load.deep_view(),
            plan.deep_view().boundary_signals,
            assignments.deep_view(),
        ),
{
    let ghost bs = plan.deep_view().boundary_signals;
    let ghost a = assignments.deep_view();
    let id = load.worker_id.as_str();
    proof {
        lemma_crossing_bounds(bs, a, id@);
    }
    let ghost out = |i: int|
        if producing_worker(bs[i], a) == Some(id@) {
            crossing_bits(bs[i], a)
        } else {
            0
        };
    let ghost inb = |i: int| crossing_bits_to(bs[i], a, id@);
    proof {
        assert forall|i: int| 0 <= i < bs.len() implies #[trigger] out(i) >= 0 by {
            assert(crossing_bits(bs[i], a) >= 0);
        }
        assert forall|i: int| 0 <= i < bs.len() implies 0 <= #[trigger] inb(i) <= u64::MAX by {
            lemma_crossing_bits_to_bound(bs[i], a, id@);
            assert(crossing_bits(bs[i], a) <= u64::MAX);
        }
    }
    let n: usize = plan.boundary_signals.len();
    let outbound: u64 = sum_items(
        n,
        |i: usize| -> (y: u64)
            requires i < plan.boundary_signals.len(), crossing_bits(bs[i as int], a) <= u64::MAX,
            ensures y == out(i as int)
        {
            match boundary_worker(plan, assignments, i) {
                Some(w) => if same_text(w.as_str(), id) {
                    crossing_bits_total(plan, assignments, i)
                } else {
                    0
                },
                None => 0,
            }
        },
        Ghost(out),
    );
    let inbound: u64 = sum_items(
        n,
        |i: usize| -> (y: u64)
            requires i < plan.boundary_signals.len(), inb(i as int) <= u64::MAX,
            ensures y == inb(i as int)
        {
            crossing_bits_to_total(plan, assignments, i, id)
        },
        Ghost(inb),
    );
    let mut r = load.clone();
    r.inbound_boundary_bits = r.inbound_boundary_bits + inbound;
    r.outbound_boundary_bits = r.outbound_boundary_bits + outbound;
    r
}

fn account_placement_boundary_traffic(
    plan: &RuntimePartitionPlan,
    assignments: &Vec<RuntimePartitionAssignment>,
    loads: &Vec<RuntimePartitionWorkerSummary>,
) -> (r: (
    Vec<RuntimePartitionWorkerSummary>,
    Vec<RuntimePartitionPlacementDiagnostic>,
    Vec<RuntimePartitionPlacementRecommendation>,
))
    requires
        total_crossing_bits(plan.deep_view().boundary_signals, assignments.deep_view())
            <= u64::MAX,
        distinct_names::<RuntimePartitionWorkerSummary>(loads.deep_view()),
        forall|k: int|
            0 <= k < loads.deep_view().len() ==> traffic_fits(
                #[trigger] loads.deep_view()[k],
                plan.deep_view().boundary_signals,
                assignments.deep_view(),
            ),
    ensures
        ({
            let p = plan.deep_view();
            let a = assignments.deep_view();
            let high = crossing_is_high(p, a);
            &&& r.0.deep_view() == loads.deep_view().map_values(
                |load: RuntimePartitionWorkerSummaryView|
                    load_with_traffic(load, p.boundary_signals, a),
            )
            &&& r.1.deep_view() == gather(
                p.boundary_signals.len(),
                |i: int| crossing_diagnostic(p.boundary_signals, a, high, i),
            )
            &&& r.2.deep_view() == gather(
                p.boundary_signals.len(),
                |i: int| crossing_recommendation(p.boundary_signals, a, high, i),
            )
        }),
{
    let ghost p = plan.deep_view();
    let ghost bs = p.boundary_signals;
    let ghost a = assignments.deep_view();
    let ghost ls = loads.deep_view();
    let n: usize = plan.boundary_signals.len();
    proof {
        lemma_crossing_bounds(bs, a, seq![]);
    }
    let ghost with_traffic = |k: int| load_with_traffic(ls[k], bs, a);
    let summaries = build_items(
        loads.len(),
        |k: usize| -> (y: RuntimePartitionWorkerSummary)
            requires
                k < loads.len(),
                total_crossing_bits(bs, a) <= u64::MAX,
                traffic_fits(ls[k as int], bs, a),
            ensures y.deep_view() == with_traffic(k as int)
        {
            proof {
                assert(ls[k as int] == loads[k as int].deep_view());
            }
            load_traffic(plan, assignments, &loads[k])
        },
        Ghost(with_traffic),
    );
    let ghost crossing = |i: int| crossing_bits(bs[i], a);
    proof {
        assert forall|i: int| 0 <= i < bs.len() implies #[trigger] crossing(i) >= 0 by {
            assert(crossing_bits(bs[i], a) >= 0);
        }
        assert forall|i: int| 0 <= i < bs.len() implies crossing_bits(
            #[trigger] bs[i],
            a,
        ) <= u64::MAX by {
            assert(crossing_bits(bs[i], a) <= total_crossing_bits(bs, a));
        }
    }
    let total: u64 = sum_items(
        n,
        |i: usize| -> (y: u64)
            requires i < plan.boundary_signals.len(), crossing_bits(bs[i as int], a) <= u64::MAX,
            ensures y == crossing(i as int)
        {
            crossing_bits_total(plan, assignments, i)
        },
        Ghost(crossing),
    );
    let local_bits: u64 = plan.total_cost.state_bits.saturating_add(plan.total_cost.memory_bits);
    let high: bool = total > 0 && local_bits > 0 && total > local_bits;
    proof {
        assert(high == crossing_is_high(p, a));
    }
    let ghost diagnose = |i: int| crossing_diagnostic(bs, a, high, i);
    let diagnostics = gather_items(
        n,
        |i: usize| -> (y: Option<RuntimePartitionPlacementDiagnostic>)
            requires i < plan.boundary_signals.len(), crossing_bits(bs[i as int], a) <= u64::MAX,
            ensures y.deep_view() == diagnose(i as int)
        {
            let boundary = &plan.boundary_signals[i];
            proof {
                assert(bs[i as int] == boundary.deep_view());
            }
            let bits: u64 = crossing_bits_total(plan, assignments, i);
            if bits == 0 || (boundary.width < 1024 && !high) {
                None
            } else {
                let mut message = "boundary `".to_owned();
                message.append(boundary.port_name.as_str());
                message.append("` on `");
                let path = join_text(&boundary.instance_path, ".");
                message.append(path.as_str());
                message.append("` moves ");
                append_decimal(&mut message, bits);
                message.append(" bits across workers");
                Some(
                    RuntimePartitionPlacementDiagnostic {
                        code: RuntimePartitionPlacementDiagnosticCode::HighCrossWorkerBoundaryTraffic,
                        severity: RuntimePartitionDiagnosticSeverity::Warning,
                        message,
                        worker_id: boundary_worker(plan, assignments, i),
                        partition_id: boundary.producer_partition.clone(),
                        boundary_index: Some(i),
                    },
                )
            }
        },
        Ghost(diagnose),
    );
    let ghost recommend = |i: int| crossing_recommendation(bs, a, high, i);
    let recommendations = gather_items(
        n,
        |i: usize| -> (y: Option<RuntimePartitionPlacementRecommendation>)
            requires i < plan.boundary_signals.len(), crossing_bits(bs[i as int], a) <= u64::MAX,
            ensures y.deep_view() == recommend(i as int)
        {
            let boundary = &plan.boundary_signals[i];
            proof {
                assert(bs[i as int] == boundary.deep_view());
            }
            let bits: u64 = crossing_bits_total(plan, assignments, i);
            if bits == 0 || (boundary.width < 1024 && !high) {
                None
            } else {
                let mut message = "consider placing partitions connected by `".to_owned();
                let path = join_text(&boundary.instance_path, ".");
                message.append(path.as_str());
                message.append("` on the same worker or node");
                Some(
                    RuntimePartitionPlacementRecommendation {
                        code: RuntimePartitionPlacementRecommendationCode::CoLocatePartitions,
                        message,
                        worker_id: None,
                        partition_id: boundary.producer_partition.clone(),
                        boundary_index: Some(i),
                    },
                )
            }
        },
        Ghost(recommend),
    );
    proof {
        assert(summaries.deep_view() =~= ls.map_values(
            |load: RuntimePartitionWorkerSummaryView| load_with_traffic(load, bs, a),
        ));
    }
    (summaries, diagnostics, recommendations)
}

fn overloaded_worker(loads: &Vec<RuntimePartitionWorkerSummary>) -> (r: Option<usize>)
    requires
        loads.len() >= 2 ==> total_score(loads.deep_view()) <= u64::MAX,
    ensures
        match r {
            Some(k) => k < loads.len() && overloaded(loads.deep_view()) == Some(k as int),
            None => overloaded(loads.deep_view()) is None,
        },
{
    let ghost ls = loads.deep_view();
    if loads.len() < 2 {
        return None;
    }
    let ghost g = |k: int| split_score(ls[k].cost) as int;
    let total: u64 = sum_items(
        loads.len(),
        |k: usize| -> (y: u64)
            requires k < loads.len(),
            ensures y == g(k as int)
        {
            partition_split_score(loads[k].cost)
        },
        Ghost(g),
    );
    if total == 0 {
        return None;
    }
    let mut heavy: usize = 0;
    let mut i: usize = 1;
    while i < loads.len()
        invariant
            1 <= i <= loads.len(),
            heavy < i,
            ls == loads.deep_view(),
            forall|j: int|
                0 <= j < i ==> split_score((#[trigger] ls[j]).cost) <= split_score(
                    ls[heavy as int].cost,
                ),
            forall|j: int|
                heavy < j < i ==> split_score((#[trigger] ls[j]).cost) < split_score(
                    ls[heavy as int].cost,
                ),
        decreases loads.len() - i,
    {
        proof {
            assert(ls[i as int] == loads[i as int].deep_view());
            assert(ls[heavy as int] == loads[heavy as int].deep_view());
        }
        if partition_split_score(loads[i].cost) >= partition_split_score(loads[heavy].cost) {
            heavy = i;
        }
        i = i + 1;
    }
    proof {
        let p = |k: int| is_heaviest(ls, k);
        assert(is_heaviest(ls, heavy as int));
        assert forall|j: int| heavy < j < ls.len() implies !#[trigger] p(j) by {
            assert(split_score(ls[j].cost) < split_score(ls[heavy as int].cost));
        }
        assert(p(heavy as int));
        lemma_last_index_is(ls.len(), p, heavy as int);
        assert(ls[heavy as int] == loads[heavy as int].deep_view());
    }
    let weight: u64 = saturating_product(
        partition_split_score(loads[heavy].cost),
        loads.len() as u64,
    );
    if weight <= saturating_product(total, 2) {
        return None;
    }
    Some(heavy)
}

fn analyze_placement_worker_balance(
    partition_count: usize,
    loads: &Vec<RuntimePartitionWorkerSummary>,
) -> (r: (
    Vec<RuntimePartitionPlacementDiagnostic>,
    Vec<RuntimePartitionPlacementRecommendation>,
))
    requires
        loads.len() >= 2 ==> total_score(loads.deep_view()) <= u64::MAX,
    ensures
        r.0.deep_view() == balance_diagnostics(partition_count as nat, loads.deep_view()),
        r.1.deep_view() == balance_recommendations(partition_count as nat, loads.deep_view()),
{
    let ghost ls = loads.deep_view();
    let mut diagnostics: Vec<RuntimePartitionPlacementDiagnostic> = no_items();
    let mut recommendations: Vec<RuntimePartitionPlacementRecommendation> = no_items();
    if partition_count > loads.len() {
        let mut message = "placement maps ".to_owned();
        append_decimal(&mut message, partition_count as u64);
        message.append(" partitions onto ");
        append_decimal(&mut message, loads.len() as u64);
        message.append(" workers");
        push_item(
            &mut diagnostics,
            RuntimePartitionPlacementDiagnostic {
                code: RuntimePartitionPlacementDiagnosticCode::UnderProvisionedWorkers,
                severity: RuntimePartitionDiagnosticSeverity::Info,
                message,
                worker_id: None,
                partition_id: None,
                boundary_index: None,
            },
        );
        push_item(
            &mut recommendations,
            RuntimePartitionPlacementRecommendation {
                code: RuntimePartitionPlacementRecommendationCode::AddWorkers,
                message: "add workers or reduce target partitions to lower per-worker multiplexing".to_owned(),
                worker_id: None,
                partition_id: None,
                boundary_index: None,
            },
        );
    }
    match overloaded_worker(loads) {
        Some(k) => {
            proof {
                assert(ls[k as int] == loads[k as int].deep_view());
            }
            let mut message = "worker `".to_owned();
            message.append(loads[k].worker_id.as_str());
            message.append("` has more than 2x average placed cost");
            push_item(
                &mut diagnostics,
                RuntimePartitionPlacementDiagnostic {
                    code: RuntimePartitionPlacementDiagnosticCode::WorkerImbalance,
                    severity: RuntimePartitionDiagnosticSeverity::Warning,
                    message,
                    worker_id: Some(loads[k].worker_id.clone()),
                    partition_id: None,
                    boundary_index: None,
                },
            );
            let mut advice = "move a partition away from worker `".to_owned();
            advice.append(loads[k].worker_id.as_str());
            advice.append("` or split its heaviest assigned partition");
            push_item(
                &mut recommendations,
                RuntimePartitionPlacementRecommendation {
                    code: RuntimePartitionPlacementRecommendationCode::MovePartition,
                    message: advice,
                    worker_id: Some(loads[k].worker_id.clone()),
                    partition_id: None,
                    boundary_index: None,
                },
            );
        },
        None => {},
    }
    proof {
        assert(diagnostics.deep_view() =~= balance_diagnostics(partition_count as nat, ls));
        assert(recommendations.deep_view() =~= balance_recommendations(partition_count as nat, ls));
    }
    (diagnostics, recommendations)
}

/// Places the partitions of a plan onto the workers of a topology.
pub fn plan_runtime_partition_placement(plan: &RuntimePartitionPlan, topology: &RuntimeTopology) -> (r:
    Result<RuntimePartitionPlacementPlan, ErrorReport>)
    requires
        placement_problem(plan.deep_view(), topology.deep_view()) is None ==> placement_fits(
            plan.deep_view(),
            topology.deep_view().workers,
        ),
    ensures
        fails_with(r, placement_problem(plan.deep_view(), topology.deep_view())),
        r matches Ok(placement) ==> placement.deep_view() == placement_plan(
            plan.deep_view(),
            topology.deep_view(),
        ),
{
    plan.validate_format_version()?;
    validate_partition_placement_topology(topology)?;
    let ghost p = plan.deep_view();
    let ghost ws = topology.deep_view().workers;
    let partitions = plan.partitions.clone();
    proof {
        assert(partitions.deep_view() =~= p.partitions);
        assert(ws == topology.workers.deep_view());
        assert(ws.len() == topology.workers.len());
        lemma_sorted_by_key::<RuntimePartition, PlacementOrder>(p.partitions);
    }
    let ranked = sort_by_key::<RuntimePartition, PlacementOrder>(partitions);
    let Placed { loads, assignments: made, diagnostics: fallbacks } = place_partitions(
        &ranked,
        &topology.workers,
    );
    let assignments = sort_by_key::<RuntimePartitionAssignment, AssignmentOrder>(made);
    proof {
        assert(loads.deep_view() == final_loads(p, ws));
        lemma_placing_keeps_workers(ws, ranked.deep_view(), p.partitions.len());
        lemma_distinct_loads(loads.deep_view(), ws);
        assert forall|k: int| 0 <= k < loads.deep_view().len() implies traffic_fits(
            #[trigger] loads.deep_view()[k],
            p.boundary_signals,
            assignments.deep_view(),
        ) by {
            lemma_crossing_bounds(
                p.boundary_signals,
                assignments.deep_view(),
                loads.deep_view()[k].worker_id,
            );
        }
        assert(loads.len() == loads.deep_view().len());
    }
    let (worker_summaries, traffic_diagnostics, traffic_recommendations) =
        account_placement_boundary_traffic(plan, &assignments, &loads);
    let (balance_found, balance_advice) = analyze_placement_worker_balance(
        plan.partitions.len(),
        &loads,
    );
    let mut diagnostics = fallbacks;
    append_items(&mut diagnostics, traffic_diagnostics);
    append_items(&mut diagnostics, balance_found);
    let mut recommendations = traffic_recommendations;
    append_items(&mut recommendations, balance_advice);
    Ok(
        RuntimePartitionPlacementPlan {
            format_version: RUNTIME_PARTITION_PLACEMENT_FORMAT_VERSION,
            module_name: plan.module_name.clone(),
            topology: topology.clone(),
            assignments,
            worker_summaries,
            total_cost: plan.total_cost,
            diagnostics,
            recommendations,
        },
    )
}

} // verus!

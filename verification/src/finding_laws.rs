//! What plans, placements and communication plans are found to lack, and when.

use vstd::prelude::*;

use crate::collect::{gather, lemma_gather_contains};
use crate::communication::{
    communication_diagnostics, communication_plan, lemma_worker_bits_bound, route_bits,
    route_diagnostic, traffic_diagnostic, traffic_is_high,
};
use crate::conservation::{lemma_sum_at_least, lemma_sum_by_index};
use crate::ids::{distinct_names, last_named, lemma_last_named};
use crate::launch::lemma_route_indexes;
use crate::model::communication::{
    RuntimePartitionCommunicationDiagnosticCode, RuntimePartitionCommunicationDiagnosticView,
    RuntimePartitionRouteView,
};
use crate::model::partition::{
    RuntimePartitionBoundarySignalView, RuntimePartitionCost, RuntimePartitionDiagnosticCode,
    RuntimePartitionDiagnosticView, RuntimePartitionPlanView, RuntimePartitionView,
};
use crate::model::placement::{
    RuntimePartitionPlacementDiagnosticCode, RuntimePartitionPlacementDiagnosticView,
    RuntimePartitionPlacementPlanView, RuntimePartitionWorkerSummary,
    RuntimePartitionWorkerSummaryView,
};
use crate::model::topology::RuntimeWorkerView;
use crate::partitions::{
    boundaries_are_high, boundary_diagnostic, boundary_recommendation, computes_most,
    empty_diagnostic, empty_recommendation, external_diagnostic, external_recommendation,
    heavy_partition, imbalance_diagnostic, plan_diagnostics, plan_recommendations, total_compute,
    underfill_diagnostic,
};
use crate::placement::{
    balance_diagnostics, cpu_fallback_diagnostic, crossing_bits, crossing_diagnostic,
    crossing_is_high, final_loads, placed_assignments, placement_diagnostics, placement_order,
    total_crossing_bits,
};
use crate::seqs::{last_index, lemma_last_index, sum_by};

verus! {

/// What two joined sequences contain.
pub proof fn lemma_joined_contains<A>(a: Seq<A>, b: Seq<A>, x: A)
    ensures
        (a + b).contains(x) <==> a.contains(x) || b.contains(x),
{
    let s = a + b;
    if a.contains(x) {
        let i = choose|i: int| 0 <= i < a.len() && a[i] == x;
        assert(s[i] == x);
    }
    if b.contains(x) {
        let i = choose|i: int| 0 <= i < b.len() && b[i] == x;
        assert(s[a.len() + i] == x);
    }
    if s.contains(x) {
        let i = choose|i: int| 0 <= i < s.len() && s[i] == x;
        if i < a.len() {
            assert(a[i] == x);
        } else {
            assert(b[i - a.len()] == x);
        }
    }
}

proof fn lemma_one_contains<A>(a: A, x: A)
    ensures
        seq![a].contains(x) <==> a == x,
{
    assert(seq![a][0] == a);
}

// ---------------------------------------------------------------------------
// Plans
// ---------------------------------------------------------------------------

/// Whether a plan is told of something, about a partition and a boundary.
pub open spec fn plan_is_told(
    diagnostics: Seq<RuntimePartitionDiagnosticView>,
    code: RuntimePartitionDiagnosticCode,
    partition_id: Option<Seq<char>>,
    boundary_index: Option<usize>,
) -> bool {
    exists|d: RuntimePartitionDiagnosticView| #[trigger]
        diagnostics.contains(d) && d.code == code && d.partition_id == partition_id
            && d.boundary_index == boundary_index
}

proof fn lemma_plan_diagnostic(
    partitions: Seq<RuntimePartitionView>,
    boundaries: Seq<RuntimePartitionBoundarySignalView>,
    total: RuntimePartitionCost,
    target: nat,
    d: RuntimePartitionDiagnosticView,
)
    ensures
        plan_diagnostics(partitions, boundaries, total, target).contains(d) <==> {
            ||| partitions.len() < target && d == underfill_diagnostic(partitions.len(), target)
            ||| heavy_partition(partitions) matches Some(k) && d == imbalance_diagnostic(
                partitions[k],
            )
            ||| exists|i: int|
                0 <= i < boundaries.len() && #[trigger] boundary_diagnostic(
                    boundaries,
                    boundaries_are_high(total),
                    i,
                ) == Some(d)
            ||| exists|k: int|
                0 <= k < partitions.len() && external_diagnostic(#[trigger] partitions[k]) == Some(
                    d,
                )
            ||| exists|k: int|
                0 <= k < partitions.len() && empty_diagnostic(#[trigger] partitions[k]) == Some(d)
        },
{
    let high = boundaries_are_high(total);
    let a: Seq<RuntimePartitionDiagnosticView> = if partitions.len() < target {
        seq![underfill_diagnostic(partitions.len(), target)]
    } else {
        seq![]
    };
    let b: Seq<RuntimePartitionDiagnosticView> = match heavy_partition(partitions) {
        Some(k) => seq![imbalance_diagnostic(partitions[k])],
        None => seq![],
    };
    let gc = |i: int| boundary_diagnostic(boundaries, high, i);
    let gd = |k: int| external_diagnostic(partitions[k]);
    let ge = |k: int| empty_diagnostic(partitions[k]);
    let c = gather(boundaries.len(), gc);
    let e = gather(partitions.len(), gd);
    let f = gather(partitions.len(), ge);
    assert(plan_diagnostics(partitions, boundaries, total, target) == a + b + c + e + f);
    lemma_joined_contains(a, b, d);
    lemma_joined_contains(a + b, c, d);
    lemma_joined_contains(a + b + c, e, d);
    lemma_joined_contains(a + b + c + e, f, d);
    lemma_gather_contains(boundaries.len(), gc, d);
    lemma_gather_contains(partitions.len(), gd, d);
    lemma_gather_contains(partitions.len(), ge, d);
    lemma_one_contains(underfill_diagnostic(partitions.len(), target), d);
    if heavy_partition(partitions) is Some {
        lemma_one_contains(imbalance_diagnostic(partitions[heavy_partition(partitions)->0]), d);
    }
    if exists|k: int|
        0 <= k < partitions.len() && external_diagnostic(#[trigger] partitions[k]) == Some(d) {
        let k = choose|k: int|
            0 <= k < partitions.len() && external_diagnostic(#[trigger] partitions[k]) == Some(d);
        assert(gd(k) == Some(d));
    }
    if exists|k: int|
        0 <= k < partitions.len() && empty_diagnostic(#[trigger] partitions[k]) == Some(d) {
        let k = choose|k: int|
            0 <= k < partitions.len() && empty_diagnostic(#[trigger] partitions[k]) == Some(d);
        assert(ge(k) == Some(d));
    }
    if exists|i: int|
        0 <= i < boundaries.len() && #[trigger] boundary_diagnostic(boundaries, high, i) == Some(
            d,
        ) {
        let i = choose|i: int|
            0 <= i < boundaries.len() && #[trigger] boundary_diagnostic(boundaries, high, i)
                == Some(d);
        assert(gc(i) == Some(d));
    }
}

/// A plan is told that it has too few partitions exactly when it has fewer than were asked for.
pub proof fn lemma_underfilled_plan_is_told(
    partitions: Seq<RuntimePartitionView>,
    boundaries: Seq<RuntimePartitionBoundarySignalView>,
    total: RuntimePartitionCost,
    target: nat,
)
    ensures
        plan_is_told(
            plan_diagnostics(partitions, boundaries, total, target),
            RuntimePartitionDiagnosticCode::TargetUnderfilled,
            None,
            None,
        ) <==> partitions.len() < target,
{
    let all = plan_diagnostics(partitions, boundaries, total, target);
    if plan_is_told(all, RuntimePartitionDiagnosticCode::TargetUnderfilled, None, None) {
        let d = choose|d: RuntimePartitionDiagnosticView| #[trigger]
            all.contains(d) && d.code == RuntimePartitionDiagnosticCode::TargetUnderfilled
                && d.partition_id is None && d.boundary_index is None;
        lemma_plan_diagnostic(partitions, boundaries, total, target, d);
    }
    if partitions.len() < target {
        let d = underfill_diagnostic(partitions.len(), target);
        lemma_plan_diagnostic(partitions, boundaries, total, target, d);
        assert(all.contains(d));
    }
}

/// A plan is told of a boundary exactly when it is 1024 bits wide or wider, or when all boundaries
/// together move more bits than the registers and memories of the plan hold, if they hold any.
pub proof fn lemma_wide_boundary_is_told(
    partitions: Seq<RuntimePartitionView>,
    boundaries: Seq<RuntimePartitionBoundarySignalView>,
    total: RuntimePartitionCost,
    target: nat,
    i: int,
)
    requires
        0 <= i < boundaries.len() <= usize::MAX,
        total.state_bits + total.memory_bits <= u64::MAX,
    ensures
        plan_is_told(
            plan_diagnostics(partitions, boundaries, total, target),
            RuntimePartitionDiagnosticCode::HighBoundaryCost,
            boundaries[i].producer_partition,
            Some(i as usize),
        ) <==> boundaries[i].width >= 1024 || (total.state_bits + total.memory_bits > 0
            && total.boundary_bits > total.state_bits + total.memory_bits),
{
    let all = plan_diagnostics(partitions, boundaries, total, target);
    let high = boundaries_are_high(total);
    let code = RuntimePartitionDiagnosticCode::HighBoundaryCost;
    let producer = boundaries[i].producer_partition;
    if plan_is_told(all, code, producer, Some(i as usize)) {
        let d = choose|d: RuntimePartitionDiagnosticView| #[trigger]
            all.contains(d) && d.code == code && d.partition_id == producer && d.boundary_index
                == Some(i as usize);
        lemma_plan_diagnostic(partitions, boundaries, total, target, d);
        let j = choose|j: int|
            0 <= j < boundaries.len() && #[trigger] boundary_diagnostic(boundaries, high, j)
                == Some(d);
        assert(j == i);
    }
    if boundary_diagnostic(boundaries, high, i) is Some {
        let d = boundary_diagnostic(boundaries, high, i)->0;
        lemma_plan_diagnostic(partitions, boundaries, total, target, d);
        assert(all.contains(d));
    }
}

/// A plan is told of every partition of an external module, and of no other; and of every other
/// partition that computes nothing and holds nothing.
pub proof fn lemma_idle_partition_is_told(
    partitions: Seq<RuntimePartitionView>,
    boundaries: Seq<RuntimePartitionBoundarySignalView>,
    total: RuntimePartitionCost,
    target: nat,
    id: Seq<char>,
)
    ensures
        plan_is_told(
            plan_diagnostics(partitions, boundaries, total, target),
            RuntimePartitionDiagnosticCode::ExternalModuleOpaque,
            Some(id),
            None,
        ) <==> exists|k: int|
            0 <= k < partitions.len() && (#[trigger] partitions[k]).id == id
                && partitions[k].external,
        plan_is_told(
            plan_diagnostics(partitions, boundaries, total, target),
            RuntimePartitionDiagnosticCode::EmptyPartition,
            Some(id),
            None,
        ) <==> exists|k: int|
            0 <= k < partitions.len() && (#[trigger] partitions[k]).id == id
                && !partitions[k].external && partitions[k].cost.compute_ops == 0
                && partitions[k].cost.state_bits == 0 && partitions[k].cost.memory_bits == 0,
{
    let all = plan_diagnostics(partitions, boundaries, total, target);
    let opaque_code = RuntimePartitionDiagnosticCode::ExternalModuleOpaque;
    let empty_code = RuntimePartitionDiagnosticCode::EmptyPartition;
    if plan_is_told(all, opaque_code, Some(id), None) {
        let d = choose|d: RuntimePartitionDiagnosticView| #[trigger]
            all.contains(d) && d.code == opaque_code && d.partition_id == Some(id)
                && d.boundary_index is None;
        lemma_plan_diagnostic(partitions, boundaries, total, target, d);
    }
    if plan_is_told(all, empty_code, Some(id), None) {
        let d = choose|d: RuntimePartitionDiagnosticView| #[trigger]
            all.contains(d) && d.code == empty_code && d.partition_id == Some(id)
                && d.boundary_index is None;
        lemma_plan_diagnostic(partitions, boundaries, total, target, d);
    }
    if exists|k: int|
        0 <= k < partitions.len() && (#[trigger] partitions[k]).id == id && partitions[k].external {
        let k = choose|k: int|
            0 <= k < partitions.len() && (#[trigger] partitions[k]).id == id
                && partitions[k].external;
        let d = external_diagnostic(partitions[k])->0;
        lemma_plan_diagnostic(partitions, boundaries, total, target, d);
        assert(all.contains(d));
    }
    if exists|k: int|
        0 <= k < partitions.len() && (#[trigger] partitions[k]).id == id && !partitions[k].external
            && partitions[k].cost.compute_ops == 0 && partitions[k].cost.state_bits == 0
            && partitions[k].cost.memory_bits == 0 {
        let k = choose|k: int|
            0 <= k < partitions.len() && (#[trigger] partitions[k]).id == id
                && !partitions[k].external && partitions[k].cost.compute_ops == 0
                && partitions[k].cost.state_bits == 0 && partitions[k].cost.memory_bits == 0;
        let d = empty_diagnostic(partitions[k])->0;
        lemma_plan_diagnostic(partitions, boundaries, total, target, d);
        assert(all.contains(d));
    }
}

/// The partition that computes most, and comes last of those that do.
proof fn lemma_most_exists(partitions: Seq<RuntimePartitionView>, n: nat) -> (k: int)
    requires
        0 < n <= partitions.len(),
    ensures
        0 <= k < n,
        forall|j: int|
            0 <= j < n ==> (#[trigger] partitions[j]).cost.compute_ops
                <= partitions[k].cost.compute_ops,
    decreases n,
{
    if n == 1 {
        0
    } else {
        let k = lemma_most_exists(partitions, (n - 1) as nat);
        if partitions[n - 1].cost.compute_ops >= partitions[k].cost.compute_ops {
            n - 1
        } else {
            k
        }
    }
}

/// A plan is told of a partition that computes more than twice the average, the one that computes
/// most, exactly when there is one.
pub proof fn lemma_imbalance_is_told(
    partitions: Seq<RuntimePartitionView>,
    boundaries: Seq<RuntimePartitionBoundarySignalView>,
    total: RuntimePartitionCost,
    target: nat,
    k: int,
)
    requires
        partitions.len() >= 2,
        0 <= k < partitions.len(),
        forall|j: int|
            0 <= j < partitions.len() && j != k ==> (#[trigger] partitions[j]).cost.compute_ops
                < partitions[k].cost.compute_ops,
        partitions[k].cost.compute_ops * partitions.len() <= u64::MAX,
        sum_by(partitions, |p: RuntimePartitionView| p.cost.compute_ops as int) * 2 <= u64::MAX,
    ensures
        plan_is_told(
            plan_diagnostics(partitions, boundaries, total, target),
            RuntimePartitionDiagnosticCode::PartitionImbalance,
            Some(partitions[k].id),
            None,
        ) <==> partitions[k].cost.compute_ops * partitions.len() > 2 * sum_by(
            partitions,
            |p: RuntimePartitionView| p.cost.compute_ops as int,
        ),
{
    let all = plan_diagnostics(partitions, boundaries, total, target);
    let code = RuntimePartitionDiagnosticCode::PartitionImbalance;
    let f = |p: RuntimePartitionView| p.cost.compute_ops as int;
    let g = |j: int| partitions[j].cost.compute_ops as int;
    lemma_sum_by_index(partitions, f, g);
    assert(total_compute(partitions) == sum_by(partitions, f));
    let most = computes_most(partitions);
    lemma_last_index(partitions.len(), most);
    assert(most(k)) by {
        assert forall|j: int| 0 <= j < partitions.len() implies (
        #[trigger] partitions[j]).cost.compute_ops <= partitions[k].cost.compute_ops by {}
    }
    let found = last_index(partitions.len(), most);
    assert(found is Some);
    assert(most(found->0));
    assert(partitions[k].cost.compute_ops <= partitions[found->0].cost.compute_ops);
    assert(found == Some(k));
    lemma_sum_at_least(partitions, f, k);
    let c = partitions[k].cost.compute_ops as int;
    let n = partitions.len() as int;
    assert(c == 0 ==> c * n == 0) by (nonlinear_arith);
    assert(heavy_partition(partitions) is Some <==> c * n > 2 * sum_by(partitions, f));
    assert(heavy_partition(partitions) is Some ==> heavy_partition(partitions) == Some(k));
    if plan_is_told(all, code, Some(partitions[k].id), None) {
        let d = choose|d: RuntimePartitionDiagnosticView| #[trigger]
            all.contains(d) && d.code == code && d.partition_id == Some(partitions[k].id)
                && d.boundary_index is None;
        lemma_plan_diagnostic(partitions, boundaries, total, target, d);
    }
    if heavy_partition(partitions) is Some {
        let d = imbalance_diagnostic(partitions[k]);
        lemma_plan_diagnostic(partitions, boundaries, total, target, d);
        assert(all.contains(d));
    }
}

/// Two lists that are gathered from the same indexes are equally long.
pub proof fn lemma_gather_alike<A, B>(n: nat, f: spec_fn(int) -> Option<A>, g: spec_fn(int) -> Option<B>)
    requires
        forall|i: int| 0 <= i < n ==> ((#[trigger] f(i)) is Some <==> g(i) is Some),
    ensures
        gather(n, f).len() == gather(n, g).len(),
    decreases n,
{
    if n > 0 {
        lemma_gather_alike((n - 1) as nat, f, g);
        assert(f(n - 1) is Some <==> g(n - 1) is Some);
    }
}

/// A plan is advised once for each thing that it is told.
pub proof fn lemma_plan_is_advised(
    partitions: Seq<RuntimePartitionView>,
    boundaries: Seq<RuntimePartitionBoundarySignalView>,
    total: RuntimePartitionCost,
    target: nat,
)
    ensures
        plan_recommendations(partitions, boundaries, total, target).len() == plan_diagnostics(
            partitions,
            boundaries,
            total,
            target,
        ).len(),
{
    let high = boundaries_are_high(total);
    lemma_gather_alike(
        boundaries.len(),
        |i: int| boundary_diagnostic(boundaries, high, i),
        |i: int| boundary_recommendation(boundaries, high, i),
    );
    lemma_gather_alike(
        partitions.len(),
        |k: int| external_diagnostic(partitions[k]),
        |k: int| external_recommendation(partitions[k]),
    );
    lemma_gather_alike(
        partitions.len(),
        |k: int| empty_diagnostic(partitions[k]),
        |k: int| empty_recommendation(partitions[k]),
    );
}

// ---------------------------------------------------------------------------
// Placements
// ---------------------------------------------------------------------------

/// Whether a placement is told of something.
pub open spec fn placement_is_told(
    diagnostics: Seq<RuntimePartitionPlacementDiagnosticView>,
    code: RuntimePartitionPlacementDiagnosticCode,
    partition_id: Option<Seq<char>>,
    boundary_index: Option<usize>,
) -> bool {
    exists|d: RuntimePartitionPlacementDiagnosticView| #[trigger]
        diagnostics.contains(d) && d.code == code && d.partition_id == partition_id
            && d.boundary_index == boundary_index
}

/// Where the diagnostics of a placement come from.
pub proof fn lemma_placement_diagnostic(
    plan: RuntimePartitionPlanView,
    workers: Seq<RuntimeWorkerView>,
    d: RuntimePartitionPlacementDiagnosticView,
)
    ensures
        ({
            let ranked = placement_order(plan);
            let assignments = placed_assignments(plan, workers);
            let high = crossing_is_high(plan, assignments);
            placement_diagnostics(plan, workers).contains(d) <==> {
                ||| exists|i: int|
                    0 <= i < ranked.len() && #[trigger] cpu_fallback_diagnostic(workers, ranked, i)
                        == Some(d)
                ||| exists|i: int|
                    0 <= i < plan.boundary_signals.len() && #[trigger] crossing_diagnostic(
                        plan.boundary_signals,
                        assignments,
                        high,
                        i,
                    ) == Some(d)
                ||| balance_diagnostics(plan.partitions.len(), final_loads(plan, workers)).contains(
                    d,
                )
            }
        }),
{
    let ranked = placement_order(plan);
    let assignments = placed_assignments(plan, workers);
    let high = crossing_is_high(plan, assignments);
    let ga = |i: int| cpu_fallback_diagnostic(workers, ranked, i);
    let gb = |i: int| crossing_diagnostic(plan.boundary_signals, assignments, high, i);
    let a = gather(ranked.len(), ga);
    let b = gather(plan.boundary_signals.len(), gb);
    let c = balance_diagnostics(plan.partitions.len(), final_loads(plan, workers));
    assert(placement_diagnostics(plan, workers) == a + b + c);
    lemma_joined_contains(a, b, d);
    lemma_joined_contains(a + b, c, d);
    lemma_gather_contains(ranked.len(), ga, d);
    lemma_gather_contains(plan.boundary_signals.len(), gb, d);
    if exists|i: int|
        0 <= i < ranked.len() && #[trigger] cpu_fallback_diagnostic(workers, ranked, i) == Some(
            d,
        ) {
        let i = choose|i: int|
            0 <= i < ranked.len() && #[trigger] cpu_fallback_diagnostic(workers, ranked, i) == Some(
                d,
            );
        assert(ga(i) == Some(d));
    }
    if exists|i: int|
        0 <= i < plan.boundary_signals.len() && #[trigger] crossing_diagnostic(
            plan.boundary_signals,
            assignments,
            high,
            i,
        ) == Some(d) {
        let i = choose|i: int|
            0 <= i < plan.boundary_signals.len() && #[trigger] crossing_diagnostic(
                plan.boundary_signals,
                assignments,
                high,
                i,
            ) == Some(d);
        assert(gb(i) == Some(d));
    }
}

/// A placement is told that workers are few exactly when it has more partitions than workers.
pub proof fn lemma_few_workers_are_told(
    plan: RuntimePartitionPlanView,
    workers: Seq<RuntimeWorkerView>,
)
    requires
        final_loads(plan, workers).len() == workers.len(),
    ensures
        placement_is_told(
            placement_diagnostics(plan, workers),
            RuntimePartitionPlacementDiagnosticCode::UnderProvisionedWorkers,
            None,
            None,
        ) <==> plan.partitions.len() > workers.len(),
{
    let all = placement_diagnostics(plan, workers);
    let code = RuntimePartitionPlacementDiagnosticCode::UnderProvisionedWorkers;
    let spread = balance_diagnostics(plan.partitions.len(), final_loads(plan, workers));
    if placement_is_told(all, code, None, None) {
        let d = choose|d: RuntimePartitionPlacementDiagnosticView| #[trigger]
            all.contains(d) && d.code == code && d.partition_id is None && d.boundary_index is None;
        lemma_placement_diagnostic(plan, workers, d);
        let i = choose|i: int| 0 <= i < spread.len() && spread[i] == d;
    }
    if plan.partitions.len() > workers.len() {
        let d = spread[0];
        assert(d.code == code);
        assert(spread.contains(d));
        lemma_placement_diagnostic(plan, workers, d);
        assert(all.contains(d));
    }
}

/// A placement is told of a boundary exactly when it moves bits between workers and is 1024 bits
/// wide or wider, or all boundaries together move more bits between workers than the registers and
/// memories of the plan hold, if they hold any.
pub proof fn lemma_wide_crossing_is_told(
    plan: RuntimePartitionPlanView,
    workers: Seq<RuntimeWorkerView>,
    i: int,
)
    requires
        0 <= i < plan.boundary_signals.len() <= usize::MAX,
        plan.total_cost.state_bits + plan.total_cost.memory_bits <= u64::MAX,
    ensures
        ({
            let boundary = plan.boundary_signals[i];
            let assignments = placed_assignments(plan, workers);
            let held = plan.total_cost.state_bits + plan.total_cost.memory_bits;
            let moved = total_crossing_bits(plan.boundary_signals, assignments);
            placement_is_told(
                placement_diagnostics(plan, workers),
                RuntimePartitionPlacementDiagnosticCode::HighCrossWorkerBoundaryTraffic,
                boundary.producer_partition,
                Some(i as usize),
            ) <==> crossing_bits(boundary, assignments) != 0 && (boundary.width >= 1024 || (held > 0
                && moved > held))
        }),
{
    let all = placement_diagnostics(plan, workers);
    let assignments = placed_assignments(plan, workers);
    let high = crossing_is_high(plan, assignments);
    let code = RuntimePartitionPlacementDiagnosticCode::HighCrossWorkerBoundaryTraffic;
    let producer = plan.boundary_signals[i].producer_partition;
    if placement_is_told(all, code, producer, Some(i as usize)) {
        let d = choose|d: RuntimePartitionPlacementDiagnosticView| #[trigger]
            all.contains(d) && d.code == code && d.partition_id == producer && d.boundary_index
                == Some(i as usize);
        lemma_placement_diagnostic(plan, workers, d);
        let j = choose|j: int|
            0 <= j < plan.boundary_signals.len() && #[trigger] crossing_diagnostic(
                plan.boundary_signals,
                assignments,
                high,
                j,
            ) == Some(d);
        assert(j == i);
    }
    if crossing_diagnostic(plan.boundary_signals, assignments, high, i) is Some {
        let d = crossing_diagnostic(plan.boundary_signals, assignments, high, i)->0;
        lemma_placement_diagnostic(plan, workers, d);
        assert(all.contains(d));
    }
}

// ---------------------------------------------------------------------------
// Communication
// ---------------------------------------------------------------------------

/// Whether a communication plan is told of something.
pub open spec fn communication_is_told(
    diagnostics: Seq<RuntimePartitionCommunicationDiagnosticView>,
    code: RuntimePartitionCommunicationDiagnosticCode,
    route_index: Option<usize>,
) -> bool {
    exists|d: RuntimePartitionCommunicationDiagnosticView| #[trigger]
        diagnostics.contains(d) && d.code == code && d.route_index == route_index
}

/// A communication plan is told of its whole traffic exactly when the routes together move more
/// bits than the registers and memories of the plan hold, if they hold any; and of a route exactly
/// when that is so or the route is 1024 bits wide or wider.
pub proof fn lemma_wide_route_is_told(
    total_cost: RuntimePartitionCost,
    routes: Seq<RuntimePartitionRouteView>,
    r: int,
)
    requires
        0 <= r < routes.len() <= usize::MAX,
        total_cost.state_bits + total_cost.memory_bits <= u64::MAX,
    ensures
        ({
            let all = communication_diagnostics(total_cost, routes);
            let held = total_cost.state_bits + total_cost.memory_bits;
            let moved = sum_by(routes, |x: RuntimePartitionRouteView| x.bits_per_transfer as int);
            &&& communication_is_told(
                all,
                RuntimePartitionCommunicationDiagnosticCode::HighTotalCrossWorkerTraffic,
                None,
            ) <==> held > 0 && moved > held
            &&& communication_is_told(
                all,
                RuntimePartitionCommunicationDiagnosticCode::HighRouteWidth,
                Some(r as usize),
            ) <==> routes[r].width >= 1024 || (held > 0 && moved > held)
        }),
{
    let all = communication_diagnostics(total_cost, routes);
    let high = traffic_is_high(total_cost, route_bits(routes));
    let f = |x: RuntimePartitionRouteView| x.bits_per_transfer as int;
    lemma_sum_by_index(routes, f, |i: int| routes[i].bits_per_transfer as int);
    let total_code = RuntimePartitionCommunicationDiagnosticCode::HighTotalCrossWorkerTraffic;
    let route_code = RuntimePartitionCommunicationDiagnosticCode::HighRouteWidth;
    let a: Seq<RuntimePartitionCommunicationDiagnosticView> = if high {
        seq![traffic_diagnostic(route_bits(routes))]
    } else {
        seq![]
    };
    let g = |x: int| route_diagnostic(routes, high, x);
    let b = gather(routes.len(), g);
    assert(all == a + b);
    if communication_is_told(all, total_code, None) {
        let d = choose|d: RuntimePartitionCommunicationDiagnosticView| #[trigger]
            all.contains(d) && d.code == total_code && d.route_index is None;
        lemma_joined_contains(a, b, d);
        lemma_gather_contains(routes.len(), g, d);
    }
    if high {
        let d = traffic_diagnostic(route_bits(routes));
        assert(a[0] == d);
        assert(a.contains(d));
        lemma_joined_contains(a, b, d);
        assert(all.contains(d));
    }
    if communication_is_told(all, route_code, Some(r as usize)) {
        let d = choose|d: RuntimePartitionCommunicationDiagnosticView| #[trigger]
            all.contains(d) && d.code == route_code && d.route_index == Some(r as usize);
        lemma_joined_contains(a, b, d);
        lemma_gather_contains(routes.len(), g, d);
        if a.contains(d) {
            let i = choose|i: int| 0 <= i < a.len() && a[i] == d;
        } else {
            let x = choose|x: int| 0 <= x < routes.len() && #[trigger] g(x) == Some(d);
            assert(x == r);
        }
    }
    if g(r) is Some {
        let d = g(r)->0;
        lemma_gather_contains(routes.len(), g, d);
        lemma_joined_contains(a, b, d);
        assert(all.contains(d));
    }
}

/// Every worker of a communication plan sends the routes that start at it and receives those that
/// end at it, and the bits that it sends and receives are those of these routes.
pub proof fn lemma_worker_sends_its_routes(
    plan: RuntimePartitionPlanView,
    placement: RuntimePartitionPlacementPlanView,
    k: int,
    r: usize,
)
    requires
        distinct_names::<RuntimePartitionWorkerSummary>(placement.worker_summaries),
        communication_plan(plan, placement).routes.len() <= usize::MAX,
        0 <= k < placement.worker_summaries.len(),
    ensures
        ({
            let c = communication_plan(plan, placement);
            let worker = c.worker_summaries[k];
            &&& worker.worker_id == placement.worker_summaries[k].worker_id
            &&& worker.outbound_routes.contains(r) <==> r < c.routes.len()
                && c.routes[r as int].producer_worker == worker.worker_id
            &&& worker.inbound_routes.contains(r) <==> r < c.routes.len()
                && c.routes[r as int].consumer_worker == worker.worker_id
            &&& route_bits(c.routes) <= u64::MAX ==> worker.outbound_bits == sum_by(
                c.routes,
                |x: RuntimePartitionRouteView|
                    if x.producer_worker == worker.worker_id {
                        x.bits_per_transfer as int
                    } else {
                        0
                    },
            )
            &&& route_bits(c.routes) <= u64::MAX ==> worker.inbound_bits == sum_by(
                c.routes,
                |x: RuntimePartitionRouteView|
                    if x.consumer_worker == worker.worker_id {
                        x.bits_per_transfer as int
                    } else {
                        0
                    },
            )
        }),
{
    let routes = communication_plan(plan, placement).routes;
    let id = placement.worker_summaries[k].worker_id;
    lemma_only_one(placement.worker_summaries, k);
    lemma_route_indexes(routes, id, r);
    lemma_worker_bits_bound(routes, id);
    lemma_sum_by_index(
        routes,
        |x: RuntimePartitionRouteView|
            if x.producer_worker == id {
                x.bits_per_transfer as int
            } else {
                0
            },
        |i: int|
            if routes[i].producer_worker == id {
                routes[i].bits_per_transfer as int
            } else {
                0
            },
    );
    lemma_sum_by_index(
        routes,
        |x: RuntimePartitionRouteView|
            if x.consumer_worker == id {
                x.bits_per_transfer as int
            } else {
                0
            },
        |i: int|
            if routes[i].consumer_worker == id {
                routes[i].bits_per_transfer as int
            } else {
                0
            },
    );
}

proof fn lemma_only_one(workers: Seq<RuntimePartitionWorkerSummaryView>, k: int)
    requires
        distinct_names::<RuntimePartitionWorkerSummary>(workers),
        0 <= k < workers.len(),
    ensures
        last_named::<RuntimePartitionWorkerSummary>(workers, workers[k].worker_id) == Some(k),
{
    lemma_last_named::<RuntimePartitionWorkerSummary>(workers, workers[k].worker_id);
}

} // verus!

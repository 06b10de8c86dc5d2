//! Planning the routes between workers.

use vstd::prelude::*;

use crate::collect::{
    build_items, check_each, concat_below, concat_items, gather, gather_items,
    lemma_concat_contains, lemma_gather_contains, lemma_sum_below_grows, lemma_sum_below_mono,
    lemma_sum_below_one, lemma_sum_below_same, lemma_sum_below_swap, sum_below, sum_items,
};
use crate::error::{error, fails_with, report, ErrorReport, ErrorReportView};
use crate::ids::{distinct_names, find_last_named, last_named, lemma_last_named, Named};
use crate::model::communication::{
    RuntimePartitionCommunicationDiagnostic, RuntimePartitionCommunicationDiagnosticCode,
    RuntimePartitionCommunicationDiagnosticView, RuntimePartitionCommunicationPlan,
    RuntimePartitionCommunicationPlanView, RuntimePartitionCommunicationRecommendation,
    RuntimePartitionCommunicationRecommendationCode,
    RuntimePartitionCommunicationRecommendationView, RuntimePartitionCommunicationWorkerSummary,
    RuntimePartitionCommunicationWorkerSummaryView, RuntimePartitionRoute,
    RuntimePartitionRouteView, RUNTIME_PARTITION_COMMUNICATION_FORMAT_VERSION,
};
use crate::model::partition::{
    RuntimePartitionBoundarySignalView, RuntimePartitionCost, RuntimePartitionDiagnosticSeverity,
    RuntimePartitionPlan, RuntimePartitionPlanView,
};
use crate::model::placement::{
    RuntimePartitionAssignment, RuntimePartitionAssignmentView, RuntimePartitionPlacementPlan,
    RuntimePartitionPlacementPlanView, RuntimePartitionWorkerSummary,
    RuntimePartitionWorkerSummaryView,
};
use crate::order::{
    lemma_pair_ranked, lemma_sorted_by_key_contains, sort_by_key, sorted_by_key, SortKey, Ranked,
};
use crate::seqs::{first_problem, no_items, or_problem, push_item};
use crate::text::{append_decimal, decimal, join_text, joined, same_text};
use crate::versions::{partition_placement_plan_version_problem, partition_plan_version_problem};

verus! {

// ---------------------------------------------------------------------------
// Routes of a plan
// ---------------------------------------------------------------------------

/// The assignment of a partition.
pub open spec fn assignment_of(
    assignments: Seq<RuntimePartitionAssignmentView>,
    partition: Seq<char>,
) -> Option<RuntimePartitionAssignmentView> {
    match last_named::<RuntimePartitionAssignment>(assignments, partition) {
        Some(k) => Some(assignments[k]),
        None => None,
    }
}

pub open spec fn unassigned_report(partition: Seq<char>, boundary_index: int) -> ErrorReportView {
    report(
        "E_RUNTIME_PARTITION_COMMUNICATION_ASSIGNMENT"@,
        "partition `"@ + partition + "` referenced by boundary "@ + decimal(boundary_index as nat)
            + " has no placement assignment"@,
    )
}

/// What is wrong with a partition that a boundary refers to: it has no
/// assignment.
pub open spec fn assignment_problem(
    assignments: Seq<RuntimePartitionAssignmentView>,
    partition: Seq<char>,
    boundary_index: int,
) -> Option<ErrorReportView> {
    if assignment_of(assignments, partition) is None {
        Some(unassigned_report(partition, boundary_index))
    } else {
        None
    }
}

/// The first partition of a boundary without an assignment. A boundary without a
/// producer crosses no worker edge and is not looked at.
pub open spec fn boundary_problem(
    boundary: RuntimePartitionBoundarySignalView,
    assignments: Seq<RuntimePartitionAssignmentView>,
    index: int,
) -> Option<ErrorReportView> {
    match boundary.producer_partition {
        None => None,
        Some(producer) => or_problem(
            assignment_problem(assignments, producer, index),
            first_problem(
                boundary.consumer_partitions.len(),
                |j: int| assignment_problem(assignments, boundary.consumer_partitions[j], index),
            ),
        ),
    }
}

/// The route from the producer of a boundary to its consumer `j`, if they are on
/// different workers.
pub open spec fn route_of(
    boundary: RuntimePartitionBoundarySignalView,
    assignments: Seq<RuntimePartitionAssignmentView>,
    index: int,
    j: int,
) -> Option<RuntimePartitionRouteView> {
    let consumer = boundary.consumer_partitions[j];
    match boundary.producer_partition {
        None => None,
        Some(producer) => match (
            assignment_of(assignments, producer),
            assignment_of(assignments, consumer),
        ) {
            (Some(from), Some(to)) => if from.worker_id == to.worker_id {
                None
            } else {
                Some(
                    RuntimePartitionRouteView {
                        boundary_index: index as usize,
                        signal: boundary.signal,
                        port_name: boundary.port_name,
                        instance_path: boundary.instance_path,
                        producer_partition: producer,
                        producer_worker: from.worker_id,
                        consumer_partition: consumer,
                        consumer_worker: to.worker_id,
                        width: boundary.width,
                        bits_per_transfer: boundary.width as u64,
                    },
                )
            },
            _ => None,
        },
    }
}

/// The routes of one boundary.
pub open spec fn boundary_routes(
    boundary: RuntimePartitionBoundarySignalView,
    assignments: Seq<RuntimePartitionAssignmentView>,
    index: int,
) -> Seq<RuntimePartitionRouteView> {
    gather(
        boundary.consumer_partitions.len(),
        |j: int| route_of(boundary, assignments, index, j),
    )
}

/// The routes of all boundaries, in boundary order.
pub open spec fn unsorted_routes(
    boundaries: Seq<RuntimePartitionBoundarySignalView>,
    assignments: Seq<RuntimePartitionAssignmentView>,
) -> Seq<RuntimePartitionRouteView> {
    concat_below(
        boundaries.len(),
        |i: int| boundary_routes(boundaries[i], assignments, i),
    )
}

/// Routes are listed by boundary, producing worker, consuming worker and
/// consuming partition.
pub struct RouteOrder {}

impl SortKey<RuntimePartitionRoute> for RouteOrder {
    type Key = (usize, (String, (String, String)));

    open spec fn key(v: RuntimePartitionRouteView) -> (usize, (Seq<char>, (Seq<char>, Seq<char>))) {
        (v.boundary_index, (v.producer_worker, (v.consumer_worker, v.consumer_partition)))
    }

    fn is_key_le(a: &RuntimePartitionRoute, b: &RuntimePartitionRoute) -> bool {
        proof {
            let x = Self::key(a.deep_view());
            let y = Self::key(b.deep_view());
            lemma_pair_ranked::<usize, (String, (String, String))>(x, y);
            lemma_pair_ranked::<String, (String, String)>(x.1, y.1);
            lemma_pair_ranked::<String, String>(x.1.1, y.1.1);
        }
        if a.boundary_index != b.boundary_index {
            return a.boundary_index < b.boundary_index;
        }
        if !same_text(a.producer_worker.as_str(), b.producer_worker.as_str()) {
            return a.producer_worker.is_ranked_le(&b.producer_worker);
        }
        if !same_text(a.consumer_worker.as_str(), b.consumer_worker.as_str()) {
            return a.consumer_worker.is_ranked_le(&b.consumer_worker);
        }
        a.consumer_partition.is_ranked_le(&b.consumer_partition)
    }
}

/// The routes of a plan.
pub open spec fn planned_routes(
    boundaries: Seq<RuntimePartitionBoundarySignalView>,
    assignments: Seq<RuntimePartitionAssignmentView>,
) -> Seq<RuntimePartitionRouteView> {
    sorted_by_key::<RuntimePartitionRoute, RouteOrder>(unsorted_routes(boundaries, assignments))
}

// ---------------------------------------------------------------------------
// Traffic of routes
// ---------------------------------------------------------------------------

/// The bits that all routes move.
pub open spec fn route_bits(routes: Seq<RuntimePartitionRouteView>) -> int {
    sum_below(routes.len(), |r: int| routes[r].bits_per_transfer as int)
}

/// The routes that leave a worker.
pub open spec fn outbound_of(routes: Seq<RuntimePartitionRouteView>, worker: Seq<char>) -> Seq<
    usize,
> {
    gather(
        routes.len(),
        |r: int|
            if routes[r].producer_worker == worker {
                Some(r as usize)
            } else {
                None
            },
    )
}

/// The routes that reach a worker.
pub open spec fn inbound_of(routes: Seq<RuntimePartitionRouteView>, worker: Seq<char>) -> Seq<
    usize,
> {
    gather(
        routes.len(),
        |r: int|
            if routes[r].consumer_worker == worker {
                Some(r as usize)
            } else {
                None
            },
    )
}

/// The bits that leave a worker.
pub open spec fn outbound_bits_of(routes: Seq<RuntimePartitionRouteView>, worker: Seq<char>) -> int {
    sum_below(
        routes.len(),
        |r: int|
            if routes[r].producer_worker == worker {
                routes[r].bits_per_transfer as int
            } else {
                0
            },
    )
}

/// The bits that reach a worker.
pub open spec fn inbound_bits_of(routes: Seq<RuntimePartitionRouteView>, worker: Seq<char>) -> int {
    sum_below(
        routes.len(),
        |r: int|
            if routes[r].consumer_worker == worker {
                routes[r].bits_per_transfer as int
            } else {
                0
            },
    )
}

/// No worker moves more bits than all routes together.
pub proof fn lemma_worker_bits_bound(routes: Seq<RuntimePartitionRouteView>, worker: Seq<char>)
    ensures
        0 <= outbound_bits_of(routes, worker) <= route_bits(routes),
        0 <= inbound_bits_of(routes, worker) <= route_bits(routes),
{
    let all = |r: int| routes[r].bits_per_transfer as int;
    let out = |r: int|
        if routes[r].producer_worker == worker {
            routes[r].bits_per_transfer as int
        } else {
            0
        };
    let inb = |r: int|
        if routes[r].consumer_worker == worker {
            routes[r].bits_per_transfer as int
        } else {
            0
        };
    lemma_sum_below_mono(routes.len(), out, all);
    lemma_sum_below_mono(routes.len(), inb, all);
    lemma_sum_below_grows(0, routes.len(), out);
    lemma_sum_below_grows(0, routes.len(), inb);
}

/// Lists the routes that leave a worker.
pub fn outbound_routes_of(routes: &Vec<RuntimePartitionRoute>, worker: &str) -> (r: Vec<usize>)
    ensures
        r@ == outbound_of(routes.deep_view(), worker@),
{
    let ghost all = routes.deep_view();
    let ghost g = |r: int|
        if all[r].producer_worker == worker@ {
            Some(r as usize)
        } else {
            None
        };
    let r: Vec<usize> = gather_items(
        routes.len(),
        |i: usize| -> (y: Option<usize>)
            requires i < routes.len(),
            ensures y.deep_view() == g(i as int)
        {
            if same_text(routes[i].producer_worker.as_str(), worker) {
                Some(i)
            } else {
                None
            }
        },
        Ghost(g),
    );
    proof {
        assert(r.deep_view() =~= r@);
    }
    r
}

/// Lists the routes that reach a worker.
pub fn inbound_routes_of(routes: &Vec<RuntimePartitionRoute>, worker: &str) -> (r: Vec<usize>)
    ensures
        r@ == inbound_of(routes.deep_view(), worker@),
{
    let ghost all = routes.deep_view();
    let ghost g = |r: int|
        if all[r].consumer_worker == worker@ {
            Some(r as usize)
        } else {
            None
        };
    let r: Vec<usize> = gather_items(
        routes.len(),
        |i: usize| -> (y: Option<usize>)
            requires i < routes.len(),
            ensures y.deep_view() == g(i as int)
        {
            if same_text(routes[i].consumer_worker.as_str(), worker) {
                Some(i)
            } else {
                None
            }
        },
        Ghost(g),
    );
    proof {
        assert(r.deep_view() =~= r@);
    }
    r
}

/// Adds up the bits that leave a worker.
pub fn outbound_bits_total(routes: &Vec<RuntimePartitionRoute>, worker: &str) -> (r: u64)
    requires
        outbound_bits_of(routes.deep_view(), worker@) <= u64::MAX,
    ensures
        r == outbound_bits_of(routes.deep_view(), worker@),
{
    let ghost all = routes.deep_view();
    let ghost g = |r: int|
        if all[r].producer_worker == worker@ {
            all[r].bits_per_transfer as int
        } else {
            0
        };
    sum_items(
        routes.len(),
        |i: usize| -> (y: u64)
            requires i < routes.len(),
            ensures y == g(i as int)
        {
            if same_text(routes[i].producer_worker.as_str(), worker) {
                routes[i].bits_per_transfer
            } else {
                0
            }
        },
        Ghost(g),
    )
}

/// Adds up the bits that reach a worker.
pub fn inbound_bits_total(routes: &Vec<RuntimePartitionRoute>, worker: &str) -> (r: u64)
    requires
        inbound_bits_of(routes.deep_view(), worker@) <= u64::MAX,
    ensures
        r == inbound_bits_of(routes.deep_view(), worker@),
{
    let ghost all = routes.deep_view();
    let ghost g = |r: int|
        if all[r].consumer_worker == worker@ {
            all[r].bits_per_transfer as int
        } else {
            0
        };
    sum_items(
        routes.len(),
        |i: usize| -> (y: u64)
            requires i < routes.len(),
            ensures y == g(i as int)
        {
            if same_text(routes[i].consumer_worker.as_str(), worker) {
                routes[i].bits_per_transfer
            } else {
                0
            }
        },
        Ghost(g),
    )
}

// ---------------------------------------------------------------------------
// The plan
// ---------------------------------------------------------------------------

/// The summary of worker `k` of a placement. Where a worker is listed twice, its
/// routes are those of the last entry.
pub open spec fn communication_summary(
    workers: Seq<RuntimePartitionWorkerSummaryView>,
    routes: Seq<RuntimePartitionRouteView>,
    k: int,
) -> RuntimePartitionCommunicationWorkerSummaryView {
    let id = workers[k].worker_id;
    if last_named::<RuntimePartitionWorkerSummary>(workers, id) == Some(k) {
        RuntimePartitionCommunicationWorkerSummaryView {
            worker_id: id,
            outbound_routes: outbound_of(routes, id),
            inbound_routes: inbound_of(routes, id),
            outbound_bits: outbound_bits_of(routes, id) as u64,
            inbound_bits: inbound_bits_of(routes, id) as u64,
        }
    } else {
        RuntimePartitionCommunicationWorkerSummaryView {
            worker_id: id,
            outbound_routes: seq![],
            inbound_routes: seq![],
            outbound_bits: 0,
            inbound_bits: 0,
        }
    }
}

/// The summaries of all workers of a placement.
pub open spec fn communication_summaries(
    workers: Seq<RuntimePartitionWorkerSummaryView>,
    routes: Seq<RuntimePartitionRouteView>,
) -> Seq<RuntimePartitionCommunicationWorkerSummaryView> {
    Seq::new(workers.len(), |k: int| communication_summary(workers, routes, k))
}

/// Whether more bits cross worker edges than the design stores.
pub open spec fn traffic_is_high(total_cost: RuntimePartitionCost, bits: int) -> bool {
    let local = total_cost.state_bits + total_cost.memory_bits;
    bits > 0 && local > 0 && bits > if local <= u64::MAX {
        local
    } else {
        u64::MAX as int
    }
}

/// The diagnostic of a route that is wide, or part of high traffic.
pub open spec fn route_diagnostic(
    routes: Seq<RuntimePartitionRouteView>,
    high: bool,
    r: int,
) -> Option<RuntimePartitionCommunicationDiagnosticView> {
    let route = routes[r];
    if route.width < 1024 && !high {
        None
    } else {
        Some(
            RuntimePartitionCommunicationDiagnosticView {
                code: RuntimePartitionCommunicationDiagnosticCode::HighRouteWidth,
                severity: RuntimePartitionDiagnosticSeverity::Warning,
                message: "route `"@ + route.producer_worker + "` -> `"@ + route.consumer_worker
                    + "` for `"@ + joined(route.instance_path, "."@) + "` moves "@ + decimal(
                    route.bits_per_transfer as nat,
                ) + " bits per transfer"@,
                worker_id: Some(route.producer_worker),
                partition_id: Some(route.producer_partition),
                boundary_index: Some(route.boundary_index),
                route_index: Some(r as usize),
            },
        )
    }
}

/// The recommendation for such a route.
pub open spec fn route_recommendation(
    routes: Seq<RuntimePartitionRouteView>,
    high: bool,
    r: int,
) -> Option<RuntimePartitionCommunicationRecommendationView> {
    let route = routes[r];
    if route.width < 1024 && !high {
        None
    } else {
        Some(
            RuntimePartitionCommunicationRecommendationView {
                code: RuntimePartitionCommunicationRecommendationCode::CoLocateRoute,
                message: "co-locate partitions `"@ + route.producer_partition + "` and `"@
                    + route.consumer_partition + "` or cut `"@ + joined(route.instance_path, "."@)
                    + "` on a narrower interface"@,
                worker_id: Some(route.producer_worker),
                partition_id: Some(route.producer_partition),
                boundary_index: Some(route.boundary_index),
                route_index: Some(r as usize),
            },
        )
    }
}

/// The diagnostic of high traffic.
pub open spec fn traffic_diagnostic(bits: int) -> RuntimePartitionCommunicationDiagnosticView {
    RuntimePartitionCommunicationDiagnosticView {
        code: RuntimePartitionCommunicationDiagnosticCode::HighTotalCrossWorkerTraffic,
        severity: RuntimePartitionDiagnosticSeverity::Warning,
        message: "communication schedule moves "@ + decimal(bits as nat)
            + " cross-worker bits per transfer, exceeding local state plus memory bits"@,
        worker_id: None,
        partition_id: None,
        boundary_index: None,
        route_index: None,
    }
}

/// All diagnostics of a communication plan.
pub open spec fn communication_diagnostics(
    total_cost: RuntimePartitionCost,
    routes: Seq<RuntimePartitionRouteView>,
) -> Seq<RuntimePartitionCommunicationDiagnosticView> {
    let high = traffic_is_high(total_cost, route_bits(routes));
    (if high {
        seq![traffic_diagnostic(route_bits(routes))]
    } else {
        seq![]
    }) + gather(routes.len(), |r: int| route_diagnostic(routes, high, r))
}

/// All recommendations of a communication plan.
pub open spec fn communication_recommendations(
    total_cost: RuntimePartitionCost,
    routes: Seq<RuntimePartitionRouteView>,
) -> Seq<RuntimePartitionCommunicationRecommendationView> {
    let high = traffic_is_high(total_cost, route_bits(routes));
    gather(routes.len(), |r: int| route_recommendation(routes, high, r))
}

/// What keeps communication from being planned.
pub open spec fn communication_problem(
    plan: RuntimePartitionPlanView,
    placement: RuntimePartitionPlacementPlanView,
) -> Option<ErrorReportView> {
    or_problem(
        partition_plan_version_problem(plan.format_version),
        or_problem(
            partition_placement_plan_version_problem(placement.format_version),
            if plan.module_name != placement.module_name {
                Some(
                    report(
                        "E_RUNTIME_PARTITION_COMMUNICATION_MODULE"@,
                        "partition plan module `"@ + plan.module_name
                            + "` does not match placement module `"@ + placement.module_name
                            + "`"@,
                    ),
                )
            } else {
                first_problem(
                    plan.boundary_signals.len(),
                    |i: int|
                        boundary_problem(plan.boundary_signals[i], placement.assignments, i),
                )
            },
        ),
    )
}

/// The communication plan of a placed partition plan.
pub open spec fn communication_plan(
    plan: RuntimePartitionPlanView,
    placement: RuntimePartitionPlacementPlanView,
) -> RuntimePartitionCommunicationPlanView {
    let routes = planned_routes(plan.boundary_signals, placement.assignments);
    RuntimePartitionCommunicationPlanView {
        format_version: RUNTIME_PARTITION_COMMUNICATION_FORMAT_VERSION,
        module_name: plan.module_name,
        routes,
        worker_summaries: communication_summaries(placement.worker_summaries, routes),
        total_cross_worker_boundary_bits: route_bits(routes) as u64,
        diagnostics: communication_diagnostics(plan.total_cost, routes),
        recommendations: communication_recommendations(plan.total_cost, routes),
    }
}

fn communication_assignment(
    assignments: &Vec<RuntimePartitionAssignment>,
    partition: &str,
    boundary_index: usize,
) -> (r: Result<(), ErrorReport>)
    ensures
        fails_with(
            r,
            assignment_problem(assignments.deep_view(), partition@, boundary_index as int),
        ),
{
    match find_last_named(assignments, partition) {
        Some(_) => Ok(()),
        None => {
            let mut message = "partition `".to_owned();
            message.append(partition);
            message.append("` referenced by boundary ");
            append_decimal(&mut message, boundary_index as u64);
            message.append(" has no placement assignment");
            Err(error("E_RUNTIME_PARTITION_COMMUNICATION_ASSIGNMENT", message.as_str()))
        },
    }
}

fn check_boundary(
    plan: &RuntimePartitionPlan,
    assignments: &Vec<RuntimePartitionAssignment>,
    index: usize,
) -> (r: Result<(), ErrorReport>)
    requires
        index < plan.boundary_signals.len(),
    ensures
        fails_with(
            r,
            boundary_problem(
                plan.deep_view().boundary_signals[index as int],
                assignments.deep_view(),
                index as int,
            ),
        ),
{
    let boundary = &plan.boundary_signals[index];
    let ghost b = plan.deep_view().boundary_signals[index as int];
    let ghost a = assignments.deep_view();
    proof {
        assert(b == boundary.deep_view());
    }
    match &boundary.producer_partition {
        None => Ok(()),
        Some(producer) => {
            communication_assignment(assignments, producer.as_str(), index)?;
            let ghost g = |j: int| assignment_problem(a, b.consumer_partitions[j], index as int);
            check_each(
                boundary.consumer_partitions.len(),
                |j: usize| -> (y: Result<(), ErrorReport>)
                    requires j < boundary.consumer_partitions.len(),
                    ensures fails_with(y, g(j as int))
                {
                    communication_assignment(
                        assignments,
                        boundary.consumer_partitions[j].as_str(),
                        index,
                    )
                },
                Ghost(g),
            )
        },
    }
}

fn build_route(
    plan: &RuntimePartitionPlan,
    assignments: &Vec<RuntimePartitionAssignment>,
    index: usize,
    j: usize,
) -> (r: Option<RuntimePartitionRoute>)
    requires
        index < plan.boundary_signals.len(),
        j < plan.boundary_signals[index as int].consumer_partitions.len(),
    ensures
        r.deep_view() == route_of(
            plan.deep_view().boundary_signals[index as int],
            assignments.deep_view(),
            index as int,
            j as int,
        ),
{
    let boundary = &plan.boundary_signals[index];
    let consumer = &boundary.consumer_partitions[j];
    proof {
        assert(plan.deep_view().boundary_signals[index as int] == boundary.deep_view());
        assert(boundary.deep_view().consumer_partitions[j as int] == consumer@);
    }
    match &boundary.producer_partition {
        None => None,
        Some(producer) => {
            let from = match find_last_named(assignments, producer.as_str()) {
                Some(k) => k,
                None => {
                    return None;
                },
            };
            let to = match find_last_named(assignments, consumer.as_str()) {
                Some(k) => k,
                None => {
                    return None;
                },
            };
            proof {
                assert(assignments.deep_view()[from as int] == assignments[from as int].deep_view());
                assert(assignments.deep_view()[to as int] == assignments[to as int].deep_view());
            }
            if same_text(assignments[from].worker_id.as_str(), assignments[to].worker_id.as_str()) {
                return None;
            }
            let instance_path = boundary.instance_path.clone();
            proof {
                assert(instance_path.deep_view() =~= boundary.instance_path.deep_view());
            }
            Some(
                RuntimePartitionRoute {
                    boundary_index: index,
                    signal: boundary.signal.clone(),
                    port_name: boundary.port_name.clone(),
                    instance_path,
                    producer_partition: producer.clone(),
                    producer_worker: assignments[from].worker_id.clone(),
                    consumer_partition: consumer.clone(),
                    consumer_worker: assignments[to].worker_id.clone(),
                    width: boundary.width,
                    bits_per_transfer: boundary.width as u64,
                },
            )
        },
    }
}

fn build_routes(plan: &RuntimePartitionPlan, assignments: &Vec<RuntimePartitionAssignment>) -> (r:
    Vec<RuntimePartitionRoute>)
    ensures
        r.deep_view() == planned_routes(
            plan.deep_view().boundary_signals,
            assignments.deep_view(),
        ),
{
    let ghost bs = plan.deep_view().boundary_signals;
    let ghost a = assignments.deep_view();
    let ghost g = |i: int| boundary_routes(bs[i], a, i);
    let unsorted = concat_items(
        plan.boundary_signals.len(),
        |i: usize| -> (y: Vec<RuntimePartitionRoute>)
            requires i < plan.boundary_signals.len(),
            ensures y.deep_view() == g(i as int)
        {
            let ghost b = bs[i as int];
            let ghost h = |j: int| route_of(b, a, i as int, j);
            gather_items(
                plan.boundary_signals[i].consumer_partitions.len(),
                |j: usize| -> (y: Option<RuntimePartitionRoute>)
                    requires j < plan.boundary_signals[i as int].consumer_partitions.len(),
                    ensures y.deep_view() == h(j as int)
                {
                    build_route(plan, assignments, i, j)
                },
                Ghost(h),
            )
        },
        Ghost(g),
    );
    sort_by_key::<RuntimePartitionRoute, RouteOrder>(unsorted)
}

fn communication_worker_summaries(
    workers: &Vec<RuntimePartitionWorkerSummary>,
    routes: &Vec<RuntimePartitionRoute>,
) -> (r: Vec<RuntimePartitionCommunicationWorkerSummary>)
    requires
        route_bits(routes.deep_view()) <= u64::MAX,
    ensures
        r.deep_view() == communication_summaries(workers.deep_view(), routes.deep_view()),
{
    let ghost ws = workers.deep_view();
    let ghost rs = routes.deep_view();
    let ghost g = |k: int| communication_summary(ws, rs, k);
    build_items(
        workers.len(),
        |k: usize| -> (y: RuntimePartitionCommunicationWorkerSummary)
            requires k < workers.len(),
            ensures y.deep_view() == g(k as int)
        {
            let id = workers[k].worker_id.as_str();
            proof {
                assert(ws[k as int] == workers[k as int].deep_view());
                lemma_worker_bits_bound(rs, id@);
            }
            let counted = match find_last_named(workers, id) {
                Some(last) => last == k,
                None => false,
            };
            if counted {
                RuntimePartitionCommunicationWorkerSummary {
                    worker_id: workers[k].worker_id.clone(),
                    outbound_routes: outbound_routes_of(routes, id),
                    inbound_routes: inbound_routes_of(routes, id),
                    outbound_bits: outbound_bits_total(routes, id),
                    inbound_bits: inbound_bits_total(routes, id),
                }
            } else {
                RuntimePartitionCommunicationWorkerSummary {
                    worker_id: workers[k].worker_id.clone(),
                    outbound_routes: Vec::new(),
                    inbound_routes: Vec::new(),
                    outbound_bits: 0,
                    inbound_bits: 0,
                }
            }
        },
        Ghost(g),
    )
}

fn route_message(route: &RuntimePartitionRoute) -> (r: String)
    ensures
        r@ == "route `"@ + route.producer_worker@ + "` -> `"@ + route.consumer_worker@ + "` for `"@
            + joined(route.instance_path.deep_view(), "."@) + "` moves "@ + decimal(
            route.bits_per_transfer as nat,
        ) + " bits per transfer"@,
{
    let mut message = "route `".to_owned();
    message.append(route.producer_worker.as_str());
    message.append("` -> `");
    message.append(route.consumer_worker.as_str());
    message.append("` for `");
    let path = join_text(&route.instance_path, ".");
    message.append(path.as_str());
    message.append("` moves ");
    append_decimal(&mut message, route.bits_per_transfer);
    message.append(" bits per transfer");
    message
}

fn co_locate_message(route: &RuntimePartitionRoute) -> (r: String)
    ensures
        r@ == "co-locate partitions `"@ + route.producer_partition@ + "` and `"@
            + route.consumer_partition@ + "` or cut `"@ + joined(
            route.instance_path.deep_view(),
            "."@,
        ) + "` on a narrower interface"@,
{
    let mut message = "co-locate partitions `".to_owned();
    message.append(route.producer_partition.as_str());
    message.append("` and `");
    message.append(route.consumer_partition.as_str());
    message.append("` or cut `");
    let path = join_text(&route.instance_path, ".");
    message.append(path.as_str());
    message.append("` on a narrower interface");
    message
}

fn analyze_partition_communication(
    total_cost: &RuntimePartitionCost,
    routes: &Vec<RuntimePartitionRoute>,
    total_bits: u64,
) -> (r: (
    Vec<RuntimePartitionCommunicationDiagnostic>,
    Vec<RuntimePartitionCommunicationRecommendation>,
))
    requires
        total_bits == route_bits(routes.deep_view()),
    ensures
        r.0.deep_view() == communication_diagnostics(*total_cost, routes.deep_view()),
        r.1.deep_view() == communication_recommendations(*total_cost, routes.deep_view()),
{
    let ghost rs = routes.deep_view();
    let local_bits: u64 = total_cost.state_bits.saturating_add(total_cost.memory_bits);
    let high: bool = total_bits > 0 && local_bits > 0 && total_bits > local_bits;
    proof {
        assert(high == traffic_is_high(*total_cost, route_bits(rs)));
    }
    let mut diagnostics: Vec<RuntimePartitionCommunicationDiagnostic> = no_items();
    if high {
        let mut message = "communication schedule moves ".to_owned();
        append_decimal(&mut message, total_bits);
        message.append(
            " cross-worker bits per transfer, exceeding local state plus memory bits",
        );
        push_item(
            &mut diagnostics,
            RuntimePartitionCommunicationDiagnostic {
                code: RuntimePartitionCommunicationDiagnosticCode::HighTotalCrossWorkerTraffic,
                severity: RuntimePartitionDiagnosticSeverity::Warning,
                message,
                worker_id: None,
                partition_id: None,
                boundary_index: None,
                route_index: None,
            },
        );
    }
    let ghost g = |r: int| route_diagnostic(rs, high, r);
    let wide = gather_items(
        routes.len(),
        |i: usize| -> (y: Option<RuntimePartitionCommunicationDiagnostic>)
            requires i < routes.len(),
            ensures y.deep_view() == g(i as int)
        {
            let route = &routes[i];
            proof {
                assert(rs[i as int] == route.deep_view());
            }
            if route.width < 1024 && !high {
                None
            } else {
                Some(
                    RuntimePartitionCommunicationDiagnostic {
                        code: RuntimePartitionCommunicationDiagnosticCode::HighRouteWidth,
                        severity: RuntimePartitionDiagnosticSeverity::Warning,
                        message: route_message(route),
                        worker_id: Some(route.producer_worker.clone()),
                        partition_id: Some(route.producer_partition.clone()),
                        boundary_index: Some(route.boundary_index),
                        route_index: Some(i),
                    },
                )
            }
        },
        Ghost(g),
    );
    crate::collect::append_items(&mut diagnostics, wide);
    let ghost h = |r: int| route_recommendation(rs, high, r);
    let recommendations = gather_items(
        routes.len(),
        |i: usize| -> (y: Option<RuntimePartitionCommunicationRecommendation>)
            requires i < routes.len(),
            ensures y.deep_view() == h(i as int)
        {
            let route = &routes[i];
            proof {
                assert(rs[i as int] == route.deep_view());
            }
            if route.width < 1024 && !high {
                None
            } else {
                Some(
                    RuntimePartitionCommunicationRecommendation {
                        code: RuntimePartitionCommunicationRecommendationCode::CoLocateRoute,
                        message: co_locate_message(route),
                        worker_id: Some(route.producer_worker.clone()),
                        partition_id: Some(route.producer_partition.clone()),
                        boundary_index: Some(route.boundary_index),
                        route_index: Some(i),
                    },
                )
            }
        },
        Ghost(h),
    );
    proof {
        assert(diagnostics.deep_view() =~= communication_diagnostics(*total_cost, rs));
    }
    (diagnostics, recommendations)
}

/// Plans the routes between the workers of a placed partition plan.
pub fn plan_runtime_partition_communication(
    plan: &RuntimePartitionPlan,
    placement: &RuntimePartitionPlacementPlan,
) -> (r: Result<RuntimePartitionCommunicationPlan, ErrorReport>)
    requires
        communication_problem(plan.deep_view(), placement.deep_view()) is None ==> route_bits(
            planned_routes(plan.deep_view().boundary_signals, placement.deep_view().assignments),
        ) <= u64::MAX,
    ensures
        fails_with(r, communication_problem(plan.deep_view(), placement.deep_view())),
        r matches Ok(c) ==> c.deep_view() == communication_plan(
            plan.deep_view(),
            placement.deep_view(),
        ),
{
    plan.validate_format_version()?;
    placement.validate_format_version()?;
    if !same_text(plan.module_name.as_str(), placement.module_name.as_str()) {
        let mut message = "partition plan module `".to_owned();
        message.append(plan.module_name.as_str());
        message.append("` does not match placement module `");
        message.append(placement.module_name.as_str());
        message.append("`");
        return Err(error("E_RUNTIME_PARTITION_COMMUNICATION_MODULE", message.as_str()));
    }
    let assignments = &placement.assignments;
    let ghost bs = plan.deep_view().boundary_signals;
    let ghost a = placement.deep_view().assignments;
    let ghost g = |i: int| boundary_problem(bs[i], a, i);
    check_each(
        plan.boundary_signals.len(),
        |i: usize| -> (y: Result<(), ErrorReport>)
            requires i < plan.boundary_signals.len(),
            ensures fails_with(y, g(i as int))
        {
            check_boundary(plan, assignments, i)
        },
        Ghost(g),
    )?;
    let routes = build_routes(plan, assignments);
    let ghost rs = routes.deep_view();
    let worker_summaries = communication_worker_summaries(&placement.worker_summaries, &routes);
    let ghost h = |r: int| rs[r].bits_per_transfer as int;
    let total_bits: u64 = sum_items(
        routes.len(),
        |i: usize| -> (y: u64)
            requires i < routes.len(),
            ensures y == h(i as int)
        {
            routes[i].bits_per_transfer
        },
        Ghost(h),
    );
    let (diagnostics, recommendations) = analyze_partition_communication(
        &plan.total_cost,
        &routes,
        total_bits,
    );
    Ok(
        RuntimePartitionCommunicationPlan {
            format_version: RUNTIME_PARTITION_COMMUNICATION_FORMAT_VERSION,
            module_name: plan.module_name.clone(),
            routes,
            worker_summaries,
            total_cross_worker_boundary_bits: total_bits,
            diagnostics,
            recommendations,
        },
    )
}

// ---------------------------------------------------------------------------
// Laws
// ---------------------------------------------------------------------------

/// Every planned route connects two different workers: those to which its
/// producing and its consuming partition are assigned. It moves as many bits as
/// its boundary is wide.
pub proof fn lemma_planned_route_crosses(
    boundaries: Seq<RuntimePartitionBoundarySignalView>,
    assignments: Seq<RuntimePartitionAssignmentView>,
    route: RuntimePartitionRouteView,
)
    requires
        planned_routes(boundaries, assignments).contains(route),
        boundaries.len() <= usize::MAX,
    ensures
        route.boundary_index < boundaries.len(),
        ({
            let boundary = boundaries[route.boundary_index as int];
            &&& boundary.producer_partition == Some(route.producer_partition)
            &&& boundary.consumer_partitions.contains(route.consumer_partition)
            &&& route.width == boundary.width
            &&& route.bits_per_transfer == boundary.width
        }),
        route.producer_worker != route.consumer_worker,
        assignment_of(assignments, route.producer_partition) matches Some(from)
            && from.worker_id == route.producer_worker,
        assignment_of(assignments, route.consumer_partition) matches Some(to)
            && to.worker_id == route.consumer_worker,
{
    let unsorted = unsorted_routes(boundaries, assignments);
    lemma_sorted_by_key_contains::<RuntimePartitionRoute, RouteOrder>(unsorted, route);
    let g = |i: int| boundary_routes(boundaries[i], assignments, i);
    lemma_concat_contains(boundaries.len(), g, route);
    let i = choose|i: int| 0 <= i < boundaries.len() && (#[trigger] g(i)).contains(route);
    let h = |j: int| route_of(boundaries[i], assignments, i, j);
    lemma_gather_contains(boundaries[i].consumer_partitions.len(), h, route);
    let j = choose|j: int|
        0 <= j < boundaries[i].consumer_partitions.len() && #[trigger] h(j) == Some(route);
    assert(route_of(boundaries[i], assignments, i, j) == Some(route));
    assert(boundaries[i].consumer_partitions[j] == route.consumer_partition);
}

/// Every pair of a boundary's producer and one of its consumers on different
/// workers has a route.
pub proof fn lemma_crossing_pair_has_route(
    boundaries: Seq<RuntimePartitionBoundarySignalView>,
    assignments: Seq<RuntimePartitionAssignmentView>,
    i: int,
    j: int,
)
    requires
        0 <= i < boundaries.len(),
        0 <= j < boundaries[i].consumer_partitions.len(),
        boundaries[i].producer_partition matches Some(producer) && assignment_of(
            assignments,
            producer,
        ) matches Some(from) && assignment_of(assignments, boundaries[i].consumer_partitions[j])
            matches Some(to) && from.worker_id != to.worker_id,
    ensures
        route_of(boundaries[i], assignments, i, j) matches Some(route) && planned_routes(
            boundaries,
            assignments,
        ).contains(route),
{
    let route = route_of(boundaries[i], assignments, i, j)->0;
    let h = |j: int| route_of(boundaries[i], assignments, i, j);
    assert(h(j) == Some(route));
    lemma_gather_contains(boundaries[i].consumer_partitions.len(), h, route);
    let g = |i: int| boundary_routes(boundaries[i], assignments, i);
    assert(g(i).contains(route));
    lemma_concat_contains(boundaries.len(), g, route);
    lemma_sorted_by_key_contains::<RuntimePartitionRoute, RouteOrder>(
        unsorted_routes(boundaries, assignments),
        route,
    );
}

// ---------------------------------------------------------------------------
// Laws
// ---------------------------------------------------------------------------

/// Whether all summaries are of different workers, and every route leads from one of them to one
/// of them.
pub open spec fn summaries_cover(
    workers: Seq<RuntimePartitionWorkerSummaryView>,
    routes: Seq<RuntimePartitionRouteView>,
) -> bool {
    &&& distinct_names::<RuntimePartitionWorkerSummary>(workers)
    &&& forall|r: int|
        0 <= r < routes.len() ==> {
            &&& is_summarized(workers, (#[trigger] routes[r]).producer_worker)
            &&& is_summarized(workers, routes[r].consumer_worker)
        }
}

/// Whether a worker has a summary.
pub open spec fn is_summarized(
    workers: Seq<RuntimePartitionWorkerSummaryView>,
    worker: Seq<char>,
) -> bool {
    exists|k: int| 0 <= k < workers.len() && (#[trigger] workers[k]).worker_id == worker
}

/// Bits that are counted for one worker are counted once.
proof fn lemma_counted_once(
    workers: Seq<RuntimePartitionWorkerSummaryView>,
    worker: Seq<char>,
    bits: int,
)
    requires
        distinct_names::<RuntimePartitionWorkerSummary>(workers),
        is_summarized(workers, worker),
    ensures
        sum_below(
            workers.len(),
            |k: int|
                if worker == workers[k].worker_id {
                    bits
                } else {
                    0
                },
        ) == bits,
{
    let at = choose|k: int| 0 <= k < workers.len() && (#[trigger] workers[k]).worker_id == worker;
    let f = |k: int|
        if worker == workers[k].worker_id {
            bits
        } else {
            0
        };
    assert forall|k: int| 0 <= k < workers.len() && k != at implies #[trigger] f(k) == 0 by {
        if k < at {
            assert(RuntimePartitionWorkerSummary::name_of(workers[k])
                != RuntimePartitionWorkerSummary::name_of(workers[at]));
        } else {
            assert(RuntimePartitionWorkerSummary::name_of(workers[at])
                != RuntimePartitionWorkerSummary::name_of(workers[k]));
        }
    }
    lemma_sum_below_one(workers.len(), f, at);
}

/// The bits of all routes, counted at one of their ends, are those of all routes.
proof fn lemma_bits_by_worker(
    workers: Seq<RuntimePartitionWorkerSummaryView>,
    routes: Seq<RuntimePartitionRouteView>,
    end: spec_fn(RuntimePartitionRouteView) -> Seq<char>,
)
    requires
        distinct_names::<RuntimePartitionWorkerSummary>(workers),
        forall|r: int| 0 <= r < routes.len() ==> is_summarized(workers, #[trigger] end(routes[r])),
    ensures
        sum_below(
            workers.len(),
            |k: int|
                sum_below(
                    routes.len(),
                    |r: int|
                        if end(routes[r]) == workers[k].worker_id {
                            routes[r].bits_per_transfer as int
                        } else {
                            0
                        },
                ),
        ) == route_bits(routes),
{
    let m = workers.len();
    let n = routes.len();
    let f = |k: int, r: int|
        if end(routes[r]) == workers[k].worker_id {
            routes[r].bits_per_transfer as int
        } else {
            0
        };
    let all = |r: int| routes[r].bits_per_transfer as int;
    let columns = |r: int| sum_below(m, |k: int| f(k, r));
    lemma_sum_below_swap(m, n, f);
    assert forall|r: int| 0 <= r < n implies #[trigger] columns(r) == all(r) by {
        assert(is_summarized(workers, end(routes[r])));
        lemma_counted_once(workers, end(routes[r]), all(r));
        lemma_sum_below_same(
            m,
            |k: int| f(k, r),
            |k: int|
                if end(routes[r]) == workers[k].worker_id {
                    all(r)
                } else {
                    0
                },
        );
    }
    lemma_sum_below_same(n, columns, all);
    let rows = |k: int| sum_below(n, |r: int| f(k, r));
    let given = |k: int|
        sum_below(
            n,
            |r: int|
                if end(routes[r]) == workers[k].worker_id {
                    routes[r].bits_per_transfer as int
                } else {
                    0
                },
        );
    assert forall|k: int| 0 <= k < m implies #[trigger] rows(k) == given(k) by {
        lemma_sum_below_same(
            n,
            |r: int| f(k, r),
            |r: int|
                if end(routes[r]) == workers[k].worker_id {
                    routes[r].bits_per_transfer as int
                } else {
                    0
                },
        );
    }
    lemma_sum_below_same(m, rows, given);
}

/// The total of a communication plan is what its routes move, what its workers send, and what
/// its workers receive.
pub proof fn lemma_communication_totals(
    plan: RuntimePartitionPlanView,
    placement: RuntimePartitionPlacementPlanView,
)
    requires
        summaries_cover(
            placement.worker_summaries,
            planned_routes(plan.boundary_signals, placement.assignments),
        ),
        route_bits(planned_routes(plan.boundary_signals, placement.assignments)) <= u64::MAX,
    ensures
        ({
            let c = communication_plan(plan, placement);
            let total = c.total_cross_worker_boundary_bits;
            &&& total == sum_below(c.routes.len(), |r: int| c.routes[r].bits_per_transfer as int)
            &&& total == sum_below(
                c.worker_summaries.len(),
                |k: int| c.worker_summaries[k].outbound_bits as int,
            )
            &&& total == sum_below(
                c.worker_summaries.len(),
                |k: int| c.worker_summaries[k].inbound_bits as int,
            )
        }),
{
    let c = communication_plan(plan, placement);
    let workers = placement.worker_summaries;
    let routes = c.routes;
    let m = workers.len();
    let from = |r: RuntimePartitionRouteView| r.producer_worker;
    let to = |r: RuntimePartitionRouteView| r.consumer_worker;
    assert forall|r: int| 0 <= r < routes.len() implies is_summarized(
        workers,
        #[trigger] from(routes[r]),
    ) by {
        assert(is_summarized(workers, routes[r].producer_worker));
    }
    assert forall|r: int| 0 <= r < routes.len() implies is_summarized(
        workers,
        #[trigger] to(routes[r]),
    ) by {
        assert(is_summarized(workers, routes[r].producer_worker));
    }
    lemma_bits_by_worker(workers, routes, from);
    lemma_bits_by_worker(workers, routes, to);
    lemma_worker_bits_bound(routes, seq![]);
    let out = |k: int| c.worker_summaries[k].outbound_bits as int;
    let inb = |k: int| c.worker_summaries[k].inbound_bits as int;
    let sent = |k: int|
        sum_below(
            routes.len(),
            |r: int|
                if from(routes[r]) == workers[k].worker_id {
                    routes[r].bits_per_transfer as int
                } else {
                    0
                },
        );
    let received = |k: int|
        sum_below(
            routes.len(),
            |r: int|
                if to(routes[r]) == workers[k].worker_id {
                    routes[r].bits_per_transfer as int
                } else {
                    0
                },
        );
    assert forall|k: int| 0 <= k < m implies #[trigger] out(k) == sent(k) by {
        lemma_summary_bits(workers, routes, k);
        lemma_sum_below_same(
            routes.len(),
            |r: int|
                if routes[r].producer_worker == workers[k].worker_id {
                    routes[r].bits_per_transfer as int
                } else {
                    0
                },
            |r: int|
                if from(routes[r]) == workers[k].worker_id {
                    routes[r].bits_per_transfer as int
                } else {
                    0
                },
        );
    }
    assert forall|k: int| 0 <= k < m implies #[trigger] inb(k) == received(k) by {
        lemma_summary_bits(workers, routes, k);
        lemma_sum_below_same(
            routes.len(),
            |r: int|
                if routes[r].consumer_worker == workers[k].worker_id {
                    routes[r].bits_per_transfer as int
                } else {
                    0
                },
            |r: int|
                if to(routes[r]) == workers[k].worker_id {
                    routes[r].bits_per_transfer as int
                } else {
                    0
                },
        );
    }
    lemma_sum_below_same(m, out, sent);
    lemma_sum_below_same(m, inb, received);
}

proof fn lemma_summary_bits(
    workers: Seq<RuntimePartitionWorkerSummaryView>,
    routes: Seq<RuntimePartitionRouteView>,
    k: int,
)
    requires
        distinct_names::<RuntimePartitionWorkerSummary>(workers),
        route_bits(routes) <= u64::MAX,
        0 <= k < workers.len(),
    ensures
        communication_summary(workers, routes, k).outbound_bits == outbound_bits_of(
            routes,
            workers[k].worker_id,
        ),
        communication_summary(workers, routes, k).inbound_bits == inbound_bits_of(
            routes,
            workers[k].worker_id,
        ),
{
    let id = workers[k].worker_id;
    lemma_worker_bits_bound(routes, id);
    lemma_last_named::<RuntimePartitionWorkerSummary>(workers, id);
    assert(RuntimePartitionWorkerSummary::name_of(workers[k]) == id);
    let l = last_named::<RuntimePartitionWorkerSummary>(workers, id)->0;
    if l < k {
        assert(RuntimePartitionWorkerSummary::name_of(workers[l])
            != RuntimePartitionWorkerSummary::name_of(workers[k]));
    } else if k < l {
        assert(RuntimePartitionWorkerSummary::name_of(workers[k])
            != RuntimePartitionWorkerSummary::name_of(workers[l]));
    }
}

} // verus!

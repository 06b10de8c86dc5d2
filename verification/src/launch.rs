//! Planning what every worker launches.

use vstd::prelude::*;

use crate::bundle::{bundle_modules_problem, route_label, validate_partition_bundle_modules};
use crate::collect::{
    append_items, build_items, check_each, gather, gather_items, lemma_gather_contains,
};
use crate::communication::{
    assignment_of, inbound_bits_of, inbound_bits_total, inbound_of, inbound_routes_of,
    outbound_bits_of, outbound_bits_total, outbound_of, outbound_routes_of,
};
use crate::cost::{costs_fit, costs_sum, no_cost, total_of_costs};
use crate::error::{error, fails_with, report, ErrorReport, ErrorReportView};
use crate::ids::{find_last_named, last_named, lemma_last_named};
use crate::model::communication::{RuntimePartitionRoute, RuntimePartitionRouteView};
use crate::model::launch::{
    RuntimePartitionBundle, RuntimePartitionBundleDiagnosticView, RuntimePartitionBundleSource,
    RuntimePartitionBundleView, RuntimePartitionLaunchDiagnostic,
    RuntimePartitionLaunchDiagnosticSource, RuntimePartitionLaunchDiagnosticView,
    RuntimePartitionLaunchPartition, RuntimePartitionLaunchPartitionView,
    RuntimePartitionLaunchPlan, RuntimePartitionLaunchPlanView, RuntimePartitionLaunchRoute,
    RuntimePartitionLaunchRouteView, RuntimePartitionWorkerLaunch,
    RuntimePartitionWorkerLaunchView, RUNTIME_PARTITION_LAUNCH_FORMAT_VERSION,
};
use crate::model::partition::{
    RuntimePartition, RuntimePartitionCost, RuntimePartitionDiagnosticSeverity,
    RuntimePartitionView,
};
use crate::model::placement::{RuntimePartitionAssignment, RuntimePartitionAssignmentView};
use crate::model::topology::{RuntimeWorker, RuntimeWorkerView};
use crate::order::{
    lemma_sorted_by_key, lemma_sorted_by_key_contains, sort_by_key, sorted_by_key, SortKey, Ranked,
};
use crate::seqs::{first_problem, lemma_first_problem_none, or_problem};
use crate::text::{decimal, same_text};
use crate::versions::{
    partition_bundle_version_problem, partition_communication_plan_version_problem,
    partition_placement_plan_version_problem, partition_plan_version_problem,
};

verus! {

/// Workers are launched in the order of their ids.
pub struct WorkerOrder {}

impl SortKey<RuntimeWorker> for WorkerOrder {
    type Key = String;

    open spec fn key(v: RuntimeWorkerView) -> Seq<char> {
        v.id
    }

    fn is_key_le(a: &RuntimeWorker, b: &RuntimeWorker) -> bool {
        a.id.is_ranked_le(&b.id)
    }
}

/// Assignments are listed in the order of their partition ids.
pub struct AssignmentOrder {}

impl SortKey<RuntimePartitionAssignment> for AssignmentOrder {
    type Key = String;

    open spec fn key(v: RuntimePartitionAssignmentView) -> Seq<char> {
        v.partition_id
    }

    fn is_key_le(a: &RuntimePartitionAssignment, b: &RuntimePartitionAssignment) -> bool {
        a.partition_id.is_ranked_le(&b.partition_id)
    }
}

/// The workers of a bundle, in launch order.
pub open spec fn launch_order(bundle: RuntimePartitionBundleView) -> Seq<RuntimeWorkerView> {
    sorted_by_key::<RuntimeWorker, WorkerOrder>(bundle.placement_plan.topology.workers)
}

/// The assignments of a bundle, in partition order.
pub open spec fn launch_assignments(bundle: RuntimePartitionBundleView) -> Seq<
    RuntimePartitionAssignmentView,
> {
    sorted_by_key::<RuntimePartitionAssignment, AssignmentOrder>(bundle.placement_plan.assignments)
}

/// What is wrong with an assignment: the plan lacks its partition, or the
/// topology its worker.
pub open spec fn launch_assignment_problem(
    partitions: Seq<RuntimePartitionView>,
    workers: Seq<RuntimeWorkerView>,
    assignment: RuntimePartitionAssignmentView,
) -> Option<ErrorReportView> {
    if last_named::<RuntimePartition>(partitions, assignment.partition_id) is None {
        Some(
            report(
                "E_RUNTIME_PARTITION_LAUNCH_PARTITION"@,
                "placement assignment references partition `"@ + assignment.partition_id
                    + "` that is not in the partition plan"@,
            ),
        )
    } else if last_named::<RuntimeWorker>(workers, assignment.worker_id) is None {
        Some(
            report(
                "E_RUNTIME_PARTITION_LAUNCH_WORKER"@,
                "placement assignment for partition `"@ + assignment.partition_id
                    + "` references worker `"@ + assignment.worker_id
                    + "` that is not in the topology"@,
            ),
        )
    } else {
        None
    }
}

/// What is wrong with route `r`: a partition without an assignment, workers other
/// than those assigned, or a worker that the topology lacks.
pub open spec fn launch_route_problem(
    assignments: Seq<RuntimePartitionAssignmentView>,
    workers: Seq<RuntimeWorkerView>,
    route: RuntimePartitionRouteView,
    r: int,
) -> Option<ErrorReportView> {
    let label = "communication route "@ + decimal(r as nat);
    let producer = assignment_of(assignments, route.producer_partition);
    let consumer = assignment_of(assignments, route.consumer_partition);
    if producer is None {
        Some(
            report(
                "E_RUNTIME_PARTITION_LAUNCH_ASSIGNMENT"@,
                label + " references producer partition `"@ + route.producer_partition
                    + "` with no placement assignment"@,
            ),
        )
    } else if consumer is None {
        Some(
            report(
                "E_RUNTIME_PARTITION_LAUNCH_ASSIGNMENT"@,
                label + " references consumer partition `"@ + route.consumer_partition
                    + "` with no placement assignment"@,
            ),
        )
    } else if producer->0.worker_id != route.producer_worker || consumer->0.worker_id
        != route.consumer_worker {
        Some(
            report(
                "E_RUNTIME_PARTITION_LAUNCH_ROUTE"@,
                label + " worker mapping is stale for producer `"@ + route.producer_partition
                    + "` or consumer `"@ + route.consumer_partition + "`"@,
            ),
        )
    } else if last_named::<RuntimeWorker>(workers, route.producer_worker) is None {
        Some(
            report(
                "E_RUNTIME_PARTITION_LAUNCH_WORKER"@,
                label + " references producer worker `"@ + route.producer_worker
                    + "` that is not in the topology"@,
            ),
        )
    } else if last_named::<RuntimeWorker>(workers, route.consumer_worker) is None {
        Some(
            report(
                "E_RUNTIME_PARTITION_LAUNCH_WORKER"@,
                label + " references consumer worker `"@ + route.consumer_worker
                    + "` that is not in the topology"@,
            ),
        )
    } else {
        None
    }
}

/// What keeps a bundle from being launched.
pub open spec fn launch_problem(bundle: RuntimePartitionBundleView) -> Option<ErrorReportView> {
    or_problem(
        launch_bundle_problem(bundle),
        or_problem(
            first_problem(
                launch_assignments(bundle).len(),
                |i: int|
                    launch_assignment_problem(
                        bundle.partition_plan.partitions,
                        launch_order(bundle),
                        launch_assignments(bundle)[i],
                    ),
            ),
            first_problem(
                bundle.communication_plan.routes.len(),
                |r: int|
                    launch_route_problem(
                        bundle.placement_plan.assignments,
                        launch_order(bundle),
                        bundle.communication_plan.routes[r],
                        r,
                    ),
            ),
        ),
    )
}

/// What is wrong with the versions and modules of a bundle.
pub open spec fn launch_bundle_problem(bundle: RuntimePartitionBundleView) -> Option<
    ErrorReportView,
> {
    or_problem(
        partition_bundle_version_problem(bundle.format_version),
        or_problem(
            partition_plan_version_problem(bundle.partition_plan.format_version),
            or_problem(
                partition_placement_plan_version_problem(bundle.placement_plan.format_version),
                or_problem(
                    partition_communication_plan_version_problem(
                        bundle.communication_plan.format_version,
                    ),
                    bundle_modules_problem(
                        bundle.partition_plan.module_name,
                        bundle.placement_plan.module_name,
                        bundle.communication_plan.module_name,
                    ),
                ),
            ),
        ),
    )
}

/// A partition as its worker launches it.
pub open spec fn launch_partition(
    partitions: Seq<RuntimePartitionView>,
    assignment: RuntimePartitionAssignmentView,
) -> RuntimePartitionLaunchPartitionView {
    let partition =
        partitions[last_named::<RuntimePartition>(partitions, assignment.partition_id)->0];
    RuntimePartitionLaunchPartitionView {
        partition_id: assignment.partition_id,
        module_name: partition.module_name,
        instance_path: partition.instance_path,
        external: partition.external,
        cost: partition.cost,
    }
}

/// The partitions assigned to a worker.
pub open spec fn launch_partitions(
    partitions: Seq<RuntimePartitionView>,
    assignments: Seq<RuntimePartitionAssignmentView>,
    worker: Seq<char>,
) -> Seq<RuntimePartitionLaunchPartitionView> {
    gather(
        assignments.len(),
        |i: int|
            if assignments[i].worker_id == worker {
                Some(launch_partition(partitions, assignments[i]))
            } else {
                None
            },
    )
}

/// The costs assigned to a worker.
pub open spec fn assigned_costs(
    assignments: Seq<RuntimePartitionAssignmentView>,
    worker: Seq<char>,
) -> Seq<RuntimePartitionCost> {
    gather(
        assignments.len(),
        |i: int|
            if assignments[i].worker_id == worker {
                Some(assignments[i].cost)
            } else {
                None
            },
    )
}

/// Route `r` as it is launched.
pub open spec fn launch_route(route: RuntimePartitionRouteView, r: int) -> RuntimePartitionLaunchRouteView {
    RuntimePartitionLaunchRouteView {
        route_index: r as usize,
        boundary_index: route.boundary_index,
        signal: route.signal,
        port_name: route.port_name,
        instance_path: route.instance_path,
        producer_partition: route.producer_partition,
        producer_worker: route.producer_worker,
        consumer_partition: route.consumer_partition,
        consumer_worker: route.consumer_worker,
        width: route.width,
        bits_per_transfer: route.bits_per_transfer,
    }
}

/// All routes as they are launched.
pub open spec fn launch_routes(routes: Seq<RuntimePartitionRouteView>) -> Seq<
    RuntimePartitionLaunchRouteView,
> {
    Seq::new(routes.len(), |r: int| launch_route(routes[r], r))
}

/// The launched routes at given indexes.
pub open spec fn route_specs(
    routes: Seq<RuntimePartitionLaunchRouteView>,
    indexes: Seq<usize>,
) -> Seq<RuntimePartitionLaunchRouteView> {
    Seq::new(indexes.len(), |i: int| routes[indexes[i] as int])
}

/// What worker `k` launches. Where the topology lists a worker twice, everything
/// goes to the last entry.
pub open spec fn worker_launch(bundle: RuntimePartitionBundleView, k: int) -> RuntimePartitionWorkerLaunchView {
    let workers = launch_order(bundle);
    let assignments = launch_assignments(bundle);
    let routes = bundle.communication_plan.routes;
    let worker = workers[k];
    let counted = last_named::<RuntimeWorker>(workers, worker.id) == Some(k);
    let outbound = if counted {
        outbound_of(routes, worker.id)
    } else {
        seq![]
    };
    let inbound = if counted {
        inbound_of(routes, worker.id)
    } else {
        seq![]
    };
    RuntimePartitionWorkerLaunchView {
        worker_id: worker.id,
        backend: worker.backend,
        node: worker.node,
        partitions: if counted {
            launch_partitions(bundle.partition_plan.partitions, assignments, worker.id)
        } else {
            seq![]
        },
        outbound_routes: outbound,
        inbound_routes: inbound,
        outbound_route_specs: route_specs(launch_routes(routes), outbound),
        inbound_route_specs: route_specs(launch_routes(routes), inbound),
        cost: if counted {
            costs_sum(assigned_costs(assignments, worker.id))
        } else {
            no_cost()
        },
        outbound_bits: if counted {
            outbound_bits_of(routes, worker.id) as u64
        } else {
            0
        },
        inbound_bits: if counted {
            inbound_bits_of(routes, worker.id) as u64
        } else {
            0
        },
    }
}

/// What all workers launch.
pub open spec fn worker_launches(bundle: RuntimePartitionBundleView) -> Seq<
    RuntimePartitionWorkerLaunchView,
> {
    Seq::new(launch_order(bundle).len(), |k: int| worker_launch(bundle, k))
}

/// Where a diagnostic of a bundle comes from, in the terms of launches.
pub open spec fn launch_source(source: RuntimePartitionBundleSource) -> RuntimePartitionLaunchDiagnosticSource {
    match source {
        RuntimePartitionBundleSource::Partition => {
            RuntimePartitionLaunchDiagnosticSource::BundlePartition
        },
        RuntimePartitionBundleSource::Placement => {
            RuntimePartitionLaunchDiagnosticSource::BundlePlacement
        },
        RuntimePartitionBundleSource::Communication => {
            RuntimePartitionLaunchDiagnosticSource::BundleCommunication
        },
    }
}

/// A diagnostic of a bundle, carried over.
pub open spec fn carried_diagnostic(d: RuntimePartitionBundleDiagnosticView) -> RuntimePartitionLaunchDiagnosticView {
    RuntimePartitionLaunchDiagnosticView {
        source: launch_source(d.source),
        code: d.code,
        severity: d.severity,
        message: d.message,
        worker_id: None,
        partition_id: None,
        route_index: None,
    }
}

/// The diagnostic of a worker without partitions.
pub open spec fn empty_launch_diagnostic(worker: RuntimePartitionWorkerLaunchView) -> Option<
    RuntimePartitionLaunchDiagnosticView,
> {
    if worker.partitions.len() == 0 {
        Some(
            RuntimePartitionLaunchDiagnosticView {
                source: RuntimePartitionLaunchDiagnosticSource::Launch,
                code: "EmptyWorkerLaunch"@,
                severity: RuntimePartitionDiagnosticSeverity::Info,
                message: "worker `"@ + worker.worker_id
                    + "` has no structural partitions assigned in this launch plan"@,
                worker_id: Some(worker.worker_id),
                partition_id: None,
                route_index: None,
            },
        )
    } else {
        None
    }
}

/// All diagnostics of a launch plan.
pub open spec fn launch_diagnostics(
    diagnostics: Seq<RuntimePartitionBundleDiagnosticView>,
    workers: Seq<RuntimePartitionWorkerLaunchView>,
) -> Seq<RuntimePartitionLaunchDiagnosticView> {
    Seq::new(diagnostics.len(), |i: int| carried_diagnostic(diagnostics[i])) + gather(
        workers.len(),
        |k: int| empty_launch_diagnostic(workers[k]),
    )
}

/// The launch plan of a bundle.
pub open spec fn launch_plan(bundle: RuntimePartitionBundleView) -> RuntimePartitionLaunchPlanView {
    RuntimePartitionLaunchPlanView {
        format_version: RUNTIME_PARTITION_LAUNCH_FORMAT_VERSION,
        module_name: bundle.module_name,
        workers: worker_launches(bundle),
        routes: launch_routes(bundle.communication_plan.routes),
        diagnostics: launch_diagnostics(bundle.diagnostics, worker_launches(bundle)),
    }
}

/// Whether the sums of every worker fit in 64 bits.
pub open spec fn launch_fits(bundle: RuntimePartitionBundleView) -> bool {
    let workers = bundle.placement_plan.topology.workers;
    forall|k: int|
        0 <= k < workers.len() ==> {
            let id = (#[trigger] workers[k]).id;
            &&& costs_fit(assigned_costs(launch_assignments(bundle), id))
            &&& outbound_bits_of(bundle.communication_plan.routes, id) <= u64::MAX
            &&& inbound_bits_of(bundle.communication_plan.routes, id) <= u64::MAX
        }
}

// ---------------------------------------------------------------------------
// Planning
// ---------------------------------------------------------------------------

fn validate_partition_launch_bundle(bundle: &RuntimePartitionBundle) -> (r: Result<
    (),
    ErrorReport,
>)
    ensures
        fails_with(r, launch_bundle_problem(bundle.deep_view())),
{
    bundle.validate_format_version()?;
    bundle.partition_plan.validate_format_version()?;
    bundle.placement_plan.validate_format_version()?;
    bundle.communication_plan.validate_format_version()?;
    validate_partition_bundle_modules(
        &bundle.partition_plan,
        &bundle.placement_plan,
        &bundle.communication_plan,
    )
}

fn check_launch_assignment(
    partitions: &Vec<RuntimePartition>,
    workers: &Vec<RuntimeWorker>,
    assignment: &RuntimePartitionAssignment,
) -> (r: Result<(), ErrorReport>)
    ensures
        fails_with(
            r,
            launch_assignment_problem(
                partitions.deep_view(),
                workers.deep_view(),
                assignment.deep_view(),
            ),
        ),
{
    if find_last_named(partitions, assignment.partition_id.as_str()).is_none() {
        let mut message = "placement assignment references partition `".to_owned();
        message.append(assignment.partition_id.as_str());
        message.append("` that is not in the partition plan");
        return Err(error("E_RUNTIME_PARTITION_LAUNCH_PARTITION", message.as_str()));
    }
    if find_last_named(workers, assignment.worker_id.as_str()).is_none() {
        let mut message = "placement assignment for partition `".to_owned();
        message.append(assignment.partition_id.as_str());
        message.append("` references worker `");
        message.append(assignment.worker_id.as_str());
        message.append("` that is not in the topology");
        return Err(error("E_RUNTIME_PARTITION_LAUNCH_WORKER", message.as_str()));
    }
    Ok(())
}

fn check_launch_route(
    assignments: &Vec<RuntimePartitionAssignment>,
    workers: &Vec<RuntimeWorker>,
    route: &RuntimePartitionRoute,
    index: usize,
) -> (r: Result<(), ErrorReport>)
    ensures
        fails_with(
            r,
            launch_route_problem(
                assignments.deep_view(),
                workers.deep_view(),
                route.deep_view(),
                index as int,
            ),
        ),
{
    let ghost all = assignments.deep_view();
    let producer = match find_last_named(assignments, route.producer_partition.as_str()) {
        Some(k) => k,
        None => {
            let mut message = route_label(index);
            message.append(" references producer partition `");
            message.append(route.producer_partition.as_str());
            message.append("` with no placement assignment");
            return Err(error("E_RUNTIME_PARTITION_LAUNCH_ASSIGNMENT", message.as_str()));
        },
    };
    let consumer = match find_last_named(assignments, route.consumer_partition.as_str()) {
        Some(k) => k,
        None => {
            let mut message = route_label(index);
            message.append(" references consumer partition `");
            message.append(route.consumer_partition.as_str());
            message.append("` with no placement assignment");
            return Err(error("E_RUNTIME_PARTITION_LAUNCH_ASSIGNMENT", message.as_str()));
        },
    };
    proof {
        assert(all[producer as int] == assignments[producer as int].deep_view());
        assert(all[consumer as int] == assignments[consumer as int].deep_view());
    }
    if !same_text(assignments[producer].worker_id.as_str(), route.producer_worker.as_str())
        || !same_text(assignments[consumer].worker_id.as_str(), route.consumer_worker.as_str()) {
        let mut message = route_label(index);
        message.append(" worker mapping is stale for producer `");
        message.append(route.producer_partition.as_str());
        message.append("` or consumer `");
        message.append(route.consumer_partition.as_str());
        message.append("`");
        return Err(error("E_RUNTIME_PARTITION_LAUNCH_ROUTE", message.as_str()));
    }
    if find_last_named(workers, route.producer_worker.as_str()).is_none() {
        let mut message = route_label(index);
        message.append(" references producer worker `");
        message.append(route.producer_worker.as_str());
        message.append("` that is not in the topology");
        return Err(error("E_RUNTIME_PARTITION_LAUNCH_WORKER", message.as_str()));
    }
    if find_last_named(workers, route.consumer_worker.as_str()).is_none() {
        let mut message = route_label(index);
        message.append(" references consumer worker `");
        message.append(route.consumer_worker.as_str());
        message.append("` that is not in the topology");
        return Err(error("E_RUNTIME_PARTITION_LAUNCH_WORKER", message.as_str()));
    }
    Ok(())
}

fn build_launch_route(route: &RuntimePartitionRoute, index: usize) -> (r: RuntimePartitionLaunchRoute)
    ensures
        r.deep_view() == launch_route(route.deep_view(), index as int),
{
    let instance_path = route.instance_path.clone();
    proof {
        assert(instance_path.deep_view() =~= route.instance_path.deep_view());
    }
    RuntimePartitionLaunchRoute {
        route_index: index,
        boundary_index: route.boundary_index,
        signal: route.signal.clone(),
        port_name: route.port_name.clone(),
        instance_path,
        producer_partition: route.producer_partition.clone(),
        producer_worker: route.producer_worker.clone(),
        consumer_partition: route.consumer_partition.clone(),
        consumer_worker: route.consumer_worker.clone(),
        width: route.width,
        bits_per_transfer: route.bits_per_transfer,
    }
}

fn build_launch_routes(routes: &Vec<RuntimePartitionRoute>) -> (r: Vec<RuntimePartitionLaunchRoute>)
    ensures
        r.deep_view() == launch_routes(routes.deep_view()),
{
    let ghost rs = routes.deep_view();
    let ghost g = |r: int| launch_route(rs[r], r);
    build_items(
        routes.len(),
        |i: usize| -> (y: RuntimePartitionLaunchRoute)
            requires i < routes.len(),
            ensures y.deep_view() == g(i as int)
        {
            proof {
                assert(rs[i as int] == routes[i as int].deep_view());
            }
            build_launch_route(&routes[i], i)
        },
        Ghost(g),
    )
}

fn build_route_specs(routes: &Vec<RuntimePartitionLaunchRoute>, indexes: &Vec<usize>) -> (r: Vec<
    RuntimePartitionLaunchRoute,
>)
    requires
        forall|i: int| 0 <= i < indexes@.len() ==> #[trigger] indexes@[i] < routes.len(),
    ensures
        r.deep_view() == route_specs(routes.deep_view(), indexes@),
{
    let ghost rs = routes.deep_view();
    let ghost g = |i: int| rs[indexes@[i] as int];
    build_items(
        indexes.len(),
        |i: usize| -> (y: RuntimePartitionLaunchRoute)
            requires i < indexes.len(), indexes@[i as int] < routes.len(),
            ensures y.deep_view() == g(i as int)
        {
            let index: usize = indexes[i];
            proof {
                assert(rs[index as int] == routes[index as int].deep_view());
            }
            routes[index].clone()
        },
        Ghost(g),
    )
}

fn build_launch_partitions(
    partitions: &Vec<RuntimePartition>,
    workers: &Vec<RuntimeWorker>,
    assignments: &Vec<RuntimePartitionAssignment>,
    worker: &str,
) -> (r: Vec<RuntimePartitionLaunchPartition>)
    requires
        forall|i: int|
            0 <= i < assignments.len() ==> launch_assignment_problem(
                partitions.deep_view(),
                workers.deep_view(),
                #[trigger] assignments.deep_view()[i],
            ) is None,
    ensures
        r.deep_view() == launch_partitions(
            partitions.deep_view(),
            assignments.deep_view(),
            worker@,
        ),
{
    let ghost ps = partitions.deep_view();
    let ghost a = assignments.deep_view();
    let ghost g = |i: int|
        if a[i].worker_id == worker@ {
            Some(launch_partition(ps, a[i]))
        } else {
            None
        };
    gather_items(
        assignments.len(),
        |i: usize| -> (y: Option<RuntimePartitionLaunchPartition>)
            requires
                i < assignments.len(),
                launch_assignment_problem(ps, workers.deep_view(), a[i as int]) is None,
            ensures y.deep_view() == g(i as int)
        {
            let assignment = &assignments[i];
            proof {
                assert(a[i as int] == assignment.deep_view());
            }
            if !same_text(assignment.worker_id.as_str(), worker) {
                return None;
            }
            match find_last_named(partitions, assignment.partition_id.as_str()) {
                None => None,
                Some(k) => {
                    let partition = &partitions[k];
                    let instance_path = partition.instance_path.clone();
                    proof {
                        assert(ps[k as int] == partition.deep_view());
                        assert(instance_path.deep_view() =~= partition.instance_path.deep_view());
                    }
                    Some(
                        RuntimePartitionLaunchPartition {
                            partition_id: assignment.partition_id.clone(),
                            module_name: partition.module_name.clone(),
                            instance_path,
                            external: partition.external,
                            cost: partition.cost,
                        },
                    )
                },
            }
        },
        Ghost(g),
    )
}

fn assigned_cost(assignments: &Vec<RuntimePartitionAssignment>, worker: &str) -> (r:
    RuntimePartitionCost)
    requires
        costs_fit(assigned_costs(assignments.deep_view(), worker@)),
    ensures
        r == costs_sum(assigned_costs(assignments.deep_view(), worker@)),
{
    let ghost a = assignments.deep_view();
    let ghost g = |i: int|
        if a[i].worker_id == worker@ {
            Some(a[i].cost)
        } else {
            None
        };
    let costs: Vec<RuntimePartitionCost> = gather_items(
        assignments.len(),
        |i: usize| -> (y: Option<RuntimePartitionCost>)
            requires i < assignments.len(),
            ensures y.deep_view() == g(i as int)
        {
            proof {
                assert(a[i as int] == assignments[i as int].deep_view());
            }
            if same_text(assignments[i].worker_id.as_str(), worker) {
                Some(assignments[i].cost)
            } else {
                None
            }
        },
        Ghost(g),
    );
    proof {
        assert(costs.deep_view() =~= costs@);
    }
    total_of_costs(&costs)
}

/// The routes of a worker are routes of the plan.
pub proof fn lemma_route_indexes(
    routes: Seq<RuntimePartitionRouteView>,
    worker: Seq<char>,
    r: usize,
)
    requires
        routes.len() <= usize::MAX,
    ensures
        outbound_of(routes, worker).contains(r) <==> r < routes.len()
            && routes[r as int].producer_worker == worker,
        inbound_of(routes, worker).contains(r) <==> r < routes.len()
            && routes[r as int].consumer_worker == worker,
{
    let out = |r: int|
        if routes[r].producer_worker == worker {
            Some(r as usize)
        } else {
            None
        };
    let inb = |r: int|
        if routes[r].consumer_worker == worker {
            Some(r as usize)
        } else {
            None
        };
    lemma_gather_contains(routes.len(), out, r);
    lemma_gather_contains(routes.len(), inb, r);
    if r < routes.len() && routes[r as int].producer_worker == worker {
        assert(out(r as int) == Some(r));
    }
    if r < routes.len() && routes[r as int].consumer_worker == worker {
        assert(inb(r as int) == Some(r));
    }
}

fn build_worker_launch(
    bundle: &RuntimePartitionBundle,
    workers: &Vec<RuntimeWorker>,
    assignments: &Vec<RuntimePartitionAssignment>,
    routes: &Vec<RuntimePartitionLaunchRoute>,
    k: usize,
) -> (r: RuntimePartitionWorkerLaunch)
    requires
        k < workers.len(),
        workers.deep_view() == launch_order(bundle.deep_view()),
        assignments.deep_view() == launch_assignments(bundle.deep_view()),
        routes.deep_view() == launch_routes(bundle.deep_view().communication_plan.routes),
        launch_fits(bundle.deep_view()),
        forall|i: int|
            0 <= i < assignments.len() ==> launch_assignment_problem(
                bundle.deep_view().partition_plan.partitions,
                workers.deep_view(),
                #[trigger] assignments.deep_view()[i],
            ) is None,
    ensures
        r.deep_view() == worker_launch(bundle.deep_view(), k as int),
{
    let ghost b = bundle.deep_view();
    let worker = &workers[k];
    let id = worker.id.as_str();
    let ghost all = b.placement_plan.topology.workers;
    proof {
        let w = workers.deep_view()[k as int];
        assert(w == worker.deep_view());
        lemma_sorted_by_key_contains::<RuntimeWorker, WorkerOrder>(all, w);
        assert(launch_order(b).contains(w));
        let at = choose|at: int| 0 <= at < all.len() && all[at] == w;
        assert(all[at].id == id@);
    }
    let counted = match find_last_named(workers, id) {
        Some(last) => last == k,
        None => false,
    };
    if counted {
        let plan_routes = &bundle.communication_plan.routes;
        let outbound = outbound_routes_of(plan_routes, id);
        let inbound = inbound_routes_of(plan_routes, id);
        proof {
            let rs = b.communication_plan.routes;
            assert(rs.len() == plan_routes.len());
            assert(routes.len() == routes.deep_view().len());
            assert forall|i: int| 0 <= i < outbound@.len() implies #[trigger] outbound@[i]
                < routes.len() by {
                assert(outbound@.contains(outbound@[i]));
                lemma_route_indexes(rs, id@, outbound@[i]);
            }
            assert forall|i: int| 0 <= i < inbound@.len() implies #[trigger] inbound@[i]
                < routes.len() by {
                assert(inbound@.contains(inbound@[i]));
                lemma_route_indexes(rs, id@, inbound@[i]);
            }
        }
        let outbound_route_specs = build_route_specs(routes, &outbound);
        let inbound_route_specs = build_route_specs(routes, &inbound);
        RuntimePartitionWorkerLaunch {
            worker_id: worker.id.clone(),
            backend: worker.backend,
            node: worker.node.clone(),
            partitions: build_launch_partitions(
                &bundle.partition_plan.partitions,
                workers,
                assignments,
                id,
            ),
            outbound_routes: outbound,
            inbound_routes: inbound,
            outbound_route_specs,
            inbound_route_specs,
            cost: assigned_cost(assignments, id),
            outbound_bits: outbound_bits_total(plan_routes, id),
            inbound_bits: inbound_bits_total(plan_routes, id),
        }
    } else {
        let none: Vec<usize> = Vec::new();
        RuntimePartitionWorkerLaunch {
            worker_id: worker.id.clone(),
            backend: worker.backend,
            node: worker.node.clone(),
            partitions: crate::seqs::no_items(),
            outbound_routes: Vec::new(),
            inbound_routes: Vec::new(),
            outbound_route_specs: build_route_specs(routes, &none),
            inbound_route_specs: build_route_specs(routes, &none),
            cost: RuntimePartitionCost::default(),
            outbound_bits: 0,
            inbound_bits: 0,
        }
    }
}

fn runtime_partition_launch_diagnostics(
    bundle: &RuntimePartitionBundle,
    workers: &Vec<RuntimePartitionWorkerLaunch>,
) -> (r: Vec<RuntimePartitionLaunchDiagnostic>)
    ensures
        r.deep_view() == launch_diagnostics(bundle.deep_view().diagnostics, workers.deep_view()),
{
    let ghost ds = bundle.deep_view().diagnostics;
    let ghost ws = workers.deep_view();
    let ghost g = |i: int| carried_diagnostic(ds[i]);
    let mut r = build_items(
        bundle.diagnostics.len(),
        |i: usize| -> (y: RuntimePartitionLaunchDiagnostic)
            requires i < bundle.diagnostics.len(),
            ensures y.deep_view() == g(i as int)
        {
            let d = &bundle.diagnostics[i];
            proof {
                assert(ds[i as int] == d.deep_view());
            }
            RuntimePartitionLaunchDiagnostic {
                source: match d.source {
                    RuntimePartitionBundleSource::Partition => {
                        RuntimePartitionLaunchDiagnosticSource::BundlePartition
                    },
                    RuntimePartitionBundleSource::Placement => {
                        RuntimePartitionLaunchDiagnosticSource::BundlePlacement
                    },
                    RuntimePartitionBundleSource::Communication => {
                        RuntimePartitionLaunchDiagnosticSource::BundleCommunication
                    },
                },
                code: d.code.clone(),
                severity: d.severity,
                message: d.message.clone(),
                worker_id: None,
                partition_id: None,
                route_index: None,
            }
        },
        Ghost(g),
    );
    let ghost h = |k: int| empty_launch_diagnostic(ws[k]);
    let more = gather_items(
        workers.len(),
        |k: usize| -> (y: Option<RuntimePartitionLaunchDiagnostic>)
            requires k < workers.len(),
            ensures y.deep_view() == h(k as int)
        {
            let worker = &workers[k];
            proof {
                assert(ws[k as int] == worker.deep_view());
            }
            if worker.partitions.is_empty() {
                let mut message = "worker `".to_owned();
                message.append(worker.worker_id.as_str());
                message.append("` has no structural partitions assigned in this launch plan");
                Some(
                    RuntimePartitionLaunchDiagnostic {
                        source: RuntimePartitionLaunchDiagnosticSource::Launch,
                        code: "EmptyWorkerLaunch".to_owned(),
                        severity: RuntimePartitionDiagnosticSeverity::Info,
                        message,
                        worker_id: Some(worker.worker_id.clone()),
                        partition_id: None,
                        route_index: None,
                    },
                )
            } else {
                None
            }
        },
        Ghost(h),
    );
    append_items(&mut r, more);
    r
}

/// Plans what every worker of a bundle launches.
pub fn plan_runtime_partition_launch(bundle: &RuntimePartitionBundle) -> (r: Result<
    RuntimePartitionLaunchPlan,
    ErrorReport,
>)
    requires
        launch_problem(bundle.deep_view()) is None ==> launch_fits(bundle.deep_view()),
    ensures
        fails_with(r, launch_problem(bundle.deep_view())),
        r matches Ok(plan) ==> plan.deep_view() == launch_plan(bundle.deep_view()),
{
    validate_partition_launch_bundle(bundle)?;
    let ghost b = bundle.deep_view();
    let topology_workers = bundle.placement_plan.topology.workers.clone();
    let placed = bundle.placement_plan.assignments.clone();
    proof {
        assert(topology_workers.deep_view() =~= b.placement_plan.topology.workers);
        assert(placed.deep_view() =~= b.placement_plan.assignments);
    }
    let workers = sort_by_key::<RuntimeWorker, WorkerOrder>(topology_workers);
    let assignments = sort_by_key::<RuntimePartitionAssignment, AssignmentOrder>(placed);
    let ghost ps = b.partition_plan.partitions;
    let ghost ws = launch_order(b);
    let ghost a = launch_assignments(b);
    let ghost assignment_check = |i: int| launch_assignment_problem(ps, ws, a[i]);
    let partitions = &bundle.partition_plan.partitions;
    check_each(
        assignments.len(),
        |i: usize| -> (y: Result<(), ErrorReport>)
            requires i < assignments.len(),
            ensures fails_with(y, assignment_check(i as int))
        {
            proof {
                assert(a[i as int] == assignments[i as int].deep_view());
            }
            check_launch_assignment(partitions, &workers, &assignments[i])
        },
        Ghost(assignment_check),
    )?;
    let plan_routes = &bundle.communication_plan.routes;
    let plan_assignments = &bundle.placement_plan.assignments;
    let ghost rs = b.communication_plan.routes;
    let ghost pa = b.placement_plan.assignments;
    let ghost route_check = |r: int| launch_route_problem(pa, ws, rs[r], r);
    check_each(
        plan_routes.len(),
        |i: usize| -> (y: Result<(), ErrorReport>)
            requires i < plan_routes.len(),
            ensures fails_with(y, route_check(i as int))
        {
            proof {
                assert(rs[i as int] == plan_routes[i as int].deep_view());
            }
            check_launch_route(plan_assignments, &workers, &plan_routes[i], i)
        },
        Ghost(route_check),
    )?;
    proof {
        lemma_first_problem_none(a.len(), assignment_check);
        assert forall|i: int| 0 <= i < assignments.len() implies launch_assignment_problem(
            ps,
            ws,
            #[trigger] a[i],
        ) is None by {
            assert(assignment_check(i) is None);
        }
    }
    let routes = build_launch_routes(plan_routes);
    let ghost g = |k: int| worker_launch(b, k);
    let launches = build_items(
        workers.len(),
        |k: usize| -> (y: RuntimePartitionWorkerLaunch)
            requires k < workers.len(),
            ensures y.deep_view() == g(k as int)
        {
            build_worker_launch(bundle, &workers, &assignments, &routes, k)
        },
        Ghost(g),
    );
    let diagnostics = runtime_partition_launch_diagnostics(bundle, &launches);
    Ok(
        RuntimePartitionLaunchPlan {
            format_version: RUNTIME_PARTITION_LAUNCH_FORMAT_VERSION,
            module_name: bundle.module_name.clone(),
            workers: launches,
            routes,
            diagnostics,
        },
    )
}

// ---------------------------------------------------------------------------
// Laws
// ---------------------------------------------------------------------------

/// Every launched route is listed by its number at the worker that produces it
/// and at the worker that consumes it, with its full description.
pub proof fn lemma_launched_route_is_listed(bundle: RuntimePartitionBundleView, r: int)
    requires
        launch_problem(bundle) is None,
        bundle.communication_plan.routes.len() <= usize::MAX,
        0 <= r < bundle.communication_plan.routes.len(),
    ensures
        ({
            let route = launch_plan(bundle).routes[r];
            let workers = launch_plan(bundle).workers;
            &&& route.route_index == r
            &&& exists|k: int|
                0 <= k < workers.len() && (#[trigger] workers[k]).worker_id == route.producer_worker
                    && workers[k].outbound_routes.contains(route.route_index)
                    && workers[k].outbound_route_specs.contains(route)
            &&& exists|k: int|
                0 <= k < workers.len() && (#[trigger] workers[k]).worker_id == route.consumer_worker
                    && workers[k].inbound_routes.contains(route.route_index)
                    && workers[k].inbound_route_specs.contains(route)
        }),
{
    let routes = bundle.communication_plan.routes;
    let ws = launch_order(bundle);
    let check = |r: int|
        launch_route_problem(bundle.placement_plan.assignments, ws, routes[r], r);
    lemma_first_problem_none(routes.len(), check);
    assert(check(r) is None);
    let route = launch_plan(bundle).routes[r];
    let workers = launch_plan(bundle).workers;
    lemma_last_named::<RuntimeWorker>(ws, route.producer_worker);
    lemma_last_named::<RuntimeWorker>(ws, route.consumer_worker);
    let p = last_named::<RuntimeWorker>(ws, route.producer_worker)->0;
    let c = last_named::<RuntimeWorker>(ws, route.consumer_worker)->0;
    lemma_route_indexes(routes, route.producer_worker, r as usize);
    lemma_route_indexes(routes, route.consumer_worker, r as usize);
    assert(workers[p].worker_id == route.producer_worker);
    assert(workers[c].worker_id == route.consumer_worker);
    let out = workers[p].outbound_routes;
    let i = choose|i: int| 0 <= i < out.len() && out[i] == r as usize;
    assert(workers[p].outbound_route_specs[i] == route);
    let inb = workers[c].inbound_routes;
    let j = choose|j: int| 0 <= j < inb.len() && inb[j] == r as usize;
    assert(workers[c].inbound_route_specs[j] == route);
}

/// Every assigned partition is launched by the worker that it is assigned to.
pub proof fn lemma_assigned_partition_is_launched(bundle: RuntimePartitionBundleView, i: int)
    requires
        launch_problem(bundle) is None,
        0 <= i < bundle.placement_plan.assignments.len(),
    ensures
        ({
            let assignment = bundle.placement_plan.assignments[i];
            let workers = launch_plan(bundle).workers;
            exists|k: int|
                0 <= k < workers.len() && (#[trigger] workers[k]).worker_id == assignment.worker_id
                    && workers[k].partitions.contains(
                    launch_partition(bundle.partition_plan.partitions, assignment),
                )
        }),
{
    let assignment = bundle.placement_plan.assignments[i];
    let partitions = bundle.partition_plan.partitions;
    let a = launch_assignments(bundle);
    let ws = launch_order(bundle);
    let workers = launch_plan(bundle).workers;
    lemma_sorted_by_key_contains::<RuntimePartitionAssignment, AssignmentOrder>(
        bundle.placement_plan.assignments,
        assignment,
    );
    assert(a.contains(assignment));
    let at = choose|at: int| 0 <= at < a.len() && a[at] == assignment;
    let check = |i: int| launch_assignment_problem(partitions, ws, a[i]);
    lemma_first_problem_none(a.len(), check);
    assert(check(at) is None);
    lemma_last_named::<RuntimeWorker>(ws, assignment.worker_id);
    let k = last_named::<RuntimeWorker>(ws, assignment.worker_id)->0;
    let g = |i: int|
        if a[i].worker_id == assignment.worker_id {
            Some(launch_partition(partitions, a[i]))
        } else {
            None
        };
    assert(g(at) == Some(launch_partition(partitions, assignment)));
    lemma_gather_contains(a.len(), g, launch_partition(partitions, assignment));
    assert(workers[k].worker_id == assignment.worker_id);
}

/// Workers are launched in the order of their ids, as many as the topology has.
pub proof fn lemma_launch_covers_topology(bundle: RuntimePartitionBundleView)
    ensures
        ({
            let workers = launch_plan(bundle).workers;
            let topology = bundle.placement_plan.topology.workers;
            &&& workers.len() == topology.len()
            &&& forall|i: int, j: int|
                0 <= i <= j < workers.len() ==> crate::order::text_le(
                    (#[trigger] workers[i]).worker_id,
                    (#[trigger] workers[j]).worker_id,
                )
            &&& forall|i: int|
                0 <= i < topology.len() ==> exists|k: int|
                    0 <= k < workers.len() && (#[trigger] workers[k]).worker_id == (
                    #[trigger] topology[i]).id
        }),
{
    let workers = launch_plan(bundle).workers;
    let topology = bundle.placement_plan.topology.workers;
    let ws = launch_order(bundle);
    lemma_sorted_by_key::<RuntimeWorker, WorkerOrder>(topology);
    assert forall|i: int, j: int| 0 <= i <= j < workers.len() implies crate::order::text_le(
        (#[trigger] workers[i]).worker_id,
        (#[trigger] workers[j]).worker_id,
    ) by {
        assert(crate::order::key_le::<RuntimeWorker, WorkerOrder>(ws[i], ws[j]));
    }
    assert forall|i: int| 0 <= i < topology.len() implies exists|k: int|
        0 <= k < workers.len() && (#[trigger] workers[k]).worker_id == (#[trigger] topology[i]).id by {
        lemma_sorted_by_key_contains::<RuntimeWorker, WorkerOrder>(topology, topology[i]);
        assert(topology.contains(topology[i]));
        let k = choose|k: int| 0 <= k < ws.len() && ws[k] == topology[i];
        assert(workers[k].worker_id == topology[i].id);
    }
}

} // verus!

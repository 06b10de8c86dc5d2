//! Bundling a partition plan with its placement and its communication.

use vstd::prelude::*;

use crate::collect::{append_items, build_items, check_each};
use crate::communication::assignment_of;
use crate::error::{error, fails_with, report, ErrorReport, ErrorReportView};
use crate::ids::{find_last_named, Named};
use crate::model::communication::{
    RuntimePartitionCommunicationDiagnosticCode, RuntimePartitionCommunicationPlan,
    RuntimePartitionCommunicationPlanView, RuntimePartitionCommunicationRecommendationCode,
    RuntimePartitionRoute, RuntimePartitionRouteView,
};
use crate::model::launch::{
    RuntimePartitionBundle, RuntimePartitionBundleDiagnostic, RuntimePartitionBundleDiagnosticView,
    RuntimePartitionBundleRecommendation, RuntimePartitionBundleRecommendationView,
    RuntimePartitionBundleSource, RuntimePartitionBundleView,
    RUNTIME_PARTITION_BUNDLE_FORMAT_VERSION,
};
use crate::model::partition::{
    RuntimePartitionDiagnosticCode, RuntimePartitionPlan, RuntimePartitionPlanView,
    RuntimePartitionRecommendationCode,
};
use crate::model::placement::{
    RuntimePartitionAssignment, RuntimePartitionAssignmentView,
    RuntimePartitionPlacementDiagnosticCode, RuntimePartitionPlacementPlan,
    RuntimePartitionPlacementPlanView, RuntimePartitionPlacementRecommendationCode,
};
use crate::seqs::{first_problem, or_problem};
use crate::text::{append_decimal, decimal, same_text};
use crate::versions::{
    partition_bundle_version_problem, partition_communication_plan_version_problem,
    partition_placement_plan_version_problem, partition_plan_version_problem,
};

verus! {

// ---------------------------------------------------------------------------
// Names of finding codes
// ---------------------------------------------------------------------------

impl RuntimePartitionDiagnosticCode {
    /// The name of the code.
    pub open spec fn code_name(self) -> Seq<char> {
        match self {
            RuntimePartitionDiagnosticCode::TargetUnderfilled => "TargetUnderfilled"@,
            RuntimePartitionDiagnosticCode::PartitionImbalance => "PartitionImbalance"@,
            RuntimePartitionDiagnosticCode::HighBoundaryCost => "HighBoundaryCost"@,
            RuntimePartitionDiagnosticCode::ExternalModuleOpaque => "ExternalModuleOpaque"@,
            RuntimePartitionDiagnosticCode::EmptyPartition => "EmptyPartition"@,
        }
    }

    /// Gives the name of the code.
    pub fn name(self) -> (r: &'static str)
        ensures
            r@ == self.code_name(),
    {
        match self {
            RuntimePartitionDiagnosticCode::TargetUnderfilled => "TargetUnderfilled",
            RuntimePartitionDiagnosticCode::PartitionImbalance => "PartitionImbalance",
            RuntimePartitionDiagnosticCode::HighBoundaryCost => "HighBoundaryCost",
            RuntimePartitionDiagnosticCode::ExternalModuleOpaque => "ExternalModuleOpaque",
            RuntimePartitionDiagnosticCode::EmptyPartition => "EmptyPartition",
        }
    }
}

impl RuntimePartitionRecommendationCode {
    /// The name of the code.
    pub open spec fn code_name(self) -> Seq<char> {
        match self {
            RuntimePartitionRecommendationCode::IncreaseHierarchy => "IncreaseHierarchy"@,
            RuntimePartitionRecommendationCode::SplitHeavyPartition => "SplitHeavyPartition"@,
            RuntimePartitionRecommendationCode::CoLocateBoundary => "CoLocateBoundary"@,
            RuntimePartitionRecommendationCode::InspectExternalModule => "InspectExternalModule"@,
            RuntimePartitionRecommendationCode::ReduceTargetPartitions => "ReduceTargetPartitions"@,
        }
    }

    /// Gives the name of the code.
    pub fn name(self) -> (r: &'static str)
        ensures
            r@ == self.code_name(),
    {
        match self {
            RuntimePartitionRecommendationCode::IncreaseHierarchy => "IncreaseHierarchy",
            RuntimePartitionRecommendationCode::SplitHeavyPartition => "SplitHeavyPartition",
            RuntimePartitionRecommendationCode::CoLocateBoundary => "CoLocateBoundary",
            RuntimePartitionRecommendationCode::InspectExternalModule => "InspectExternalModule",
            RuntimePartitionRecommendationCode::ReduceTargetPartitions => "ReduceTargetPartitions",
        }
    }
}

impl RuntimePartitionPlacementDiagnosticCode {
    /// The name of the code.
    pub open spec fn code_name(self) -> Seq<char> {
        match self {
            RuntimePartitionPlacementDiagnosticCode::UnderProvisionedWorkers => "UnderProvisionedWorkers"@,
            RuntimePartitionPlacementDiagnosticCode::WorkerImbalance => "WorkerImbalance"@,
            RuntimePartitionPlacementDiagnosticCode::HighCrossWorkerBoundaryTraffic => "HighCrossWorkerBoundaryTraffic"@,
            RuntimePartitionPlacementDiagnosticCode::CpuFallback => "CpuFallback"@,
        }
    }

    /// Gives the name of the code.
    pub fn name(self) -> (r: &'static str)
        ensures
            r@ == self.code_name(),
    {
        match self {
            RuntimePartitionPlacementDiagnosticCode::UnderProvisionedWorkers => "UnderProvisionedWorkers",
            RuntimePartitionPlacementDiagnosticCode::WorkerImbalance => "WorkerImbalance",
            RuntimePartitionPlacementDiagnosticCode::HighCrossWorkerBoundaryTraffic => "HighCrossWorkerBoundaryTraffic",
            RuntimePartitionPlacementDiagnosticCode::CpuFallback => "CpuFallback",
        }
    }
}

impl RuntimePartitionPlacementRecommendationCode {
    /// The name of the code.
    pub open spec fn code_name(self) -> Seq<char> {
        match self {
            RuntimePartitionPlacementRecommendationCode::AddWorkers => "AddWorkers"@,
            RuntimePartitionPlacementRecommendationCode::MovePartition => "MovePartition"@,
            RuntimePartitionPlacementRecommendationCode::CoLocatePartitions => "CoLocatePartitions"@,
            RuntimePartitionPlacementRecommendationCode::AddCpuWorker => "AddCpuWorker"@,
        }
    }

    /// Gives the name of the code.
    pub fn name(self) -> (r: &'static str)
        ensures
            r@ == self.code_name(),
    {
        match self {
            RuntimePartitionPlacementRecommendationCode::AddWorkers => "AddWorkers",
            RuntimePartitionPlacementRecommendationCode::MovePartition => "MovePartition",
            RuntimePartitionPlacementRecommendationCode::CoLocatePartitions => "CoLocatePartitions",
            RuntimePartitionPlacementRecommendationCode::AddCpuWorker => "AddCpuWorker",
        }
    }
}

impl RuntimePartitionCommunicationDiagnosticCode {
    /// The name of the code.
    pub open spec fn code_name(self) -> Seq<char> {
        match self {
            RuntimePartitionCommunicationDiagnosticCode::HighRouteWidth => "HighRouteWidth"@,
            RuntimePartitionCommunicationDiagnosticCode::HighTotalCrossWorkerTraffic => "HighTotalCrossWorkerTraffic"@,
        }
    }

    /// Gives the name of the code.
    pub fn name(self) -> (r: &'static str)
        ensures
            r@ == self.code_name(),
    {
        match self {
            RuntimePartitionCommunicationDiagnosticCode::HighRouteWidth => "HighRouteWidth",
            RuntimePartitionCommunicationDiagnosticCode::HighTotalCrossWorkerTraffic => "HighTotalCrossWorkerTraffic",
        }
    }
}

impl RuntimePartitionCommunicationRecommendationCode {
    /// The name of the code.
    pub open spec fn code_name(self) -> Seq<char> {
        match self {
            RuntimePartitionCommunicationRecommendationCode::CoLocateRoute => "CoLocateRoute"@,
        }
    }

    /// Gives the name of the code.
    pub fn name(self) -> (r: &'static str)
        ensures
            r@ == self.code_name(),
    {
        match self {
            RuntimePartitionCommunicationRecommendationCode::CoLocateRoute => "CoLocateRoute",
        }
    }
}

// ---------------------------------------------------------------------------
// Agreement of the three plans
// ---------------------------------------------------------------------------

pub open spec fn module_mismatch_report(
    module: Seq<char>,
    other: Seq<char>,
    other_module: Seq<char>,
) -> ErrorReportView {
    report(
        "E_RUNTIME_PARTITION_BUNDLE_MODULE"@,
        "partition plan module `"@ + module + "` does not match "@ + other + " module `"@
            + other_module + "`"@,
    )
}

/// All plans of a bundle are of the same module.
pub open spec fn bundle_modules_problem(
    module: Seq<char>,
    placement_module: Seq<char>,
    communication_module: Seq<char>,
) -> Option<ErrorReportView> {
    if module != placement_module {
        Some(module_mismatch_report(module, "placement"@, placement_module))
    } else if module != communication_module {
        Some(module_mismatch_report(module, "communication"@, communication_module))
    } else {
        None
    }
}

/// What is wrong with a route: one of its partitions is not assigned, or not to
/// the worker that the route states.
pub open spec fn bundle_route_problem(
    assignments: Seq<RuntimePartitionAssignmentView>,
    route: RuntimePartitionRouteView,
) -> Option<ErrorReportView> {
    let label = "communication route "@ + decimal(route.boundary_index as nat);
    match assignment_of(assignments, route.producer_partition) {
        None => Some(
            report(
                "E_RUNTIME_PARTITION_BUNDLE_ASSIGNMENT"@,
                label + " references producer partition `"@ + route.producer_partition
                    + "` with no placement assignment"@,
            ),
        ),
        Some(producer) => match assignment_of(assignments, route.consumer_partition) {
            None => Some(
                report(
                    "E_RUNTIME_PARTITION_BUNDLE_ASSIGNMENT"@,
                    label + " references consumer partition `"@ + route.consumer_partition
                        + "` with no placement assignment"@,
                ),
            ),
            Some(consumer) => if producer.worker_id != route.producer_worker || consumer.worker_id
                != route.consumer_worker {
                Some(
                    report(
                        "E_RUNTIME_PARTITION_BUNDLE_ROUTE"@,
                        label + " worker mapping is stale for producer `"@
                            + route.producer_partition + "` or consumer `"@
                            + route.consumer_partition + "`"@,
                    ),
                )
            } else {
                None
            },
        },
    }
}

/// The first route that disagrees with the placement.
pub open spec fn bundle_routes_problem(
    assignments: Seq<RuntimePartitionAssignmentView>,
    routes: Seq<RuntimePartitionRouteView>,
) -> Option<ErrorReportView> {
    first_problem(routes.len(), |i: int| bundle_route_problem(assignments, routes[i]))
}

/// What keeps three plans from being bundled.
pub open spec fn plans_problem(
    plan: RuntimePartitionPlanView,
    placement: RuntimePartitionPlacementPlanView,
    communication: RuntimePartitionCommunicationPlanView,
) -> Option<ErrorReportView> {
    or_problem(
        partition_plan_version_problem(plan.format_version),
        or_problem(
            partition_placement_plan_version_problem(placement.format_version),
            or_problem(
                partition_communication_plan_version_problem(communication.format_version),
                or_problem(
                    bundle_modules_problem(
                        plan.module_name,
                        placement.module_name,
                        communication.module_name,
                    ),
                    bundle_routes_problem(placement.assignments, communication.routes),
                ),
            ),
        ),
    )
}

/// What is wrong with a bundle.
pub open spec fn bundle_problem(bundle: RuntimePartitionBundleView) -> Option<ErrorReportView> {
    or_problem(
        partition_bundle_version_problem(bundle.format_version),
        plans_problem(bundle.partition_plan, bundle.placement_plan, bundle.communication_plan),
    )
}

// ---------------------------------------------------------------------------
// Findings of the three plans
// ---------------------------------------------------------------------------

/// The diagnostics of all plans, in the order partition, placement,
/// communication.
pub open spec fn bundle_diagnostics(
    plan: RuntimePartitionPlanView,
    placement: RuntimePartitionPlacementPlanView,
    communication: RuntimePartitionCommunicationPlanView,
) -> Seq<RuntimePartitionBundleDiagnosticView> {
    Seq::new(
        plan.diagnostics.len(),
        |i: int|
            RuntimePartitionBundleDiagnosticView {
                source: RuntimePartitionBundleSource::Partition,
                code: plan.diagnostics[i].code.code_name(),
                severity: plan.diagnostics[i].severity,
                message: plan.diagnostics[i].message,
            },
    ) + Seq::new(
        placement.diagnostics.len(),
        |i: int|
            RuntimePartitionBundleDiagnosticView {
                source: RuntimePartitionBundleSource::Placement,
                code: placement.diagnostics[i].code.code_name(),
                severity: placement.diagnostics[i].severity,
                message: placement.diagnostics[i].message,
            },
    ) + Seq::new(
        communication.diagnostics.len(),
        |i: int|
            RuntimePartitionBundleDiagnosticView {
                source: RuntimePartitionBundleSource::Communication,
                code: communication.diagnostics[i].code.code_name(),
                severity: communication.diagnostics[i].severity,
                message: communication.diagnostics[i].message,
            },
    )
}

/// The recommendations of all plans, in the same order.
pub open spec fn bundle_recommendations(
    plan: RuntimePartitionPlanView,
    placement: RuntimePartitionPlacementPlanView,
    communication: RuntimePartitionCommunicationPlanView,
) -> Seq<RuntimePartitionBundleRecommendationView> {
    Seq::new(
        plan.recommendations.len(),
        |i: int|
            RuntimePartitionBundleRecommendationView {
                source: RuntimePartitionBundleSource::Partition,
                code: plan.recommendations[i].code.code_name(),
                message: plan.recommendations[i].message,
            },
    ) + Seq::new(
        placement.recommendations.len(),
        |i: int|
            RuntimePartitionBundleRecommendationView {
                source: RuntimePartitionBundleSource::Placement,
                code: placement.recommendations[i].code.code_name(),
                message: placement.recommendations[i].message,
            },
    ) + Seq::new(
        communication.recommendations.len(),
        |i: int|
            RuntimePartitionBundleRecommendationView {
                source: RuntimePartitionBundleSource::Communication,
                code: communication.recommendations[i].code.code_name(),
                message: communication.recommendations[i].message,
            },
    )
}

/// The bundle of three plans that agree.
pub open spec fn bundle_of(
    plan: RuntimePartitionPlanView,
    placement: RuntimePartitionPlacementPlanView,
    communication: RuntimePartitionCommunicationPlanView,
) -> RuntimePartitionBundleView {
    RuntimePartitionBundleView {
        format_version: RUNTIME_PARTITION_BUNDLE_FORMAT_VERSION,
        module_name: plan.module_name,
        partition_plan: plan,
        placement_plan: placement,
        communication_plan: communication,
        diagnostics: bundle_diagnostics(plan, placement, communication),
        recommendations: bundle_recommendations(plan, placement, communication),
    }
}

fn module_mismatch(module: &str, other: &str, other_module: &str) -> (r: ErrorReport)
    ensures
        r.deep_view() == module_mismatch_report(module@, other@, other_module@),
{
    let mut message = "partition plan module `".to_owned();
    message.append(module);
    message.append("` does not match ");
    message.append(other);
    message.append(" module `");
    message.append(other_module);
    message.append("`");
    error("E_RUNTIME_PARTITION_BUNDLE_MODULE", message.as_str())
}

pub(crate) fn validate_partition_bundle_modules(
    plan: &RuntimePartitionPlan,
    placement: &RuntimePartitionPlacementPlan,
    communication: &RuntimePartitionCommunicationPlan,
) -> (r: Result<(), ErrorReport>)
    ensures
        fails_with(
            r,
            bundle_modules_problem(
                plan.module_name@,
                placement.module_name@,
                communication.module_name@,
            ),
        ),
{
    if !same_text(plan.module_name.as_str(), placement.module_name.as_str()) {
        return Err(
            module_mismatch(
                plan.module_name.as_str(),
                "placement",
                placement.module_name.as_str(),
            ),
        );
    }
    if !same_text(plan.module_name.as_str(), communication.module_name.as_str()) {
        return Err(
            module_mismatch(
                plan.module_name.as_str(),
                "communication",
                communication.module_name.as_str(),
            ),
        );
    }
    Ok(())
}

pub(crate) fn route_label(index: usize) -> (r: String)
    ensures
        r@ == "communication route "@ + decimal(index as nat),
{
    let mut label = "communication route ".to_owned();
    append_decimal(&mut label, index as u64);
    label
}

fn check_bundle_route(
    assignments: &Vec<RuntimePartitionAssignment>,
    route: &RuntimePartitionRoute,
) -> (r: Result<(), ErrorReport>)
    ensures
        fails_with(r, bundle_route_problem(assignments.deep_view(), route.deep_view())),
{
    let ghost all = assignments.deep_view();
    let producer = match find_last_named(assignments, route.producer_partition.as_str()) {
        Some(k) => k,
        None => {
            let mut message = route_label(route.boundary_index);
            message.append(" references producer partition `");
            message.append(route.producer_partition.as_str());
            message.append("` with no placement assignment");
            return Err(error("E_RUNTIME_PARTITION_BUNDLE_ASSIGNMENT", message.as_str()));
        },
    };
    let consumer = match find_last_named(assignments, route.consumer_partition.as_str()) {
        Some(k) => k,
        None => {
            let mut message = route_label(route.boundary_index);
            message.append(" references consumer partition `");
            message.append(route.consumer_partition.as_str());
            message.append("` with no placement assignment");
            return Err(error("E_RUNTIME_PARTITION_BUNDLE_ASSIGNMENT", message.as_str()));
        },
    };
    proof {
        assert(all[producer as int] == assignments[producer as int].deep_view());
        assert(all[consumer as int] == assignments[consumer as int].deep_view());
    }
    if !same_text(assignments[producer].worker_id.as_str(), route.producer_worker.as_str())
        || !same_text(assignments[consumer].worker_id.as_str(), route.consumer_worker.as_str()) {
        let mut message = route_label(route.boundary_index);
        message.append(" worker mapping is stale for producer `");
        message.append(route.producer_partition.as_str());
        message.append("` or consumer `");
        message.append(route.consumer_partition.as_str());
        message.append("`");
        return Err(error("E_RUNTIME_PARTITION_BUNDLE_ROUTE", message.as_str()));
    }
    Ok(())
}

fn validate_partition_bundle_routes(
    placement: &RuntimePartitionPlacementPlan,
    communication: &RuntimePartitionCommunicationPlan,
) -> (r: Result<(), ErrorReport>)
    ensures
        fails_with(
            r,
            bundle_routes_problem(
                placement.deep_view().assignments,
                communication.deep_view().routes,
            ),
        ),
{
    let ghost a = placement.deep_view().assignments;
    let ghost rs = communication.deep_view().routes;
    let ghost g = |i: int| bundle_route_problem(a, rs[i]);
    check_each(
        communication.routes.len(),
        |i: usize| -> (y: Result<(), ErrorReport>)
            requires i < communication.routes.len(),
            ensures fails_with(y, g(i as int))
        {
            proof {
                assert(rs[i as int] == communication.routes[i as int].deep_view());
            }
            check_bundle_route(&placement.assignments, &communication.routes[i])
        },
        Ghost(g),
    )
}

fn validate_plans(
    plan: &RuntimePartitionPlan,
    placement: &RuntimePartitionPlacementPlan,
    communication: &RuntimePartitionCommunicationPlan,
) -> (r: Result<(), ErrorReport>)
    ensures
        fails_with(
            r,
            plans_problem(plan.deep_view(), placement.deep_view(), communication.deep_view()),
        ),
{
    plan.validate_format_version()?;
    placement.validate_format_version()?;
    communication.validate_format_version()?;
    validate_partition_bundle_modules(plan, placement, communication)?;
    validate_partition_bundle_routes(placement, communication)
}

fn runtime_partition_bundle_diagnostics(
    plan: &RuntimePartitionPlan,
    placement: &RuntimePartitionPlacementPlan,
    communication: &RuntimePartitionCommunicationPlan,
) -> (r: Vec<RuntimePartitionBundleDiagnostic>)
    ensures
        r.deep_view() == bundle_diagnostics(
            plan.deep_view(),
            placement.deep_view(),
            communication.deep_view(),
        ),
{
    let ghost s0 = plan.deep_view().diagnostics;
    let ghost g0 = |i: int|
        RuntimePartitionBundleDiagnosticView {
            source: RuntimePartitionBundleSource::Partition,
            code: s0[i].code.code_name(),
            severity: s0[i].severity,
            message: s0[i].message,
        };
    let mut r = build_items(
        plan.diagnostics.len(),
        |i: usize| -> (y: RuntimePartitionBundleDiagnostic)
            requires i < plan.diagnostics.len(),
            ensures y.deep_view() == g0(i as int)
        {
            proof {
                assert(s0[i as int] == plan.diagnostics[i as int].deep_view());
            }
            RuntimePartitionBundleDiagnostic {
                source: RuntimePartitionBundleSource::Partition,
                code: plan.diagnostics[i].code.name().to_owned(),
                severity: plan.diagnostics[i].severity,
                message: plan.diagnostics[i].message.clone(),
            }
        },
        Ghost(g0),
    );
    let ghost s1 = placement.deep_view().diagnostics;
    let ghost g1 = |i: int|
        RuntimePartitionBundleDiagnosticView {
            source: RuntimePartitionBundleSource::Placement,
            code: s1[i].code.code_name(),
            severity: s1[i].severity,
            message: s1[i].message,
        };
    let more = build_items(
        placement.diagnostics.len(),
        |i: usize| -> (y: RuntimePartitionBundleDiagnostic)
            requires i < placement.diagnostics.len(),
            ensures y.deep_view() == g1(i as int)
        {
            proof {
                assert(s1[i as int] == placement.diagnostics[i as int].deep_view());
            }
            RuntimePartitionBundleDiagnostic {
                source: RuntimePartitionBundleSource::Placement,
                code: placement.diagnostics[i].code.name().to_owned(),
                severity: placement.diagnostics[i].severity,
                message: placement.diagnostics[i].message.clone(),
            }
        },
        Ghost(g1),
    );
    append_items(&mut r, more);
    let ghost s2 = communication.deep_view().diagnostics;
    let ghost g2 = |i: int|
        RuntimePartitionBundleDiagnosticView {
            source: RuntimePartitionBundleSource::Communication,
            code: s2[i].code.code_name(),
            severity: s2[i].severity,
            message: s2[i].message,
        };
    let more = build_items(
        communication.diagnostics.len(),
        |i: usize| -> (y: RuntimePartitionBundleDiagnostic)
            requires i < communication.diagnostics.len(),
            ensures y.deep_view() == g2(i as int)
        {
            proof {
                assert(s2[i as int] == communication.diagnostics[i as int].deep_view());
            }
            RuntimePartitionBundleDiagnostic {
                source: RuntimePartitionBundleSource::Communication,
                code: communication.diagnostics[i].code.name().to_owned(),
                severity: communication.diagnostics[i].severity,
                message: communication.diagnostics[i].message.clone(),
            }
        },
        Ghost(g2),
    );
    append_items(&mut r, more);
    r
}

fn runtime_partition_bundle_recommendations(
    plan: &RuntimePartitionPlan,
    placement: &RuntimePartitionPlacementPlan,
    communication: &RuntimePartitionCommunicationPlan,
) -> (r: Vec<RuntimePartitionBundleRecommendation>)
    ensures
        r.deep_view() == bundle_recommendations(
            plan.deep_view(),
            placement.deep_view(),
            communication.deep_view(),
        ),
{
    let ghost s0 = plan.deep_view().recommendations;
    let ghost g0 = |i: int|
        RuntimePartitionBundleRecommendationView {
            source: RuntimePartitionBundleSource::Partition,
            code: s0[i].code.code_name(),
            message: s0[i].message,
        };
    let mut r = build_items(
        plan.recommendations.len(),
        |i: usize| -> (y: RuntimePartitionBundleRecommendation)
            requires i < plan.recommendations.len(),
            ensures y.deep_view() == g0(i as int)
        {
            proof {
                assert(s0[i as int] == plan.recommendations[i as int].deep_view());
            }
            RuntimePartitionBundleRecommendation {
                source: RuntimePartitionBundleSource::Partition,
                code: plan.recommendations[i].code.name().to_owned(),
                message: plan.recommendations[i].message.clone(),
            }
        },
        Ghost(g0),
    );
    let ghost s1 = placement.deep_view().recommendations;
    let ghost g1 = |i: int|
        RuntimePartitionBundleRecommendationView {
            source: RuntimePartitionBundleSource::Placement,
            code: s1[i].code.code_name(),
            message: s1[i].message,
        };
    let more = build_items(
        placement.recommendations.len(),
        |i: usize| -> (y: RuntimePartitionBundleRecommendation)
            requires i < placement.recommendations.len(),
            ensures y.deep_view() == g1(i as int)
        {
            proof {
                assert(s1[i as int] == placement.recommendations[i as int].deep_view());
            }
            RuntimePartitionBundleRecommendation {
                source: RuntimePartitionBundleSource::Placement,
                code: placement.recommendations[i].code.name().to_owned(),
                message: placement.recommendations[i].message.clone(),
            }
        },
        Ghost(g1),
    );
    append_items(&mut r, more);
    let ghost s2 = communication.deep_view().recommendations;
    let ghost g2 = |i: int|
        RuntimePartitionBundleRecommendationView {
            source: RuntimePartitionBundleSource::Communication,
            code: s2[i].code.code_name(),
            message: s2[i].message,
        };
    let more = build_items(
        communication.recommendations.len(),
        |i: usize| -> (y: RuntimePartitionBundleRecommendation)
            requires i < communication.recommendations.len(),
            ensures y.deep_view() == g2(i as int)
        {
            proof {
                assert(s2[i as int] == communication.recommendations[i as int].deep_view());
            }
            RuntimePartitionBundleRecommendation {
                source: RuntimePartitionBundleSource::Communication,
                code: communication.recommendations[i].code.name().to_owned(),
                message: communication.recommendations[i].message.clone(),
            }
        },
        Ghost(g2),
    );
    append_items(&mut r, more);
    r
}

impl RuntimePartitionBundle {
    /// Bundles three plans.
    pub fn from_plans(
        partition_plan: RuntimePartitionPlan,
        placement_plan: RuntimePartitionPlacementPlan,
        communication_plan: RuntimePartitionCommunicationPlan,
    ) -> (r: Result<Self, ErrorReport>)
        ensures
            fails_with(
                r,
                plans_problem(
                    partition_plan.deep_view(),
                    placement_plan.deep_view(),
                    communication_plan.deep_view(),
                ),
            ),
            r matches Ok(b) ==> b.deep_view() == bundle_of(
                partition_plan.deep_view(),
                placement_plan.deep_view(),
                communication_plan.deep_view(),
            ),
    {
        validate_plans(&partition_plan, &placement_plan, &communication_plan)?;
        let diagnostics = runtime_partition_bundle_diagnostics(
            &partition_plan,
            &placement_plan,
            &communication_plan,
        );
        let recommendations = runtime_partition_bundle_recommendations(
            &partition_plan,
            &placement_plan,
            &communication_plan,
        );
        let module_name = partition_plan.module_name.clone();
        Ok(
            RuntimePartitionBundle {
                format_version: RUNTIME_PARTITION_BUNDLE_FORMAT_VERSION,
                module_name,
                partition_plan,
                placement_plan,
                communication_plan,
                diagnostics,
                recommendations,
            },
        )
    }

    /// Checks a bundle before it is written and after it was read.
    pub fn validate(&self) -> (r: Result<(), ErrorReport>)
        ensures
            fails_with(r, bundle_problem(self.deep_view())),
    {
        self.validate_format_version()?;
        validate_plans(&self.partition_plan, &self.placement_plan, &self.communication_plan)
    }
}

// ---------------------------------------------------------------------------
// Laws
// ---------------------------------------------------------------------------

/// Plans that can be bundled give a bundle without a problem, which holds them unchanged.
pub proof fn lemma_bundles_are_valid(
    plan: RuntimePartitionPlanView,
    placement: RuntimePartitionPlacementPlanView,
    communication: RuntimePartitionCommunicationPlanView,
)
    requires
        plans_problem(plan, placement, communication) is None,
    ensures
        ({
            let bundle = bundle_of(plan, placement, communication);
            &&& bundle_problem(bundle) is None
            &&& bundle.partition_plan == plan
            &&& bundle.placement_plan == placement
            &&& bundle.communication_plan == communication
            &&& bundle.module_name == plan.module_name
            &&& bundle.module_name == placement.module_name
            &&& bundle.module_name == communication.module_name
        }),
{
}

/// A valid bundle in which one version is changed is refused, with the code of the part whose
/// version it is.
pub proof fn lemma_changed_versions_are_refused(bundle: RuntimePartitionBundleView, version: u32)
    requires
        bundle_problem(bundle) is None,
    ensures
        version != bundle.format_version ==> {
            let changed = RuntimePartitionBundleView { format_version: version, ..bundle };
            &&& bundle_problem(changed) is Some
            &&& bundle_problem(changed)->0.diagnostics[0].code
                == "E_RUNTIME_PARTITION_BUNDLE_VERSION"@
        },
        version != bundle.partition_plan.format_version ==> {
            let changed = RuntimePartitionBundleView {
                partition_plan: RuntimePartitionPlanView {
                    format_version: version,
                    ..bundle.partition_plan
                },
                ..bundle
            };
            &&& bundle_problem(changed) is Some
            &&& bundle_problem(changed)->0.diagnostics[0].code
                == "E_RUNTIME_PARTITION_PLAN_VERSION"@
        },
        version != bundle.placement_plan.format_version ==> {
            let changed = RuntimePartitionBundleView {
                placement_plan: RuntimePartitionPlacementPlanView {
                    format_version: version,
                    ..bundle.placement_plan
                },
                ..bundle
            };
            &&& bundle_problem(changed) is Some
            &&& bundle_problem(changed)->0.diagnostics[0].code
                == "E_RUNTIME_PARTITION_PLACEMENT_VERSION"@
        },
        version != bundle.communication_plan.format_version ==> {
            let changed = RuntimePartitionBundleView {
                communication_plan: RuntimePartitionCommunicationPlanView {
                    format_version: version,
                    ..bundle.communication_plan
                },
                ..bundle
            };
            &&& bundle_problem(changed) is Some
            &&& bundle_problem(changed)->0.diagnostics[0].code
                == "E_RUNTIME_PARTITION_COMMUNICATION_VERSION"@
        },
{
}

} // verus!

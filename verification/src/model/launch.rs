//! Plan bundles and launch plans.

use vstd::prelude::*;

use crate::model::communication::{
    RuntimePartitionCommunicationPlan, RuntimePartitionCommunicationPlanView,
};
use crate::model::design::Width;
use crate::model::partition::{
    RuntimePartitionCost, RuntimePartitionDiagnosticSeverity, RuntimePartitionPlan,
    RuntimePartitionPlanView, RuntimePartitionSignalRef, RuntimePartitionSignalRefView,
};
use crate::model::placement::{RuntimePartitionPlacementPlan, RuntimePartitionPlacementPlanView};
use crate::model::topology::RuntimeBackend;

verus! {

/// Format version of plan bundles.
pub const RUNTIME_PARTITION_BUNDLE_FORMAT_VERSION: u32 = 1;

/// Format version of launch plans.
pub const RUNTIME_PARTITION_LAUNCH_FORMAT_VERSION: u32 = 1;

/// Which plan of a bundle a finding comes from.
#[derive(Clone, Copy, Debug, PartialEq, Eq, Structural)]
pub enum RuntimePartitionBundleSource {
    Partition,
    Placement,
    Communication,
}

impl DeepView for RuntimePartitionBundleSource {
    type V = RuntimePartitionBundleSource;

    open spec fn deep_view(&self) -> RuntimePartitionBundleSource {
        *self
    }
}

/// A diagnostic of one of the plans of a bundle.
#[derive(Debug, PartialEq, Eq)]
pub struct RuntimePartitionBundleDiagnostic {
    pub source: RuntimePartitionBundleSource,
    pub code: String,
    pub severity: RuntimePartitionDiagnosticSeverity,
    pub message: String,
}

/// The model of [`RuntimePartitionBundleDiagnostic`].
#[verifier::ext_equal]
pub struct RuntimePartitionBundleDiagnosticView {
    pub source: RuntimePartitionBundleSource,
    pub code: Seq<char>,
    pub severity: RuntimePartitionDiagnosticSeverity,
    pub message: Seq<char>,
}

impl DeepView for RuntimePartitionBundleDiagnostic {
    type V = RuntimePartitionBundleDiagnosticView;

    open spec fn deep_view(&self) -> RuntimePartitionBundleDiagnosticView {
        RuntimePartitionBundleDiagnosticView {
            source: self.source,
            code: self.code@,
            severity: self.severity,
            message: self.message@,
        }
    }
}

impl Clone for RuntimePartitionBundleDiagnostic {
    fn clone(&self) -> (r: Self)
        ensures
            r.deep_view() == self.deep_view(),
    {
        RuntimePartitionBundleDiagnostic {
            source: self.source,
            code: self.code.clone(),
            severity: self.severity,
            message: self.message.clone(),
        }
    }
}

/// A recommendation of one of the plans of a bundle.
#[derive(Debug, PartialEq, Eq)]
pub struct RuntimePartitionBundleRecommendation {
    pub source: RuntimePartitionBundleSource,
    pub code: String,
    pub message: String,
}

/// The model of [`RuntimePartitionBundleRecommendation`].
#[verifier::ext_equal]
pub struct RuntimePartitionBundleRecommendationView {
    pub source: RuntimePartitionBundleSource,
    pub code: Seq<char>,
    pub message: Seq<char>,
}

impl DeepView for RuntimePartitionBundleRecommendation {
    type V = RuntimePartitionBundleRecommendationView;

    open spec fn deep_view(&self) -> RuntimePartitionBundleRecommendationView {
        RuntimePartitionBundleRecommendationView {
            source: self.source,
            code: self.code@,
            message: self.message@,
        }
    }
}

impl Clone for RuntimePartitionBundleRecommendation {
    fn clone(&self) -> (r: Self)
        ensures
            r.deep_view() == self.deep_view(),
    {
        RuntimePartitionBundleRecommendation {
            source: self.source,
            code: self.code.clone(),
            message: self.message.clone(),
        }
    }
}

/// A partition plan with its placement and its communication.
#[derive(Debug, PartialEq, Eq)]
pub struct RuntimePartitionBundle {
    pub format_version: u32,
    pub module_name: String,
    pub partition_plan: RuntimePartitionPlan,
    pub placement_plan: RuntimePartitionPlacementPlan,
    pub communication_plan: RuntimePartitionCommunicationPlan,
    pub diagnostics: Vec<RuntimePartitionBundleDiagnostic>,
    pub recommendations: Vec<RuntimePartitionBundleRecommendation>,
}

/// The model of [`RuntimePartitionBundle`].
#[verifier::ext_equal]
pub struct RuntimePartitionBundleView {
    pub format_version: u32,
    pub module_name: Seq<char>,
    pub partition_plan: RuntimePartitionPlanView,
    pub placement_plan: RuntimePartitionPlacementPlanView,
    pub communication_plan: RuntimePartitionCommunicationPlanView,
    pub diagnostics: Seq<RuntimePartitionBundleDiagnosticView>,
    pub recommendations: Seq<RuntimePartitionBundleRecommendationView>,
}

impl DeepView for RuntimePartitionBundle {
    type V = RuntimePartitionBundleView;

    open spec fn deep_view(&self) -> RuntimePartitionBundleView {
        RuntimePartitionBundleView {
            format_version: self.format_version,
            module_name: self.module_name@,
            partition_plan: self.partition_plan.deep_view(),
            placement_plan: self.placement_plan.deep_view(),
            communication_plan: self.communication_plan.deep_view(),
            diagnostics: self.diagnostics.deep_view(),
            recommendations: self.recommendations.deep_view(),
        }
    }
}

impl Clone for RuntimePartitionBundle {
    fn clone(&self) -> (r: Self)
        ensures
            r.deep_view() == self.deep_view(),
    {
        let r = RuntimePartitionBundle {
            format_version: self.format_version,
            module_name: self.module_name.clone(),
            partition_plan: self.partition_plan.clone(),
            placement_plan: self.placement_plan.clone(),
            communication_plan: self.communication_plan.clone(),
            diagnostics: self.diagnostics.clone(),
            recommendations: self.recommendations.clone(),
        };
        proof {
            assert(r.diagnostics.deep_view() =~= self.diagnostics.deep_view());
            assert(r.recommendations.deep_view() =~= self.recommendations.deep_view());
        }
        r
    }
}

/// A partition as a worker launches it.
#[derive(Debug, PartialEq, Eq)]
pub struct RuntimePartitionLaunchPartition {
    pub partition_id: String,
    pub module_name: String,
    pub instance_path: Vec<String>,
    pub external: bool,
    pub cost: RuntimePartitionCost,
}

/// The model of [`RuntimePartitionLaunchPartition`].
#[verifier::ext_equal]
pub struct RuntimePartitionLaunchPartitionView {
    pub partition_id: Seq<char>,
    pub module_name: Seq<char>,
    pub instance_path: Seq<Seq<char>>,
    pub external: bool,
    pub cost: RuntimePartitionCost,
}

impl DeepView for RuntimePartitionLaunchPartition {
    type V = RuntimePartitionLaunchPartitionView;

    open spec fn deep_view(&self) -> RuntimePartitionLaunchPartitionView {
        RuntimePartitionLaunchPartitionView {
            partition_id: self.partition_id@,
            module_name: self.module_name@,
            instance_path: self.instance_path.deep_view(),
            external: self.external,
            cost: self.cost,
        }
    }
}

impl Clone for RuntimePartitionLaunchPartition {
    fn clone(&self) -> (r: Self)
        ensures
            r.deep_view() == self.deep_view(),
    {
        let r = RuntimePartitionLaunchPartition {
            partition_id: self.partition_id.clone(),
            module_name: self.module_name.clone(),
            instance_path: self.instance_path.clone(),
            external: self.external,
            cost: self.cost,
        };
        proof {
            assert(r.instance_path.deep_view() =~= self.instance_path.deep_view());
        }
        r
    }
}

/// A route as the workers launch it.
#[derive(Debug, PartialEq, Eq)]
pub struct RuntimePartitionLaunchRoute {
    pub route_index: usize,
    pub boundary_index: usize,
    pub signal: RuntimePartitionSignalRef,
    pub port_name: String,
    pub instance_path: Vec<String>,
    pub producer_partition: String,
    pub producer_worker: String,
    pub consumer_partition: String,
    pub consumer_worker: String,
    pub width: Width,
    pub bits_per_transfer: u64,
}

/// The model of [`RuntimePartitionLaunchRoute`].
#[verifier::ext_equal]
pub struct RuntimePartitionLaunchRouteView {
    pub route_index: usize,
    pub boundary_index: usize,
    pub signal: RuntimePartitionSignalRefView,
    pub port_name: Seq<char>,
    pub instance_path: Seq<Seq<char>>,
    pub producer_partition: Seq<char>,
    pub producer_worker: Seq<char>,
    pub consumer_partition: Seq<char>,
    pub consumer_worker: Seq<char>,
    pub width: Width,
    pub bits_per_transfer: u64,
}

impl DeepView for RuntimePartitionLaunchRoute {
    type V = RuntimePartitionLaunchRouteView;

    open spec fn deep_view(&self) -> RuntimePartitionLaunchRouteView {
        RuntimePartitionLaunchRouteView {
            route_index: self.route_index,
            boundary_index: self.boundary_index,
            signal: self.signal.deep_view(),
            port_name: self.port_name@,
            instance_path: self.instance_path.deep_view(),
            producer_partition: self.producer_partition@,
            producer_worker: self.producer_worker@,
            consumer_partition: self.consumer_partition@,
            consumer_worker: self.consumer_worker@,
            width: self.width,
            bits_per_transfer: self.bits_per_transfer,
        }
    }
}

impl Clone for RuntimePartitionLaunchRoute {
    fn clone(&self) -> (r: Self)
        ensures
            r.deep_view() == self.deep_view(),
    {
        let r = RuntimePartitionLaunchRoute {
            route_index: self.route_index,
            boundary_index: self.boundary_index,
            signal: self.signal.clone(),
            port_name: self.port_name.clone(),
            instance_path: self.instance_path.clone(),
            producer_partition: self.producer_partition.clone(),
            producer_worker: self.producer_worker.clone(),
            consumer_partition: self.consumer_partition.clone(),
            consumer_worker: self.consumer_worker.clone(),
            width: self.width,
            bits_per_transfer: self.bits_per_transfer,
        };
        proof {
            assert(r.instance_path.deep_view() =~= self.instance_path.deep_view());
        }
        r
    }
}

/// Everything that one worker launches.
#[derive(Debug, PartialEq, Eq)]
pub struct RuntimePartitionWorkerLaunch {
    pub worker_id: String,
    pub backend: RuntimeBackend,
    pub node: String,
    pub partitions: Vec<RuntimePartitionLaunchPartition>,
    pub outbound_routes: Vec<usize>,
    pub inbound_routes: Vec<usize>,
    pub outbound_route_specs: Vec<RuntimePartitionLaunchRoute>,
    pub inbound_route_specs: Vec<RuntimePartitionLaunchRoute>,
    pub cost: RuntimePartitionCost,
    pub outbound_bits: u64,
    pub inbound_bits: u64,
}

/// The model of [`RuntimePartitionWorkerLaunch`].
#[verifier::ext_equal]
pub struct RuntimePartitionWorkerLaunchView {
    pub worker_id: Seq<char>,
    pub backend: RuntimeBackend,
    pub node: Seq<char>,
    pub partitions: Seq<RuntimePartitionLaunchPartitionView>,
    pub outbound_routes: Seq<usize>,
    pub inbound_routes: Seq<usize>,
    pub outbound_route_specs: Seq<RuntimePartitionLaunchRouteView>,
    pub inbound_route_specs: Seq<RuntimePartitionLaunchRouteView>,
    pub cost: RuntimePartitionCost,
    pub outbound_bits: u64,
    pub inbound_bits: u64,
}

impl DeepView for RuntimePartitionWorkerLaunch {
    type V = RuntimePartitionWorkerLaunchView;

    open spec fn deep_view(&self) -> RuntimePartitionWorkerLaunchView {
        RuntimePartitionWorkerLaunchView {
            worker_id: self.worker_id@,
            backend: self.backend,
            node: self.node@,
            partitions: self.partitions.deep_view(),
            outbound_routes: self.outbound_routes@,
            inbound_routes: self.inbound_routes@,
            outbound_route_specs: self.outbound_route_specs.deep_view(),
            inbound_route_specs: self.inbound_route_specs.deep_view(),
            cost: self.cost,
            outbound_bits: self.outbound_bits,
            inbound_bits: self.inbound_bits,
        }
    }
}

impl Clone for RuntimePartitionWorkerLaunch {
    fn clone(&self) -> (r: Self)
        ensures
            r.deep_view() == self.deep_view(),
    {
        let r = RuntimePartitionWorkerLaunch {
            worker_id: self.worker_id.clone(),
            backend: self.backend,
            node: self.node.clone(),
            partitions: self.partitions.clone(),
            outbound_routes: self.outbound_routes.clone(),
            inbound_routes: self.inbound_routes.clone(),
            outbound_route_specs: self.outbound_route_specs.clone(),
            inbound_route_specs: self.inbound_route_specs.clone(),
            cost: self.cost,
            outbound_bits: self.outbound_bits,
            inbound_bits: self.inbound_bits,
        };
        proof {
            assert(r.partitions.deep_view() =~= self.partitions.deep_view());
            assert(r.outbound_routes@ =~= self.outbound_routes@);
            assert(r.inbound_routes@ =~= self.inbound_routes@);
            assert(r.outbound_route_specs.deep_view() =~= self.outbound_route_specs.deep_view());
            assert(r.inbound_route_specs.deep_view() =~= self.inbound_route_specs.deep_view());
        }
        r
    }
}

/// Where a launch diagnostic comes from.
#[derive(Clone, Copy, Debug, PartialEq, Eq, Structural)]
pub enum RuntimePartitionLaunchDiagnosticSource {
    BundlePartition,
    BundlePlacement,
    BundleCommunication,
    Launch,
}

impl DeepView for RuntimePartitionLaunchDiagnosticSource {
    type V = RuntimePartitionLaunchDiagnosticSource;

    open spec fn deep_view(&self) -> RuntimePartitionLaunchDiagnosticSource {
        *self
    }
}

/// A diagnostic of a launch plan.
#[derive(Debug, PartialEq, Eq)]
pub struct RuntimePartitionLaunchDiagnostic {
    pub source: RuntimePartitionLaunchDiagnosticSource,
    pub code: String,
    pub severity: RuntimePartitionDiagnosticSeverity,
    pub message: String,
    pub worker_id: Option<String>,
    pub partition_id: Option<String>,
    pub route_index: Option<usize>,
}

/// The model of [`RuntimePartitionLaunchDiagnostic`].
#[verifier::ext_equal]
pub struct RuntimePartitionLaunchDiagnosticView {
    pub source: RuntimePartitionLaunchDiagnosticSource,
    pub code: Seq<char>,
    pub severity: RuntimePartitionDiagnosticSeverity,
    pub message: Seq<char>,
    pub worker_id: Option<Seq<char>>,
    pub partition_id: Option<Seq<char>>,
    pub route_index: Option<usize>,
}

impl DeepView for RuntimePartitionLaunchDiagnostic {
    type V = RuntimePartitionLaunchDiagnosticView;

    open spec fn deep_view(&self) -> RuntimePartitionLaunchDiagnosticView {
        RuntimePartitionLaunchDiagnosticView {
            source: self.source,
            code: self.code@,
            severity: self.severity,
            message: self.message@,
            worker_id: self.worker_id.deep_view(),
            partition_id: self.partition_id.deep_view(),
            route_index: self.route_index,
        }
    }
}

impl Clone for RuntimePartitionLaunchDiagnostic {
    fn clone(&self) -> (r: Self)
        ensures
            r.deep_view() == self.deep_view(),
    {
        let r = RuntimePartitionLaunchDiagnostic {
            source: self.source,
            code: self.code.clone(),
            severity: self.severity,
            message: self.message.clone(),
            worker_id: self.worker_id.clone(),
            partition_id: self.partition_id.clone(),
            route_index: self.route_index,
        };
        proof {
            assert(r.worker_id.deep_view() =~= self.worker_id.deep_view());
            assert(r.partition_id.deep_view() =~= self.partition_id.deep_view());
        }
        r
    }
}

/// What all workers launch.
#[derive(Debug, PartialEq, Eq)]
pub struct RuntimePartitionLaunchPlan {
    pub format_version: u32,
    pub module_name: String,
    pub workers: Vec<RuntimePartitionWorkerLaunch>,
    pub routes: Vec<RuntimePartitionLaunchRoute>,
    pub diagnostics: Vec<RuntimePartitionLaunchDiagnostic>,
}

/// The model of [`RuntimePartitionLaunchPlan`].
#[verifier::ext_equal]
pub struct RuntimePartitionLaunchPlanView {
    pub format_version: u32,
    pub module_name: Seq<char>,
    pub workers: Seq<RuntimePartitionWorkerLaunchView>,
    pub routes: Seq<RuntimePartitionLaunchRouteView>,
    pub diagnostics: Seq<RuntimePartitionLaunchDiagnosticView>,
}

impl DeepView for RuntimePartitionLaunchPlan {
    type V = RuntimePartitionLaunchPlanView;

    open spec fn deep_view(&self) -> RuntimePartitionLaunchPlanView {
        RuntimePartitionLaunchPlanView {
            format_version: self.format_version,
            module_name: self.module_name@,
            workers: self.workers.deep_view(),
            routes: self.routes.deep_view(),
            diagnostics: self.diagnostics.deep_view(),
        }
    }
}

impl Clone for RuntimePartitionLaunchPlan {
    fn clone(&self) -> (r: Self)
        ensures
            r.deep_view() == self.deep_view(),
    {
        let r = RuntimePartitionLaunchPlan {
            format_version: self.format_version,
            module_name: self.module_name.clone(),
            workers: self.workers.clone(),
            routes: self.routes.clone(),
            diagnostics: self.diagnostics.clone(),
        };
        proof {
            assert(r.workers.deep_view() =~= self.workers.deep_view());
            assert(r.routes.deep_view() =~= self.routes.deep_view());
            assert(r.diagnostics.deep_view() =~= self.diagnostics.deep_view());
        }
        r
    }
}

} // verus!

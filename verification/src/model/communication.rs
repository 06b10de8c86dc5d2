//! Communication plans: which values move between which workers.

use vstd::prelude::*;

use crate::model::design::Width;
use crate::model::partition::{
    RuntimePartitionDiagnosticSeverity, RuntimePartitionSignalRef, RuntimePartitionSignalRefView,
};

verus! {

/// Format version of communication plans.
pub const RUNTIME_PARTITION_COMMUNICATION_FORMAT_VERSION: u32 = 1;

/// A boundary value that moves between two workers.
#[derive(Debug, PartialEq, Eq)]
pub struct RuntimePartitionRoute {
    pub boundary_index: usize,
    pub signal: RuntimePartitionSignalRef,
    pub port_name: String,
    pub instance_path: Vec<String>,
    pub producer_partition: String,
    pub producer_worker: String,
    pub consumer_partition: String,
    pub consumer_worker: String,
    pub width: Width,
    pub bits_per_transfer: u64,
}

/// The model of [`RuntimePartitionRoute`].
#[verifier::ext_equal]
pub struct RuntimePartitionRouteView {
    pub boundary_index: usize,
    pub signal: RuntimePartitionSignalRefView,
    pub port_name: Seq<char>,
    pub instance_path: Seq<Seq<char>>,
    pub producer_partition: Seq<char>,
    pub producer_worker: Seq<char>,
    pub consumer_partition: Seq<char>,
    pub consumer_worker: Seq<char>,
    pub width: Width,
    pub bits_per_transfer: u64,
}

impl DeepView for RuntimePartitionRoute {
    type V = RuntimePartitionRouteView;

    open spec fn deep_view(&self) -> RuntimePartitionRouteView {
        RuntimePartitionRouteView {
            boundary_index: self.boundary_index,
            signal: self.signal.deep_view(),
            port_name: self.port_name@,
            instance_path: self.instance_path.deep_view(),
            producer_partition: self.producer_partition@,
            producer_worker: self.producer_worker@,
            consumer_partition: self.consumer_partition@,
            consumer_worker: self.consumer_worker@,
            width: self.width,
            bits_per_transfer: self.bits_per_transfer,
        }
    }
}

impl Clone for RuntimePartitionRoute {
    fn clone(&self) -> (r: Self)
        ensures
            r.deep_view() == self.deep_view(),
    {
        let r = RuntimePartitionRoute {
            boundary_index: self.boundary_index,
            signal: self.signal.clone(),
            port_name: self.port_name.clone(),
            instance_path: self.instance_path.clone(),
            producer_partition: self.producer_partition.clone(),
            producer_worker: self.producer_worker.clone(),
            consumer_partition: self.consumer_partition.clone(),
            consumer_worker: self.consumer_worker.clone(),
            width: self.width,
            bits_per_transfer: self.bits_per_transfer,
        };
        proof {
            assert(r.instance_path.deep_view() =~= self.instance_path.deep_view());
        }
        r
    }
}

/// The routes that leave and reach one worker.
#[derive(Debug, PartialEq, Eq)]
pub struct RuntimePartitionCommunicationWorkerSummary {
    pub worker_id: String,
    pub outbound_routes: Vec<usize>,
    pub inbound_routes: Vec<usize>,
    pub outbound_bits: u64,
    pub inbound_bits: u64,
}

/// The model of [`RuntimePartitionCommunicationWorkerSummary`].
#[verifier::ext_equal]
pub struct RuntimePartitionCommunicationWorkerSummaryView {
    pub worker_id: Seq<char>,
    pub outbound_routes: Seq<usize>,
    pub inbound_routes: Seq<usize>,
    pub outbound_bits: u64,
    pub inbound_bits: u64,
}

impl DeepView for RuntimePartitionCommunicationWorkerSummary {
    type V = RuntimePartitionCommunicationWorkerSummaryView;

    open spec fn deep_view(&self) -> RuntimePartitionCommunicationWorkerSummaryView {
        RuntimePartitionCommunicationWorkerSummaryView {
            worker_id: self.worker_id@,
            outbound_routes: self.outbound_routes@,
            inbound_routes: self.inbound_routes@,
            outbound_bits: self.outbound_bits,
            inbound_bits: self.inbound_bits,
        }
    }
}

impl Clone for RuntimePartitionCommunicationWorkerSummary {
    fn clone(&self) -> (r: Self)
        ensures
            r.deep_view() == self.deep_view(),
    {
        let r = RuntimePartitionCommunicationWorkerSummary {
            worker_id: self.worker_id.clone(),
            outbound_routes: self.outbound_routes.clone(),
            inbound_routes: self.inbound_routes.clone(),
            outbound_bits: self.outbound_bits,
            inbound_bits: self.inbound_bits,
        };
        proof {
            assert(r.outbound_routes@ =~= self.outbound_routes@);
            assert(r.inbound_routes@ =~= self.inbound_routes@);
        }
        r
    }
}

/// What a communication diagnostic reports.
#[derive(Clone, Copy, Debug, PartialEq, Eq, Structural)]
pub enum RuntimePartitionCommunicationDiagnosticCode {
    HighRouteWidth,
    HighTotalCrossWorkerTraffic,
}

impl DeepView for RuntimePartitionCommunicationDiagnosticCode {
    type V = RuntimePartitionCommunicationDiagnosticCode;

    open spec fn deep_view(&self) -> RuntimePartitionCommunicationDiagnosticCode {
        *self
    }
}

/// A diagnostic of the communication planner.
#[derive(Debug, PartialEq, Eq)]
pub struct RuntimePartitionCommunicationDiagnostic {
    pub code: RuntimePartitionCommunicationDiagnosticCode,
    pub severity: RuntimePartitionDiagnosticSeverity,
    pub message: String,
    pub worker_id: Option<String>,
    pub partition_id: Option<String>,
    pub boundary_index: Option<usize>,
    pub route_index: Option<usize>,
}

/// The model of [`RuntimePartitionCommunicationDiagnostic`].
#[verifier::ext_equal]
pub struct RuntimePartitionCommunicationDiagnosticView {
    pub code: RuntimePartitionCommunicationDiagnosticCode,
    pub severity: RuntimePartitionDiagnosticSeverity,
    pub message: Seq<char>,
    pub worker_id: Option<Seq<char>>,
    pub partition_id: Option<Seq<char>>,
    pub boundary_index: Option<usize>,
    pub route_index: Option<usize>,
}

impl DeepView for RuntimePartitionCommunicationDiagnostic {
    type V = RuntimePartitionCommunicationDiagnosticView;

    open spec fn deep_view(&self) -> RuntimePartitionCommunicationDiagnosticView {
        RuntimePartitionCommunicationDiagnosticView {
            code: self.code,
            severity: self.severity,
            message: self.message@,
            worker_id: self.worker_id.deep_view(),
            partition_id: self.partition_id.deep_view(),
            boundary_index: self.boundary_index,
            route_index: self.route_index,
        }
    }
}

impl Clone for RuntimePartitionCommunicationDiagnostic {
    fn clone(&self) -> (r: Self)
        ensures
            r.deep_view() == self.deep_view(),
    {
        let r = RuntimePartitionCommunicationDiagnostic {
            code: self.code,
            severity: self.severity,
            message: self.message.clone(),
            worker_id: self.worker_id.clone(),
            partition_id: self.partition_id.clone(),
            boundary_index: self.boundary_index,
            route_index: self.route_index,
        };
        proof {
            assert(r.worker_id.deep_view() =~= self.worker_id.deep_view());
            assert(r.partition_id.deep_view() =~= self.partition_id.deep_view());
        }
        r
    }
}

/// What a communication recommendation suggests.
#[derive(Clone, Copy, Debug, PartialEq, Eq, Structural)]
pub enum RuntimePartitionCommunicationRecommendationCode {
    CoLocateRoute,
}

impl DeepView for RuntimePartitionCommunicationRecommendationCode {
    type V = RuntimePartitionCommunicationRecommendationCode;

    open spec fn deep_view(&self) -> RuntimePartitionCommunicationRecommendationCode {
        *self
    }
}

/// A recommendation of the communication planner.
#[derive(Debug, PartialEq, Eq)]
pub struct RuntimePartitionCommunicationRecommendation {
    pub code: RuntimePartitionCommunicationRecommendationCode,
    pub message: String,
    pub worker_id: Option<String>,
    pub partition_id: Option<String>,
    pub boundary_index: Option<usize>,
    pub route_index: Option<usize>,
}

/// The model of [`RuntimePartitionCommunicationRecommendation`].
#[verifier::ext_equal]
pub struct RuntimePartitionCommunicationRecommendationView {
    pub code: RuntimePartitionCommunicationRecommendationCode,
    pub message: Seq<char>,
    pub worker_id: Option<Seq<char>>,
    pub partition_id: Option<Seq<char>>,
    pub boundary_index: Option<usize>,
    pub route_index: Option<usize>,
}

impl DeepView for RuntimePartitionCommunicationRecommendation {
    type V = RuntimePartitionCommunicationRecommendationView;

    open spec fn deep_view(&self) -> RuntimePartitionCommunicationRecommendationView {
        RuntimePartitionCommunicationRecommendationView {
            code: self.code,
            message: self.message@,
            worker_id: self.worker_id.deep_view(),
            partition_id: self.partition_id.deep_view(),
            boundary_index: self.boundary_index,
            route_index: self.route_index,
        }
    }
}

impl Clone for RuntimePartitionCommunicationRecommendation {
    fn clone(&self) -> (r: Self)
        ensures
            r.deep_view() == self.deep_view(),
    {
        let r = RuntimePartitionCommunicationRecommendation {
            code: self.code,
            message: self.message.clone(),
            worker_id: self.worker_id.clone(),
            partition_id: self.partition_id.clone(),
            boundary_index: self.boundary_index,
            route_index: self.route_index,
        };
        proof {
            assert(r.worker_id.deep_view() =~= self.worker_id.deep_view());
            assert(r.partition_id.deep_view() =~= self.partition_id.deep_view());
        }
        r
    }
}

/// All routes between workers, in boundary order.
#[derive(Debug, PartialEq, Eq)]
pub struct RuntimePartitionCommunicationPlan {
    pub format_version: u32,
    pub module_name: String,
    pub routes: Vec<RuntimePartitionRoute>,
    pub worker_summaries: Vec<RuntimePartitionCommunicationWorkerSummary>,
    pub total_cross_worker_boundary_bits: u64,
    pub diagnostics: Vec<RuntimePartitionCommunicationDiagnostic>,
    pub recommendations: Vec<RuntimePartitionCommunicationRecommendation>,
}

/// The model of [`RuntimePartitionCommunicationPlan`].
#[verifier::ext_equal]
pub struct RuntimePartitionCommunicationPlanView {
    pub format_version: u32,
    pub module_name: Seq<char>,
    pub routes: Seq<RuntimePartitionRouteView>,
    pub worker_summaries: Seq<RuntimePartitionCommunicationWorkerSummaryView>,
    pub total_cross_worker_boundary_bits: u64,
    pub diagnostics: Seq<RuntimePartitionCommunicationDiagnosticView>,
    pub recommendations: Seq<RuntimePartitionCommunicationRecommendationView>,
}

impl DeepView for RuntimePartitionCommunicationPlan {
    type V = RuntimePartitionCommunicationPlanView;

    open spec fn deep_view(&self) -> RuntimePartitionCommunicationPlanView {
        RuntimePartitionCommunicationPlanView {
            format_version: self.format_version,
            module_name: self.module_name@,
            routes: self.routes.deep_view(),
            worker_summaries: self.worker_summaries.deep_view(),
            total_cross_worker_boundary_bits: self.total_cross_worker_boundary_bits,
            diagnostics: self.diagnostics.deep_view(),
            recommendations: self.recommendations.deep_view(),
        }
    }
}

impl Clone for RuntimePartitionCommunicationPlan {
    fn clone(&self) -> (r: Self)
        ensures
            r.deep_view() == self.deep_view(),
    {
        let r = RuntimePartitionCommunicationPlan {
            format_version: self.format_version,
            module_name: self.module_name.clone(),
            routes: self.routes.clone(),
            worker_summaries: self.worker_summaries.clone(),
            total_cross_worker_boundary_bits: self.total_cross_worker_boundary_bits,
            diagnostics: self.diagnostics.clone(),
            recommendations: self.recommendations.clone(),
        };
        proof {
            assert(r.routes.deep_view() =~= self.routes.deep_view());
            assert(r.worker_summaries.deep_view() =~= self.worker_summaries.deep_view());
            assert(r.diagnostics.deep_view() =~= self.diagnostics.deep_view());
            assert(r.recommendations.deep_view() =~= self.recommendations.deep_view());
        }
        r
    }
}

} // verus!

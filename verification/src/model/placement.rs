//! Placement plans: which worker simulates which partition.

use vstd::prelude::*;

use crate::model::partition::{RuntimePartitionCost, RuntimePartitionDiagnosticSeverity};
use crate::model::topology::{RuntimeBackend, RuntimeTopology, RuntimeTopologyView};

verus! {

/// Format version of placement plans.
pub const RUNTIME_PARTITION_PLACEMENT_FORMAT_VERSION: u32 = 1;

/// The worker that a partition runs on.
#[derive(Debug, PartialEq, Eq)]
pub struct RuntimePartitionAssignment {
    pub partition_id: String,
    pub worker_id: String,
    pub backend: RuntimeBackend,
    pub node: String,
    pub instance_path: Vec<String>,
    pub cost: RuntimePartitionCost,
}

/// The model of [`RuntimePartitionAssignment`].
#[verifier::ext_equal]
pub struct RuntimePartitionAssignmentView {
    pub partition_id: Seq<char>,
    pub worker_id: Seq<char>,
    pub backend: RuntimeBackend,
    pub node: Seq<char>,
    pub instance_path: Seq<Seq<char>>,
    pub cost: RuntimePartitionCost,
}

impl DeepView for RuntimePartitionAssignment {
    type V = RuntimePartitionAssignmentView;

    open spec fn deep_view(&self) -> RuntimePartitionAssignmentView {
        RuntimePartitionAssignmentView {
            partition_id: self.partition_id@,
            worker_id: self.worker_id@,
            backend: self.backend,
            node: self.node@,
            instance_path: self.instance_path.deep_view(),
            cost: self.cost,
        }
    }
}

impl Clone for RuntimePartitionAssignment {
    fn clone(&self) -> (r: Self)
        ensures
            r.deep_view() == self.deep_view(),
    {
        let r = RuntimePartitionAssignment {
            partition_id: self.partition_id.clone(),
            worker_id: self.worker_id.clone(),
            backend: self.backend,
            node: self.node.clone(),
            instance_path: self.instance_path.clone(),
            cost: self.cost,
        };
        proof {
            assert(r.instance_path.deep_view() =~= self.instance_path.deep_view());
        }
        r
    }
}

/// What one worker is loaded with.
#[derive(Debug, PartialEq, Eq)]
pub struct RuntimePartitionWorkerSummary {
    pub worker_id: String,
    pub backend: RuntimeBackend,
    pub node: String,
    pub partitions: Vec<String>,
    pub cost: RuntimePartitionCost,
    pub inbound_boundary_bits: u64,
    pub outbound_boundary_bits: u64,
}

/// The model of [`RuntimePartitionWorkerSummary`].
#[verifier::ext_equal]
pub struct RuntimePartitionWorkerSummaryView {
    pub worker_id: Seq<char>,
    pub backend: RuntimeBackend,
    pub node: Seq<char>,
    pub partitions: Seq<Seq<char>>,
    pub cost: RuntimePartitionCost,
    pub inbound_boundary_bits: u64,
    pub outbound_boundary_bits: u64,
}

impl DeepView for RuntimePartitionWorkerSummary {
    type V = RuntimePartitionWorkerSummaryView;

    open spec fn deep_view(&self) -> RuntimePartitionWorkerSummaryView {
        RuntimePartitionWorkerSummaryView {
            worker_id: self.worker_id@,
            backend: self.backend,
            node: self.node@,
            partitions: self.partitions.deep_view(),
            cost: self.cost,
            inbound_boundary_bits: self.inbound_boundary_bits,
            outbound_boundary_bits: self.outbound_boundary_bits,
        }
    }
}

impl Clone for RuntimePartitionWorkerSummary {
    fn clone(&self) -> (r: Self)
        ensures
            r.deep_view() == self.deep_view(),
    {
        let r = RuntimePartitionWorkerSummary {
            worker_id: self.worker_id.clone(),
            backend: self.backend,
            node: self.node.clone(),
            partitions: self.partitions.clone(),
            cost: self.cost,
            inbound_boundary_bits: self.inbound_boundary_bits,
            outbound_boundary_bits: self.outbound_boundary_bits,
        };
        proof {
            assert(r.partitions.deep_view() =~= self.partitions.deep_view());
        }
        r
    }
}

/// What a placement diagnostic reports.
#[derive(Clone, Copy, Debug, PartialEq, Eq, Structural)]
pub enum RuntimePartitionPlacementDiagnosticCode {
    UnderProvisionedWorkers,
    WorkerImbalance,
    HighCrossWorkerBoundaryTraffic,
    CpuFallback,
}

impl DeepView for RuntimePartitionPlacementDiagnosticCode {
    type V = RuntimePartitionPlacementDiagnosticCode;

    open spec fn deep_view(&self) -> RuntimePartitionPlacementDiagnosticCode {
        *self
    }
}

/// A diagnostic of the placement planner.
#[derive(Debug, PartialEq, Eq)]
pub struct RuntimePartitionPlacementDiagnostic {
    pub code: RuntimePartitionPlacementDiagnosticCode,
    pub severity: RuntimePartitionDiagnosticSeverity,
    pub message: String,
    pub worker_id: Option<String>,
    pub partition_id: Option<String>,
    pub boundary_index: Option<usize>,
}

/// The model of [`RuntimePartitionPlacementDiagnostic`].
#[verifier::ext_equal]
pub struct RuntimePartitionPlacementDiagnosticView {
    pub code: RuntimePartitionPlacementDiagnosticCode,
    pub severity: RuntimePartitionDiagnosticSeverity,
    pub message: Seq<char>,
    pub worker_id: Option<Seq<char>>,
    pub partition_id: Option<Seq<char>>,
    pub boundary_index: Option<usize>,
}

impl DeepView for RuntimePartitionPlacementDiagnostic {
    type V = RuntimePartitionPlacementDiagnosticView;

    open spec fn deep_view(&self) -> RuntimePartitionPlacementDiagnosticView {
        RuntimePartitionPlacementDiagnosticView {
            code: self.code,
            severity: self.severity,
            message: self.message@,
            worker_id: self.worker_id.deep_view(),
            partition_id: self.partition_id.deep_view(),
            boundary_index: self.boundary_index,
        }
    }
}

impl Clone for RuntimePartitionPlacementDiagnostic {
    fn clone(&self) -> (r: Self)
        ensures
            r.deep_view() == self.deep_view(),
    {
        let r = RuntimePartitionPlacementDiagnostic {
            code: self.code,
            severity: self.severity,
            message: self.message.clone(),
            worker_id: self.worker_id.clone(),
            partition_id: self.partition_id.clone(),
            boundary_index: self.boundary_index,
        };
        proof {
            assert(r.worker_id.deep_view() =~= self.worker_id.deep_view());
            assert(r.partition_id.deep_view() =~= self.partition_id.deep_view());
        }
        r
    }
}

/// What a placement recommendation suggests.
#[derive(Clone, Copy, Debug, PartialEq, Eq, Structural)]
pub enum RuntimePartitionPlacementRecommendationCode {
    AddWorkers,
    MovePartition,
    CoLocatePartitions,
    AddCpuWorker,
}

impl DeepView for RuntimePartitionPlacementRecommendationCode {
    type V = RuntimePartitionPlacementRecommendationCode;

    open spec fn deep_view(&self) -> RuntimePartitionPlacementRecommendationCode {
        *self
    }
}

/// A recommendation of the placement planner.
#[derive(Debug, PartialEq, Eq)]
pub struct RuntimePartitionPlacementRecommendation {
    pub code: RuntimePartitionPlacementRecommendationCode,
    pub message: String,
    pub worker_id: Option<String>,
    pub partition_id: Option<String>,
    pub boundary_index: Option<usize>,
}

/// The model of [`RuntimePartitionPlacementRecommendation`].
#[verifier::ext_equal]
pub struct RuntimePartitionPlacementRecommendationView {
    pub code: RuntimePartitionPlacementRecommendationCode,
    pub message: Seq<char>,
    pub worker_id: Option<Seq<char>>,
    pub partition_id: Option<Seq<char>>,
    pub boundary_index: Option<usize>,
}

impl DeepView for RuntimePartitionPlacementRecommendation {
    type V = RuntimePartitionPlacementRecommendationView;

    open spec fn deep_view(&self) -> RuntimePartitionPlacementRecommendationView {
        RuntimePartitionPlacementRecommendationView {
            code: self.code,
            message: self.message@,
            worker_id: self.worker_id.deep_view(),
            partition_id: self.partition_id.deep_view(),
            boundary_index: self.boundary_index,
        }
    }
}

impl Clone for RuntimePartitionPlacementRecommendation {
    fn clone(&self) -> (r: Self)
        ensures
            r.deep_view() == self.deep_view(),
    {
        let r = RuntimePartitionPlacementRecommendation {
            code: self.code,
            message: self.message.clone(),
            worker_id: self.worker_id.clone(),
            partition_id: self.partition_id.clone(),
            boundary_index: self.boundary_index,
        };
        proof {
            assert(r.worker_id.deep_view() =~= self.worker_id.deep_view());
            assert(r.partition_id.deep_view() =~= self.partition_id.deep_view());
        }
        r
    }
}

/// A placement of all partitions of a plan onto the workers of a topology.
#[derive(Debug, PartialEq, Eq)]
pub struct RuntimePartitionPlacementPlan {
    pub format_version: u32,
    pub module_name: String,
    pub topology: RuntimeTopology,
    pub assignments: Vec<RuntimePartitionAssignment>,
    pub worker_summaries: Vec<RuntimePartitionWorkerSummary>,
    pub total_cost: RuntimePartitionCost,
    pub diagnostics: Vec<RuntimePartitionPlacementDiagnostic>,
    pub recommendations: Vec<RuntimePartitionPlacementRecommendation>,
}

/// The model of [`RuntimePartitionPlacementPlan`].
#[verifier::ext_equal]
pub struct RuntimePartitionPlacementPlanView {
    pub format_version: u32,
    pub module_name: Seq<char>,
    pub topology: RuntimeTopologyView,
    pub assignments: Seq<RuntimePartitionAssignmentView>,
    pub worker_summaries: Seq<RuntimePartitionWorkerSummaryView>,
    pub total_cost: RuntimePartitionCost,
    pub diagnostics: Seq<RuntimePartitionPlacementDiagnosticView>,
    pub recommendations: Seq<RuntimePartitionPlacementRecommendationView>,
}

impl DeepView for RuntimePartitionPlacementPlan {
    type V = RuntimePartitionPlacementPlanView;

    open spec fn deep_view(&self) -> RuntimePartitionPlacementPlanView {
        RuntimePartitionPlacementPlanView {
            format_version: self.format_version,
            module_name: self.module_name@,
            topology: self.topology.deep_view(),
            assignments: self.assignments.deep_view(),
            worker_summaries: self.worker_summaries.deep_view(),
            total_cost: self.total_cost,
            diagnostics: self.diagnostics.deep_view(),
            recommendations: self.recommendations.deep_view(),
        }
    }
}

impl Clone for RuntimePartitionPlacementPlan {
    fn clone(&self) -> (r: Self)
        ensures
            r.deep_view() == self.deep_view(),
    {
        let r = RuntimePartitionPlacementPlan {
            format_version: self.format_version,
            module_name: self.module_name.clone(),
            topology: self.topology.clone(),
            assignments: self.assignments.clone(),
            worker_summaries: self.worker_summaries.clone(),
            total_cost: self.total_cost,
            diagnostics: self.diagnostics.clone(),
            recommendations: self.recommendations.clone(),
        };
        proof {
            assert(r.assignments.deep_view() =~= self.assignments.deep_view());
            assert(r.worker_summaries.deep_view() =~= self.worker_summaries.deep_view());
            assert(r.diagnostics.deep_view() =~= self.diagnostics.deep_view());
            assert(r.recommendations.deep_view() =~= self.recommendations.deep_view());
        }
        r
    }
}

} // verus!

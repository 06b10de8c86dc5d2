//! Partition plans and their legal coarsening.

use vstd::prelude::*;

use crate::model::design::{Signal, Width};

verus! {

/// Format version of partition plans.
pub const RUNTIME_PARTITION_PLAN_FORMAT_VERSION: u32 = 1;

/// What the partition planner aims for.
#[derive(Clone, Copy, Debug, PartialEq, Eq, Structural)]
pub struct RuntimePartitionConfig {
    pub target_partitions: usize,
}

impl DeepView for RuntimePartitionConfig {
    type V = RuntimePartitionConfig;

    open spec fn deep_view(&self) -> RuntimePartitionConfig {
        *self
    }
}

/// What a signal of a partition is.
#[derive(Clone, Copy, Debug, PartialEq, Eq, Structural)]
pub enum RuntimePartitionSignalKind {
    Input,
    Output,
    Inout,
    Wire,
    Register,
    Memory,
}

impl DeepView for RuntimePartitionSignalKind {
    type V = RuntimePartitionSignalKind;

    open spec fn deep_view(&self) -> RuntimePartitionSignalKind {
        *self
    }
}

/// Cost of a partition, a boundary or a whole plan.
#[derive(Clone, Copy, Debug, PartialEq, Eq, Structural)]
pub struct RuntimePartitionCost {
    pub compute_ops: u64,
    pub state_bits: u64,
    pub memory_bits: u64,
    pub boundary_bits: u64,
}

impl DeepView for RuntimePartitionCost {
    type V = RuntimePartitionCost;

    open spec fn deep_view(&self) -> RuntimePartitionCost {
        *self
    }
}

/// A signal that a partition holds or that crosses a boundary.
#[derive(Debug, PartialEq, Eq)]
pub struct RuntimePartitionSignalRef {
    pub module_name: String,
    pub signal_name: String,
    pub signal: Signal,
    pub width: Width,
    pub kind: RuntimePartitionSignalKind,
}

/// The model of [`RuntimePartitionSignalRef`].
#[verifier::ext_equal]
pub struct RuntimePartitionSignalRefView {
    pub module_name: Seq<char>,
    pub signal_name: Seq<char>,
    pub signal: Signal,
    pub width: Width,
    pub kind: RuntimePartitionSignalKind,
}

impl DeepView for RuntimePartitionSignalRef {
    type V = RuntimePartitionSignalRefView;

    open spec fn deep_view(&self) -> RuntimePartitionSignalRefView {
        RuntimePartitionSignalRefView {
            module_name: self.module_name@,
            signal_name: self.signal_name@,
            signal: self.signal,
            width: self.width,
            kind: self.kind,
        }
    }
}

impl Clone for RuntimePartitionSignalRef {
    fn clone(&self) -> (r: Self)
        ensures
            r.deep_view() == self.deep_view(),
    {
        RuntimePartitionSignalRef {
            module_name: self.module_name.clone(),
            signal_name: self.signal_name.clone(),
            signal: self.signal,
            width: self.width,
            kind: self.kind,
        }
    }
}

/// A part of the design that is simulated as a unit.
#[derive(Debug, PartialEq, Eq)]
pub struct RuntimePartition {
    pub id: String,
    pub module_name: String,
    pub instance_path: Vec<String>,
    pub external: bool,
    pub signals: Vec<RuntimePartitionSignalRef>,
    pub cost: RuntimePartitionCost,
}

/// The model of [`RuntimePartition`].
#[verifier::ext_equal]
pub struct RuntimePartitionView {
    pub id: Seq<char>,
    pub module_name: Seq<char>,
    pub instance_path: Seq<Seq<char>>,
    pub external: bool,
    pub signals: Seq<RuntimePartitionSignalRefView>,
    pub cost: RuntimePartitionCost,
}

impl DeepView for RuntimePartition {
    type V = RuntimePartitionView;

    open spec fn deep_view(&self) -> RuntimePartitionView {
        RuntimePartitionView {
            id: self.id@,
            module_name: self.module_name@,
            instance_path: self.instance_path.deep_view(),
            external: self.external,
            signals: self.signals.deep_view(),
            cost: self.cost,
        }
    }
}

impl Clone for RuntimePartition {
    fn clone(&self) -> (r: Self)
        ensures
            r.deep_view() == self.deep_view(),
    {
        let r = RuntimePartition {
            id: self.id.clone(),
            module_name: self.module_name.clone(),
            instance_path: self.instance_path.clone(),
            external: self.external,
            signals: self.signals.clone(),
            cost: self.cost,
        };
        proof {
            assert(r.instance_path.deep_view() =~= self.instance_path.deep_view());
            assert(r.signals.deep_view() =~= self.signals.deep_view());
        }
        r
    }
}

/// A signal that crosses from one partition into others.
#[derive(Debug, PartialEq, Eq)]
pub struct RuntimePartitionBoundarySignal {
    pub signal: RuntimePartitionSignalRef,
    pub instance_path: Vec<String>,
    pub port_name: String,
    pub producer_partition: Option<String>,
    pub consumer_partitions: Vec<String>,
    pub width: Width,
    pub cost: RuntimePartitionCost,
}

/// The model of [`RuntimePartitionBoundarySignal`].
#[verifier::ext_equal]
pub struct RuntimePartitionBoundarySignalView {
    pub signal: RuntimePartitionSignalRefView,
    pub instance_path: Seq<Seq<char>>,
    pub port_name: Seq<char>,
    pub producer_partition: Option<Seq<char>>,
    pub consumer_partitions: Seq<Seq<char>>,
    pub width: Width,
    pub cost: RuntimePartitionCost,
}

impl DeepView for RuntimePartitionBoundarySignal {
    type V = RuntimePartitionBoundarySignalView;

    open spec fn deep_view(&self) -> RuntimePartitionBoundarySignalView {
        RuntimePartitionBoundarySignalView {
            signal: self.signal.deep_view(),
            instance_path: self.instance_path.deep_view(),
            port_name: self.port_name@,
            producer_partition: self.producer_partition.deep_view(),
            consumer_partitions: self.consumer_partitions.deep_view(),
            width: self.width,
            cost: self.cost,
        }
    }
}

impl Clone for RuntimePartitionBoundarySignal {
    fn clone(&self) -> (r: Self)
        ensures
            r.deep_view() == self.deep_view(),
    {
        let r = RuntimePartitionBoundarySignal {
            signal: self.signal.clone(),
            instance_path: self.instance_path.clone(),
            port_name: self.port_name.clone(),
            producer_partition: self.producer_partition.clone(),
            consumer_partitions: self.consumer_partitions.clone(),
            width: self.width,
            cost: self.cost,
        };
        proof {
            assert(r.instance_path.deep_view() =~= self.instance_path.deep_view());
            assert(r.producer_partition.deep_view() =~= self.producer_partition.deep_view());
            assert(r.consumer_partitions.deep_view() =~= self.consumer_partitions.deep_view());
        }
        r
    }
}

/// Severity of a planning diagnostic.
#[derive(Clone, Copy, Debug, PartialEq, Eq, Structural)]
pub enum RuntimePartitionDiagnosticSeverity {
    Info,
    Warning,
}

impl DeepView for RuntimePartitionDiagnosticSeverity {
    type V = RuntimePartitionDiagnosticSeverity;

    open spec fn deep_view(&self) -> RuntimePartitionDiagnosticSeverity {
        *self
    }
}

/// What a partition diagnostic reports.
#[derive(Clone, Copy, Debug, PartialEq, Eq, Structural)]
pub enum RuntimePartitionDiagnosticCode {
    TargetUnderfilled,
    PartitionImbalance,
    HighBoundaryCost,
    ExternalModuleOpaque,
    EmptyPartition,
}

impl DeepView for RuntimePartitionDiagnosticCode {
    type V = RuntimePartitionDiagnosticCode;

    open spec fn deep_view(&self) -> RuntimePartitionDiagnosticCode {
        *self
    }
}

/// A diagnostic of the partition planner.
#[derive(Debug, PartialEq, Eq)]
pub struct RuntimePartitionDiagnostic {
    pub code: RuntimePartitionDiagnosticCode,
    pub severity: RuntimePartitionDiagnosticSeverity,
    pub message: String,
    pub partition_id: Option<String>,
    pub boundary_index: Option<usize>,
}

/// The model of [`RuntimePartitionDiagnostic`].
#[verifier::ext_equal]
pub struct RuntimePartitionDiagnosticView {
    pub code: RuntimePartitionDiagnosticCode,
    pub severity: RuntimePartitionDiagnosticSeverity,
    pub message: Seq<char>,
    pub partition_id: Option<Seq<char>>,
    pub boundary_index: Option<usize>,
}

impl DeepView for RuntimePartitionDiagnostic {
    type V = RuntimePartitionDiagnosticView;

    open spec fn deep_view(&self) -> RuntimePartitionDiagnosticView {
        RuntimePartitionDiagnosticView {
            code: self.code,
            severity: self.severity,
            message: self.message@,
            partition_id: self.partition_id.deep_view(),
            boundary_index: self.boundary_index,
        }
    }
}

impl Clone for RuntimePartitionDiagnostic {
    fn clone(&self) -> (r: Self)
        ensures
            r.deep_view() == self.deep_view(),
    {
        let r = RuntimePartitionDiagnostic {
            code: self.code,
            severity: self.severity,
            message: self.message.clone(),
            partition_id: self.partition_id.clone(),
            boundary_index: self.boundary_index,
        };
        proof {
            assert(r.partition_id.deep_view() =~= self.partition_id.deep_view());
        }
        r
    }
}

/// What a partition recommendation suggests.
#[derive(Clone, Copy, Debug, PartialEq, Eq, Structural)]
pub enum RuntimePartitionRecommendationCode {
    IncreaseHierarchy,
    SplitHeavyPartition,
    CoLocateBoundary,
    InspectExternalModule,
    ReduceTargetPartitions,
}

impl DeepView for RuntimePartitionRecommendationCode {
    type V = RuntimePartitionRecommendationCode;

    open spec fn deep_view(&self) -> RuntimePartitionRecommendationCode {
        *self
    }
}

/// A recommendation of the partition planner.
#[derive(Debug, PartialEq, Eq)]
pub struct RuntimePartitionRecommendation {
    pub code: RuntimePartitionRecommendationCode,
    pub message: String,
    pub partition_id: Option<String>,
    pub boundary_index: Option<usize>,
}

/// The model of [`RuntimePartitionRecommendation`].
#[verifier::ext_equal]
pub struct RuntimePartitionRecommendationView {
    pub code: RuntimePartitionRecommendationCode,
    pub message: Seq<char>,
    pub partition_id: Option<Seq<char>>,
    pub boundary_index: Option<usize>,
}

impl DeepView for RuntimePartitionRecommendation {
    type V = RuntimePartitionRecommendationView;

    open spec fn deep_view(&self) -> RuntimePartitionRecommendationView {
        RuntimePartitionRecommendationView {
            code: self.code,
            message: self.message@,
            partition_id: self.partition_id.deep_view(),
            boundary_index: self.boundary_index,
        }
    }
}

impl Clone for RuntimePartitionRecommendation {
    fn clone(&self) -> (r: Self)
        ensures
            r.deep_view() == self.deep_view(),
    {
        let r = RuntimePartitionRecommendation {
            code: self.code,
            message: self.message.clone(),
            partition_id: self.partition_id.clone(),
            boundary_index: self.boundary_index,
        };
        proof {
            assert(r.partition_id.deep_view() =~= self.partition_id.deep_view());
        }
        r
    }
}

/// A partitioning of a design.
#[derive(Debug, PartialEq, Eq)]
pub struct RuntimePartitionPlan {
    pub format_version: u32,
    pub module_name: String,
    pub partitions: Vec<RuntimePartition>,
    pub boundary_signals: Vec<RuntimePartitionBoundarySignal>,
    pub total_cost: RuntimePartitionCost,
    pub diagnostics: Vec<RuntimePartitionDiagnostic>,
    pub recommendations: Vec<RuntimePartitionRecommendation>,
}

/// The model of [`RuntimePartitionPlan`].
#[verifier::ext_equal]
pub struct RuntimePartitionPlanView {
    pub format_version: u32,
    pub module_name: Seq<char>,
    pub partitions: Seq<RuntimePartitionView>,
    pub boundary_signals: Seq<RuntimePartitionBoundarySignalView>,
    pub total_cost: RuntimePartitionCost,
    pub diagnostics: Seq<RuntimePartitionDiagnosticView>,
    pub recommendations: Seq<RuntimePartitionRecommendationView>,
}

impl DeepView for RuntimePartitionPlan {
    type V = RuntimePartitionPlanView;

    open spec fn deep_view(&self) -> RuntimePartitionPlanView {
        RuntimePartitionPlanView {
            format_version: self.format_version,
            module_name: self.module_name@,
            partitions: self.partitions.deep_view(),
            boundary_signals: self.boundary_signals.deep_view(),
            total_cost: self.total_cost,
            diagnostics: self.diagnostics.deep_view(),
            recommendations: self.recommendations.deep_view(),
        }
    }
}

impl Clone for RuntimePartitionPlan {
    fn clone(&self) -> (r: Self)
        ensures
            r.deep_view() == self.deep_view(),
    {
        let r = RuntimePartitionPlan {
            format_version: self.format_version,
            module_name: self.module_name.clone(),
            partitions: self.partitions.clone(),
            boundary_signals: self.boundary_signals.clone(),
            total_cost: self.total_cost,
            diagnostics: self.diagnostics.clone(),
            recommendations: self.recommendations.clone(),
        };
        proof {
            assert(r.partitions.deep_view() =~= self.partitions.deep_view());
            assert(r.boundary_signals.deep_view() =~= self.boundary_signals.deep_view());
            assert(r.diagnostics.deep_view() =~= self.diagnostics.deep_view());
            assert(r.recommendations.deep_view() =~= self.recommendations.deep_view());
        }
        r
    }
}

/// Legality of a partition boundary under the schedule with one barrier per cycle.
///
/// A boundary is safe to cut only if the value crossing it is stable for the
/// entire simulated cycle: a register output, or a top-level input set before
/// evaluation. A combinational crossing would create a data dependence between
/// partitions within the cycle, which a single barrier cannot satisfy: those
/// partitions are merged instead.
#[derive(Clone, Copy, Debug, PartialEq, Eq, Structural)]
pub enum BoundaryLegality {
    /// The crossing value is stable for the whole cycle. Legal to cut with a
    /// single barrier per cycle.
    RegisterStable,
    /// The crossing value is combinational; cutting here would require
    /// communication within the cycle.
    CombinationalUnsafe,
}

impl DeepView for BoundaryLegality {
    type V = BoundaryLegality;

    open spec fn deep_view(&self) -> BoundaryLegality {
        *self
    }
}

/// A set of plan partitions that must be co-scheduled, so that no combinational
/// boundary crosses a group edge.
#[derive(Debug, PartialEq, Eq)]
pub struct LegalPartitionGroup {
    /// Sorted member ids joined by `+`.
    pub id: String,
    /// Ids of the partitions in this group, sorted.
    pub members: Vec<String>,
    /// Field-wise sum of the member partitions' costs.
    pub cost: RuntimePartitionCost,
}

/// The model of [`LegalPartitionGroup`].
#[verifier::ext_equal]
pub struct LegalPartitionGroupView {
    pub id: Seq<char>,
    pub members: Seq<Seq<char>>,
    pub cost: RuntimePartitionCost,
}

impl DeepView for LegalPartitionGroup {
    type V = LegalPartitionGroupView;

    open spec fn deep_view(&self) -> LegalPartitionGroupView {
        LegalPartitionGroupView {
            id: self.id@,
            members: self.members.deep_view(),
            cost: self.cost,
        }
    }
}

impl Clone for LegalPartitionGroup {
    fn clone(&self) -> (r: Self)
        ensures
            r.deep_view() == self.deep_view(),
    {
        let r = LegalPartitionGroup {
            id: self.id.clone(),
            members: self.members.clone(),
            cost: self.cost,
        };
        proof {
            assert(r.members.deep_view() =~= self.members.deep_view());
        }
        r
    }
}

/// The legal coarsening of a [`RuntimePartitionPlan`]: partitions joined by
/// combinational boundaries are merged into groups, leaving only register-stable
/// boundaries crossing between groups.
#[derive(Debug, PartialEq, Eq)]
pub struct LegalPartitionPlan {
    pub module_name: String,
    pub groups: Vec<LegalPartitionGroup>,
    /// Register-stable boundaries crossing group edges: the values moved at the
    /// per-cycle barrier.
    pub exchange_boundaries: Vec<RuntimePartitionBoundarySignal>,
}

/// The model of [`LegalPartitionPlan`].
#[verifier::ext_equal]
pub struct LegalPartitionPlanView {
    pub module_name: Seq<char>,
    pub groups: Seq<LegalPartitionGroupView>,
    pub exchange_boundaries: Seq<RuntimePartitionBoundarySignalView>,
}

impl DeepView for LegalPartitionPlan {
    type V = LegalPartitionPlanView;

    open spec fn deep_view(&self) -> LegalPartitionPlanView {
        LegalPartitionPlanView {
            module_name: self.module_name@,
            groups: self.groups.deep_view(),
            exchange_boundaries: self.exchange_boundaries.deep_view(),
        }
    }
}

impl Clone for LegalPartitionPlan {
    fn clone(&self) -> (r: Self)
        ensures
            r.deep_view() == self.deep_view(),
    {
        let r = LegalPartitionPlan {
            module_name: self.module_name.clone(),
            groups: self.groups.clone(),
            exchange_boundaries: self.exchange_boundaries.clone(),
        };
        proof {
            assert(r.groups.deep_view() =~= self.groups.deep_view());
            assert(r.exchange_boundaries.deep_view() =~= self.exchange_boundaries.deep_view());
        }
        r
    }
}

} // verus!

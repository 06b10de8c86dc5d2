//! Surrogate plans, their attachment to a runtime, and execution reports.

use vstd::prelude::*;

use crate::model::topology::RuntimeBackend;

verus! {

/// Schema tag of GEMM runtime plans.
pub const GEMM_RUNTIME_PLAN_SCHEMA: &'static str = "rrtl.gemm_runtime_plan.v1";

/// Schema tag of event runtime plans.
pub const EVENT_RUNTIME_PLAN_SCHEMA: &'static str = "rrtl.event_runtime_plan.v1";

/// Format version of surrogate attachments.
pub const RUNTIME_SURROGATE_ATTACHMENT_FORMAT_VERSION: u32 = 1;

/// What the surrogate policy decided for an item.
#[derive(Clone, Copy, Debug, PartialEq, Eq, Structural)]
pub enum GemmPolicyDecision {
    SurrogateUsed,
    ExactFallback,
    FailClosed,
    ShadowCompare,
}

impl DeepView for GemmPolicyDecision {
    type V = GemmPolicyDecision;

    open spec fn deep_view(&self) -> GemmPolicyDecision {
        *self
    }
}

/// What the event policy decided for an item.
#[derive(Clone, Copy, Debug, PartialEq, Eq, Structural)]
pub enum EventPolicyDecision {
    SurrogateUsed,
    ExactFallback,
    FailClosed,
    ShadowCompare,
}

impl DeepView for EventPolicyDecision {
    type V = EventPolicyDecision;

    open spec fn deep_view(&self) -> EventPolicyDecision {
        *self
    }
}

/// Which computation an item's result comes from.
#[derive(Clone, Copy, Debug, PartialEq, Eq, Structural)]
pub enum GemmRuntimeSourceResult {
    Surrogate,
    Exact,
}

impl DeepView for GemmRuntimeSourceResult {
    type V = GemmRuntimeSourceResult;

    open spec fn deep_view(&self) -> GemmRuntimeSourceResult {
        *self
    }
}

/// Family of a surrogate model.
#[derive(Clone, Copy, Debug, PartialEq, Eq, Structural)]
pub enum ModelFamily {
    MockGemm,
    External,
}

impl DeepView for ModelFamily {
    type V = ModelFamily;

    open spec fn deep_view(&self) -> ModelFamily {
        *self
    }
}

/// Format of a surrogate artifact.
#[derive(Clone, Copy, Debug, PartialEq, Eq, Structural)]
pub enum ArtifactFormat {
    MockGemm,
    External,
}

impl DeepView for ArtifactFormat {
    type V = ArtifactFormat;

    open spec fn deep_view(&self) -> ArtifactFormat {
        *self
    }
}

/// Policy under which a surrogate runs.
#[derive(Clone, Copy, Debug, PartialEq, Eq, Structural)]
pub enum PolicyMode {
    ApproximateWithTolerance,
    ExactOnly,
}

impl DeepView for PolicyMode {
    type V = PolicyMode;

    open spec fn deep_view(&self) -> PolicyMode {
        *self
    }
}

/// The first matrix element at which a shadow run diverged.
#[derive(Clone, Copy, Debug, PartialEq, Eq, Structural)]
pub struct GemmDivergence {
    pub row: usize,
    pub col: usize,
    pub expected: i128,
    pub actual: i128,
}

impl DeepView for GemmDivergence {
    type V = GemmDivergence;

    open spec fn deep_view(&self) -> GemmDivergence {
        *self
    }
}

/// Where a result comes from.
#[derive(Debug, PartialEq, Eq)]
pub struct Provenance {
    pub tag: String,
    pub exact: bool,
    pub surrogate_id: String,
    pub model_family: ModelFamily,
    pub artifact_format: ArtifactFormat,
    pub artifact_hash: String,
    pub source_hash: String,
    pub policy: PolicyMode,
}

/// One item of a GEMM runtime plan.
#[derive(Debug, PartialEq, Eq)]
pub struct GemmRuntimePlanItem {
    pub index: usize,
    pub lane: usize,
    pub worker_id: String,
    pub decision: GemmPolicyDecision,
    pub provenance: Provenance,
    pub source_result: GemmRuntimeSourceResult,
    pub shadow_ok: Option<bool>,
    pub shadow_error: Option<String>,
    pub shadow_max_abs_error: Option<i128>,
    pub shadow_latency_error_cycles: Option<u64>,
    pub shadow_first_divergence: Option<GemmDivergence>,
}

/// What a runtime plan says of one worker.
#[derive(Debug, PartialEq, Eq)]
pub struct GemmRuntimeWorkerSummary {
    pub worker_id: String,
    pub start_lane: usize,
    pub lanes: usize,
    pub assigned_items: usize,
    pub used_surrogate: usize,
    pub exact_fallbacks: usize,
}

/// An event plan describes its workers as a GEMM plan does.
pub type EventRuntimeWorkerSummary = GemmRuntimeWorkerSummary;

/// A plan that assigns GEMM items to the lanes of workers.
#[derive(Debug, PartialEq, Eq)]
pub struct GemmRuntimePlan {
    pub schema: String,
    pub ok: bool,
    pub total_lanes: usize,
    pub workers: Vec<GemmRuntimeWorkerSummary>,
    pub items: Vec<GemmRuntimePlanItem>,
    pub errors: Vec<String>,
}

/// One item of an event runtime plan.
#[derive(Debug, PartialEq, Eq)]
pub struct EventRuntimePlanItem {
    pub index: usize,
    pub sample_id: usize,
    pub lane: usize,
    pub target: String,
    pub worker_id: String,
    pub decision: EventPolicyDecision,
    pub provenance: Provenance,
    pub source_result: GemmRuntimeSourceResult,
    pub predicted: Option<i64>,
    pub expected: Option<i64>,
    pub shadow_ok: Option<bool>,
    pub shadow_error: Option<String>,
}

/// A plan that assigns event items to the lanes of workers.
#[derive(Debug, PartialEq, Eq)]
pub struct EventRuntimePlan {
    pub schema: String,
    pub ok: bool,
    pub total_lanes: usize,
    pub workers: Vec<EventRuntimeWorkerSummary>,
    pub items: Vec<EventRuntimePlanItem>,
    pub errors: Vec<String>,
}

/// The first divergence of an attached GEMM item.
#[derive(Clone, Copy, Debug, PartialEq, Eq, Structural)]
pub struct RuntimeSurrogateGemmDivergence {
    pub row: usize,
    pub col: usize,
    pub expected: i128,
    pub actual: i128,
}

impl DeepView for RuntimeSurrogateGemmDivergence {
    type V = RuntimeSurrogateGemmDivergence;

    open spec fn deep_view(&self) -> RuntimeSurrogateGemmDivergence {
        *self
    }
}

/// The part of a surrogate plan that runs on one worker.
#[derive(Debug, PartialEq, Eq)]
pub struct RuntimeSurrogateWorkerAttachment {
    pub worker_id: String,
    pub node: String,
    pub backend: RuntimeBackend,
    pub start_lane: usize,
    pub lanes: usize,
    pub assigned_items: usize,
    pub used_surrogate: usize,
    pub exact_fallbacks: usize,
}

/// The model of [`RuntimeSurrogateWorkerAttachment`].
#[verifier::ext_equal]
pub struct RuntimeSurrogateWorkerAttachmentView {
    pub worker_id: Seq<char>,
    pub node: Seq<char>,
    pub backend: RuntimeBackend,
    pub start_lane: usize,
    pub lanes: usize,
    pub assigned_items: usize,
    pub used_surrogate: usize,
    pub exact_fallbacks: usize,
}

impl DeepView for RuntimeSurrogateWorkerAttachment {
    type V = RuntimeSurrogateWorkerAttachmentView;

    open spec fn deep_view(&self) -> RuntimeSurrogateWorkerAttachmentView {
        RuntimeSurrogateWorkerAttachmentView {
            worker_id: self.worker_id@,
            node: self.node@,
            backend: self.backend,
            start_lane: self.start_lane,
            lanes: self.lanes,
            assigned_items: self.assigned_items,
            used_surrogate: self.used_surrogate,
            exact_fallbacks: self.exact_fallbacks,
        }
    }
}

impl Clone for RuntimeSurrogateWorkerAttachment {
    fn clone(&self) -> (r: Self)
        ensures
            r.deep_view() == self.deep_view(),
    {
        RuntimeSurrogateWorkerAttachment {
            worker_id: self.worker_id.clone(),
            node: self.node.clone(),
            backend: self.backend,
            start_lane: self.start_lane,
            lanes: self.lanes,
            assigned_items: self.assigned_items,
            used_surrogate: self.used_surrogate,
            exact_fallbacks: self.exact_fallbacks,
        }
    }
}

/// One attached item of a surrogate plan.
#[derive(Debug, PartialEq, Eq)]
pub struct RuntimeSurrogateItemAttachment {
    pub index: usize,
    pub sample_id: Option<usize>,
    pub target: Option<String>,
    pub lane: usize,
    pub worker_id: String,
    pub decision: GemmPolicyDecision,
    pub source_result: GemmRuntimeSourceResult,
    pub provenance_tag: String,
    pub exact: bool,
    pub surrogate_id: String,
    pub shadow_ok: Option<bool>,
    pub shadow_error: Option<String>,
    pub shadow_predicted: Option<i64>,
    pub shadow_expected: Option<i64>,
    pub shadow_max_abs_error: Option<i128>,
    pub shadow_latency_error_cycles: Option<u64>,
    pub shadow_first_divergence: Option<RuntimeSurrogateGemmDivergence>,
}

/// The model of [`RuntimeSurrogateItemAttachment`].
#[verifier::ext_equal]
pub struct RuntimeSurrogateItemAttachmentView {
    pub index: usize,
    pub sample_id: Option<usize>,
    pub target: Option<Seq<char>>,
    pub lane: usize,
    pub worker_id: Seq<char>,
    pub decision: GemmPolicyDecision,
    pub source_result: GemmRuntimeSourceResult,
    pub provenance_tag: Seq<char>,
    pub exact: bool,
    pub surrogate_id: Seq<char>,
    pub shadow_ok: Option<bool>,
    pub shadow_error: Option<Seq<char>>,
    pub shadow_predicted: Option<i64>,
    pub shadow_expected: Option<i64>,
    pub shadow_max_abs_error: Option<i128>,
    pub shadow_latency_error_cycles: Option<u64>,
    pub shadow_first_divergence: Option<RuntimeSurrogateGemmDivergence>,
}

impl DeepView for RuntimeSurrogateItemAttachment {
    type V = RuntimeSurrogateItemAttachmentView;

    open spec fn deep_view(&self) -> RuntimeSurrogateItemAttachmentView {
        RuntimeSurrogateItemAttachmentView {
            index: self.index,
            sample_id: self.sample_id,
            target: self.target.deep_view(),
            lane: self.lane,
            worker_id: self.worker_id@,
            decision: self.decision,
            source_result: self.source_result,
            provenance_tag: self.provenance_tag@,
            exact: self.exact,
            surrogate_id: self.surrogate_id@,
            shadow_ok: self.shadow_ok,
            shadow_error: self.shadow_error.deep_view(),
            shadow_predicted: self.shadow_predicted,
            shadow_expected: self.shadow_expected,
            shadow_max_abs_error: self.shadow_max_abs_error,
            shadow_latency_error_cycles: self.shadow_latency_error_cycles,
            shadow_first_divergence: self.shadow_first_divergence,
        }
    }
}

impl Clone for RuntimeSurrogateItemAttachment {
    fn clone(&self) -> (r: Self)
        ensures
            r.deep_view() == self.deep_view(),
    {
        let r = RuntimeSurrogateItemAttachment {
            index: self.index,
            sample_id: self.sample_id,
            target: self.target.clone(),
            lane: self.lane,
            worker_id: self.worker_id.clone(),
            decision: self.decision,
            source_result: self.source_result,
            provenance_tag: self.provenance_tag.clone(),
            exact: self.exact,
            surrogate_id: self.surrogate_id.clone(),
            shadow_ok: self.shadow_ok,
            shadow_error: self.shadow_error.clone(),
            shadow_predicted: self.shadow_predicted,
            shadow_expected: self.shadow_expected,
            shadow_max_abs_error: self.shadow_max_abs_error,
            shadow_latency_error_cycles: self.shadow_latency_error_cycles,
            shadow_first_divergence: self.shadow_first_divergence,
        };
        proof {
            assert(r.target.deep_view() =~= self.target.deep_view());
            assert(r.shadow_error.deep_view() =~= self.shadow_error.deep_view());
        }
        r
    }
}

/// Health of a surrogate attachment.
#[derive(Debug, PartialEq, Eq)]
pub struct RuntimeSurrogateHealth {
    pub ready: bool,
    pub worker_count: usize,
    pub item_count: usize,
    pub used_surrogate: usize,
    pub exact_fallbacks: usize,
    pub diagnostics: Vec<String>,
}

/// The model of [`RuntimeSurrogateHealth`].
#[verifier::ext_equal]
pub struct RuntimeSurrogateHealthView {
    pub ready: bool,
    pub worker_count: usize,
    pub item_count: usize,
    pub used_surrogate: usize,
    pub exact_fallbacks: usize,
    pub diagnostics: Seq<Seq<char>>,
}

impl DeepView for RuntimeSurrogateHealth {
    type V = RuntimeSurrogateHealthView;

    open spec fn deep_view(&self) -> RuntimeSurrogateHealthView {
        RuntimeSurrogateHealthView {
            ready: self.ready,
            worker_count: self.worker_count,
            item_count: self.item_count,
            used_surrogate: self.used_surrogate,
            exact_fallbacks: self.exact_fallbacks,
            diagnostics: self.diagnostics.deep_view(),
        }
    }
}

impl Clone for RuntimeSurrogateHealth {
    fn clone(&self) -> (r: Self)
        ensures
            r.deep_view() == self.deep_view(),
    {
        let r = RuntimeSurrogateHealth {
            ready: self.ready,
            worker_count: self.worker_count,
            item_count: self.item_count,
            used_surrogate: self.used_surrogate,
            exact_fallbacks: self.exact_fallbacks,
            diagnostics: self.diagnostics.clone(),
        };
        proof {
            assert(r.diagnostics.deep_view() =~= self.diagnostics.deep_view());
        }
        r
    }
}

/// A surrogate plan attached to the shards of a runtime.
#[derive(Debug, PartialEq, Eq)]
pub struct RuntimeSurrogateAttachment {
    pub format_version: u32,
    pub plan_schema: String,
    pub total_lanes: usize,
    pub workers: Vec<RuntimeSurrogateWorkerAttachment>,
    pub items: Vec<RuntimeSurrogateItemAttachment>,
    pub health: RuntimeSurrogateHealth,
}

/// The model of [`RuntimeSurrogateAttachment`].
#[verifier::ext_equal]
pub struct RuntimeSurrogateAttachmentView {
    pub format_version: u32,
    pub plan_schema: Seq<char>,
    pub total_lanes: usize,
    pub workers: Seq<RuntimeSurrogateWorkerAttachmentView>,
    pub items: Seq<RuntimeSurrogateItemAttachmentView>,
    pub health: RuntimeSurrogateHealthView,
}

impl DeepView for RuntimeSurrogateAttachment {
    type V = RuntimeSurrogateAttachmentView;

    open spec fn deep_view(&self) -> RuntimeSurrogateAttachmentView {
        RuntimeSurrogateAttachmentView {
            format_version: self.format_version,
            plan_schema: self.plan_schema@,
            total_lanes: self.total_lanes,
            workers: self.workers.deep_view(),
            items: self.items.deep_view(),
            health: self.health.deep_view(),
        }
    }
}

impl Clone for RuntimeSurrogateAttachment {
    fn clone(&self) -> (r: Self)
        ensures
            r.deep_view() == self.deep_view(),
    {
        let r = RuntimeSurrogateAttachment {
            format_version: self.format_version,
            plan_schema: self.plan_schema.clone(),
            total_lanes: self.total_lanes,
            workers: self.workers.clone(),
            items: self.items.clone(),
            health: self.health.clone(),
        };
        proof {
            assert(r.workers.deep_view() =~= self.workers.deep_view());
            assert(r.items.deep_view() =~= self.items.deep_view());
        }
        r
    }
}

/// The runtime action that a surrogate report was taken after.
#[derive(Clone, Copy, Debug, PartialEq, Eq, Structural)]
pub enum RuntimeSurrogateActionKind {
    Inspect,
    EvalCombinational,
    Tick,
    TickMany,
    PartitionEvalCombinational,
    PartitionTick,
    PartitionTickMany,
}

impl DeepView for RuntimeSurrogateActionKind {
    type V = RuntimeSurrogateActionKind;

    open spec fn deep_view(&self) -> RuntimeSurrogateActionKind {
        *self
    }
}

/// What the event items of one worker did.
#[derive(Debug, PartialEq, Eq)]
pub struct RuntimeSurrogateEventWorkerReport {
    pub worker_id: String,
    pub start_lane: usize,
    pub lanes: usize,
    pub assigned_items: usize,
    pub surrogate_replacements: usize,
    pub exact_fallbacks: usize,
    pub shadow_compared: usize,
    pub shadow_failed: usize,
}

/// The model of [`RuntimeSurrogateEventWorkerReport`].
#[verifier::ext_equal]
pub struct RuntimeSurrogateEventWorkerReportView {
    pub worker_id: Seq<char>,
    pub start_lane: usize,
    pub lanes: usize,
    pub assigned_items: usize,
    pub surrogate_replacements: usize,
    pub exact_fallbacks: usize,
    pub shadow_compared: usize,
    pub shadow_failed: usize,
}

impl DeepView for RuntimeSurrogateEventWorkerReport {
    type V = RuntimeSurrogateEventWorkerReportView;

    open spec fn deep_view(&self) -> RuntimeSurrogateEventWorkerReportView {
        RuntimeSurrogateEventWorkerReportView {
            worker_id: self.worker_id@,
            start_lane: self.start_lane,
            lanes: self.lanes,
            assigned_items: self.assigned_items,
            surrogate_replacements: self.surrogate_replacements,
            exact_fallbacks: self.exact_fallbacks,
            shadow_compared: self.shadow_compared,
            shadow_failed: self.shadow_failed,
        }
    }
}

impl Clone for RuntimeSurrogateEventWorkerReport {
    fn clone(&self) -> (r: Self)
        ensures
            r.deep_view() == self.deep_view(),
    {
        RuntimeSurrogateEventWorkerReport {
            worker_id: self.worker_id.clone(),
            start_lane: self.start_lane,
            lanes: self.lanes,
            assigned_items: self.assigned_items,
            surrogate_replacements: self.surrogate_replacements,
            exact_fallbacks: self.exact_fallbacks,
            shadow_compared: self.shadow_compared,
            shadow_failed: self.shadow_failed,
        }
    }
}

/// What the event items of one lane did.
#[derive(Clone, Copy, Debug, PartialEq, Eq, Structural)]
pub struct RuntimeSurrogateEventLaneReport {
    pub lane: usize,
    pub count: usize,
    pub surrogate_replacements: usize,
    pub exact_fallbacks: usize,
    pub shadow_compared: usize,
    pub shadow_failed: usize,
}

impl DeepView for RuntimeSurrogateEventLaneReport {
    type V = RuntimeSurrogateEventLaneReport;

    open spec fn deep_view(&self) -> RuntimeSurrogateEventLaneReport {
        *self
    }
}

/// What one event item did.
#[derive(Debug, PartialEq, Eq)]
pub struct RuntimeSurrogateEventItemReport {
    pub index: usize,
    pub sample_id: Option<usize>,
    pub lane: usize,
    pub worker_id: String,
    pub target: Option<String>,
    pub decision: GemmPolicyDecision,
    pub source_result: GemmRuntimeSourceResult,
    pub predicted: Option<i64>,
    pub expected: Option<i64>,
    pub shadow_ok: Option<bool>,
    pub shadow_error: Option<String>,
    pub provenance_tag: String,
    pub exact: bool,
    pub surrogate_id: String,
}

/// The model of [`RuntimeSurrogateEventItemReport`].
#[verifier::ext_equal]
pub struct RuntimeSurrogateEventItemReportView {
    pub index: usize,
    pub sample_id: Option<usize>,
    pub lane: usize,
    pub worker_id: Seq<char>,
    pub target: Option<Seq<char>>,
    pub decision: GemmPolicyDecision,
    pub source_result: GemmRuntimeSourceResult,
    pub predicted: Option<i64>,
    pub expected: Option<i64>,
    pub shadow_ok: Option<bool>,
    pub shadow_error: Option<Seq<char>>,
    pub provenance_tag: Seq<char>,
    pub exact: bool,
    pub surrogate_id: Seq<char>,
}

impl DeepView for RuntimeSurrogateEventItemReport {
    type V = RuntimeSurrogateEventItemReportView;

    open spec fn deep_view(&self) -> RuntimeSurrogateEventItemReportView {
        RuntimeSurrogateEventItemReportView {
            index: self.index,
            sample_id: self.sample_id,
            lane: self.lane,
            worker_id: self.worker_id@,
            target: self.target.deep_view(),
            decision: self.decision,
            source_result: self.source_result,
            predicted: self.predicted,
            expected: self.expected,
            shadow_ok: self.shadow_ok,
            shadow_error: self.shadow_error.deep_view(),
            provenance_tag: self.provenance_tag@,
            exact: self.exact,
            surrogate_id: self.surrogate_id@,
        }
    }
}

impl Clone for RuntimeSurrogateEventItemReport {
    fn clone(&self) -> (r: Self)
        ensures
            r.deep_view() == self.deep_view(),
    {
        let r = RuntimeSurrogateEventItemReport {
            index: self.index,
            sample_id: self.sample_id,
            lane: self.lane,
            worker_id: self.worker_id.clone(),
            target: self.target.clone(),
            decision: self.decision,
            source_result: self.source_result,
            predicted: self.predicted,
            expected: self.expected,
            shadow_ok: self.shadow_ok,
            shadow_error: self.shadow_error.clone(),
            provenance_tag: self.provenance_tag.clone(),
            exact: self.exact,
            surrogate_id: self.surrogate_id.clone(),
        };
        proof {
            assert(r.target.deep_view() =~= self.target.deep_view());
            assert(r.shadow_error.deep_view() =~= self.shadow_error.deep_view());
        }
        r
    }
}

/// Summary of an attachment after a number of runtime actions.
#[derive(Debug, PartialEq, Eq)]
pub struct RuntimeSurrogateExecutionReport {
    pub ready: bool,
    pub executed: bool,
    pub plan_schema: String,
    pub total_lanes: usize,
    pub attached_items: usize,
    pub surrogate_eligible_items: usize,
    pub exact_fallback_items: usize,
    pub invalid_items: usize,
    pub shadow_compared_items: usize,
    pub shadow_passed_items: usize,
    pub shadow_failed_items: usize,
    pub shadow_unavailable_items: usize,
    pub latest_action_kind: Option<RuntimeSurrogateActionKind>,
    pub action_count: u64,
    pub event_workers: Vec<RuntimeSurrogateEventWorkerReport>,
    pub event_lanes: Vec<RuntimeSurrogateEventLaneReport>,
    pub event_items: Vec<RuntimeSurrogateEventItemReport>,
    pub diagnostics: Vec<String>,
}

/// The model of [`RuntimeSurrogateExecutionReport`].
#[verifier::ext_equal]
pub struct RuntimeSurrogateExecutionReportView {
    pub ready: bool,
    pub executed: bool,
    pub plan_schema: Seq<char>,
    pub total_lanes: usize,
    pub attached_items: usize,
    pub surrogate_eligible_items: usize,
    pub exact_fallback_items: usize,
    pub invalid_items: usize,
    pub shadow_compared_items: usize,
    pub shadow_passed_items: usize,
    pub shadow_failed_items: usize,
    pub shadow_unavailable_items: usize,
    pub latest_action_kind: Option<RuntimeSurrogateActionKind>,
    pub action_count: u64,
    pub event_workers: Seq<RuntimeSurrogateEventWorkerReportView>,
    pub event_lanes: Seq<RuntimeSurrogateEventLaneReport>,
    pub event_items: Seq<RuntimeSurrogateEventItemReportView>,
    pub diagnostics: Seq<Seq<char>>,
}

impl DeepView for RuntimeSurrogateExecutionReport {
    type V = RuntimeSurrogateExecutionReportView;

    open spec fn deep_view(&self) -> RuntimeSurrogateExecutionReportView {
        RuntimeSurrogateExecutionReportView {
            ready: self.ready,
            executed: self.executed,
            plan_schema: self.plan_schema@,
            total_lanes: self.total_lanes,
            attached_items: self.attached_items,
            surrogate_eligible_items: self.surrogate_eligible_items,
            exact_fallback_items: self.exact_fallback_items,
            invalid_items: self.invalid_items,
            shadow_compared_items: self.shadow_compared_items,
            shadow_passed_items: self.shadow_passed_items,
            shadow_failed_items: self.shadow_failed_items,
            shadow_unavailable_items: self.shadow_unavailable_items,
            latest_action_kind: self.latest_action_kind,
            action_count: self.action_count,
            event_workers: self.event_workers.deep_view(),
            event_lanes: self.event_lanes@,
            event_items: self.event_items.deep_view(),
            diagnostics: self.diagnostics.deep_view(),
        }
    }
}

impl Clone for RuntimeSurrogateExecutionReport {
    fn clone(&self) -> (r: Self)
        ensures
            r.deep_view() == self.deep_view(),
    {
        let r = RuntimeSurrogateExecutionReport {
            ready: self.ready,
            executed: self.executed,
            plan_schema: self.plan_schema.clone(),
            total_lanes: self.total_lanes,
            attached_items: self.attached_items,
            surrogate_eligible_items: self.surrogate_eligible_items,
            exact_fallback_items: self.exact_fallback_items,
            invalid_items: self.invalid_items,
            shadow_compared_items: self.shadow_compared_items,
            shadow_passed_items: self.shadow_passed_items,
            shadow_failed_items: self.shadow_failed_items,
            shadow_unavailable_items: self.shadow_unavailable_items,
            latest_action_kind: self.latest_action_kind,
            action_count: self.action_count,
            event_workers: self.event_workers.clone(),
            event_lanes: self.event_lanes.clone(),
            event_items: self.event_items.clone(),
            diagnostics: self.diagnostics.clone(),
        };
        proof {
            assert(r.event_workers.deep_view() =~= self.event_workers.deep_view());
            assert(r.event_lanes@ =~= self.event_lanes@);
            assert(r.event_items.deep_view() =~= self.event_items.deep_view());
            assert(r.diagnostics.deep_view() =~= self.diagnostics.deep_view());
        }
        r
    }
}

} // verus!

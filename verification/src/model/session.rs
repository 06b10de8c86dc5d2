//! The data that partition workers and sessions exchange.

use vstd::prelude::*;

use crate::model::design::Width;
use crate::model::launch::{
    RuntimePartitionLaunchDiagnostic, RuntimePartitionLaunchDiagnosticView,
    RuntimePartitionLaunchPartition, RuntimePartitionLaunchPartitionView,
    RuntimePartitionLaunchPlan, RuntimePartitionLaunchPlanView, RuntimePartitionWorkerLaunch,
    RuntimePartitionWorkerLaunchView,
};
use crate::model::runtime::RuntimeOperationStats;
use crate::model::surrogate::{
    RuntimeSurrogateAttachment, RuntimeSurrogateAttachmentView, RuntimeSurrogateExecutionReport,
    RuntimeSurrogateExecutionReportView,
};
use crate::model::topology::RuntimeBackend;

verus! {

/// Format version of session telemetry.
pub const RUNTIME_PARTITION_SESSION_TELEMETRY_FORMAT_VERSION: u32 = 1;

/// A step that partition workers perform.
#[derive(Clone, Copy, Debug, PartialEq, Eq, Structural)]
pub enum RuntimePartitionWorkerActionKind {
    EvalCombinational,
    Tick,
    TickMany(usize),
}

impl DeepView for RuntimePartitionWorkerActionKind {
    type V = RuntimePartitionWorkerActionKind;

    open spec fn deep_view(&self) -> RuntimePartitionWorkerActionKind {
        *self
    }
}

/// A step asked of one worker.
#[derive(Debug, PartialEq, Eq)]
pub struct RuntimePartitionWorkerAction {
    pub worker_id: String,
    pub kind: RuntimePartitionWorkerActionKind,
}

/// The model of [`RuntimePartitionWorkerAction`].
#[verifier::ext_equal]
pub struct RuntimePartitionWorkerActionView {
    pub worker_id: Seq<char>,
    pub kind: RuntimePartitionWorkerActionKind,
}

impl DeepView for RuntimePartitionWorkerAction {
    type V = RuntimePartitionWorkerActionView;

    open spec fn deep_view(&self) -> RuntimePartitionWorkerActionView {
        RuntimePartitionWorkerActionView {
            worker_id: self.worker_id@,
            kind: self.kind,
        }
    }
}

impl Clone for RuntimePartitionWorkerAction {
    fn clone(&self) -> (r: Self)
        ensures
            r.deep_view() == self.deep_view(),
    {
        RuntimePartitionWorkerAction {
            worker_id: self.worker_id.clone(),
            kind: self.kind,
        }
    }
}

/// What a worker did for a step.
#[derive(Debug, PartialEq, Eq)]
pub struct RuntimePartitionWorkerActionReport {
    pub worker_id: String,
    pub kind: RuntimePartitionWorkerActionKind,
    pub partition_count: usize,
    pub outbound_route_count: usize,
    pub inbound_route_count: usize,
    pub outbound_bits: u64,
    pub inbound_bits: u64,
    pub operations: RuntimeOperationStats,
}

/// The model of [`RuntimePartitionWorkerActionReport`].
#[verifier::ext_equal]
pub struct RuntimePartitionWorkerActionReportView {
    pub worker_id: Seq<char>,
    pub kind: RuntimePartitionWorkerActionKind,
    pub partition_count: usize,
    pub outbound_route_count: usize,
    pub inbound_route_count: usize,
    pub outbound_bits: u64,
    pub inbound_bits: u64,
    pub operations: RuntimeOperationStats,
}

impl DeepView for RuntimePartitionWorkerActionReport {
    type V = RuntimePartitionWorkerActionReportView;

    open spec fn deep_view(&self) -> RuntimePartitionWorkerActionReportView {
        RuntimePartitionWorkerActionReportView {
            worker_id: self.worker_id@,
            kind: self.kind,
            partition_count: self.partition_count,
            outbound_route_count: self.outbound_route_count,
            inbound_route_count: self.inbound_route_count,
            outbound_bits: self.outbound_bits,
            inbound_bits: self.inbound_bits,
            operations: self.operations,
        }
    }
}

impl Clone for RuntimePartitionWorkerActionReport {
    fn clone(&self) -> (r: Self)
        ensures
            r.deep_view() == self.deep_view(),
    {
        RuntimePartitionWorkerActionReport {
            worker_id: self.worker_id.clone(),
            kind: self.kind,
            partition_count: self.partition_count,
            outbound_route_count: self.outbound_route_count,
            inbound_route_count: self.inbound_route_count,
            outbound_bits: self.outbound_bits,
            inbound_bits: self.inbound_bits,
            operations: self.operations,
        }
    }
}

/// The value of a route: little-endian 32-bit limbs.
#[derive(Debug, PartialEq, Eq)]
pub struct RuntimePartitionRoutePayload {
    pub route_index: usize,
    pub width: Width,
    pub limbs: Vec<u32>,
}

/// The model of [`RuntimePartitionRoutePayload`].
#[verifier::ext_equal]
pub struct RuntimePartitionRoutePayloadView {
    pub route_index: usize,
    pub width: Width,
    pub limbs: Seq<u32>,
}

impl DeepView for RuntimePartitionRoutePayload {
    type V = RuntimePartitionRoutePayloadView;

    open spec fn deep_view(&self) -> RuntimePartitionRoutePayloadView {
        RuntimePartitionRoutePayloadView {
            route_index: self.route_index,
            width: self.width,
            limbs: self.limbs@,
        }
    }
}

impl Clone for RuntimePartitionRoutePayload {
    fn clone(&self) -> (r: Self)
        ensures
            r.deep_view() == self.deep_view(),
    {
        let r = RuntimePartitionRoutePayload {
            route_index: self.route_index,
            width: self.width,
            limbs: self.limbs.clone(),
        };
        proof {
            assert(r.limbs@ =~= self.limbs@);
        }
        r
    }
}

/// How many payloads wait in the mailboxes of a worker.
#[derive(Debug, PartialEq, Eq)]
pub struct RuntimePartitionRouteMailboxReport {
    pub worker_id: String,
    pub outbound_payload_count: usize,
    pub inbound_payload_count: usize,
    pub outbound_routes: Vec<usize>,
    pub inbound_routes: Vec<usize>,
    pub diagnostics: Vec<RuntimePartitionLaunchDiagnostic>,
}

/// The model of [`RuntimePartitionRouteMailboxReport`].
#[verifier::ext_equal]
pub struct RuntimePartitionRouteMailboxReportView {
    pub worker_id: Seq<char>,
    pub outbound_payload_count: usize,
    pub inbound_payload_count: usize,
    pub outbound_routes: Seq<usize>,
    pub inbound_routes: Seq<usize>,
    pub diagnostics: Seq<RuntimePartitionLaunchDiagnosticView>,
}

impl DeepView for RuntimePartitionRouteMailboxReport {
    type V = RuntimePartitionRouteMailboxReportView;

    open spec fn deep_view(&self) -> RuntimePartitionRouteMailboxReportView {
        RuntimePartitionRouteMailboxReportView {
            worker_id: self.worker_id@,
            outbound_payload_count: self.outbound_payload_count,
            inbound_payload_count: self.inbound_payload_count,
            outbound_routes: self.outbound_routes@,
            inbound_routes: self.inbound_routes@,
            diagnostics: self.diagnostics.deep_view(),
        }
    }
}

impl Clone for RuntimePartitionRouteMailboxReport {
    fn clone(&self) -> (r: Self)
        ensures
            r.deep_view() == self.deep_view(),
    {
        let r = RuntimePartitionRouteMailboxReport {
            worker_id: self.worker_id.clone(),
            outbound_payload_count: self.outbound_payload_count,
            inbound_payload_count: self.inbound_payload_count,
            outbound_routes: self.outbound_routes.clone(),
            inbound_routes: self.inbound_routes.clone(),
            diagnostics: self.diagnostics.clone(),
        };
        proof {
            assert(r.outbound_routes@ =~= self.outbound_routes@);
            assert(r.inbound_routes@ =~= self.inbound_routes@);
            assert(r.diagnostics.deep_view() =~= self.diagnostics.deep_view());
        }
        r
    }
}

/// What the transfer of one route value did.
#[derive(Debug, PartialEq, Eq)]
pub struct RuntimePartitionRouteTransferReport {
    pub route_index: usize,
    pub producer_worker: String,
    pub consumer_worker: String,
    pub width: Width,
    pub limb_count: usize,
    pub producer_mailbox: RuntimePartitionRouteMailboxReport,
    pub consumer_mailbox: RuntimePartitionRouteMailboxReport,
    pub diagnostics: Vec<RuntimePartitionLaunchDiagnostic>,
}

/// The model of [`RuntimePartitionRouteTransferReport`].
#[verifier::ext_equal]
pub struct RuntimePartitionRouteTransferReportView {
    pub route_index: usize,
    pub producer_worker: Seq<char>,
    pub consumer_worker: Seq<char>,
    pub width: Width,
    pub limb_count: usize,
    pub producer_mailbox: RuntimePartitionRouteMailboxReportView,
    pub consumer_mailbox: RuntimePartitionRouteMailboxReportView,
    pub diagnostics: Seq<RuntimePartitionLaunchDiagnosticView>,
}

impl DeepView for RuntimePartitionRouteTransferReport {
    type V = RuntimePartitionRouteTransferReportView;

    open spec fn deep_view(&self) -> RuntimePartitionRouteTransferReportView {
        RuntimePartitionRouteTransferReportView {
            route_index: self.route_index,
            producer_worker: self.producer_worker@,
            consumer_worker: self.consumer_worker@,
            width: self.width,
            limb_count: self.limb_count,
            producer_mailbox: self.producer_mailbox.deep_view(),
            consumer_mailbox: self.consumer_mailbox.deep_view(),
            diagnostics: self.diagnostics.deep_view(),
        }
    }
}

impl Clone for RuntimePartitionRouteTransferReport {
    fn clone(&self) -> (r: Self)
        ensures
            r.deep_view() == self.deep_view(),
    {
        let r = RuntimePartitionRouteTransferReport {
            route_index: self.route_index,
            producer_worker: self.producer_worker.clone(),
            consumer_worker: self.consumer_worker.clone(),
            width: self.width,
            limb_count: self.limb_count,
            producer_mailbox: self.producer_mailbox.clone(),
            consumer_mailbox: self.consumer_mailbox.clone(),
            diagnostics: self.diagnostics.clone(),
        };
        proof {
            assert(r.diagnostics.deep_view() =~= self.diagnostics.deep_view());
        }
        r
    }
}

/// Health of a partition worker.
#[derive(Debug, PartialEq, Eq)]
pub struct RuntimePartitionWorkerHealth {
    pub worker_id: String,
    pub initialized: bool,
    pub backend: Option<RuntimeBackend>,
    pub node: Option<String>,
    pub partitions: Vec<RuntimePartitionLaunchPartition>,
    pub outbound_routes: Vec<usize>,
    pub inbound_routes: Vec<usize>,
    pub outbound_bits: u64,
    pub inbound_bits: u64,
    pub diagnostics: Vec<RuntimePartitionLaunchDiagnostic>,
}

/// The model of [`RuntimePartitionWorkerHealth`].
#[verifier::ext_equal]
pub struct RuntimePartitionWorkerHealthView {
    pub worker_id: Seq<char>,
    pub initialized: bool,
    pub backend: Option<RuntimeBackend>,
    pub node: Option<Seq<char>>,
    pub partitions: Seq<RuntimePartitionLaunchPartitionView>,
    pub outbound_routes: Seq<usize>,
    pub inbound_routes: Seq<usize>,
    pub outbound_bits: u64,
    pub inbound_bits: u64,
    pub diagnostics: Seq<RuntimePartitionLaunchDiagnosticView>,
}

impl DeepView for RuntimePartitionWorkerHealth {
    type V = RuntimePartitionWorkerHealthView;

    open spec fn deep_view(&self) -> RuntimePartitionWorkerHealthView {
        RuntimePartitionWorkerHealthView {
            worker_id: self.worker_id@,
            initialized: self.initialized,
            backend: self.backend,
            node: self.node.deep_view(),
            partitions: self.partitions.deep_view(),
            outbound_routes: self.outbound_routes@,
            inbound_routes: self.inbound_routes@,
            outbound_bits: self.outbound_bits,
            inbound_bits: self.inbound_bits,
            diagnostics: self.diagnostics.deep_view(),
        }
    }
}

impl Clone for RuntimePartitionWorkerHealth {
    fn clone(&self) -> (r: Self)
        ensures
            r.deep_view() == self.deep_view(),
    {
        let r = RuntimePartitionWorkerHealth {
            worker_id: self.worker_id.clone(),
            initialized: self.initialized,
            backend: self.backend,
            node: self.node.clone(),
            partitions: self.partitions.clone(),
            outbound_routes: self.outbound_routes.clone(),
            inbound_routes: self.inbound_routes.clone(),
            outbound_bits: self.outbound_bits,
            inbound_bits: self.inbound_bits,
            diagnostics: self.diagnostics.clone(),
        };
        proof {
            assert(r.node.deep_view() =~= self.node.deep_view());
            assert(r.partitions.deep_view() =~= self.partitions.deep_view());
            assert(r.outbound_routes@ =~= self.outbound_routes@);
            assert(r.inbound_routes@ =~= self.inbound_routes@);
            assert(r.diagnostics.deep_view() =~= self.diagnostics.deep_view());
        }
        r
    }
}

/// The launch handed to a partition worker.
#[derive(Debug, PartialEq, Eq)]
pub struct RuntimePartitionWorkerInit {
    pub worker_id: String,
    pub launch: RuntimePartitionWorkerLaunch,
}

/// The model of [`RuntimePartitionWorkerInit`].
#[verifier::ext_equal]
pub struct RuntimePartitionWorkerInitView {
    pub worker_id: Seq<char>,
    pub launch: RuntimePartitionWorkerLaunchView,
}

impl DeepView for RuntimePartitionWorkerInit {
    type V = RuntimePartitionWorkerInitView;

    open spec fn deep_view(&self) -> RuntimePartitionWorkerInitView {
        RuntimePartitionWorkerInitView {
            worker_id: self.worker_id@,
            launch: self.launch.deep_view(),
        }
    }
}

impl Clone for RuntimePartitionWorkerInit {
    fn clone(&self) -> (r: Self)
        ensures
            r.deep_view() == self.deep_view(),
    {
        RuntimePartitionWorkerInit {
            worker_id: self.worker_id.clone(),
            launch: self.launch.clone(),
        }
    }
}

/// Health of all workers after a launch was deployed.
#[derive(Debug, PartialEq, Eq)]
pub struct RuntimePartitionDeploymentReport {
    pub module_name: String,
    pub workers: Vec<RuntimePartitionWorkerHealth>,
    pub diagnostics: Vec<RuntimePartitionLaunchDiagnostic>,
}

/// The model of [`RuntimePartitionDeploymentReport`].
#[verifier::ext_equal]
pub struct RuntimePartitionDeploymentReportView {
    pub module_name: Seq<char>,
    pub workers: Seq<RuntimePartitionWorkerHealthView>,
    pub diagnostics: Seq<RuntimePartitionLaunchDiagnosticView>,
}

impl DeepView for RuntimePartitionDeploymentReport {
    type V = RuntimePartitionDeploymentReportView;

    open spec fn deep_view(&self) -> RuntimePartitionDeploymentReportView {
        RuntimePartitionDeploymentReportView {
            module_name: self.module_name@,
            workers: self.workers.deep_view(),
            diagnostics: self.diagnostics.deep_view(),
        }
    }
}

impl Clone for RuntimePartitionDeploymentReport {
    fn clone(&self) -> (r: Self)
        ensures
            r.deep_view() == self.deep_view(),
    {
        let r = RuntimePartitionDeploymentReport {
            module_name: self.module_name.clone(),
            workers: self.workers.clone(),
            diagnostics: self.diagnostics.clone(),
        };
        proof {
            assert(r.workers.deep_view() =~= self.workers.deep_view());
            assert(r.diagnostics.deep_view() =~= self.diagnostics.deep_view());
        }
        r
    }
}

/// Health of a session.
#[derive(Debug, PartialEq, Eq)]
pub struct RuntimePartitionSessionHealth {
    pub module_name: String,
    pub ready: bool,
    pub worker_count: usize,
    pub initialized_worker_count: usize,
    pub partition_count: usize,
    pub route_count: usize,
    pub diagnostics: Vec<RuntimePartitionLaunchDiagnostic>,
    pub workers: Vec<RuntimePartitionWorkerHealth>,
}

/// The model of [`RuntimePartitionSessionHealth`].
#[verifier::ext_equal]
pub struct RuntimePartitionSessionHealthView {
    pub module_name: Seq<char>,
    pub ready: bool,
    pub worker_count: usize,
    pub initialized_worker_count: usize,
    pub partition_count: usize,
    pub route_count: usize,
    pub diagnostics: Seq<RuntimePartitionLaunchDiagnosticView>,
    pub workers: Seq<RuntimePartitionWorkerHealthView>,
}

impl DeepView for RuntimePartitionSessionHealth {
    type V = RuntimePartitionSessionHealthView;

    open spec fn deep_view(&self) -> RuntimePartitionSessionHealthView {
        RuntimePartitionSessionHealthView {
            module_name: self.module_name@,
            ready: self.ready,
            worker_count: self.worker_count,
            initialized_worker_count: self.initialized_worker_count,
            partition_count: self.partition_count,
            route_count: self.route_count,
            diagnostics: self.diagnostics.deep_view(),
            workers: self.workers.deep_view(),
        }
    }
}

impl Clone for RuntimePartitionSessionHealth {
    fn clone(&self) -> (r: Self)
        ensures
            r.deep_view() == self.deep_view(),
    {
        let r = RuntimePartitionSessionHealth {
            module_name: self.module_name.clone(),
            ready: self.ready,
            worker_count: self.worker_count,
            initialized_worker_count: self.initialized_worker_count,
            partition_count: self.partition_count,
            route_count: self.route_count,
            diagnostics: self.diagnostics.clone(),
            workers: self.workers.clone(),
        };
        proof {
            assert(r.diagnostics.deep_view() =~= self.diagnostics.deep_view());
            assert(r.workers.deep_view() =~= self.workers.deep_view());
        }
        r
    }
}

/// What all workers did for a step.
#[derive(Debug, PartialEq, Eq)]
pub struct RuntimePartitionSessionActionReport {
    pub module_name: String,
    pub kind: RuntimePartitionWorkerActionKind,
    pub workers: Vec<RuntimePartitionWorkerActionReport>,
    pub operations: RuntimeOperationStats,
    pub diagnostics: Vec<RuntimePartitionLaunchDiagnostic>,
}

/// The model of [`RuntimePartitionSessionActionReport`].
#[verifier::ext_equal]
pub struct RuntimePartitionSessionActionReportView {
    pub module_name: Seq<char>,
    pub kind: RuntimePartitionWorkerActionKind,
    pub workers: Seq<RuntimePartitionWorkerActionReportView>,
    pub operations: RuntimeOperationStats,
    pub diagnostics: Seq<RuntimePartitionLaunchDiagnosticView>,
}

impl DeepView for RuntimePartitionSessionActionReport {
    type V = RuntimePartitionSessionActionReportView;

    open spec fn deep_view(&self) -> RuntimePartitionSessionActionReportView {
        RuntimePartitionSessionActionReportView {
            module_name: self.module_name@,
            kind: self.kind,
            workers: self.workers.deep_view(),
            operations: self.operations,
            diagnostics: self.diagnostics.deep_view(),
        }
    }
}

impl Clone for RuntimePartitionSessionActionReport {
    fn clone(&self) -> (r: Self)
        ensures
            r.deep_view() == self.deep_view(),
    {
        let r = RuntimePartitionSessionActionReport {
            module_name: self.module_name.clone(),
            kind: self.kind,
            workers: self.workers.clone(),
            operations: self.operations,
            diagnostics: self.diagnostics.clone(),
        };
        proof {
            assert(r.workers.deep_view() =~= self.workers.deep_view());
            assert(r.diagnostics.deep_view() =~= self.diagnostics.deep_view());
        }
        r
    }
}

/// Summary of all steps of a session.
#[derive(Debug, PartialEq, Eq)]
pub struct RuntimePartitionSessionActionSummary {
    pub module_name: String,
    pub action_count: usize,
    pub latest_action_kind: Option<RuntimePartitionWorkerActionKind>,
    pub operations: RuntimeOperationStats,
    pub worker_count: usize,
    pub partition_count: usize,
    pub route_count: usize,
    pub diagnostics: Vec<RuntimePartitionLaunchDiagnostic>,
}

/// The model of [`RuntimePartitionSessionActionSummary`].
#[verifier::ext_equal]
pub struct RuntimePartitionSessionActionSummaryView {
    pub module_name: Seq<char>,
    pub action_count: usize,
    pub latest_action_kind: Option<RuntimePartitionWorkerActionKind>,
    pub operations: RuntimeOperationStats,
    pub worker_count: usize,
    pub partition_count: usize,
    pub route_count: usize,
    pub diagnostics: Seq<RuntimePartitionLaunchDiagnosticView>,
}

impl DeepView for RuntimePartitionSessionActionSummary {
    type V = RuntimePartitionSessionActionSummaryView;

    open spec fn deep_view(&self) -> RuntimePartitionSessionActionSummaryView {
        RuntimePartitionSessionActionSummaryView {
            module_name: self.module_name@,
            action_count: self.action_count,
            latest_action_kind: self.latest_action_kind,
            operations: self.operations,
            worker_count: self.worker_count,
            partition_count: self.partition_count,
            route_count: self.route_count,
            diagnostics: self.diagnostics.deep_view(),
        }
    }
}

impl Clone for RuntimePartitionSessionActionSummary {
    fn clone(&self) -> (r: Self)
        ensures
            r.deep_view() == self.deep_view(),
    {
        let r = RuntimePartitionSessionActionSummary {
            module_name: self.module_name.clone(),
            action_count: self.action_count,
            latest_action_kind: self.latest_action_kind,
            operations: self.operations,
            worker_count: self.worker_count,
            partition_count: self.partition_count,
            route_count: self.route_count,
            diagnostics: self.diagnostics.clone(),
        };
        proof {
            assert(r.diagnostics.deep_view() =~= self.diagnostics.deep_view());
        }
        r
    }
}

/// A list of steps and when to emit telemetry.
#[derive(Debug, PartialEq, Eq)]
pub struct RuntimePartitionSessionRunScript {
    pub actions: Vec<RuntimePartitionWorkerActionKind>,
    pub every_actions: usize,
    pub emit_initial: bool,
    pub emit_final: bool,
}

/// The model of [`RuntimePartitionSessionRunScript`].
#[verifier::ext_equal]
pub struct RuntimePartitionSessionRunScriptView {
    pub actions: Seq<RuntimePartitionWorkerActionKind>,
    pub every_actions: usize,
    pub emit_initial: bool,
    pub emit_final: bool,
}

impl DeepView for RuntimePartitionSessionRunScript {
    type V = RuntimePartitionSessionRunScriptView;

    open spec fn deep_view(&self) -> RuntimePartitionSessionRunScriptView {
        RuntimePartitionSessionRunScriptView {
            actions: self.actions@,
            every_actions: self.every_actions,
            emit_initial: self.emit_initial,
            emit_final: self.emit_final,
        }
    }
}

impl Clone for RuntimePartitionSessionRunScript {
    fn clone(&self) -> (r: Self)
        ensures
            r.deep_view() == self.deep_view(),
    {
        let r = RuntimePartitionSessionRunScript {
            actions: self.actions.clone(),
            every_actions: self.every_actions,
            emit_initial: self.emit_initial,
            emit_final: self.emit_final,
        };
        proof {
            assert(r.actions@ =~= self.actions@);
        }
        r
    }
}

/// Why telemetry was emitted.
#[derive(Clone, Copy, Debug, PartialEq, Eq, Structural)]
pub enum RuntimePartitionSessionRunEventReason {
    Initial,
    Cadence,
    Final,
}

impl DeepView for RuntimePartitionSessionRunEventReason {
    type V = RuntimePartitionSessionRunEventReason;

    open spec fn deep_view(&self) -> RuntimePartitionSessionRunEventReason {
        *self
    }
}

/// The moment at which telemetry was emitted.
#[derive(Clone, Copy, Debug, PartialEq, Eq, Structural)]
pub struct RuntimePartitionSessionRunEvent {
    pub completed_actions: usize,
    pub reason: RuntimePartitionSessionRunEventReason,
    pub latest_action_kind: Option<RuntimePartitionWorkerActionKind>,
}

impl DeepView for RuntimePartitionSessionRunEvent {
    type V = RuntimePartitionSessionRunEvent;

    open spec fn deep_view(&self) -> RuntimePartitionSessionRunEvent {
        *self
    }
}

/// What the run of a script did.
#[derive(Debug, PartialEq, Eq)]
pub struct RuntimePartitionSessionRunReport {
    pub completed_actions: usize,
    pub telemetry_emitted: usize,
    pub action_summary: RuntimePartitionSessionActionSummary,
    pub diagnostics: Vec<RuntimePartitionLaunchDiagnostic>,
}

/// The model of [`RuntimePartitionSessionRunReport`].
#[verifier::ext_equal]
pub struct RuntimePartitionSessionRunReportView {
    pub completed_actions: usize,
    pub telemetry_emitted: usize,
    pub action_summary: RuntimePartitionSessionActionSummaryView,
    pub diagnostics: Seq<RuntimePartitionLaunchDiagnosticView>,
}

impl DeepView for RuntimePartitionSessionRunReport {
    type V = RuntimePartitionSessionRunReportView;

    open spec fn deep_view(&self) -> RuntimePartitionSessionRunReportView {
        RuntimePartitionSessionRunReportView {
            completed_actions: self.completed_actions,
            telemetry_emitted: self.telemetry_emitted,
            action_summary: self.action_summary.deep_view(),
            diagnostics: self.diagnostics.deep_view(),
        }
    }
}

impl Clone for RuntimePartitionSessionRunReport {
    fn clone(&self) -> (r: Self)
        ensures
            r.deep_view() == self.deep_view(),
    {
        let r = RuntimePartitionSessionRunReport {
            completed_actions: self.completed_actions,
            telemetry_emitted: self.telemetry_emitted,
            action_summary: self.action_summary.clone(),
            diagnostics: self.diagnostics.clone(),
        };
        proof {
            assert(r.diagnostics.deep_view() =~= self.diagnostics.deep_view());
        }
        r
    }
}

/// Telemetry of a session.
#[derive(Debug, PartialEq, Eq)]
pub struct RuntimePartitionSessionTelemetry {
    pub format_version: u32,
    pub module_name: String,
    pub surrogate_attachment: Option<RuntimeSurrogateAttachment>,
    pub surrogate_execution: Option<RuntimeSurrogateExecutionReport>,
    pub launch: RuntimePartitionLaunchPlan,
    pub deployment: RuntimePartitionDeploymentReport,
    pub health: RuntimePartitionSessionHealth,
    pub action_summary: RuntimePartitionSessionActionSummary,
    pub route_mailboxes: Vec<RuntimePartitionRouteMailboxReport>,
    pub actions: Vec<RuntimePartitionSessionActionReport>,
}

/// The model of [`RuntimePartitionSessionTelemetry`].
#[verifier::ext_equal]
pub struct RuntimePartitionSessionTelemetryView {
    pub format_version: u32,
    pub module_name: Seq<char>,
    pub surrogate_attachment: Option<RuntimeSurrogateAttachmentView>,
    pub surrogate_execution: Option<RuntimeSurrogateExecutionReportView>,
    pub launch: RuntimePartitionLaunchPlanView,
    pub deployment: RuntimePartitionDeploymentReportView,
    pub health: RuntimePartitionSessionHealthView,
    pub action_summary: RuntimePartitionSessionActionSummaryView,
    pub route_mailboxes: Seq<RuntimePartitionRouteMailboxReportView>,
    pub actions: Seq<RuntimePartitionSessionActionReportView>,
}

impl DeepView for RuntimePartitionSessionTelemetry {
    type V = RuntimePartitionSessionTelemetryView;

    open spec fn deep_view(&self) -> RuntimePartitionSessionTelemetryView {
        RuntimePartitionSessionTelemetryView {
            format_version: self.format_version,
            module_name: self.module_name@,
            surrogate_attachment: self.surrogate_attachment.deep_view(),
            surrogate_execution: self.surrogate_execution.deep_view(),
            launch: self.launch.deep_view(),
            deployment: self.deployment.deep_view(),
            health: self.health.deep_view(),
            action_summary: self.action_summary.deep_view(),
            route_mailboxes: self.route_mailboxes.deep_view(),
            actions: self.actions.deep_view(),
        }
    }
}

impl Clone for RuntimePartitionSessionTelemetry {
    fn clone(&self) -> (r: Self)
        ensures
            r.deep_view() == self.deep_view(),
    {
        let r = RuntimePartitionSessionTelemetry {
            format_version: self.format_version,
            module_name: self.module_name.clone(),
            surrogate_attachment: self.surrogate_attachment.clone(),
            surrogate_execution: self.surrogate_execution.clone(),
            launch: self.launch.clone(),
            deployment: self.deployment.clone(),
            health: self.health.clone(),
            action_summary: self.action_summary.clone(),
            route_mailboxes: self.route_mailboxes.clone(),
            actions: self.actions.clone(),
        };
        proof {
            assert(r.surrogate_attachment.deep_view() =~= self.surrogate_attachment.deep_view());
            assert(r.surrogate_execution.deep_view() =~= self.surrogate_execution.deep_view());
            assert(r.route_mailboxes.deep_view() =~= self.route_mailboxes.deep_view());
            assert(r.actions.deep_view() =~= self.actions.deep_view());
        }
        r
    }
}

} // verus!

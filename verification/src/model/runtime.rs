//! State that a running simulation reports: counters, health, snapshots and
//! checkpoints.

use vstd::prelude::*;

use crate::error::{ErrorReport, ErrorReportView};
use crate::model::surrogate::{
    RuntimeSurrogateAttachment, RuntimeSurrogateAttachmentView, RuntimeSurrogateExecutionReport,
    RuntimeSurrogateExecutionReportView,
};
use crate::model::topology::{
    RuntimeShardInfo, RuntimeShardInfoView, RuntimeTopology, RuntimeTopologyView,
};

verus! {

/// Format version of checkpoints.
pub const RUNTIME_CHECKPOINT_FORMAT_VERSION: u32 = 1;

/// Format version of supervisor telemetry.
pub const RUNTIME_TELEMETRY_FORMAT_VERSION: u32 = 1;

/// How the shards of a runtime are stepped.
#[derive(Clone, Copy, Debug, PartialEq, Eq, Structural)]
pub enum RuntimeExecutionMode {
    Serial,
    Parallel,
}

impl DeepView for RuntimeExecutionMode {
    type V = RuntimeExecutionMode;

    open spec fn deep_view(&self) -> RuntimeExecutionMode {
        *self
    }
}

/// Options of a distributed runtime.
#[derive(Clone, Copy, Debug, PartialEq, Eq, Structural)]
pub struct DistributedRuntimeOptions {
    pub execution_mode: RuntimeExecutionMode,
}

impl DeepView for DistributedRuntimeOptions {
    type V = DistributedRuntimeOptions;

    open spec fn deep_view(&self) -> DistributedRuntimeOptions {
        *self
    }
}

/// How often an operation ran, and for how long.
#[derive(Clone, Copy, Debug, PartialEq, Eq, Structural)]
pub struct RuntimeOperationCounters {
    pub calls: u64,
    pub total_ns: u128,
    pub last_ns: u128,
}

impl DeepView for RuntimeOperationCounters {
    type V = RuntimeOperationCounters;

    open spec fn deep_view(&self) -> RuntimeOperationCounters {
        *self
    }
}

/// Counters of all operations.
#[derive(Clone, Copy, Debug, PartialEq, Eq, Structural)]
pub struct RuntimeOperationStats {
    pub eval_combinational: RuntimeOperationCounters,
    pub tick: RuntimeOperationCounters,
    pub tick_many: RuntimeOperationCounters,
}

impl DeepView for RuntimeOperationStats {
    type V = RuntimeOperationStats;

    open spec fn deep_view(&self) -> RuntimeOperationStats {
        *self
    }
}

/// Counters of one shard.
#[derive(Debug, PartialEq, Eq)]
pub struct RuntimeShardStats {
    pub shard: RuntimeShardInfo,
    pub operations: RuntimeOperationStats,
}

/// The model of [`RuntimeShardStats`].
#[verifier::ext_equal]
pub struct RuntimeShardStatsView {
    pub shard: RuntimeShardInfoView,
    pub operations: RuntimeOperationStats,
}

impl DeepView for RuntimeShardStats {
    type V = RuntimeShardStatsView;

    open spec fn deep_view(&self) -> RuntimeShardStatsView {
        RuntimeShardStatsView {
            shard: self.shard.deep_view(),
            operations: self.operations,
        }
    }
}

impl Clone for RuntimeShardStats {
    fn clone(&self) -> (r: Self)
        ensures
            r.deep_view() == self.deep_view(),
    {
        RuntimeShardStats {
            shard: self.shard.clone(),
            operations: self.operations,
        }
    }
}

/// Counters of a runtime and all of its shards.
#[derive(Debug, PartialEq, Eq)]
pub struct RuntimeStats {
    pub execution_mode: RuntimeExecutionMode,
    pub total_lanes: usize,
    pub operations: RuntimeOperationStats,
    pub surrogate_execution: Option<RuntimeSurrogateExecutionReport>,
    pub shards: Vec<RuntimeShardStats>,
}

/// The model of [`RuntimeStats`].
#[verifier::ext_equal]
pub struct RuntimeStatsView {
    pub execution_mode: RuntimeExecutionMode,
    pub total_lanes: usize,
    pub operations: RuntimeOperationStats,
    pub surrogate_execution: Option<RuntimeSurrogateExecutionReportView>,
    pub shards: Seq<RuntimeShardStatsView>,
}

impl DeepView for RuntimeStats {
    type V = RuntimeStatsView;

    open spec fn deep_view(&self) -> RuntimeStatsView {
        RuntimeStatsView {
            execution_mode: self.execution_mode,
            total_lanes: self.total_lanes,
            operations: self.operations,
            surrogate_execution: self.surrogate_execution.deep_view(),
            shards: self.shards.deep_view(),
        }
    }
}

impl Clone for RuntimeStats {
    fn clone(&self) -> (r: Self)
        ensures
            r.deep_view() == self.deep_view(),
    {
        let r = RuntimeStats {
            execution_mode: self.execution_mode,
            total_lanes: self.total_lanes,
            operations: self.operations,
            surrogate_execution: self.surrogate_execution.clone(),
            shards: self.shards.clone(),
        };
        proof {
            assert(r.surrogate_execution.deep_view() =~= self.surrogate_execution.deep_view());
            assert(r.shards.deep_view() =~= self.shards.deep_view());
        }
        r
    }
}

/// Health of a shard worker.
#[derive(Debug, PartialEq, Eq)]
pub struct RuntimeWorkerHealth {
    pub worker_id: String,
    pub initialized: bool,
    pub shard: Option<RuntimeShardInfo>,
    pub operations: Option<RuntimeOperationStats>,
}

/// The model of [`RuntimeWorkerHealth`].
#[verifier::ext_equal]
pub struct RuntimeWorkerHealthView {
    pub worker_id: Seq<char>,
    pub initialized: bool,
    pub shard: Option<RuntimeShardInfoView>,
    pub operations: Option<RuntimeOperationStats>,
}

impl DeepView for RuntimeWorkerHealth {
    type V = RuntimeWorkerHealthView;

    open spec fn deep_view(&self) -> RuntimeWorkerHealthView {
        RuntimeWorkerHealthView {
            worker_id: self.worker_id@,
            initialized: self.initialized,
            shard: self.shard.deep_view(),
            operations: self.operations,
        }
    }
}

impl Clone for RuntimeWorkerHealth {
    fn clone(&self) -> (r: Self)
        ensures
            r.deep_view() == self.deep_view(),
    {
        let r = RuntimeWorkerHealth {
            worker_id: self.worker_id.clone(),
            initialized: self.initialized,
            shard: self.shard.clone(),
            operations: self.operations,
        };
        proof {
            assert(r.shard.deep_view() =~= self.shard.deep_view());
        }
        r
    }
}

/// Whether a shard answers.
#[derive(Clone, Copy, Debug, PartialEq, Eq, Structural)]
pub enum RuntimeShardHealthStatus {
    Healthy,
    Uninitialized,
    Unreachable,
}

impl DeepView for RuntimeShardHealthStatus {
    type V = RuntimeShardHealthStatus;

    open spec fn deep_view(&self) -> RuntimeShardHealthStatus {
        *self
    }
}

/// Health of one shard.
#[derive(Debug, PartialEq, Eq)]
pub struct RuntimeShardHealth {
    pub shard: RuntimeShardInfo,
    pub status: RuntimeShardHealthStatus,
    pub operations: Option<RuntimeOperationStats>,
}

/// The model of [`RuntimeShardHealth`].
#[verifier::ext_equal]
pub struct RuntimeShardHealthView {
    pub shard: RuntimeShardInfoView,
    pub status: RuntimeShardHealthStatus,
    pub operations: Option<RuntimeOperationStats>,
}

impl DeepView for RuntimeShardHealth {
    type V = RuntimeShardHealthView;

    open spec fn deep_view(&self) -> RuntimeShardHealthView {
        RuntimeShardHealthView {
            shard: self.shard.deep_view(),
            status: self.status,
            operations: self.operations,
        }
    }
}

impl Clone for RuntimeShardHealth {
    fn clone(&self) -> (r: Self)
        ensures
            r.deep_view() == self.deep_view(),
    {
        RuntimeShardHealth {
            shard: self.shard.clone(),
            status: self.status,
            operations: self.operations,
        }
    }
}

/// Health of all shards.
#[derive(Debug, PartialEq, Eq)]
pub struct RuntimeHealthReport {
    pub total_lanes: usize,
    pub shards: Vec<RuntimeShardHealth>,
}

/// The model of [`RuntimeHealthReport`].
#[verifier::ext_equal]
pub struct RuntimeHealthReportView {
    pub total_lanes: usize,
    pub shards: Seq<RuntimeShardHealthView>,
}

impl DeepView for RuntimeHealthReport {
    type V = RuntimeHealthReportView;

    open spec fn deep_view(&self) -> RuntimeHealthReportView {
        RuntimeHealthReportView {
            total_lanes: self.total_lanes,
            shards: self.shards.deep_view(),
        }
    }
}

impl Clone for RuntimeHealthReport {
    fn clone(&self) -> (r: Self)
        ensures
            r.deep_view() == self.deep_view(),
    {
        let r = RuntimeHealthReport {
            total_lanes: self.total_lanes,
            shards: self.shards.clone(),
        };
        proof {
            assert(r.shards.deep_view() =~= self.shards.deep_view());
        }
        r
    }
}

/// The workers that a recovery started anew.
#[derive(Debug, PartialEq, Eq)]
pub struct RuntimeRecoveryReport {
    pub recovered_workers: Vec<String>,
}

/// The model of [`RuntimeRecoveryReport`].
#[verifier::ext_equal]
pub struct RuntimeRecoveryReportView {
    pub recovered_workers: Seq<Seq<char>>,
}

impl DeepView for RuntimeRecoveryReport {
    type V = RuntimeRecoveryReportView;

    open spec fn deep_view(&self) -> RuntimeRecoveryReportView {
        RuntimeRecoveryReportView {
            recovered_workers: self.recovered_workers.deep_view(),
        }
    }
}

impl Clone for RuntimeRecoveryReport {
    fn clone(&self) -> (r: Self)
        ensures
            r.deep_view() == self.deep_view(),
    {
        let r = RuntimeRecoveryReport {
            recovered_workers: self.recovered_workers.clone(),
        };
        proof {
            assert(r.recovered_workers.deep_view() =~= self.recovered_workers.deep_view());
        }
        r
    }
}

/// The storage of one shard: lane-major signal and memory words.
#[derive(Debug, PartialEq, Eq)]
pub struct RuntimeShardSnapshot {
    pub shard: RuntimeShardInfo,
    pub values: Vec<u32>,
    pub memories: Vec<u32>,
}

/// The model of [`RuntimeShardSnapshot`].
#[verifier::ext_equal]
pub struct RuntimeShardSnapshotView {
    pub shard: RuntimeShardInfoView,
    pub values: Seq<u32>,
    pub memories: Seq<u32>,
}

impl DeepView for RuntimeShardSnapshot {
    type V = RuntimeShardSnapshotView;

    open spec fn deep_view(&self) -> RuntimeShardSnapshotView {
        RuntimeShardSnapshotView {
            shard: self.shard.deep_view(),
            values: self.values@,
            memories: self.memories@,
        }
    }
}

impl Clone for RuntimeShardSnapshot {
    fn clone(&self) -> (r: Self)
        ensures
            r.deep_view() == self.deep_view(),
    {
        let r = RuntimeShardSnapshot {
            shard: self.shard.clone(),
            values: self.values.clone(),
            memories: self.memories.clone(),
        };
        proof {
            assert(r.values@ =~= self.values@);
            assert(r.memories@ =~= self.memories@);
        }
        r
    }
}

/// The storage of all shards.
#[derive(Debug, PartialEq, Eq)]
pub struct RuntimeSnapshot {
    pub total_lanes: usize,
    pub program_top: String,
    pub signal_words_per_lane: usize,
    pub memory_words_per_lane: usize,
    pub shards: Vec<RuntimeShardSnapshot>,
}

/// The model of [`RuntimeSnapshot`].
#[verifier::ext_equal]
pub struct RuntimeSnapshotView {
    pub total_lanes: usize,
    pub program_top: Seq<char>,
    pub signal_words_per_lane: usize,
    pub memory_words_per_lane: usize,
    pub shards: Seq<RuntimeShardSnapshotView>,
}

impl DeepView for RuntimeSnapshot {
    type V = RuntimeSnapshotView;

    open spec fn deep_view(&self) -> RuntimeSnapshotView {
        RuntimeSnapshotView {
            total_lanes: self.total_lanes,
            program_top: self.program_top@,
            signal_words_per_lane: self.signal_words_per_lane,
            memory_words_per_lane: self.memory_words_per_lane,
            shards: self.shards.deep_view(),
        }
    }
}

impl Clone for RuntimeSnapshot {
    fn clone(&self) -> (r: Self)
        ensures
            r.deep_view() == self.deep_view(),
    {
        let r = RuntimeSnapshot {
            total_lanes: self.total_lanes,
            program_top: self.program_top.clone(),
            signal_words_per_lane: self.signal_words_per_lane,
            memory_words_per_lane: self.memory_words_per_lane,
            shards: self.shards.clone(),
        };
        proof {
            assert(r.shards.deep_view() =~= self.shards.deep_view());
        }
        r
    }
}

/// The network address of a worker.
#[derive(Debug, PartialEq, Eq)]
pub struct RuntimeTcpEndpoint {
    pub worker_id: String,
    pub addr: String,
}

/// The model of [`RuntimeTcpEndpoint`].
#[verifier::ext_equal]
pub struct RuntimeTcpEndpointView {
    pub worker_id: Seq<char>,
    pub addr: Seq<char>,
}

impl DeepView for RuntimeTcpEndpoint {
    type V = RuntimeTcpEndpointView;

    open spec fn deep_view(&self) -> RuntimeTcpEndpointView {
        RuntimeTcpEndpointView {
            worker_id: self.worker_id@,
            addr: self.addr@,
        }
    }
}

impl Clone for RuntimeTcpEndpoint {
    fn clone(&self) -> (r: Self)
        ensures
            r.deep_view() == self.deep_view(),
    {
        RuntimeTcpEndpoint {
            worker_id: self.worker_id.clone(),
            addr: self.addr.clone(),
        }
    }
}

/// A snapshot with what is needed to start again from it.
#[derive(Debug, PartialEq, Eq)]
pub struct RuntimeCheckpoint {
    pub format_version: u32,
    pub module_name: String,
    pub topology: RuntimeTopology,
    pub tcp_endpoints: Vec<RuntimeTcpEndpoint>,
    pub snapshot: RuntimeSnapshot,
}

/// The model of [`RuntimeCheckpoint`].
#[verifier::ext_equal]
pub struct RuntimeCheckpointView {
    pub format_version: u32,
    pub module_name: Seq<char>,
    pub topology: RuntimeTopologyView,
    pub tcp_endpoints: Seq<RuntimeTcpEndpointView>,
    pub snapshot: RuntimeSnapshotView,
}

impl DeepView for RuntimeCheckpoint {
    type V = RuntimeCheckpointView;

    open spec fn deep_view(&self) -> RuntimeCheckpointView {
        RuntimeCheckpointView {
            format_version: self.format_version,
            module_name: self.module_name@,
            topology: self.topology.deep_view(),
            tcp_endpoints: self.tcp_endpoints.deep_view(),
            snapshot: self.snapshot.deep_view(),
        }
    }
}

impl Clone for RuntimeCheckpoint {
    fn clone(&self) -> (r: Self)
        ensures
            r.deep_view() == self.deep_view(),
    {
        let r = RuntimeCheckpoint {
            format_version: self.format_version,
            module_name: self.module_name.clone(),
            topology: self.topology.clone(),
            tcp_endpoints: self.tcp_endpoints.clone(),
            snapshot: self.snapshot.clone(),
        };
        proof {
            assert(r.tcp_endpoints.deep_view() =~= self.tcp_endpoints.deep_view());
        }
        r
    }
}

/// When a run emits checkpoints.
#[derive(Clone, Copy, Debug, PartialEq, Eq, Structural)]
pub struct RuntimeCheckpointCadence {
    pub every_steps: usize,
    pub include_initial: bool,
    pub include_final: bool,
}

impl DeepView for RuntimeCheckpointCadence {
    type V = RuntimeCheckpointCadence;

    open spec fn deep_view(&self) -> RuntimeCheckpointCadence {
        *self
    }
}

/// Why a checkpoint was emitted.
#[derive(Clone, Copy, Debug, PartialEq, Eq, Structural)]
pub enum RuntimeCheckpointReason {
    Initial,
    Cadence,
    Final,
}

impl DeepView for RuntimeCheckpointReason {
    type V = RuntimeCheckpointReason;

    open spec fn deep_view(&self) -> RuntimeCheckpointReason {
        *self
    }
}

/// The moment at which a checkpoint was emitted.
#[derive(Clone, Copy, Debug, PartialEq, Eq, Structural)]
pub struct RuntimeCheckpointEvent {
    pub completed_steps: usize,
    pub reason: RuntimeCheckpointReason,
}

impl DeepView for RuntimeCheckpointEvent {
    type V = RuntimeCheckpointEvent;

    open spec fn deep_view(&self) -> RuntimeCheckpointEvent {
        *self
    }
}

/// What a run with checkpoints did.
#[derive(Clone, Copy, Debug, PartialEq, Eq, Structural)]
pub struct RuntimeCheckpointRunReport {
    pub requested_steps: usize,
    pub completed_steps: usize,
    pub checkpoints_emitted: usize,
}

impl DeepView for RuntimeCheckpointRunReport {
    type V = RuntimeCheckpointRunReport;

    open spec fn deep_view(&self) -> RuntimeCheckpointRunReport {
        *self
    }
}

/// How a worker process ended.
#[derive(Debug, PartialEq, Eq)]
pub struct TcpRuntimeWorkerProcessExit {
    pub worker_id: String,
    pub success: bool,
    pub code: Option<i32>,
}

/// The model of [`TcpRuntimeWorkerProcessExit`].
#[verifier::ext_equal]
pub struct TcpRuntimeWorkerProcessExitView {
    pub worker_id: Seq<char>,
    pub success: bool,
    pub code: Option<i32>,
}

impl DeepView for TcpRuntimeWorkerProcessExit {
    type V = TcpRuntimeWorkerProcessExitView;

    open spec fn deep_view(&self) -> TcpRuntimeWorkerProcessExitView {
        TcpRuntimeWorkerProcessExitView {
            worker_id: self.worker_id@,
            success: self.success,
            code: self.code,
        }
    }
}

impl Clone for TcpRuntimeWorkerProcessExit {
    fn clone(&self) -> (r: Self)
        ensures
            r.deep_view() == self.deep_view(),
    {
        TcpRuntimeWorkerProcessExit {
            worker_id: self.worker_id.clone(),
            success: self.success,
            code: self.code,
        }
    }
}

/// State of a worker process.
#[derive(Debug, PartialEq, Eq)]
pub struct TcpRuntimeWorkerProcessTelemetry {
    pub worker_id: String,
    pub endpoint: String,
    pub running: bool,
    pub exit: Option<TcpRuntimeWorkerProcessExit>,
}

/// The model of [`TcpRuntimeWorkerProcessTelemetry`].
#[verifier::ext_equal]
pub struct TcpRuntimeWorkerProcessTelemetryView {
    pub worker_id: Seq<char>,
    pub endpoint: Seq<char>,
    pub running: bool,
    pub exit: Option<TcpRuntimeWorkerProcessExitView>,
}

impl DeepView for TcpRuntimeWorkerProcessTelemetry {
    type V = TcpRuntimeWorkerProcessTelemetryView;

    open spec fn deep_view(&self) -> TcpRuntimeWorkerProcessTelemetryView {
        TcpRuntimeWorkerProcessTelemetryView {
            worker_id: self.worker_id@,
            endpoint: self.endpoint@,
            running: self.running,
            exit: self.exit.deep_view(),
        }
    }
}

impl Clone for TcpRuntimeWorkerProcessTelemetry {
    fn clone(&self) -> (r: Self)
        ensures
            r.deep_view() == self.deep_view(),
    {
        let r = TcpRuntimeWorkerProcessTelemetry {
            worker_id: self.worker_id.clone(),
            endpoint: self.endpoint.clone(),
            running: self.running,
            exit: self.exit.clone(),
        };
        proof {
            assert(r.exit.deep_view() =~= self.exit.deep_view());
        }
        r
    }
}

/// The latest checkpoint of a supervised runtime.
#[derive(Debug, PartialEq, Eq)]
pub struct TcpRuntimeSupervisorCheckpointTelemetry {
    pub event: Option<RuntimeCheckpointEvent>,
    pub checkpoint: RuntimeCheckpoint,
}

/// The model of [`TcpRuntimeSupervisorCheckpointTelemetry`].
#[verifier::ext_equal]
pub struct TcpRuntimeSupervisorCheckpointTelemetryView {
    pub event: Option<RuntimeCheckpointEvent>,
    pub checkpoint: RuntimeCheckpointView,
}

impl DeepView for TcpRuntimeSupervisorCheckpointTelemetry {
    type V = TcpRuntimeSupervisorCheckpointTelemetryView;

    open spec fn deep_view(&self) -> TcpRuntimeSupervisorCheckpointTelemetryView {
        TcpRuntimeSupervisorCheckpointTelemetryView {
            event: self.event,
            checkpoint: self.checkpoint.deep_view(),
        }
    }
}

impl Clone for TcpRuntimeSupervisorCheckpointTelemetry {
    fn clone(&self) -> (r: Self)
        ensures
            r.deep_view() == self.deep_view(),
    {
        TcpRuntimeSupervisorCheckpointTelemetry {
            event: self.event,
            checkpoint: self.checkpoint.clone(),
        }
    }
}

/// What a supervised recovery did.
#[derive(Debug, PartialEq, Eq)]
pub struct TcpRuntimeSupervisorRecoveryReport {
    pub restarted_workers: Vec<TcpRuntimeWorkerProcessExit>,
    pub runtime_recovery: RuntimeRecoveryReport,
}

/// The model of [`TcpRuntimeSupervisorRecoveryReport`].
#[verifier::ext_equal]
pub struct TcpRuntimeSupervisorRecoveryReportView {
    pub restarted_workers: Seq<TcpRuntimeWorkerProcessExitView>,
    pub runtime_recovery: RuntimeRecoveryReportView,
}

impl DeepView for TcpRuntimeSupervisorRecoveryReport {
    type V = TcpRuntimeSupervisorRecoveryReportView;

    open spec fn deep_view(&self) -> TcpRuntimeSupervisorRecoveryReportView {
        TcpRuntimeSupervisorRecoveryReportView {
            restarted_workers: self.restarted_workers.deep_view(),
            runtime_recovery: self.runtime_recovery.deep_view(),
        }
    }
}

impl Clone for TcpRuntimeSupervisorRecoveryReport {
    fn clone(&self) -> (r: Self)
        ensures
            r.deep_view() == self.deep_view(),
    {
        let r = TcpRuntimeSupervisorRecoveryReport {
            restarted_workers: self.restarted_workers.clone(),
            runtime_recovery: self.runtime_recovery.clone(),
        };
        proof {
            assert(r.restarted_workers.deep_view() =~= self.restarted_workers.deep_view());
        }
        r
    }
}

/// Telemetry of a supervised runtime.
#[derive(Debug, PartialEq, Eq)]
pub struct TcpRuntimeSupervisorTelemetry {
    pub format_version: u32,
    pub module_name: String,
    pub topology: RuntimeTopology,
    pub surrogate_attachment: Option<RuntimeSurrogateAttachment>,
    pub surrogate_execution: Option<RuntimeSurrogateExecutionReport>,
    pub endpoints: Vec<RuntimeTcpEndpoint>,
    pub processes: Vec<TcpRuntimeWorkerProcessTelemetry>,
    pub runtime_stats: RuntimeStats,
    pub runtime_health: Option<RuntimeHealthReport>,
    pub runtime_health_error: Option<ErrorReport>,
    pub latest_checkpoint: Option<TcpRuntimeSupervisorCheckpointTelemetry>,
    pub last_recovery: Option<TcpRuntimeSupervisorRecoveryReport>,
}

/// The model of [`TcpRuntimeSupervisorTelemetry`].
#[verifier::ext_equal]
pub struct TcpRuntimeSupervisorTelemetryView {
    pub format_version: u32,
    pub module_name: Seq<char>,
    pub topology: RuntimeTopologyView,
    pub surrogate_attachment: Option<RuntimeSurrogateAttachmentView>,
    pub surrogate_execution: Option<RuntimeSurrogateExecutionReportView>,
    pub endpoints: Seq<RuntimeTcpEndpointView>,
    pub processes: Seq<TcpRuntimeWorkerProcessTelemetryView>,
    pub runtime_stats: RuntimeStatsView,
    pub runtime_health: Option<RuntimeHealthReportView>,
    pub runtime_health_error: Option<ErrorReportView>,
    pub latest_checkpoint: Option<TcpRuntimeSupervisorCheckpointTelemetryView>,
    pub last_recovery: Option<TcpRuntimeSupervisorRecoveryReportView>,
}

impl DeepView for TcpRuntimeSupervisorTelemetry {
    type V = TcpRuntimeSupervisorTelemetryView;

    open spec fn deep_view(&self) -> TcpRuntimeSupervisorTelemetryView {
        TcpRuntimeSupervisorTelemetryView {
            format_version: self.format_version,
            module_name: self.module_name@,
            topology: self.topology.deep_view(),
            surrogate_attachment: self.surrogate_attachment.deep_view(),
            surrogate_execution: self.surrogate_execution.deep_view(),
            endpoints: self.endpoints.deep_view(),
            processes: self.processes.deep_view(),
            runtime_stats: self.runtime_stats.deep_view(),
            runtime_health: self.runtime_health.deep_view(),
            runtime_health_error: self.runtime_health_error.deep_view(),
            latest_checkpoint: self.latest_checkpoint.deep_view(),
            last_recovery: self.last_recovery.deep_view(),
        }
    }
}

impl Clone for TcpRuntimeSupervisorTelemetry {
    fn clone(&self) -> (r: Self)
        ensures
            r.deep_view() == self.deep_view(),
    {
        let r = TcpRuntimeSupervisorTelemetry {
            format_version: self.format_version,
            module_name: self.module_name.clone(),
            topology: self.topology.clone(),
            surrogate_attachment: self.surrogate_attachment.clone(),
            surrogate_execution: self.surrogate_execution.clone(),
            endpoints: self.endpoints.clone(),
            processes: self.processes.clone(),
            runtime_stats: self.runtime_stats.clone(),
            runtime_health: self.runtime_health.clone(),
            runtime_health_error: self.runtime_health_error.clone(),
            latest_checkpoint: self.latest_checkpoint.clone(),
            last_recovery: self.last_recovery.clone(),
        };
        proof {
            assert(r.surrogate_attachment.deep_view() =~= self.surrogate_attachment.deep_view());
            assert(r.surrogate_execution.deep_view() =~= self.surrogate_execution.deep_view());
            assert(r.endpoints.deep_view() =~= self.endpoints.deep_view());
            assert(r.processes.deep_view() =~= self.processes.deep_view());
            assert(r.runtime_health.deep_view() =~= self.runtime_health.deep_view());
            assert(r.runtime_health_error.deep_view() =~= self.runtime_health_error.deep_view());
            assert(r.latest_checkpoint.deep_view() =~= self.latest_checkpoint.deep_view());
            assert(r.last_recovery.deep_view() =~= self.last_recovery.deep_view());
        }
        r
    }
}

} // verus!

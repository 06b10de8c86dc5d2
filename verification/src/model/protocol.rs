//! Requests to workers, their responses, and what a worker asks of its engine.

use vstd::prelude::*;

use crate::model::design::{CompiledDesign, Signal};
use crate::model::runtime::{
    RuntimeShardSnapshot, RuntimeShardSnapshotView, RuntimeShardStats, RuntimeShardStatsView,
    RuntimeWorkerHealth, RuntimeWorkerHealthView,
};
use crate::model::session::{
    RuntimePartitionRouteMailboxReport, RuntimePartitionRouteMailboxReportView,
    RuntimePartitionRoutePayload, RuntimePartitionWorkerAction,
    RuntimePartitionWorkerActionReport, RuntimePartitionWorkerActionReportView,
    RuntimePartitionWorkerHealth, RuntimePartitionWorkerHealthView, RuntimePartitionWorkerInit,
};
use crate::model::topology::{RuntimeBackend, RuntimeShardInfo};
use crate::operations::RuntimeShardAction;

verus! {

/// What a worker needs to start a shard.
#[derive(Debug, PartialEq, Eq)]
pub struct RuntimeShardInit {
    pub design: CompiledDesign,
    pub module_name: String,
    pub shard: RuntimeShardInfo,
    pub backend: RuntimeBackend,
}

/// A request to a worker.
#[derive(Debug, PartialEq, Eq)]
pub enum RuntimeWorkerRequest {
    InitShard(RuntimeShardInit),
    InitPartitionWorker(RuntimePartitionWorkerInit),
    RunPartitionWorkerAction(RuntimePartitionWorkerAction),
    StorePartitionRouteOutbound { worker_id: String, payload: RuntimePartitionRoutePayload },
    DeliverPartitionRouteInbound { worker_id: String, payload: RuntimePartitionRoutePayload },
    PartitionRouteMailbox { worker_id: String },
    ClearPartitionRouteMailboxes { worker_id: String },
    Health { worker_id: String },
    PartitionWorkerHealth { worker_id: String },
    SetInput { worker_id: String, signal: Signal, lane_values: Vec<u128> },
    SetInputLimbs { worker_id: String, signal: Signal, lane_values: Vec<Vec<u32>> },
    SetMemoryLimbs { worker_id: String, memory: Signal, lane_words: Vec<Vec<Vec<u32>>> },
    EvalCombinational { worker_id: String },
    Tick { worker_id: String },
    TickMany { worker_id: String, steps: usize },
    GetSignalLimbs { worker_id: String, signal: Signal },
    GetMemoryLimbs { worker_id: String, memory: Signal },
    Snapshot { worker_id: String },
    RestoreSnapshot { worker_id: String, snapshot: RuntimeShardSnapshot },
    Stats { worker_id: String },
    ResetStats { worker_id: String },
}

/// The response of a worker.
#[derive(Debug, PartialEq, Eq)]
pub enum RuntimeWorkerResponse {
    Ack,
    Health(RuntimeWorkerHealth),
    PartitionWorkerHealth(RuntimePartitionWorkerHealth),
    PartitionWorkerAction(RuntimePartitionWorkerActionReport),
    PartitionRouteMailbox(RuntimePartitionRouteMailboxReport),
    SignalLimbs(Vec<Vec<u32>>),
    MemoryLimbs(Vec<Vec<Vec<u32>>>),
    Snapshot(RuntimeShardSnapshot),
    Stats(RuntimeShardStats),
}

/// The model of [`RuntimeWorkerResponse`].
#[verifier::ext_equal]
pub enum RuntimeWorkerResponseView {
    Ack,
    Health(RuntimeWorkerHealthView),
    PartitionWorkerHealth(RuntimePartitionWorkerHealthView),
    PartitionWorkerAction(RuntimePartitionWorkerActionReportView),
    PartitionRouteMailbox(RuntimePartitionRouteMailboxReportView),
    SignalLimbs(Seq<Seq<u32>>),
    MemoryLimbs(Seq<Seq<Seq<u32>>>),
    Snapshot(RuntimeShardSnapshotView),
    Stats(RuntimeShardStatsView),
}

impl DeepView for RuntimeWorkerResponse {
    type V = RuntimeWorkerResponseView;

    open spec fn deep_view(&self) -> RuntimeWorkerResponseView {
        match self {
            RuntimeWorkerResponse::Ack => RuntimeWorkerResponseView::Ack,
            RuntimeWorkerResponse::Health(h) => RuntimeWorkerResponseView::Health(h.deep_view()),
            RuntimeWorkerResponse::PartitionWorkerHealth(h) =>
                RuntimeWorkerResponseView::PartitionWorkerHealth(h.deep_view()),
            RuntimeWorkerResponse::PartitionWorkerAction(a) =>
                RuntimeWorkerResponseView::PartitionWorkerAction(a.deep_view()),
            RuntimeWorkerResponse::PartitionRouteMailbox(m) =>
                RuntimeWorkerResponseView::PartitionRouteMailbox(m.deep_view()),
            RuntimeWorkerResponse::SignalLimbs(v) => RuntimeWorkerResponseView::SignalLimbs(
                v.deep_view(),
            ),
            RuntimeWorkerResponse::MemoryLimbs(v) => RuntimeWorkerResponseView::MemoryLimbs(
                v.deep_view(),
            ),
            RuntimeWorkerResponse::Snapshot(s) => RuntimeWorkerResponseView::Snapshot(
                s.deep_view(),
            ),
            RuntimeWorkerResponse::Stats(s) => RuntimeWorkerResponseView::Stats(s.deep_view()),
        }
    }
}

/// What a worker asks of the engine that simulates a shard.
#[derive(Debug, PartialEq, Eq)]
pub enum RuntimeEngineCall {
    /// Lower the module of a shard to a program.
    Lower(RuntimeShardInit),
    /// Start the engine of a shard with the lowered program.
    Start(RuntimeShardInit),
    SetInput { worker_id: String, signal: Signal, lane_values: Vec<u128> },
    SetInputLimbs { worker_id: String, signal: Signal, lane_values: Vec<Vec<u32>> },
    SetMemoryLimbs { worker_id: String, memory: Signal, lane_words: Vec<Vec<Vec<u32>>> },
    Execute { worker_id: String, action: RuntimeShardAction },
    GetSignalLimbs { worker_id: String, signal: Signal },
    GetMemoryLimbs { worker_id: String, memory: Signal },
    ReadStorage { worker_id: String },
    WriteStorage { worker_id: String, values: Vec<u32>, memories: Vec<u32> },
}

/// What an engine hands back when a call succeeds.
#[derive(Debug, PartialEq, Eq)]
pub enum RuntimeEngineValue {
    Done,
    SignalLimbs(Vec<Vec<u32>>),
    MemoryLimbs(Vec<Vec<Vec<u32>>>),
    Storage { values: Vec<u32>, memories: Vec<u32> },
}

/// What a worker does next: respond, or ask its engine first.
#[derive(Debug, PartialEq, Eq)]
pub enum RuntimeWorkerStep {
    Respond(RuntimeWorkerResponse),
    Engine(RuntimeEngineCall),
}

} // verus!

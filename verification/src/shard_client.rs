//! Shards that a worker elsewhere simulates: what it is asked, and what is made of its responses.

use vstd::prelude::*;

use crate::error::{fails_with, ErrorReport, ErrorReportView};
use crate::model::autotune::{RuntimeMemoryLimbs, RuntimeSignalLimbs, RuntimeSignalValue};
use crate::model::protocol::{
    RuntimeWorkerRequest, RuntimeWorkerResponse, RuntimeWorkerResponseView,
};
use crate::model::runtime::{RuntimeShardSnapshot, RuntimeShardSnapshotView, RuntimeWorkerHealth};
use crate::operations::RuntimeShardAction;
use crate::responses::{unexpected_report, unexpected_worker_response};
use crate::runtime_storage::{RuntimeShardStorage, RuntimeShardStorageView};

verus! {

// ---------------------------------------------------------------------------
// Requests
// ---------------------------------------------------------------------------

/// The request that lets the shard of a worker act.
pub fn action_request(worker_id: String, action: RuntimeShardAction) -> (r: RuntimeWorkerRequest)
    ensures
        r == (match action {
            RuntimeShardAction::EvalCombinational => RuntimeWorkerRequest::EvalCombinational {
                worker_id,
            },
            RuntimeShardAction::Tick => RuntimeWorkerRequest::Tick { worker_id },
            RuntimeShardAction::TickMany(steps) => RuntimeWorkerRequest::TickMany {
                worker_id,
                steps,
            },
        }),
{
    match action {
        RuntimeShardAction::EvalCombinational => RuntimeWorkerRequest::EvalCombinational {
            worker_id,
        },
        RuntimeShardAction::Tick => RuntimeWorkerRequest::Tick { worker_id },
        RuntimeShardAction::TickMany(steps) => RuntimeWorkerRequest::TickMany { worker_id, steps },
    }
}

/// The request that sets an input of the shard of a worker.
pub fn input_request(worker_id: String, part: RuntimeSignalValue) -> (r: RuntimeWorkerRequest)
    ensures
        r == (RuntimeWorkerRequest::SetInput {
            worker_id,
            signal: part.signal,
            lane_values: part.lane_values,
        }),
{
    RuntimeWorkerRequest::SetInput {
        worker_id,
        signal: part.signal,
        lane_values: part.lane_values,
    }
}

/// The request that sets a wide input of the shard of a worker.
pub fn input_limbs_request(worker_id: String, part: RuntimeSignalLimbs) -> (r: RuntimeWorkerRequest)
    ensures
        r == (RuntimeWorkerRequest::SetInputLimbs {
            worker_id,
            signal: part.signal,
            lane_values: part.lane_values,
        }),
{
    RuntimeWorkerRequest::SetInputLimbs {
        worker_id,
        signal: part.signal,
        lane_values: part.lane_values,
    }
}

/// The request that sets a memory of the shard of a worker.
pub fn memory_limbs_request(worker_id: String, part: RuntimeMemoryLimbs) -> (r:
    RuntimeWorkerRequest)
    ensures
        r == (RuntimeWorkerRequest::SetMemoryLimbs {
            worker_id,
            memory: part.memory,
            lane_words: part.lane_words,
        }),
{
    RuntimeWorkerRequest::SetMemoryLimbs {
        worker_id,
        memory: part.memory,
        lane_words: part.lane_words,
    }
}

/// What is wrong with a response that should count what a shard did.
pub open spec fn stats_response_problem(response: RuntimeWorkerResponseView) -> Option<
    ErrorReportView,
> {
    match response {
        RuntimeWorkerResponseView::Stats(_) => None,
        _ => Some(unexpected_report("Stats"@, response)),
    }
}

/// The request that lets the engine of a worker go back to what was stored. The worker is asked
/// for its counts first, for they say which shard it has.
pub fn restore_storage(
    worker_id: String,
    stats: RuntimeWorkerResponse,
    storage: RuntimeShardStorage,
) -> (r: Result<RuntimeWorkerRequest, ErrorReport>)
    ensures
        fails_with(r, stats_response_problem(stats.deep_view())),
        r matches Ok(request) ==> {
            &&& request matches RuntimeWorkerRequest::RestoreSnapshot { worker_id: asked, snapshot }
            &&& asked == worker_id
            &&& snapshot.deep_view() == (RuntimeShardSnapshotView {
                shard: stats.deep_view()->Stats_0.shard,
                values: storage.values@,
                memories: storage.memories@,
            })
        },
{
    match stats {
        RuntimeWorkerResponse::Stats(found) => Ok(
            RuntimeWorkerRequest::RestoreSnapshot {
                worker_id,
                snapshot: RuntimeShardSnapshot {
                    shard: found.shard,
                    values: storage.values,
                    memories: storage.memories,
                },
            },
        ),
        other => Err(unexpected_worker_response("Stats", &other)),
    }
}

// ---------------------------------------------------------------------------
// Responses
// ---------------------------------------------------------------------------

/// What is wrong with a response that should say how a worker is.
pub open spec fn worker_health_problem(response: RuntimeWorkerResponseView) -> Option<
    ErrorReportView,
> {
    match response {
        RuntimeWorkerResponseView::Health(_) => None,
        _ => Some(unexpected_report("Health"@, response)),
    }
}

/// Takes how a worker is out of its response.
pub fn expect_worker_health(response: RuntimeWorkerResponse) -> (r: Result<
    RuntimeWorkerHealth,
    ErrorReport,
>)
    ensures
        fails_with(r, worker_health_problem(response.deep_view())),
        r matches Ok(found) ==> response.deep_view() == RuntimeWorkerResponseView::Health(
            found.deep_view(),
        ),
{
    match response {
        RuntimeWorkerResponse::Health(found) => Ok(found),
        other => Err(unexpected_worker_response("Health", &other)),
    }
}

/// What is wrong with a response that should hold the values of a signal.
pub open spec fn signal_response_problem(response: RuntimeWorkerResponseView) -> Option<
    ErrorReportView,
> {
    match response {
        RuntimeWorkerResponseView::SignalLimbs(_) => None,
        _ => Some(unexpected_report("GetSignalLimbs"@, response)),
    }
}

/// Takes the values of a signal out of a response.
pub fn expect_signal_limbs(response: RuntimeWorkerResponse) -> (r: Result<
    Vec<Vec<u32>>,
    ErrorReport,
>)
    ensures
        fails_with(r, signal_response_problem(response.deep_view())),
        r matches Ok(values) ==> response.deep_view() == RuntimeWorkerResponseView::SignalLimbs(
            values.deep_view(),
        ),
{
    match response {
        RuntimeWorkerResponse::SignalLimbs(values) => Ok(values),
        other => Err(unexpected_worker_response("GetSignalLimbs", &other)),
    }
}

/// What is wrong with a response that should hold the words of a memory.
pub open spec fn memory_response_problem(response: RuntimeWorkerResponseView) -> Option<
    ErrorReportView,
> {
    match response {
        RuntimeWorkerResponseView::MemoryLimbs(_) => None,
        _ => Some(unexpected_report("GetMemoryLimbs"@, response)),
    }
}

/// Takes the words of a memory out of a response.
pub fn expect_memory_limbs(response: RuntimeWorkerResponse) -> (r: Result<
    Vec<Vec<Vec<u32>>>,
    ErrorReport,
>)
    ensures
        fails_with(r, memory_response_problem(response.deep_view())),
        r matches Ok(words) ==> response.deep_view() == RuntimeWorkerResponseView::MemoryLimbs(
            words.deep_view(),
        ),
{
    match response {
        RuntimeWorkerResponse::MemoryLimbs(words) => Ok(words),
        other => Err(unexpected_worker_response("GetMemoryLimbs", &other)),
    }
}

/// What is wrong with a response that should hold what an engine stores.
pub open spec fn snapshot_response_problem(response: RuntimeWorkerResponseView) -> Option<
    ErrorReportView,
> {
    match response {
        RuntimeWorkerResponseView::Snapshot(_) => None,
        _ => Some(unexpected_report("Snapshot"@, response)),
    }
}

/// Takes what the engine of a worker stores out of a response.
pub fn snapshot_storage(response: RuntimeWorkerResponse) -> (r: Result<
    RuntimeShardStorage,
    ErrorReport,
>)
    ensures
        fails_with(r, snapshot_response_problem(response.deep_view())),
        r matches Ok(storage) ==> storage.deep_view() == (RuntimeShardStorageView {
            values: response.deep_view()->Snapshot_0.values,
            memories: response.deep_view()->Snapshot_0.memories,
        }),
{
    match response {
        RuntimeWorkerResponse::Snapshot(found) => Ok(
            RuntimeShardStorage { values: found.values, memories: found.memories },
        ),
        other => Err(unexpected_worker_response("Snapshot", &other)),
    }
}

} // verus!

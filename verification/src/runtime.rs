//! A runtime that spreads independent lanes over workers. It keeps the shards, their counters
//! and what surrogates report; the engines that simulate the lanes are stepped from outside.

use vstd::prelude::*;

use crate::collect::{build_items, check_each};
use crate::error::{error, fails_with, report, ErrorReport, ErrorReportView};
use crate::ids::{find_last_named, last_named};
use crate::model::design::{Signal, Width};
use crate::model::runtime::{
    DistributedRuntimeOptions, RuntimeExecutionMode, RuntimeOperationStats, RuntimeTcpEndpoint,
    RuntimeTcpEndpointView,
};
use crate::model::surrogate::{
    RuntimeSurrogateAttachment, RuntimeSurrogateAttachmentView, RuntimeSurrogateExecutionReport,
    RuntimeSurrogateExecutionReportView,
};
use crate::model::topology::{
    RuntimeBackend, RuntimeShardInfo, RuntimeShardInfoView, RuntimeTopology, RuntimeTopologyView, RuntimeWorker,
    RuntimeWorkerView,
};
use crate::operations::no_operations;
use crate::seqs::{first_problem, lemma_sum_by_push, or_problem, sum_by};
use crate::service::{scalar_lanes_problem, validate_scalar_lanes};
use crate::topology::{local_worker, shards_of, total_lanes};

verus! {

/// A memory of a program.
#[derive(Clone, Copy, Debug, PartialEq, Eq, Structural)]
pub struct RuntimeMemory {
    pub source: Signal,
    pub width: Width,
}

impl DeepView for RuntimeMemory {
    type V = RuntimeMemory;

    open spec fn deep_view(&self) -> RuntimeMemory {
        *self
    }
}

/// What a runtime needs to know of the program that its engines run.
#[derive(Debug, PartialEq, Eq)]
pub struct RuntimeProgram {
    pub top: String,
    pub total_signal_words: usize,
    pub total_memory_words_per_lane: usize,
    pub memories: Vec<RuntimeMemory>,
}

/// The model of [`RuntimeProgram`].
#[verifier::ext_equal]
pub struct RuntimeProgramView {
    pub top: Seq<char>,
    pub total_signal_words: usize,
    pub total_memory_words_per_lane: usize,
    pub memories: Seq<RuntimeMemory>,
}

impl DeepView for RuntimeProgram {
    type V = RuntimeProgramView;

    open spec fn deep_view(&self) -> RuntimeProgramView {
        RuntimeProgramView {
            top: self.top@,
            total_signal_words: self.total_signal_words,
            total_memory_words_per_lane: self.total_memory_words_per_lane,
            memories: self.memories@,
        }
    }
}

/// The lanes of one worker, and what was counted there.
#[derive(Debug, PartialEq, Eq)]
pub struct RuntimeShard {
    pub info: RuntimeShardInfo,
    pub operations: RuntimeOperationStats,
}

/// The model of [`RuntimeShard`].
#[verifier::ext_equal]
pub struct RuntimeShardView {
    pub info: RuntimeShardInfoView,
    pub operations: RuntimeOperationStats,
}

impl DeepView for RuntimeShard {
    type V = RuntimeShardView;

    open spec fn deep_view(&self) -> RuntimeShardView {
        RuntimeShardView { info: self.info.deep_view(), operations: self.operations }
    }
}

/// A runtime over the lanes of all workers of a topology.
#[derive(Debug, PartialEq, Eq)]
pub struct DistributedRuntime {
    pub total_lanes: usize,
    pub program: RuntimeProgram,
    pub shards: Vec<RuntimeShard>,
    pub options: DistributedRuntimeOptions,
    pub operations: RuntimeOperationStats,
    pub surrogate_attachment: Option<RuntimeSurrogateAttachment>,
    pub surrogate_execution: Option<RuntimeSurrogateExecutionReport>,
}

/// The model of [`DistributedRuntime`].
#[verifier::ext_equal]
pub struct DistributedRuntimeView {
    pub total_lanes: usize,
    pub program: RuntimeProgramView,
    pub shards: Seq<RuntimeShardView>,
    pub options: DistributedRuntimeOptions,
    pub operations: RuntimeOperationStats,
    pub surrogate_attachment: Option<RuntimeSurrogateAttachmentView>,
    pub surrogate_execution: Option<RuntimeSurrogateExecutionReportView>,
}

impl DeepView for DistributedRuntime {
    type V = DistributedRuntimeView;

    open spec fn deep_view(&self) -> DistributedRuntimeView {
        DistributedRuntimeView {
            total_lanes: self.total_lanes,
            program: self.program.deep_view(),
            shards: self.shards.deep_view(),
            options: self.options,
            operations: self.operations,
            surrogate_attachment: self.surrogate_attachment.deep_view(),
            surrogate_execution: self.surrogate_execution.deep_view(),
        }
    }
}

/// The lane ranges of shards.
pub open spec fn infos_of(shards: Seq<RuntimeShardView>) -> Seq<RuntimeShardInfoView> {
    Seq::new(shards.len(), |i: int| shards[i].info)
}

/// The worker of a shard.
pub open spec fn worker_of(info: RuntimeShardInfoView) -> RuntimeWorkerView {
    RuntimeWorkerView {
        id: info.worker_id,
        node: info.node,
        backend: info.backend,
        lanes: info.lanes,
    }
}

/// The workers of shards.
pub open spec fn workers_of(shards: Seq<RuntimeShardView>) -> Seq<RuntimeWorkerView> {
    Seq::new(shards.len(), |i: int| worker_of(shards[i].info))
}

/// What holds of a runtime at all times: its shards own all lanes, one behind the other.
pub open spec fn lanes_in_order(runtime: DistributedRuntimeView) -> bool {
    &&& infos_of(runtime.shards) == shards_of(workers_of(runtime.shards))
    &&& runtime.total_lanes == total_lanes(workers_of(runtime.shards))
}

// ---------------------------------------------------------------------------
// Starting
// ---------------------------------------------------------------------------

/// Whether a worker owns no lane.
pub open spec fn idle_worker(workers: Seq<RuntimeWorkerView>) -> spec_fn(int) -> Option<
    ErrorReportView,
> {
    |i: int|
        if workers[i].lanes == 0 {
            Some(report("E_RUNTIME_LANES"@, "runtime workers must own at least one lane"@))
        } else {
            None
        }
}

/// What is wrong with a topology, before a program is known.
pub open spec fn runtime_topology_problem(topology: RuntimeTopologyView) -> Option<
    ErrorReportView,
> {
    if topology.workers.len() == 0 {
        Some(
            report(
                "E_RUNTIME_TOPOLOGY"@,
                "distributed runtime requires at least one worker"@,
            ),
        )
    } else {
        first_problem(topology.workers.len(), idle_worker(topology.workers))
    }
}

/// Checks that a topology has workers, and that all own lanes.
pub fn validate_runtime_topology(topology: &RuntimeTopology) -> (r: Result<(), ErrorReport>)
    ensures
        fails_with(r, runtime_topology_problem(topology.deep_view())),
{
    let ghost workers = topology.deep_view().workers;
    let ghost idle = idle_worker(workers);
    if topology.workers.len() == 0 {
        return Err(
            error("E_RUNTIME_TOPOLOGY", "distributed runtime requires at least one worker"),
        );
    }
    check_each(
        topology.workers.len(),
        |i: usize| -> (y: Result<(), ErrorReport>)
            requires
                i < topology.workers@.len(),
                idle == idle_worker(topology.deep_view().workers),
            ensures
                fails_with(y, idle(i as int))
            {
                proof {
                    assert(topology.deep_view().workers[i as int]
                        == topology.workers@[i as int].deep_view());
                }
                if topology.workers[i].lanes == 0 {
                    Err(error("E_RUNTIME_LANES", "runtime workers must own at least one lane"))
                } else {
                    Ok(())
                }
            },
        Ghost(idle),
    )
}

/// How the start of an engine failed.
pub open spec fn failure(started: Result<(), ErrorReport>) -> Option<ErrorReportView> {
    match started {
        Ok(_) => None,
        Err(e) => Some(e.deep_view()),
    }
}

/// Whether the backend of a worker takes its lanes, and its engine started.
pub open spec fn engine_problem(
    workers: Seq<RuntimeWorkerView>,
    engines: Seq<Result<(), ErrorReport>>,
) -> spec_fn(int) -> Option<ErrorReportView> {
    |i: int|
        or_problem(
            scalar_lanes_problem(workers[i].backend, workers[i].lanes),
            failure(engines[i]),
        )
}

/// Whether the worker of a shard took it.
pub open spec fn worker_start_problem(engines: Seq<Result<(), ErrorReport>>) -> spec_fn(
    int,
) -> Option<ErrorReportView> {
    |i: int| failure(engines[i])
}

/// Whether a worker can be reached, and took its shard.
pub open spec fn remote_start_problem(
    workers: Seq<RuntimeWorkerView>,
    endpoints: Seq<RuntimeTcpEndpointView>,
    engines: Seq<Result<(), ErrorReport>>,
) -> spec_fn(int) -> Option<ErrorReportView> {
    |i: int|
        if last_named::<RuntimeTcpEndpoint>(endpoints, workers[i].id) is None {
            Some(missing_endpoint(workers[i].id))
        } else {
            failure(engines[i])
        }
}

/// That a worker has no endpoint.
pub open spec fn missing_endpoint(worker: Seq<char>) -> ErrorReportView {
    report(
        "E_RUNTIME_TCP_ENDPOINT"@,
        "missing TCP endpoint for worker `"@ + worker + "`"@,
    )
}

pub(crate) fn missing_endpoint_error(worker: &str) -> (r: ErrorReport)
    ensures
        r.deep_view() == missing_endpoint(worker@),
{
    let mut message = "missing TCP endpoint for worker `".to_owned();
    message.append(worker);
    message.append("`");
    error("E_RUNTIME_TCP_ENDPOINT", message.as_str())
}

pub(crate) fn repeat_failure(started: &Result<(), ErrorReport>) -> (r: Result<(), ErrorReport>)
    ensures
        fails_with(r, failure(*started)),
{
    match started {
        Ok(_) => Ok(()),
        Err(e) => Err(e.clone()),
    }
}

/// What keeps a runtime from starting: its topology, its program, or the first worker that
/// `start` fails on.
pub open spec fn start_problem(
    topology: RuntimeTopologyView,
    lowered: Result<RuntimeProgram, ErrorReport>,
    start: spec_fn(int) -> Option<ErrorReportView>,
) -> Option<ErrorReportView> {
    or_problem(
        runtime_topology_problem(topology),
        match lowered {
            Err(e) => Some(e.deep_view()),
            Ok(_) => first_problem(topology.workers.len(), start),
        },
    )
}

/// A shard that was not stepped yet.
pub open spec fn fresh_shard(info: RuntimeShardInfoView) -> RuntimeShardView {
    RuntimeShardView { info, operations: no_operations() }
}

/// A runtime that was not stepped yet.
pub open spec fn fresh_runtime(
    program: RuntimeProgramView,
    topology: RuntimeTopologyView,
    options: DistributedRuntimeOptions,
) -> DistributedRuntimeView {
    DistributedRuntimeView {
        total_lanes: total_lanes(topology.workers) as usize,
        program,
        shards: Seq::new(
            topology.workers.len(),
            |i: int| fresh_shard(shards_of(topology.workers)[i]),
        ),
        options,
        operations: no_operations(),
        surrogate_attachment: None,
        surrogate_execution: None,
    }
}

impl Default for RuntimeExecutionMode {
    fn default() -> (r: Self)
        ensures
            r == RuntimeExecutionMode::Serial,
    {
        RuntimeExecutionMode::Serial
    }
}

impl Default for DistributedRuntimeOptions {
    fn default() -> (r: Self)
        ensures
            r == (DistributedRuntimeOptions { execution_mode: RuntimeExecutionMode::Serial }),
    {
        DistributedRuntimeOptions { execution_mode: RuntimeExecutionMode::default() }
    }
}

impl DistributedRuntime {
    fn assemble(
        program: RuntimeProgram,
        topology: &RuntimeTopology,
        options: DistributedRuntimeOptions,
    ) -> (r: Self)
        requires
            total_lanes(topology.deep_view().workers) <= usize::MAX,
        ensures
            r.deep_view() == fresh_runtime(program.deep_view(), topology.deep_view(), options),
            lanes_in_order(r.deep_view()),
    {
        let infos = topology.shard_infos();
        proof {
            assert(infos.deep_view().len() == infos@.len());
        }
        let ghost workers = topology.deep_view().workers;
        let ghost shard = |i: int| fresh_shard(shards_of(workers)[i]);
        let shards = build_items(
            infos.len(),
            |i: usize| -> (y: RuntimeShard)
                requires
                    i < infos@.len(),
                    infos.deep_view() == shards_of(workers),
                    shard == (|i: int| fresh_shard(shards_of(workers)[i])),
                ensures
                    y.deep_view() == shard(i as int)
                {
                    proof {
                        assert(infos.deep_view()[i as int] == infos@[i as int].deep_view());
                    }
                    RuntimeShard {
                        info: infos[i].clone(),
                        operations: RuntimeOperationStats::default(),
                    }
                },
            Ghost(shard),
        );
        let r = DistributedRuntime {
            total_lanes: topology.total_lanes(),
            program,
            shards,
            options,
            operations: RuntimeOperationStats::default(),
            surrogate_attachment: None,
            surrogate_execution: None,
        };
        proof {
            assert(r.deep_view().shards =~= fresh_runtime(
                program.deep_view(),
                topology.deep_view(),
                options,
            ).shards);
            assert(workers_of(r.deep_view().shards) =~= workers);
            assert(infos_of(r.deep_view().shards) =~= shards_of(workers));
        }
        r
    }

    /// A runtime whose shards are stepped one after the other. `lowered` is the program of the
    /// module, or why it has none; `engines` says how the engine of each shard started.
    pub fn new(
        lowered: Result<RuntimeProgram, ErrorReport>,
        topology: &RuntimeTopology,
        engines: &Vec<Result<(), ErrorReport>>,
    ) -> (r: Result<Self, ErrorReport>)
        requires
            engines@.len() == topology.workers@.len(),
            start_problem(
                topology.deep_view(),
                lowered,
                engine_problem(topology.deep_view().workers, engines@),
            ) is None ==> total_lanes(topology.deep_view().workers)
                <= usize::MAX,
        ensures
            fails_with(
                r,
                start_problem(
                    topology.deep_view(),
                    lowered,
                    engine_problem(topology.deep_view().workers, engines@),
                ),
            ),
            r matches Ok(runtime) ==> {
                &&& runtime.deep_view() == fresh_runtime(
                    lowered->Ok_0.deep_view(),
                    topology.deep_view(),
                    DistributedRuntimeOptions { execution_mode: RuntimeExecutionMode::Serial },
                )
                &&& lanes_in_order(runtime.deep_view())
            },
    {
        Self::new_with_options(lowered, topology, DistributedRuntimeOptions::default(), engines)
    }

    /// A runtime with engines of its own. `lowered` is the program of the module, or why it has
    /// none; `engines` says how the engine of each shard started.
    pub fn new_with_options(
        lowered: Result<RuntimeProgram, ErrorReport>,
        topology: &RuntimeTopology,
        options: DistributedRuntimeOptions,
        engines: &Vec<Result<(), ErrorReport>>,
    ) -> (r: Result<Self, ErrorReport>)
        requires
            engines@.len() == topology.workers@.len(),
            start_problem(
                topology.deep_view(),
                lowered,
                engine_problem(topology.deep_view().workers, engines@),
            ) is None ==> total_lanes(topology.deep_view().workers)
                <= usize::MAX,
        ensures
            fails_with(
                r,
                start_problem(
                    topology.deep_view(),
                    lowered,
                    engine_problem(topology.deep_view().workers, engines@),
                ),
            ),
            r matches Ok(runtime) ==> {
                &&& runtime.deep_view() == fresh_runtime(
                    lowered->Ok_0.deep_view(),
                    topology.deep_view(),
                    options,
                )
                &&& lanes_in_order(runtime.deep_view())
            },
    {
        validate_runtime_topology(topology)?;
        let program = lowered?;
        let ghost start = engine_problem(topology.deep_view().workers, engines@);
        check_each(
            topology.workers.len(),
            |i: usize| -> (y: Result<(), ErrorReport>)
                requires
                    i < topology.workers@.len(),
                    engines@.len() == topology.workers@.len(),
                    start == engine_problem(topology.deep_view().workers, engines@),
                ensures
                    fails_with(y, start(i as int))
                {
                    proof {
                        assert(topology.deep_view().workers[i as int]
                            == topology.workers@[i as int].deep_view());
                    }
                    validate_scalar_lanes(
                        topology.workers[i].backend,
                        topology.workers[i].lanes,
                    )?;
                    repeat_failure(&engines[i])
                },
            Ghost(start),
        )?;
        Ok(Self::assemble(program, topology, options))
    }

    /// A runtime whose workers hold the engines. `lowered` is the program of the module, or why it
    /// has none; `engines` says how each worker took its shard.
    pub fn new_loopback_workers(
        lowered: Result<RuntimeProgram, ErrorReport>,
        topology: &RuntimeTopology,
        options: DistributedRuntimeOptions,
        engines: &Vec<Result<(), ErrorReport>>,
    ) -> (r: Result<Self, ErrorReport>)
        requires
            engines@.len() == topology.workers@.len(),
            start_problem(
                topology.deep_view(),
                lowered,
                worker_start_problem(engines@),
            ) is None ==> total_lanes(topology.deep_view().workers)
                <= usize::MAX,
        ensures
            fails_with(
                r,
                start_problem(
                    topology.deep_view(),
                    lowered,
                    worker_start_problem(engines@),
                ),
            ),
            r matches Ok(runtime) ==> {
                &&& runtime.deep_view() == fresh_runtime(
                    lowered->Ok_0.deep_view(),
                    topology.deep_view(),
                    options,
                )
                &&& lanes_in_order(runtime.deep_view())
            },
    {
        validate_runtime_topology(topology)?;
        let program = lowered?;
        let ghost start = worker_start_problem(engines@);
        check_each(
            topology.workers.len(),
            |i: usize| -> (y: Result<(), ErrorReport>)
                requires
                    i < topology.workers@.len(),
                    engines@.len() == topology.workers@.len(),
                    start == worker_start_problem(engines@),
                ensures
                    fails_with(y, start(i as int))
                {
                    proof {
                        assert(topology.deep_view().workers[i as int]
                            == topology.workers@[i as int].deep_view());
                    }
                    repeat_failure(&engines[i])
                },
            Ghost(start),
        )?;
        Ok(Self::assemble(program, topology, options))
    }

    /// A runtime whose workers are reached by their endpoints. `lowered` is the program of the
    /// module, or why it has none; `engines` says how each worker took its shard.
    pub fn new_tcp_workers(
        lowered: Result<RuntimeProgram, ErrorReport>,
        topology: &RuntimeTopology,
        options: DistributedRuntimeOptions,
        endpoints: &Vec<RuntimeTcpEndpoint>,
        engines: &Vec<Result<(), ErrorReport>>,
    ) -> (r: Result<Self, ErrorReport>)
        requires
            engines@.len() == topology.workers@.len(),
            start_problem(
                topology.deep_view(),
                lowered,
                remote_start_problem(
                    topology.deep_view().workers,
                    endpoints.deep_view(),
                    engines@,
                ),
            ) is None ==> total_lanes(topology.deep_view().workers)
                <= usize::MAX,
        ensures
            fails_with(
                r,
                start_problem(
                    topology.deep_view(),
                    lowered,
                    remote_start_problem(
                        topology.deep_view().workers,
                        endpoints.deep_view(),
                        engines@,
                    ),
                ),
            ),
            r matches Ok(runtime) ==> {
                &&& runtime.deep_view() == fresh_runtime(
                    lowered->Ok_0.deep_view(),
                    topology.deep_view(),
                    options,
                )
                &&& lanes_in_order(runtime.deep_view())
            },
    {
        validate_runtime_topology(topology)?;
        let program = lowered?;
        let ghost start = remote_start_problem(
                        topology.deep_view().workers,
                        endpoints.deep_view(),
                        engines@,
                    );
        check_each(
            topology.workers.len(),
            |i: usize| -> (y: Result<(), ErrorReport>)
                requires
                    i < topology.workers@.len(),
                    engines@.len() == topology.workers@.len(),
                    start == remote_start_problem(
                        topology.deep_view().workers,
                        endpoints.deep_view(),
                        engines@,
                    ),
                ensures
                    fails_with(y, start(i as int))
                {
                    proof {
                        assert(topology.deep_view().workers[i as int]
                            == topology.workers@[i as int].deep_view());
                    }
                    if find_last_named(endpoints, topology.workers[i].id.as_str()).is_none() {
                        return Err(missing_endpoint_error(topology.workers[i].id.as_str()));
                    }
                    repeat_failure(&engines[i])
                },
            Ghost(start),
        )?;
        Ok(Self::assemble(program, topology, options))
    }

    /// A runtime on one worker of this machine. `lowered` is the program of the module, or why it
    /// has none; `engine` says how its engine started.
    pub fn local_cpu(
        lowered: Result<RuntimeProgram, ErrorReport>,
        lanes: usize,
        engine: Result<(), ErrorReport>,
    ) -> (r: Result<Self, ErrorReport>)
        ensures
            ({
                let topology = RuntimeTopologyView {
                    workers: seq![local_worker("cpu0"@, RuntimeBackend::PackedCpu, lanes)],
                };
                &&& fails_with(
                    r,
                    start_problem(
                        topology,
                        lowered,
                        engine_problem(topology.workers, seq![engine]),
                    ),
                )
                &&& (r matches Ok(runtime) ==> {
                    &&& runtime.deep_view() == fresh_runtime(
                        lowered->Ok_0.deep_view(),
                        topology,
                        DistributedRuntimeOptions { execution_mode: RuntimeExecutionMode::Serial },
                    )
                    &&& lanes_in_order(runtime.deep_view())
                })
            }),
    {
        let topology = RuntimeTopology::local_cpu(lanes);
        let mut engines: Vec<Result<(), ErrorReport>> = Vec::new();
        engines.push(engine);
        proof {
            let ws = topology.deep_view().workers;
            let count = |w: RuntimeWorkerView| w.lanes as int;
            lemma_sum_by_push(Seq::<RuntimeWorkerView>::empty(), ws[0], count);
            assert(ws =~= Seq::<RuntimeWorkerView>::empty().push(ws[0]));
            assert(sum_by(Seq::<RuntimeWorkerView>::empty(), count) == 0);
            assert(ws.len() == topology.workers@.len());
            assert(engines@ =~= seq![engine]);
        }
        Self::new(lowered, &topology, &engines)
    }

    /// The lanes of all shards.
    pub fn total_lanes(&self) -> (r: usize)
        ensures
            r == self.deep_view().total_lanes,
    {
        self.total_lanes
    }

    /// The program of the engines.
    pub fn program(&self) -> (r: &RuntimeProgram)
        ensures
            r.deep_view() == self.deep_view().program,
    {
        &self.program
    }

    /// The lane ranges of all shards.
    pub fn shard_plan(&self) -> (r: Vec<RuntimeShardInfo>)
        ensures
            r.deep_view() == infos_of(self.deep_view().shards),
    {
        let ghost shards = self.deep_view().shards;
        let ghost info = |i: int| shards[i].info;
        let r = build_items(
            self.shards.len(),
            |i: usize| -> (y: RuntimeShardInfo)
                requires
                    i < self.shards@.len(),
                    shards == self.deep_view().shards,
                    info == (|i: int| shards[i].info),
                ensures
                    y.deep_view() == info(i as int)
                {
                    proof {
                        assert(shards[i as int] == self.shards@[i as int].deep_view());
                    }
                    self.shards[i].info.clone()
                },
            Ghost(info),
        );
        proof {
            assert(r.deep_view() =~= infos_of(shards));
        }
        r
    }

    /// The topology of the shards.
    pub fn runtime_topology(&self) -> (r: RuntimeTopology)
        ensures
            r.deep_view().workers == workers_of(self.deep_view().shards),
    {
        let ghost shards = self.deep_view().shards;
        let ghost worker = |i: int| worker_of(shards[i].info);
        let workers = build_items(
            self.shards.len(),
            |i: usize| -> (y: RuntimeWorker)
                requires
                    i < self.shards@.len(),
                    shards == self.deep_view().shards,
                    worker == (|i: int| worker_of(shards[i].info)),
                ensures
                    y.deep_view() == worker(i as int)
                {
                    proof {
                        assert(shards[i as int] == self.shards@[i as int].deep_view());
                    }
                    let info = &self.shards[i].info;
                    RuntimeWorker {
                        id: info.worker_id.clone(),
                        node: info.node.clone(),
                        backend: info.backend,
                        lanes: info.lanes,
                    }
                },
            Ghost(worker),
        );
        proof {
            assert(workers.deep_view() =~= workers_of(shards));
        }
        RuntimeTopology { workers }
    }
}

} // verus!

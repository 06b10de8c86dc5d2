use rrtl_runtime::autotune::{recommend_runtime_topology, validate_autotune_request};
use rrtl_runtime::autotune_run::{
    RuntimeAutotuneRun, RuntimeAutotuneStep, RuntimeStimulusAction, apply_stimulus_setup,
    apply_stimulus_step,
};
use rrtl_runtime::checkpoint_run::{RuntimeCheckpointRun, RuntimeCheckpointStep};
use rrtl_runtime::error::{ErrorReport, error};
use rrtl_runtime::model::autotune::{
    RuntimeAutotuneCandidate, RuntimeAutotuneConfig, RuntimeAutotuneReport, RuntimeAutotuneStimulus,
    RuntimeMemoryLimbs, RuntimeMemoryValue, RuntimeSignalLimbs, RuntimeSignalValue,
    RuntimeStimulusSetup, RuntimeStimulusStep,
};
use rrtl_runtime::model::design::{CompiledDesign, ModuleId, Signal, SignalId};
use rrtl_runtime::model::protocol::{
    RuntimeEngineCall, RuntimeEngineValue, RuntimeShardInit, RuntimeWorkerRequest,
    RuntimeWorkerResponse, RuntimeWorkerStep,
};
use rrtl_runtime::model::runtime::{
    DistributedRuntimeOptions, RUNTIME_CHECKPOINT_FORMAT_VERSION, RUNTIME_TELEMETRY_FORMAT_VERSION,
    RuntimeCheckpoint, RuntimeCheckpointCadence, RuntimeCheckpointEvent, RuntimeCheckpointReason,
    RuntimeCheckpointRunReport, RuntimeExecutionMode, RuntimeHealthReport, RuntimeOperationStats,
    RuntimeRecoveryReport, RuntimeShardHealthStatus, RuntimeShardSnapshot, RuntimeSnapshot,
    RuntimeStats, RuntimeTcpEndpoint, RuntimeWorkerHealth, TcpRuntimeSupervisorRecoveryReport,
    TcpRuntimeSupervisorTelemetry, TcpRuntimeWorkerProcessExit,
};
use rrtl_runtime::model::topology::{
    GpuBatchOptions, RuntimeBackend, RuntimeShardInfo, RuntimeTopology, RuntimeWorker,
};
use rrtl_runtime::operations::RuntimeShardAction;
use rrtl_runtime::responses::expect_ack;
use rrtl_runtime::runtime::{DistributedRuntime, RuntimeMemory, RuntimeProgram};
use rrtl_runtime::runtime_storage::RuntimeShardStorage;
use rrtl_runtime::service::LocalRuntimeWorkerService;
use rrtl_runtime::shard_client::{
    action_request, expect_memory_limbs, expect_signal_limbs, expect_worker_health,
    input_limbs_request, input_request, memory_limbs_request, restore_storage, snapshot_storage,
};
use rrtl_runtime::supervisor::{TcpRuntimeSupervisor, TcpRuntimeSupervisorHealth};
use rrtl_runtime::transport::{TransportFailure, tcp_io_error};
use rrtl_runtime::worker_process::{
    ProcessStatus, TcpRuntimeWorkerProcess, TcpRuntimeWorkerProcessHealth,
};

// Small engines for a few designs, and a runtime that drives them through the library.

use std::collections::HashMap;

#[derive(Clone, Copy, Debug, PartialEq, Eq)]
enum Top {
    Counter,
    MemoryTop,
    SnapshotTop,
    WideInput,
    WideRuntimeMem,
}

impl Top {
    fn named(name: &str) -> Option<Top> {
        let tops = [
            Top::Counter,
            Top::MemoryTop,
            Top::SnapshotTop,
            Top::WideInput,
            Top::WideRuntimeMem,
        ];
        tops.into_iter().find(|top| format!("{:?}", top) == name)
    }

    /// How many limbs each signal and each memory word takes.
    fn limbs(self) -> usize {
        match self {
            Top::WideInput | Top::WideRuntimeMem => 5,
            _ => 1,
        }
    }

    fn signals(self) -> usize {
        match self {
            Top::Counter => 5,
            Top::MemoryTop => 6,
            Top::SnapshotTop => 8,
            Top::WideInput => 2,
            Top::WideRuntimeMem => 1,
        }
    }

    fn memory(self) -> Option<(Signal, usize)> {
        match self {
            Top::MemoryTop => Some((signal(4), 4)),
            Top::SnapshotTop => Some((signal(6), 4)),
            Top::WideRuntimeMem => Some((signal(0), 2)),
            _ => None,
        }
    }

    fn program(self) -> RuntimeProgram {
        let memories = match self.memory() {
            Some((source, _)) => vec![RuntimeMemory {
                source,
                width: if self.limbs() == 1 { 8 } else { 160 },
            }],
            None => Vec::new(),
        };
        RuntimeProgram {
            top: format!("{:?}", self),
            total_signal_words: self.signals() * self.limbs(),
            total_memory_words_per_lane: self.memory_words(),
            memories,
        }
    }

    fn memory_words(self) -> usize {
        match self.memory() {
            Some((_, depth)) => depth * self.limbs(),
            None => 0,
        }
    }
}

fn signal(id: u32) -> Signal {
    Signal {
        module: ModuleId(0),
        id: SignalId(id),
    }
}

#[derive(Clone, Copy, Debug, PartialEq, Eq)]
struct Design {
    top: Top,
}

impl Design {
    fn lower(&self, module_name: &str) -> Result<RuntimeProgram, ErrorReport> {
        match Top::named(module_name) {
            Some(top) if top == self.top => Ok(top.program()),
            _ => Err(error("E_UNKNOWN_MODULE", "unknown module")),
        }
    }
}

fn counter_design() -> (Design, Signal, Signal) {
    (Design { top: Top::Counter }, signal(2), signal(3))
}

fn memory_design() -> (Design, Signal, Signal, Signal, Signal, Signal) {
    (
        Design { top: Top::MemoryTop },
        signal(1),
        signal(2),
        signal(3),
        signal(4),
        signal(5),
    )
}

fn snapshot_design() -> (
    Design,
    Signal,
    Signal,
    Signal,
    Signal,
    Signal,
    Signal,
    Signal,
) {
    (
        Design { top: Top::SnapshotTop },
        signal(1),
        signal(2),
        signal(3),
        signal(4),
        signal(6),
        signal(5),
        signal(7),
    )
}

fn wide_input_design() -> (Design, Signal, Signal) {
    (Design { top: Top::WideInput }, signal(0), signal(1))
}

/// The state of some lanes of a design.
struct Engine {
    top: Top,
    lanes: usize,
    values: Vec<u32>,
    memories: Vec<u32>,
}

impl Engine {
    fn new(top: Top, lanes: usize) -> Engine {
        Engine {
            top,
            lanes,
            values: vec![0; lanes * top.signals() * top.limbs()],
            memories: vec![0; lanes * top.memory_words()],
        }
    }

    fn at(&self, lane: usize, id: usize) -> usize {
        (lane * self.top.signals() + id) * self.top.limbs()
    }

    fn value(&self, lane: usize, id: usize) -> u32 {
        self.values[self.at(lane, id)]
    }

    fn cell(&self, lane: usize, addr: u32) -> usize {
        lane * self.top.memory_words() + addr as usize
    }

    fn settle(&mut self) {
        for lane in 0..self.lanes {
            match self.top {
                Top::Counter => {
                    let out = self.at(lane, 3);
                    self.values[out] = self.value(lane, 4);
                }
                Top::MemoryTop => {
                    let read = self.at(lane, 5);
                    self.values[read] = self.memories[self.cell(lane, self.value(lane, 2))];
                }
                Top::SnapshotTop => {
                    let read = self.at(lane, 7);
                    self.values[read] = self.memories[self.cell(lane, self.value(lane, 3))];
                }
                Top::WideInput => {
                    for limb in 0..5 {
                        let out = self.at(lane, 1) + limb;
                        self.values[out] = self.values[self.at(lane, 0) + limb];
                    }
                }
                Top::WideRuntimeMem => {}
            }
        }
    }

    fn tick(&mut self) {
        for lane in 0..self.lanes {
            match self.top {
                Top::Counter => {
                    let count = self.at(lane, 4);
                    if self.value(lane, 1) != 0 {
                        self.values[count] = 0;
                    } else if self.value(lane, 2) != 0 {
                        self.values[count] = (self.values[count] + 1) & 255;
                    }
                }
                Top::MemoryTop => {
                    if self.value(lane, 1) != 0 {
                        let cell = self.cell(lane, self.value(lane, 2));
                        self.memories[cell] = self.value(lane, 3);
                    }
                }
                Top::SnapshotTop => {
                    let count = self.at(lane, 5);
                    if self.value(lane, 1) != 0 {
                        self.values[count] = (self.values[count] + 1) & 255;
                    }
                    if self.value(lane, 2) != 0 {
                        let cell = self.cell(lane, self.value(lane, 3));
                        self.memories[cell] = self.value(lane, 4);
                    }
                }
                Top::WideInput | Top::WideRuntimeMem => {}
            }
        }
        self.settle();
    }

    fn execute(&mut self, action: RuntimeShardAction) {
        match action {
            RuntimeShardAction::EvalCombinational => self.settle(),
            RuntimeShardAction::Tick => self.tick(),
            RuntimeShardAction::TickMany(steps) => {
                for _ in 0..steps {
                    self.tick();
                }
            }
        }
    }

    fn set_input(&mut self, signal: Signal, lane_values: &[u128]) {
        for (lane, value) in lane_values.iter().enumerate() {
            let at = self.at(lane, signal.id.0 as usize);
            self.values[at] = *value as u32;
        }
    }

    fn set_input_limbs(&mut self, signal: Signal, lane_values: &[Vec<u32>]) {
        for (lane, limbs) in lane_values.iter().enumerate() {
            let at = self.at(lane, signal.id.0 as usize);
            self.values[at..at + limbs.len()].copy_from_slice(limbs);
        }
    }

    fn set_memory_limbs(&mut self, lane_words: &[Vec<Vec<u32>>]) {
        self.memories = lane_words.concat().concat();
    }

    fn get_signal_limbs(&self, signal: Signal) -> Vec<Vec<u32>> {
        (0..self.lanes)
            .map(|lane| {
                let at = self.at(lane, signal.id.0 as usize);
                self.values[at..at + self.top.limbs()].to_vec()
            })
            .collect()
    }

    fn get_memory_limbs(&self) -> Vec<Vec<Vec<u32>>> {
        self.memories
            .chunks(self.top.memory_words())
            .map(|lane| lane.chunks(self.top.limbs()).map(|word| word.to_vec()).collect())
            .collect()
    }
}

/// A worker service with engines for its shards.
struct HostedWorker {
    service: LocalRuntimeWorkerService,
    engines: HashMap<String, Engine>,
}

impl HostedWorker {
    fn new() -> HostedWorker {
        HostedWorker {
            service: LocalRuntimeWorkerService::new(),
            engines: HashMap::new(),
        }
    }

    fn handle(&mut self, request: RuntimeWorkerRequest) -> Result<RuntimeWorkerResponse, ErrorReport> {
        let mut step = self.service.handle(request)?;
        loop {
            match step {
                RuntimeWorkerStep::Respond(response) => return Ok(response),
                RuntimeWorkerStep::Engine(call) => {
                    let reply = self.call(&call);
                    step = self.service.resume(call, 10, reply)?;
                }
            }
        }
    }

    fn call(&mut self, call: &RuntimeEngineCall) -> Result<RuntimeEngineValue, ErrorReport> {
        match call {
            RuntimeEngineCall::Lower(init) => {
                if Top::named(&init.module_name).is_none() {
                    return Err(error("E_UNKNOWN_MODULE", "unknown module"));
                }
            }
            RuntimeEngineCall::Start(init) => {
                let top = Top::named(&init.module_name).unwrap();
                self.engines
                    .insert(init.shard.worker_id.clone(), Engine::new(top, init.shard.lanes));
            }
            RuntimeEngineCall::SetInput {
                worker_id,
                signal,
                lane_values,
            } => self.engine(worker_id).set_input(*signal, lane_values),
            RuntimeEngineCall::SetInputLimbs {
                worker_id,
                signal,
                lane_values,
            } => self.engine(worker_id).set_input_limbs(*signal, lane_values),
            RuntimeEngineCall::SetMemoryLimbs {
                worker_id,
                lane_words,
                ..
            } => self.engine(worker_id).set_memory_limbs(lane_words),
            RuntimeEngineCall::Execute { worker_id, action } => {
                self.engine(worker_id).execute(*action)
            }
            RuntimeEngineCall::GetSignalLimbs { worker_id, signal } => {
                return Ok(RuntimeEngineValue::SignalLimbs(
                    self.engine(worker_id).get_signal_limbs(*signal),
                ));
            }
            RuntimeEngineCall::GetMemoryLimbs { worker_id, .. } => {
                return Ok(RuntimeEngineValue::MemoryLimbs(
                    self.engine(worker_id).get_memory_limbs(),
                ));
            }
            RuntimeEngineCall::ReadStorage { worker_id } => {
                let engine = self.engine(worker_id);
                return Ok(RuntimeEngineValue::Storage {
                    values: engine.values.clone(),
                    memories: engine.memories.clone(),
                });
            }
            RuntimeEngineCall::WriteStorage {
                worker_id,
                values,
                memories,
            } => {
                let engine = self.engine(worker_id);
                engine.values = values.clone();
                engine.memories = memories.clone();
            }
        }
        Ok(RuntimeEngineValue::Done)
    }

    fn engine(&mut self, worker_id: &str) -> &mut Engine {
        self.engines.get_mut(worker_id).unwrap()
    }
}

fn runtime_shard_info(
    worker_id: &str,
    backend: RuntimeBackend,
    start_lane: usize,
    lanes: usize,
) -> RuntimeShardInfo {
    RuntimeShardInfo {
        worker_id: worker_id.to_string(),
        node: "localhost".to_string(),
        backend,
        start_lane,
        lanes,
    }
}

fn init_request(_: &Design, module_name: &str, shard: RuntimeShardInfo) -> RuntimeWorkerRequest {
    RuntimeWorkerRequest::InitShard(RuntimeShardInit {
        design: CompiledDesign { modules: Vec::new() },
        module_name: module_name.to_string(),
        backend: shard.backend,
        shard,
    })
}

/// Where a shard runs: on an engine, or with a worker.
enum Host {
    Direct(Engine),
    Worker(String, HostedWorker),
}

impl Host {
    fn request(&mut self, request: RuntimeWorkerRequest) -> RuntimeWorkerResponse {
        match self {
            Host::Direct(_) => panic!("not a worker"),
            Host::Worker(_, worker) => worker.handle(request).unwrap(),
        }
    }

    fn tell(&mut self, request: RuntimeWorkerRequest) {
        expect_ack(self.request(request)).unwrap();
    }

    fn set_input(&mut self, part: RuntimeSignalValue) {
        match self {
            Host::Direct(engine) => engine.set_input(part.signal, &part.lane_values),
            Host::Worker(id, _) => {
                let request = input_request(id.clone(), part);
                self.tell(request)
            }
        }
    }

    fn set_input_limbs(&mut self, part: RuntimeSignalLimbs) {
        match self {
            Host::Direct(engine) => engine.set_input_limbs(part.signal, &part.lane_values),
            Host::Worker(id, _) => {
                let request = input_limbs_request(id.clone(), part);
                self.tell(request)
            }
        }
    }

    fn set_memory_limbs(&mut self, part: RuntimeMemoryLimbs) {
        match self {
            Host::Direct(engine) => engine.set_memory_limbs(&part.lane_words),
            Host::Worker(id, _) => {
                let request = memory_limbs_request(id.clone(), part);
                self.tell(request)
            }
        }
    }

    fn execute(&mut self, action: RuntimeShardAction) {
        match self {
            Host::Direct(engine) => engine.execute(action),
            Host::Worker(id, _) => {
                let request = action_request(id.clone(), action);
                self.tell(request)
            }
        }
    }

    fn get_signal_limbs(&mut self, signal: Signal) -> Vec<Vec<u32>> {
        match self {
            Host::Direct(engine) => engine.get_signal_limbs(signal),
            Host::Worker(id, _) => {
                let worker_id = id.clone();
                let request = RuntimeWorkerRequest::GetSignalLimbs { worker_id, signal };
                expect_signal_limbs(self.request(request)).unwrap()
            }
        }
    }

    fn get_memory_limbs(&mut self, memory: Signal) -> Vec<Vec<Vec<u32>>> {
        match self {
            Host::Direct(engine) => engine.get_memory_limbs(),
            Host::Worker(id, _) => {
                let worker_id = id.clone();
                let request = RuntimeWorkerRequest::GetMemoryLimbs { worker_id, memory };
                expect_memory_limbs(self.request(request)).unwrap()
            }
        }
    }

    fn health(&mut self) -> Option<RuntimeWorkerHealth> {
        match self {
            Host::Direct(_) => None,
            Host::Worker(id, _) => {
                let worker_id = id.clone();
                let response = self.request(RuntimeWorkerRequest::Health { worker_id });
                Some(expect_worker_health(response).unwrap())
            }
        }
    }

    fn storage(&mut self) -> RuntimeShardStorage {
        match self {
            Host::Direct(engine) => RuntimeShardStorage {
                values: engine.values.clone(),
                memories: engine.memories.clone(),
            },
            Host::Worker(id, _) => {
                let worker_id = id.clone();
                snapshot_storage(self.request(RuntimeWorkerRequest::Snapshot { worker_id })).unwrap()
            }
        }
    }

    fn restore(&mut self, storage: RuntimeShardStorage) {
        match self {
            Host::Direct(engine) => {
                engine.values = storage.values;
                engine.memories = storage.memories;
            }
            Host::Worker(id, _) => {
                let worker_id = id.clone();
                let stats = self.request(RuntimeWorkerRequest::Stats {
                    worker_id: worker_id.clone(),
                });
                self.tell(restore_storage(worker_id, stats, storage).unwrap());
            }
        }
    }
}

/// A runtime and the hosts of its shards.
struct Sim {
    design: Design,
    runtime: DistributedRuntime,
    hosts: Vec<Host>,
}

impl Sim {
    fn engines(topology: &RuntimeTopology) -> Vec<Result<(), ErrorReport>> {
        topology.workers().iter().map(|_| Ok(())).collect()
    }

    fn hosted(design: &Design, runtime: DistributedRuntime, remote: bool) -> Sim {
        let module_name = runtime.program().top.clone();
        let hosts = runtime
            .shard_plan()
            .into_iter()
            .map(|shard| {
                if remote {
                    let worker_id = shard.worker_id.clone();
                    let mut worker = HostedWorker::new();
                    let response = worker.handle(init_request(design, &module_name, shard));
                    expect_ack(response.unwrap()).unwrap();
                    Host::Worker(worker_id, worker)
                } else {
                    Host::Direct(Engine::new(design.top, shard.lanes))
                }
            })
            .collect();
        Sim {
            design: *design,
            runtime,
            hosts,
        }
    }

    fn new(
        design: &Design,
        module_name: &str,
        topology: RuntimeTopology,
    ) -> Result<Sim, ErrorReport> {
        let engines = Sim::engines(&topology);
        let runtime = DistributedRuntime::new(design.lower(module_name), &topology, &engines)?;
        Ok(Sim::hosted(design, runtime, false))
    }

    fn new_with_options(
        design: &Design,
        module_name: &str,
        topology: RuntimeTopology,
        options: DistributedRuntimeOptions,
    ) -> Result<Sim, ErrorReport> {
        let engines = Sim::engines(&topology);
        let lowered = design.lower(module_name);
        let runtime = DistributedRuntime::new_with_options(lowered, &topology, options, &engines)?;
        Ok(Sim::hosted(design, runtime, false))
    }

    fn new_loopback_workers(
        design: &Design,
        module_name: &str,
        topology: RuntimeTopology,
        options: DistributedRuntimeOptions,
    ) -> Result<Sim, ErrorReport> {
        let engines = Sim::engines(&topology);
        let lowered = design.lower(module_name);
        let runtime =
            DistributedRuntime::new_loopback_workers(lowered, &topology, options, &engines)?;
        Ok(Sim::hosted(design, runtime, true))
    }

    fn new_tcp_workers(
        design: &Design,
        module_name: &str,
        topology: RuntimeTopology,
        options: DistributedRuntimeOptions,
        endpoints: Vec<RuntimeTcpEndpoint>,
    ) -> Result<Sim, ErrorReport> {
        let engines = Sim::engines(&topology);
        let lowered = design.lower(module_name);
        let runtime = DistributedRuntime::new_tcp_workers(
            lowered, &topology, options, &endpoints, &engines,
        )?;
        Ok(Sim::hosted(design, runtime, true))
    }

    fn local_cpu(design: &Design, module_name: &str, lanes: usize) -> Result<Sim, ErrorReport> {
        let runtime = DistributedRuntime::local_cpu(design.lower(module_name), lanes, Ok(()))?;
        Ok(Sim::hosted(design, runtime, false))
    }

    fn total_lanes(&self) -> usize {
        self.runtime.total_lanes()
    }

    fn shard_plan(&self) -> Vec<RuntimeShardInfo> {
        self.runtime.shard_plan()
    }

    fn stats(&self) -> RuntimeStats {
        self.runtime.stats()
    }

    fn reset_stats(&mut self) {
        self.runtime.reset_stats()
    }

    fn health(&mut self) -> Result<RuntimeHealthReport, ErrorReport> {
        let replies = self.hosts.iter_mut().map(|host| host.health()).collect();
        Ok(self.runtime.health(&replies))
    }

    fn set_input(&mut self, signal: Signal, lane_values: &[u128]) -> Result<(), ErrorReport> {
        let parts = self.runtime.set_input(signal, &lane_values.to_vec())?;
        for (host, part) in self.hosts.iter_mut().zip(parts) {
            host.set_input(part);
        }
        Ok(())
    }

    fn set_input_limbs(&mut self, signal: Signal, values: &[Vec<u32>]) -> Result<(), ErrorReport> {
        let parts = self.runtime.set_input_limbs(signal, &values.to_vec())?;
        for (host, part) in self.hosts.iter_mut().zip(parts) {
            host.set_input_limbs(part);
        }
        Ok(())
    }

    fn set_memory(&mut self, memory: Signal, words: &[Vec<u128>]) -> Result<(), ErrorReport> {
        let parts = self.runtime.set_memory(memory, &words.to_vec())?;
        for (host, part) in self.hosts.iter_mut().zip(parts) {
            host.set_memory_limbs(part);
        }
        Ok(())
    }

    fn set_memory_limbs(
        &mut self,
        memory: Signal,
        words: &[Vec<Vec<u32>>],
    ) -> Result<(), ErrorReport> {
        let parts = self.runtime.set_memory_limbs(memory, &words.to_vec())?;
        for (host, part) in self.hosts.iter_mut().zip(parts) {
            host.set_memory_limbs(part);
        }
        Ok(())
    }

    fn get_signal(&mut self, signal: Signal) -> Result<Vec<u128>, ErrorReport> {
        let parts = self.hosts.iter_mut().map(|host| host.get_signal_limbs(signal)).collect();
        Ok(self.runtime.get_signal(parts))
    }

    fn get_memory(&mut self, memory: Signal) -> Result<Vec<Vec<u128>>, ErrorReport> {
        let parts = self.hosts.iter_mut().map(|host| host.get_memory_limbs(memory)).collect();
        self.runtime.get_memory(memory, parts)
    }

    fn get_memory_limbs(&mut self, memory: Signal) -> Result<Vec<Vec<Vec<u32>>>, ErrorReport> {
        let parts = self.hosts.iter_mut().map(|host| host.get_memory_limbs(memory)).collect();
        Ok(self.runtime.get_memory_limbs(parts))
    }

    fn execute(&mut self, action: RuntimeShardAction) -> Result<(), ErrorReport> {
        for host in self.hosts.iter_mut() {
            host.execute(action);
        }
        let shards = self.hosts.len();
        let results = (0..shards).map(|_| Ok(())).collect();
        let shard_ns = vec![Some(10); shards];
        let elapsed_ns = 10 * shards as u128;
        match action {
            RuntimeShardAction::EvalCombinational => {
                self.runtime.eval_combinational(&results, &shard_ns, elapsed_ns)
            }
            RuntimeShardAction::Tick => self.runtime.tick(&results, &shard_ns, elapsed_ns),
            RuntimeShardAction::TickMany(steps) => {
                self.runtime.tick_many(steps, &results, &shard_ns, elapsed_ns)
            }
        }
    }

    fn eval_combinational(&mut self) -> Result<(), ErrorReport> {
        self.execute(RuntimeShardAction::EvalCombinational)
    }

    fn tick(&mut self) -> Result<(), ErrorReport> {
        self.execute(RuntimeShardAction::Tick)
    }

    fn tick_many(&mut self, steps: usize) -> Result<(), ErrorReport> {
        self.execute(RuntimeShardAction::TickMany(steps))
    }

    fn storages(&mut self) -> Vec<RuntimeShardStorage> {
        self.hosts.iter_mut().map(|host| host.storage()).collect()
    }

    fn restore(&mut self, storages: Vec<RuntimeShardStorage>) {
        for (host, storage) in self.hosts.iter_mut().zip(storages) {
            host.restore(storage);
        }
    }

    fn snapshot(&mut self) -> Result<RuntimeSnapshot, ErrorReport> {
        let storages = self.storages();
        Ok(self.runtime.snapshot(&storages))
    }

    fn restore_snapshot(&mut self, snapshot: &RuntimeSnapshot) -> Result<(), ErrorReport> {
        let storages = self.runtime.restore_snapshot(snapshot)?;
        self.restore(storages);
        Ok(())
    }

    fn checkpoint(&mut self) -> Result<RuntimeCheckpoint, ErrorReport> {
        let storages = self.storages();
        Ok(self.runtime.checkpoint(&storages))
    }

    fn checkpoint_with_tcp_endpoints(
        &mut self,
        endpoints: &Vec<RuntimeTcpEndpoint>,
    ) -> Result<RuntimeCheckpoint, ErrorReport> {
        let storages = self.storages();
        self.runtime.checkpoint_with_tcp_endpoints(endpoints, &storages)
    }

    fn restore_checkpoint(&mut self, checkpoint: &RuntimeCheckpoint) -> Result<(), ErrorReport> {
        let storages = self.runtime.restore_checkpoint(checkpoint)?;
        self.restore(storages);
        Ok(())
    }

    fn tick_many_with_checkpoints(
        &mut self,
        steps: usize,
        cadence: RuntimeCheckpointCadence,
        sink: impl FnMut(RuntimeCheckpointEvent, &RuntimeCheckpoint) -> Result<(), ErrorReport>,
    ) -> Result<RuntimeCheckpointRunReport, ErrorReport> {
        self.tick_many_with_tcp_checkpoints(steps, cadence, &Vec::new(), sink)
    }

    fn tick_many_with_tcp_checkpoints(
        &mut self,
        steps: usize,
        cadence: RuntimeCheckpointCadence,
        endpoints: &Vec<RuntimeTcpEndpoint>,
        mut sink: impl FnMut(RuntimeCheckpointEvent, &RuntimeCheckpoint) -> Result<(), ErrorReport>,
    ) -> Result<RuntimeCheckpointRunReport, ErrorReport> {
        let mut run = RuntimeCheckpointRun::begin(steps, cadence)?;
        loop {
            match run.advance() {
                RuntimeCheckpointStep::Emit(event) => {
                    let checkpoint = self.checkpoint_with_tcp_endpoints(endpoints)?;
                    sink(event, &checkpoint)?;
                }
                RuntimeCheckpointStep::Tick(steps) => self.tick_many(steps)?,
                RuntimeCheckpointStep::Done(report) => return Ok(report),
            }
        }
    }

    fn recover_tcp_workers_from_checkpoint(
        &mut self,
        design: &Design,
        checkpoint: &RuntimeCheckpoint,
        endpoints: Vec<RuntimeTcpEndpoint>,
    ) -> Result<RuntimeRecoveryReport, ErrorReport> {
        let lowered = design.lower(&checkpoint.module_name);
        let compiled = Ok(lowered.map(|_| *design == self.design));
        let steps =
            self.runtime.recover_tcp_workers_from_checkpoint(checkpoint, compiled, &endpoints)?;
        let mut hosts = Vec::new();
        for step in steps {
            let worker_id = step.shard.worker_id.clone();
            let mut worker = HostedWorker::new();
            let init = init_request(design, &checkpoint.module_name, step.shard);
            expect_ack(worker.handle(init)?)?;
            expect_ack(worker.handle(RuntimeWorkerRequest::RestoreSnapshot {
                worker_id: worker_id.clone(),
                snapshot: step.snapshot,
            })?)?;
            hosts.push(Host::Worker(worker_id, worker));
        }
        self.hosts = hosts;
        Ok(self.runtime.finish_recovery())
    }
}

fn endpoint(worker_id: &str, addr: &str) -> RuntimeTcpEndpoint {
    RuntimeTcpEndpoint {
        worker_id: worker_id.to_string(),
        addr: addr.to_string(),
    }
}

fn endpoints_for_topology(topology: &RuntimeTopology) -> Vec<RuntimeTcpEndpoint> {
    let mut endpoints = Vec::new();
    for (port, worker) in topology.workers().iter().enumerate() {
        endpoints.push(endpoint(&worker.id, &format!("127.0.0.1:{}", 9000 + port)));
    }
    endpoints
}

/// The endpoints of a checkpoint, with whatever is no host and port refused.
fn endpoint_map(checkpoint: &RuntimeCheckpoint) -> Result<Vec<RuntimeTcpEndpoint>, ErrorReport> {
    let invalid = checkpoint
        .tcp_endpoints
        .iter()
        .map(|endpoint| match endpoint.addr.split_once(':') {
            Some((_, port)) if port.parse::<u16>().is_ok() => None,
            _ => Some("invalid socket address syntax".to_string()),
        })
        .collect();
    checkpoint.tcp_endpoint_map(&invalid)
}

fn two_cpu_topology() -> RuntimeTopology {
    let mut topology = RuntimeTopology::new();
    topology.push(RuntimeWorker::local_cpu("cpu-a", 2).on_node("node-a"));
    topology.push(RuntimeWorker::local_cpu("cpu-b", 3).on_node("node-b"));
    topology
}

fn parallel_options() -> DistributedRuntimeOptions {
    DistributedRuntimeOptions {
        execution_mode: RuntimeExecutionMode::Parallel,
    }
}

fn candidate(
    name: &str,
    topology: RuntimeTopology,
    options: DistributedRuntimeOptions,
) -> RuntimeAutotuneCandidate {
    RuntimeAutotuneCandidate {
        name: name.to_string(),
        topology,
        options,
    }
}

fn apply(sim: &mut Sim, actions: Vec<RuntimeStimulusAction>) -> Result<(), ErrorReport> {
    for action in actions {
        match action {
            RuntimeStimulusAction::SetInput(input) => {
                sim.set_input(input.signal, &input.lane_values)?
            }
            RuntimeStimulusAction::SetInputLimbs(input) => {
                sim.set_input_limbs(input.signal, &input.lane_values)?
            }
            RuntimeStimulusAction::SetMemory(memory) => {
                sim.set_memory(memory.memory, &memory.lane_words)?
            }
            RuntimeStimulusAction::SetMemoryLimbs(memory) => {
                sim.set_memory_limbs(memory.memory, &memory.lane_words)?
            }
        }
    }
    Ok(())
}

fn measure(
    design: &Design,
    module_name: &str,
    candidate: &RuntimeAutotuneCandidate,
    config: &RuntimeAutotuneConfig,
) -> Result<RuntimeStats, ErrorReport> {
    let topology = candidate.topology.clone();
    let mut sim = Sim::new_with_options(design, module_name, topology, candidate.options)?;
    let mut run = RuntimeAutotuneRun::begin();
    loop {
        match run.advance(config) {
            RuntimeAutotuneStep::Setup => {
                let setup = &config.stimulus.as_ref().unwrap().setup;
                apply(&mut sim, apply_stimulus_setup(setup))?;
            }
            RuntimeAutotuneStep::Apply(step) => {
                let step = &config.stimulus.as_ref().unwrap().steps[step];
                apply(&mut sim, apply_stimulus_step(step))?;
            }
            RuntimeAutotuneStep::Tick => sim.tick()?,
            RuntimeAutotuneStep::TickMany(steps) => sim.tick_many(steps)?,
            RuntimeAutotuneStep::ResetStats => sim.reset_stats(),
            RuntimeAutotuneStep::Done => return Ok(sim.stats()),
        }
    }
}

fn recommend(
    design: &Design,
    module_name: &str,
    candidates: Vec<RuntimeAutotuneCandidate>,
    config: RuntimeAutotuneConfig,
) -> Result<RuntimeAutotuneReport, ErrorReport> {
    validate_autotune_request(&candidates, &config)?;
    let outcomes = candidates
        .iter()
        .map(|candidate| measure(design, module_name, candidate, &config))
        .collect();
    recommend_runtime_topology(&candidates, &config, &outcomes)
}

fn assert_operation_stats_zero(stats: RuntimeOperationStats) {
    assert_eq!(stats.eval_combinational.calls, 0);
    assert_eq!(stats.eval_combinational.total_ns, 0);
    assert_eq!(stats.eval_combinational.last_ns, 0);
    assert_eq!(stats.tick.calls, 0);
    assert_eq!(stats.tick.total_ns, 0);
    assert_eq!(stats.tick.last_ns, 0);
    assert_eq!(stats.tick_many.calls, 0);
    assert_eq!(stats.tick_many.total_ns, 0);
    assert_eq!(stats.tick_many.last_ns, 0);
}

#[test]
fn local_worker_service_health_reports_uninitialized_and_initialized_shards() {
    let (design, _, _) = counter_design();
    let mut service = HostedWorker::new();

    let RuntimeWorkerResponse::Health(health) = service
        .handle(RuntimeWorkerRequest::Health {
            worker_id: "cpu0".to_string(),
        })
        .unwrap()
    else {
        panic!("expected health response");
    };
    assert_eq!(health.worker_id, "cpu0");
    assert!(!health.initialized);
    assert_eq!(health.shard, None);
    assert_eq!(health.operations, None);

    let shard = runtime_shard_info("cpu0", RuntimeBackend::PackedCpu, 0, 2);
    expect_ack(
        service
            .handle(init_request(&design, "Counter", shard.clone()))
            .unwrap(),
    )
    .unwrap();
    let RuntimeWorkerResponse::Health(health) = service
        .handle(RuntimeWorkerRequest::Health {
            worker_id: "cpu0".to_string(),
        })
        .unwrap()
    else {
        panic!("expected health response");
    };
    assert!(health.initialized);
    assert_eq!(health.shard, Some(shard));
    assert_eq!(health.operations, Some(RuntimeOperationStats::default()));
}

#[test]
fn local_worker_service_runs_counter_commands_and_stats() {
    let (design, en, out) = counter_design();
    let mut service = HostedWorker::new();
    let err = service
        .handle(RuntimeWorkerRequest::Tick {
            worker_id: "cpu0".to_string(),
        })
        .unwrap_err();
    assert_eq!(err.diagnostics[0].code, "E_RUNTIME_WORKER_SHARD");

    let shard = runtime_shard_info("cpu0", RuntimeBackend::PackedCpu, 0, 2);
    expect_ack(
        service
            .handle(init_request(&design, "Counter", shard.clone()))
            .unwrap(),
    )
    .unwrap();
    let err = service
        .handle(init_request(&design, "Counter", shard))
        .unwrap_err();
    assert_eq!(err.diagnostics[0].code, "E_RUNTIME_WORKER_INIT");

    expect_ack(
        service
            .handle(RuntimeWorkerRequest::SetInput {
                worker_id: "cpu0".to_string(),
                signal: en,
                lane_values: vec![1, 0],
            })
            .unwrap(),
    )
    .unwrap();
    expect_ack(
        service
            .handle(RuntimeWorkerRequest::TickMany {
                worker_id: "cpu0".to_string(),
                steps: 2,
            })
            .unwrap(),
    )
    .unwrap();

    let RuntimeWorkerResponse::SignalLimbs(values) = service
        .handle(RuntimeWorkerRequest::GetSignalLimbs {
            worker_id: "cpu0".to_string(),
            signal: out,
        })
        .unwrap()
    else {
        panic!("expected signal response");
    };
    assert_eq!(values, vec![vec![2], vec![0]]);

    let RuntimeWorkerResponse::Stats(stats) = service
        .handle(RuntimeWorkerRequest::Stats {
            worker_id: "cpu0".to_string(),
        })
        .unwrap()
    else {
        panic!("expected stats response");
    };
    assert_eq!(stats.operations.tick_many.calls, 1);

    expect_ack(
        service
            .handle(RuntimeWorkerRequest::ResetStats {
                worker_id: "cpu0".to_string(),
            })
            .unwrap(),
    )
    .unwrap();
    let RuntimeWorkerResponse::Stats(stats) = service
        .handle(RuntimeWorkerRequest::Stats {
            worker_id: "cpu0".to_string(),
        })
        .unwrap()
    else {
        panic!("expected stats response");
    };
    assert_operation_stats_zero(stats.operations);
}

#[test]
fn local_worker_service_snapshots_and_restores_memory() {
    let (design, _, addr, _, mem, read) = memory_design();
    let mut service = HostedWorker::new();
    let shard = runtime_shard_info("cpu0", RuntimeBackend::PackedCpu, 0, 2);
    expect_ack(
        service
            .handle(init_request(&design, "MemoryTop", shard))
            .unwrap(),
    )
    .unwrap();

    expect_ack(
        service
            .handle(RuntimeWorkerRequest::SetMemoryLimbs {
                worker_id: "cpu0".to_string(),
                memory: mem,
                lane_words: vec![
                    vec![vec![1], vec![2], vec![3], vec![4]],
                    vec![vec![5], vec![6], vec![7], vec![8]],
                ],
            })
            .unwrap(),
    )
    .unwrap();
    expect_ack(
        service
            .handle(RuntimeWorkerRequest::SetInput {
                worker_id: "cpu0".to_string(),
                signal: addr,
                lane_values: vec![2, 1],
            })
            .unwrap(),
    )
    .unwrap();
    let RuntimeWorkerResponse::Snapshot(snapshot) = service
        .handle(RuntimeWorkerRequest::Snapshot {
            worker_id: "cpu0".to_string(),
        })
        .unwrap()
    else {
        panic!("expected snapshot response");
    };

    expect_ack(
        service
            .handle(RuntimeWorkerRequest::SetMemoryLimbs {
                worker_id: "cpu0".to_string(),
                memory: mem,
                lane_words: vec![
                    vec![vec![9], vec![9], vec![9], vec![9]],
                    vec![vec![9], vec![9], vec![9], vec![9]],
                ],
            })
            .unwrap(),
    )
    .unwrap();
    expect_ack(
        service
            .handle(RuntimeWorkerRequest::RestoreSnapshot {
                worker_id: "cpu0".to_string(),
                snapshot,
            })
            .unwrap(),
    )
    .unwrap();
    expect_ack(
        service
            .handle(RuntimeWorkerRequest::EvalCombinational {
                worker_id: "cpu0".to_string(),
            })
            .unwrap(),
    )
    .unwrap();

    let RuntimeWorkerResponse::SignalLimbs(values) = service
        .handle(RuntimeWorkerRequest::GetSignalLimbs {
            worker_id: "cpu0".to_string(),
            signal: read,
        })
        .unwrap()
    else {
        panic!("expected signal response");
    };
    assert_eq!(values, vec![vec![3], vec![6]]);
}

#[test]
fn runtime_stats_start_at_zero() {
    let (design, _, _) = counter_design();
    let runtime = Sim::new(&design, "Counter", two_cpu_topology()).unwrap();
    let stats = runtime.stats();

    assert_eq!(stats.execution_mode, RuntimeExecutionMode::Serial);
    assert_eq!(stats.total_lanes, 5);
    assert_operation_stats_zero(stats.operations);
    assert_eq!(stats.shards.len(), 2);
    for shard in stats.shards {
        assert_operation_stats_zero(shard.operations);
    }
}

#[test]
fn local_runtime_health_reports_shards_and_counters() {
    let (design, en, _) = counter_design();
    let mut runtime = Sim::new(&design, "Counter", two_cpu_topology()).unwrap();
    runtime.set_input(en, &[1, 1, 1, 1, 1]).unwrap();
    runtime.tick().unwrap();

    let health = runtime.health().unwrap();
    assert_eq!(health.total_lanes, 5);
    assert_eq!(health.shards.len(), 2);
    assert_eq!(health.shards[0].status, RuntimeShardHealthStatus::Healthy);
    assert_eq!(health.shards[0].shard.worker_id, "cpu-a");
    assert_eq!(health.shards[0].operations.unwrap().tick.calls, 1);
    assert_eq!(health.shards[1].status, RuntimeShardHealthStatus::Healthy);
    assert_eq!(health.shards[1].shard.worker_id, "cpu-b");
    assert_eq!(health.shards[1].operations.unwrap().tick.calls, 1);
}

#[test]
fn runtime_autotune_ranks_successful_cpu_candidates() {
    let (design, _, _) = counter_design();
    let candidates = vec![
        candidate(
            "serial",
            RuntimeTopology::local_cpu(5),
            DistributedRuntimeOptions::default(),
        ),
        candidate("parallel", two_cpu_topology(), parallel_options()),
    ];

    let report = recommend(
        &design,
        "Counter",
        candidates,
        RuntimeAutotuneConfig {
            warmup_steps: 0,
            measure_steps: 2,
            stimulus: None,
        },
    )
    .unwrap();

    assert_eq!(report.candidates.len(), 2);
    assert!(report.best_index < report.candidates.len());
    for candidate in &report.candidates {
        assert!(candidate.score_ns.is_some());
        assert!(candidate.diagnostics.is_empty());
        let stats = candidate.stats.as_ref().unwrap();
        assert_eq!(stats.operations.tick_many.calls, 1);
        assert_eq!(
            stats.operations.tick_many.total_ns,
            candidate.score_ns.unwrap()
        );
    }
}

#[test]
fn runtime_autotune_keeps_failed_candidates_when_one_succeeds() {
    let (design, _, _) = counter_design();
    let mut invalid = RuntimeTopology::new();
    invalid.push(RuntimeWorker::local_cpu("bad", 0));
    let candidates = vec![
        candidate("bad", invalid, DistributedRuntimeOptions::default()),
        candidate(
            "good",
            RuntimeTopology::local_cpu(2),
            DistributedRuntimeOptions::default(),
        ),
    ];

    let report = recommend(
        &design,
        "Counter",
        candidates,
        RuntimeAutotuneConfig {
            warmup_steps: 0,
            measure_steps: 1,
            stimulus: None,
        },
    )
    .unwrap();

    assert_eq!(report.candidates.len(), 2);
    assert_eq!(report.best_index, 1);
    assert_eq!(report.candidates[0].score_ns, None);
    assert_eq!(report.candidates[0].stats, None);
    assert_eq!(report.candidates[0].diagnostics[0].code, "E_RUNTIME_LANES");
    assert!(report.candidates[1].score_ns.is_some());
}

#[test]
fn runtime_autotune_validates_candidates_and_measure_steps() {
    let (design, _, _) = counter_design();
    let err = recommend(
        &design,
        "Counter",
        Vec::new(),
        RuntimeAutotuneConfig::default(),
    )
    .unwrap_err();
    assert_eq!(err.diagnostics[0].code, "E_RUNTIME_AUTOTUNE_CANDIDATES");

    let err = recommend(
        &design,
        "Counter",
        vec![candidate(
            "serial",
            RuntimeTopology::local_cpu(1),
            DistributedRuntimeOptions::default(),
        )],
        RuntimeAutotuneConfig {
            warmup_steps: 0,
            measure_steps: 0,
            stimulus: None,
        },
    )
    .unwrap_err();
    assert_eq!(err.diagnostics[0].code, "E_RUNTIME_AUTOTUNE_STEPS");
}

#[test]
fn runtime_autotune_reports_all_candidate_failure() {
    let (design, _, _) = counter_design();
    let mut invalid = RuntimeTopology::new();
    invalid.push(RuntimeWorker::local_cpu("bad", 0));

    let err = recommend(
        &design,
        "Counter",
        vec![candidate(
            "bad",
            invalid,
            DistributedRuntimeOptions::default(),
        )],
        RuntimeAutotuneConfig {
            warmup_steps: 0,
            measure_steps: 1,
            stimulus: None,
        },
    )
    .unwrap_err();

    assert_eq!(err.diagnostics[0].code, "E_RUNTIME_AUTOTUNE_NO_CANDIDATE");
    assert!(err
        .diagnostics
        .iter()
        .any(|diagnostic| diagnostic.code == "E_RUNTIME_LANES"));
}

#[test]
fn runtime_autotune_preserves_order_for_reported_ties() {
    let (design, _, _) = counter_design();
    let candidates = vec![
        candidate(
            "first",
            RuntimeTopology::local_cpu(1),
            DistributedRuntimeOptions::default(),
        ),
        candidate(
            "second",
            RuntimeTopology::local_cpu(1),
            DistributedRuntimeOptions::default(),
        ),
    ];

    let report = recommend(
        &design,
        "Counter",
        candidates,
        RuntimeAutotuneConfig {
            warmup_steps: 0,
            measure_steps: 1,
            stimulus: None,
        },
    )
    .unwrap();

    assert_eq!(report.candidates[0].name, "first");
    assert_eq!(report.candidates[1].name, "second");
    if report.candidates[0].score_ns == report.candidates[1].score_ns {
        assert_eq!(report.best_index, 0);
    }
}

#[test]
fn runtime_autotune_gpu_candidate_smoke_when_adapter_exists() {
    let (design, _, _) = counter_design();
    let mut gpu_topology = RuntimeTopology::new();
    gpu_topology.push(RuntimeWorker::local_gpu(
        "gpu0",
        2,
        GpuBatchOptions::default(),
    ));
    let report = recommend(
        &design,
        "Counter",
        vec![candidate("gpu", gpu_topology, parallel_options())],
        RuntimeAutotuneConfig {
            warmup_steps: 0,
            measure_steps: 1,
            stimulus: None,
        },
    );

    let Ok(report) = report else {
        return;
    };
    assert_eq!(report.candidates.len(), 1);
    assert_eq!(report.best_index, 0);
    assert!(report.candidates[0].score_ns.is_some());
}

#[test]
fn runtime_autotune_stimulus_setup_applies_inputs_and_memory() {
    let (design, _, addr, _, mem, read) = memory_design();
    let mut runtime = Sim::local_cpu(&design, "MemoryTop", 2).unwrap();
    let setup = RuntimeStimulusSetup {
        inputs: vec![RuntimeSignalValue {
            signal: addr,
            lane_values: vec![2, 1],
        }],
        memories: vec![RuntimeMemoryValue {
            memory: mem,
            lane_words: vec![vec![1, 2, 3, 4], vec![5, 6, 7, 8]],
        }],
        ..RuntimeStimulusSetup::default()
    };

    apply(&mut runtime, apply_stimulus_setup(&setup)).unwrap();
    runtime.eval_combinational().unwrap();

    assert_eq!(runtime.get_signal(read).unwrap(), vec![3, 6]);
}

#[test]
fn runtime_autotune_stepped_stimulus_counts_ticks() {
    let (design, en, _) = counter_design();
    let report = recommend(
        &design,
        "Counter",
        vec![candidate(
            "serial",
            RuntimeTopology::local_cpu(3),
            DistributedRuntimeOptions::default(),
        )],
        RuntimeAutotuneConfig {
            warmup_steps: 1,
            measure_steps: 4,
            stimulus: Some(RuntimeAutotuneStimulus {
                setup: RuntimeStimulusSetup::default(),
                steps: vec![
                    RuntimeStimulusStep {
                        inputs: vec![RuntimeSignalValue {
                            signal: en,
                            lane_values: vec![1, 1, 1],
                        }],
                        input_limbs: Vec::new(),
                    },
                    RuntimeStimulusStep {
                        inputs: vec![RuntimeSignalValue {
                            signal: en,
                            lane_values: vec![0, 0, 0],
                        }],
                        input_limbs: Vec::new(),
                    },
                ],
            }),
        },
    )
    .unwrap();

    let stats = report.candidates[0].stats.as_ref().unwrap();
    assert_eq!(stats.operations.tick.calls, 4);
    assert_eq!(stats.operations.tick_many.calls, 0);
    assert_eq!(
        report.candidates[0].score_ns,
        Some(stats.operations.tick.total_ns)
    );
}

#[test]
fn runtime_autotune_limb_stimulus_supports_wide_inputs() {
    let (design, wide, _) = wide_input_design();
    let report = recommend(
        &design,
        "WideInput",
        vec![candidate(
            "serial",
            RuntimeTopology::local_cpu(2),
            DistributedRuntimeOptions::default(),
        )],
        RuntimeAutotuneConfig {
            warmup_steps: 0,
            measure_steps: 1,
            stimulus: Some(RuntimeAutotuneStimulus {
                setup: RuntimeStimulusSetup {
                    input_limbs: vec![RuntimeSignalLimbs {
                        signal: wide,
                        lane_values: vec![vec![1, 2, 3, 4, 5], vec![6, 7, 8, 9, 10]],
                    }],
                    ..RuntimeStimulusSetup::default()
                },
                steps: Vec::new(),
            }),
        },
    )
    .unwrap();

    assert!(report.candidates[0].diagnostics.is_empty());
    assert!(report.candidates[0].score_ns.is_some());
}

#[test]
fn runtime_autotune_failed_stimulus_candidate_is_kept() {
    let (design, en, _) = counter_design();
    let candidates = vec![
        candidate(
            "bad-lanes",
            RuntimeTopology::local_cpu(1),
            DistributedRuntimeOptions::default(),
        ),
        candidate(
            "good",
            RuntimeTopology::local_cpu(2),
            DistributedRuntimeOptions::default(),
        ),
    ];
    let report = recommend(
        &design,
        "Counter",
        candidates,
        RuntimeAutotuneConfig {
            warmup_steps: 0,
            measure_steps: 1,
            stimulus: Some(RuntimeAutotuneStimulus {
                setup: RuntimeStimulusSetup {
                    inputs: vec![RuntimeSignalValue {
                        signal: en,
                        lane_values: vec![1, 0],
                    }],
                    ..RuntimeStimulusSetup::default()
                },
                steps: Vec::new(),
            }),
        },
    )
    .unwrap();

    assert_eq!(report.best_index, 1);
    assert_eq!(report.candidates[0].score_ns, None);
    assert_eq!(
        report.candidates[0].diagnostics[0].code,
        "E_RUNTIME_LANE_VALUES"
    );
    assert!(report.candidates[1].score_ns.is_some());
}

#[test]
fn runtime_snapshot_restores_state_into_matching_shards() {
    let (design, en, we, addr, data, mem, count, read) = snapshot_design();
    let mut source =
        Sim::new(&design, "SnapshotTop", two_cpu_topology()).unwrap();
    source.set_input(en, &[1, 0, 1, 0, 1]).unwrap();
    source.set_input(we, &[1, 1, 1, 1, 1]).unwrap();
    source.set_input(addr, &[0, 1, 2, 3, 0]).unwrap();
    source.set_input(data, &[9, 11, 13, 15, 17]).unwrap();
    source.tick().unwrap();
    source.set_input(we, &[0, 0, 0, 0, 0]).unwrap();
    source.eval_combinational().unwrap();
    let snapshot = source.snapshot().unwrap();
    let expected_count = source.get_signal(count).unwrap();
    let expected_read = source.get_signal(read).unwrap();
    let expected_memory = source.get_memory(mem).unwrap();

    source.set_input(en, &[1, 1, 1, 1, 1]).unwrap();
    source.tick().unwrap();

    let mut restore_topology = RuntimeTopology::new();
    restore_topology.push(RuntimeWorker::local_cpu("restore-a", 2));
    restore_topology.push(RuntimeWorker::local_cpu("restore-b", 3));
    let mut restored =
        Sim::new(&design, "SnapshotTop", restore_topology).unwrap();
    restored.restore_snapshot(&snapshot).unwrap();

    assert_eq!(restored.get_signal(count).unwrap(), expected_count);
    assert_eq!(restored.get_signal(read).unwrap(), expected_read);
    assert_eq!(restored.get_memory(mem).unwrap(), expected_memory);
}

#[test]
fn runtime_snapshot_restore_validates_shape() {
    let (design, en, _, _, _, _, _, _) = snapshot_design();
    let mut runtime =
        Sim::new(&design, "SnapshotTop", two_cpu_topology()).unwrap();
    runtime.set_input(en, &[1, 0, 1, 0, 1]).unwrap();
    runtime.tick().unwrap();
    let snapshot = runtime.snapshot().unwrap();

    let mut bad = snapshot.clone();
    bad.total_lanes = 4;
    let err = runtime.restore_snapshot(&bad).unwrap_err();
    assert_eq!(err.diagnostics[0].code, "E_RUNTIME_SNAPSHOT_TOPOLOGY");

    let mut bad = snapshot.clone();
    bad.program_top = "OtherTop".to_string();
    let err = runtime.restore_snapshot(&bad).unwrap_err();
    assert_eq!(err.diagnostics[0].code, "E_RUNTIME_SNAPSHOT_PROGRAM");

    let mut bad = snapshot.clone();
    bad.shards[0].values.pop();
    let err = runtime.restore_snapshot(&bad).unwrap_err();
    assert_eq!(err.diagnostics[0].code, "E_RUNTIME_SNAPSHOT_STORAGE");

    let mut mismatched_topology = RuntimeTopology::new();
    mismatched_topology.push(RuntimeWorker::local_cpu("cpu-a", 1));
    mismatched_topology.push(RuntimeWorker::local_cpu("cpu-b", 4));
    let mut mismatched =
        Sim::new(&design, "SnapshotTop", mismatched_topology).unwrap();
    let err = mismatched.restore_snapshot(&snapshot).unwrap_err();
    assert_eq!(err.diagnostics[0].code, "E_RUNTIME_SNAPSHOT_TOPOLOGY");
}

#[test]
fn runtime_checkpoint_restores_state_into_matching_runtime() {
    let (design, en, we, addr, data, mem, count, read) = snapshot_design();
    let topology = two_cpu_topology();
    let mut source = Sim::new(&design, "SnapshotTop", topology.clone()).unwrap();
    source.set_input(en, &[1, 0, 1, 0, 1]).unwrap();
    source.set_input(we, &[1, 1, 1, 1, 1]).unwrap();
    source.set_input(addr, &[0, 1, 2, 3, 0]).unwrap();
    source.set_input(data, &[9, 11, 13, 15, 17]).unwrap();
    source.tick().unwrap();
    source.set_input(we, &[0, 0, 0, 0, 0]).unwrap();
    source.eval_combinational().unwrap();
    let checkpoint = source.checkpoint().unwrap();
    let expected_count = source.get_signal(count).unwrap();
    let expected_read = source.get_signal(read).unwrap();
    let expected_memory = source.get_memory(mem).unwrap();

    let mut restored = Sim::new(&design, "SnapshotTop", topology).unwrap();
    restored.restore_checkpoint(&checkpoint).unwrap();

    assert_eq!(restored.get_signal(count).unwrap(), expected_count);
    assert_eq!(restored.get_signal(read).unwrap(), expected_read);
    assert_eq!(restored.get_memory(mem).unwrap(), expected_memory);
}

#[test]
fn runtime_checkpoint_validates_version_topology_endpoints_and_snapshot() {
    let (design, en, _, _, _, _, _, _) = snapshot_design();
    let topology = two_cpu_topology();
    let mut runtime =
        Sim::new(&design, "SnapshotTop", topology.clone()).unwrap();
    runtime.set_input(en, &[1, 0, 1, 0, 1]).unwrap();
    runtime.tick().unwrap();
    let checkpoint = runtime.checkpoint().unwrap();

    let mut bad = checkpoint.clone();
    bad.format_version = RUNTIME_CHECKPOINT_FORMAT_VERSION + 1;
    let err = bad.validate_format_version().unwrap_err();
    assert_eq!(err.diagnostics[0].code, "E_RUNTIME_CHECKPOINT_VERSION");
    let err = runtime.restore_checkpoint(&bad).unwrap_err();
    assert_eq!(err.diagnostics[0].code, "E_RUNTIME_CHECKPOINT_VERSION");

    let mut bad = checkpoint.clone();
    bad.module_name = "OtherTop".to_string();
    let err = runtime.restore_checkpoint(&bad).unwrap_err();
    assert_eq!(err.diagnostics[0].code, "E_RUNTIME_CHECKPOINT_PROGRAM");

    let mut bad = checkpoint.clone();
    bad.topology.workers[0].id = "other-worker".to_string();
    let err = runtime.restore_checkpoint(&bad).unwrap_err();
    assert_eq!(err.diagnostics[0].code, "E_RUNTIME_CHECKPOINT_TOPOLOGY");

    let mut bad = checkpoint.clone();
    bad.snapshot.shards[0].values.pop();
    let err = runtime.restore_checkpoint(&bad).unwrap_err();
    assert_eq!(err.diagnostics[0].code, "E_RUNTIME_SNAPSHOT_STORAGE");

    let err = runtime
        .checkpoint_with_tcp_endpoints(&vec![endpoint("missing", "127.0.0.1:1")])
        .unwrap_err();
    assert_eq!(err.diagnostics[0].code, "E_RUNTIME_CHECKPOINT_ENDPOINT");

    let mut bad = checkpoint.clone();
    bad.tcp_endpoints = vec![RuntimeTcpEndpoint {
        worker_id: "cpu-a".to_string(),
        addr: "not-a-socket".to_string(),
    }];
    let err = endpoint_map(&bad).unwrap_err();
    assert_eq!(err.diagnostics[0].code, "E_RUNTIME_CHECKPOINT_ENDPOINT");

    bad.tcp_endpoints = vec![
        RuntimeTcpEndpoint {
            worker_id: "cpu-a".to_string(),
            addr: "127.0.0.1:1".to_string(),
        },
        RuntimeTcpEndpoint {
            worker_id: "cpu-a".to_string(),
            addr: "127.0.0.1:2".to_string(),
        },
    ];
    let err = endpoint_map(&bad).unwrap_err();
    assert_eq!(err.diagnostics[0].code, "E_RUNTIME_CHECKPOINT_ENDPOINT");
}

#[test]
fn runtime_checkpoint_cadence_emits_expected_boundaries() {
    let (design, en, out) = counter_design();
    let mut runtime = Sim::new(&design, "Counter", two_cpu_topology()).unwrap();
    runtime.set_input(en, &[1, 1, 1, 1, 1]).unwrap();
    let mut events = Vec::new();
    let mut checkpoints = Vec::new();

    let report = runtime
        .tick_many_with_checkpoints(
            5,
            RuntimeCheckpointCadence {
                every_steps: 2,
                include_initial: true,
                include_final: true,
            },
            |event, checkpoint| {
                events.push(event);
                checkpoints.push(checkpoint.clone());
                Ok(())
            },
        )
        .unwrap();

    assert_eq!(
        events,
        vec![
            RuntimeCheckpointEvent {
                completed_steps: 0,
                reason: RuntimeCheckpointReason::Initial,
            },
            RuntimeCheckpointEvent {
                completed_steps: 2,
                reason: RuntimeCheckpointReason::Cadence,
            },
            RuntimeCheckpointEvent {
                completed_steps: 4,
                reason: RuntimeCheckpointReason::Cadence,
            },
            RuntimeCheckpointEvent {
                completed_steps: 5,
                reason: RuntimeCheckpointReason::Final,
            },
        ]
    );
    assert_eq!(
        report,
        RuntimeCheckpointRunReport {
            requested_steps: 5,
            completed_steps: 5,
            checkpoints_emitted: 4,
        }
    );

    let mut direct = Sim::new(&design, "Counter", two_cpu_topology()).unwrap();
    direct.set_input(en, &[1, 1, 1, 1, 1]).unwrap();
    direct.tick_many(5).unwrap();

    let mut restored = Sim::new(&design, "Counter", two_cpu_topology()).unwrap();
    restored
        .restore_checkpoint(checkpoints.last().unwrap())
        .unwrap();

    assert_eq!(
        runtime.get_signal(out).unwrap(),
        direct.get_signal(out).unwrap()
    );
    assert_eq!(
        restored.get_signal(out).unwrap(),
        direct.get_signal(out).unwrap()
    );
}

#[test]
fn runtime_checkpoint_cadence_suppresses_duplicate_final() {
    let (design, en, _) = counter_design();
    let mut runtime = Sim::new(&design, "Counter", two_cpu_topology()).unwrap();
    runtime.set_input(en, &[1, 1, 1, 1, 1]).unwrap();
    let mut events = Vec::new();

    let report = runtime
        .tick_many_with_checkpoints(
            4,
            RuntimeCheckpointCadence {
                every_steps: 2,
                include_initial: false,
                include_final: true,
            },
            |event, _| {
                events.push(event);
                Ok(())
            },
        )
        .unwrap();

    assert_eq!(
        events,
        vec![
            RuntimeCheckpointEvent {
                completed_steps: 2,
                reason: RuntimeCheckpointReason::Cadence,
            },
            RuntimeCheckpointEvent {
                completed_steps: 4,
                reason: RuntimeCheckpointReason::Cadence,
            },
        ]
    );
    assert_eq!(report.checkpoints_emitted, 2);
}

#[test]
fn runtime_checkpoint_cadence_supports_zero_steps() {
    let (design, _, _) = counter_design();
    let mut runtime = Sim::new(&design, "Counter", two_cpu_topology()).unwrap();
    let mut events = Vec::new();

    let report = runtime
        .tick_many_with_checkpoints(
            0,
            RuntimeCheckpointCadence {
                every_steps: 3,
                include_initial: true,
                include_final: true,
            },
            |event, _| {
                events.push(event);
                Ok(())
            },
        )
        .unwrap();

    assert_eq!(
        events,
        vec![RuntimeCheckpointEvent {
            completed_steps: 0,
            reason: RuntimeCheckpointReason::Initial,
        }]
    );
    assert_eq!(
        report,
        RuntimeCheckpointRunReport {
            requested_steps: 0,
            completed_steps: 0,
            checkpoints_emitted: 1,
        }
    );

    events.clear();
    runtime
        .tick_many_with_checkpoints(
            0,
            RuntimeCheckpointCadence {
                every_steps: 3,
                include_initial: false,
                include_final: true,
            },
            |event, _| {
                events.push(event);
                Ok(())
            },
        )
        .unwrap();
    assert_eq!(
        events,
        vec![RuntimeCheckpointEvent {
            completed_steps: 0,
            reason: RuntimeCheckpointReason::Final,
        }]
    );
}

#[test]
fn runtime_checkpoint_cadence_includes_tcp_endpoints() {
    let (design, en, _) = counter_design();
    let mut runtime = Sim::new(&design, "Counter", two_cpu_topology()).unwrap();
    runtime.set_input(en, &[1, 1, 1, 1, 1]).unwrap();
    let endpoints = vec![
        endpoint("cpu-a", "127.0.0.1:10001"),
        endpoint("cpu-b", "127.0.0.1:10002"),
    ];
    let mut endpoint_maps = Vec::new();

    runtime
        .tick_many_with_tcp_checkpoints(
            1,
            RuntimeCheckpointCadence::every_steps(1),
            &endpoints,
            |_, checkpoint| {
                endpoint_maps.push(endpoint_map(checkpoint).unwrap());
                Ok(())
            },
        )
        .unwrap();

    assert_eq!(endpoint_maps, vec![endpoints]);
}

#[test]
fn runtime_checkpoint_cadence_validates_every_steps() {
    let (design, _, _) = counter_design();
    let mut runtime = Sim::new(&design, "Counter", two_cpu_topology()).unwrap();

    let err = runtime
        .tick_many_with_checkpoints(
            1,
            RuntimeCheckpointCadence {
                every_steps: 0,
                include_initial: false,
                include_final: true,
            },
            |_, _| Ok(()),
        )
        .unwrap_err();

    assert_eq!(err.diagnostics[0].code, "E_RUNTIME_CHECKPOINT_CADENCE");
}

#[test]
fn runtime_checkpoint_cadence_propagates_callback_errors() {
    let (design, en, out) = counter_design();
    let mut runtime = Sim::new(&design, "Counter", two_cpu_topology()).unwrap();
    runtime.set_input(en, &[1, 1, 1, 1, 1]).unwrap();
    let mut events = Vec::new();

    let err = runtime
        .tick_many_with_checkpoints(
            5,
            RuntimeCheckpointCadence {
                every_steps: 2,
                include_initial: false,
                include_final: true,
            },
            |event, _| {
                events.push(event);
                Err(error("E_TEST_CHECKPOINT_SINK", "checkpoint sink failed"))
            },
        )
        .unwrap_err();

    assert_eq!(err.diagnostics[0].code, "E_TEST_CHECKPOINT_SINK");
    assert_eq!(
        events,
        vec![RuntimeCheckpointEvent {
            completed_steps: 2,
            reason: RuntimeCheckpointReason::Cadence,
        }]
    );
    assert_eq!(runtime.get_signal(out).unwrap(), vec![2, 2, 2, 2, 2]);
}

#[test]
fn loopback_runtime_checkpoint_restore_round_trip() {
    let (design, en, we, addr, data, mem, count, read) = snapshot_design();
    let topology = two_cpu_topology();
    let mut source = Sim::new_loopback_workers(
        &design,
        "SnapshotTop",
        topology.clone(),
        DistributedRuntimeOptions::default(),
    )
    .unwrap();
    source.set_input(en, &[1, 0, 1, 0, 1]).unwrap();
    source.set_input(we, &[1, 1, 1, 1, 1]).unwrap();
    source.set_input(addr, &[0, 1, 2, 3, 0]).unwrap();
    source.set_input(data, &[9, 11, 13, 15, 17]).unwrap();
    source.tick().unwrap();
    source.set_input(we, &[0, 0, 0, 0, 0]).unwrap();
    source.eval_combinational().unwrap();
    let checkpoint = source.checkpoint().unwrap();
    let expected_count = source.get_signal(count).unwrap();
    let expected_read = source.get_signal(read).unwrap();
    let expected_memory = source.get_memory(mem).unwrap();

    let mut restored = Sim::new_loopback_workers(
        &design,
        "SnapshotTop",
        topology,
        DistributedRuntimeOptions::default(),
    )
    .unwrap();
    restored.restore_checkpoint(&checkpoint).unwrap();

    assert_eq!(restored.get_signal(count).unwrap(), expected_count);
    assert_eq!(restored.get_signal(read).unwrap(), expected_read);
    assert_eq!(restored.get_memory(mem).unwrap(), expected_memory);
}

#[test]
fn loopback_runtime_matches_direct_counter_execution() {
    let (design, en, out) = counter_design();
    let topology = two_cpu_topology();
    let mut direct = Sim::new(&design, "Counter", topology.clone()).unwrap();
    let mut loopback = Sim::new_loopback_workers(
        &design,
        "Counter",
        topology,
        DistributedRuntimeOptions::default(),
    )
    .unwrap();

    for runtime in [&mut direct, &mut loopback] {
        runtime.set_input(en, &[1, 0, 1, 0, 1]).unwrap();
        runtime.tick().unwrap();
        runtime.set_input(en, &[1, 1, 0, 1, 1]).unwrap();
        runtime.tick_many(2).unwrap();
    }

    assert_eq!(
        loopback.get_signal(out).unwrap(),
        direct.get_signal(out).unwrap()
    );
    assert_eq!(loopback.shard_plan(), direct.shard_plan());
}

#[test]
fn loopback_runtime_matches_direct_memory_execution() {
    let (design, we, addr, data, mem, read) = memory_design();
    let topology = two_cpu_topology();
    let mut direct = Sim::new(&design, "MemoryTop", topology.clone()).unwrap();
    let mut loopback = Sim::new_loopback_workers(
        &design,
        "MemoryTop",
        topology,
        DistributedRuntimeOptions::default(),
    )
    .unwrap();
    let seeded = vec![
        vec![1, 2, 3, 4],
        vec![5, 6, 7, 8],
        vec![9, 10, 11, 12],
        vec![13, 14, 15, 16],
        vec![17, 18, 19, 20],
    ];

    for runtime in [&mut direct, &mut loopback] {
        runtime.set_memory(mem, &seeded).unwrap();
        runtime.set_input(we, &[1, 1, 0, 0, 1]).unwrap();
        runtime.set_input(addr, &[0, 1, 2, 3, 0]).unwrap();
        runtime.set_input(data, &[21, 22, 23, 24, 25]).unwrap();
        runtime.tick().unwrap();
        runtime.set_input(we, &[0, 0, 0, 0, 0]).unwrap();
        runtime.eval_combinational().unwrap();
    }

    assert_eq!(
        loopback.get_signal(read).unwrap(),
        direct.get_signal(read).unwrap()
    );
    assert_eq!(
        loopback.get_memory(mem).unwrap(),
        direct.get_memory(mem).unwrap()
    );
}

#[test]
fn parallel_loopback_runtime_counts_operations() {
    let (design, en, out) = counter_design();
    let mut runtime = Sim::new_loopback_workers(
        &design,
        "Counter",
        two_cpu_topology(),
        parallel_options(),
    )
    .unwrap();

    runtime.set_input(en, &[1, 1, 1, 1, 1]).unwrap();
    runtime.tick().unwrap();
    assert_eq!(runtime.get_signal(out).unwrap(), vec![1, 1, 1, 1, 1]);

    let stats = runtime.stats();
    assert_eq!(stats.execution_mode, RuntimeExecutionMode::Parallel);
    assert_eq!(stats.operations.tick.calls, 1);
    assert_eq!(stats.shards.len(), 2);
    for shard in stats.shards {
        assert_eq!(shard.operations.tick.calls, 1);
    }

    let health = runtime.health().unwrap();
    assert_eq!(health.total_lanes, 5);
    assert_eq!(health.shards.len(), 2);
    for shard in health.shards {
        assert_eq!(shard.status, RuntimeShardHealthStatus::Healthy);
        assert_eq!(shard.operations.unwrap().tick.calls, 1);
    }
}

#[test]
fn loopback_runtime_snapshot_restore_round_trip() {
    let (design, en, we, addr, data, mem, count, read) = snapshot_design();
    let topology = two_cpu_topology();
    let mut source = Sim::new_loopback_workers(
        &design,
        "SnapshotTop",
        topology.clone(),
        DistributedRuntimeOptions::default(),
    )
    .unwrap();
    source.set_input(en, &[1, 0, 1, 0, 1]).unwrap();
    source.set_input(we, &[1, 1, 1, 1, 1]).unwrap();
    source.set_input(addr, &[0, 1, 2, 3, 0]).unwrap();
    source.set_input(data, &[9, 11, 13, 15, 17]).unwrap();
    source.tick().unwrap();
    source.set_input(we, &[0, 0, 0, 0, 0]).unwrap();
    source.eval_combinational().unwrap();
    let snapshot = source.snapshot().unwrap();
    let expected_count = source.get_signal(count).unwrap();
    let expected_read = source.get_signal(read).unwrap();
    let expected_memory = source.get_memory(mem).unwrap();

    let mut restored = Sim::new_loopback_workers(
        &design,
        "SnapshotTop",
        topology,
        DistributedRuntimeOptions::default(),
    )
    .unwrap();
    restored.restore_snapshot(&snapshot).unwrap();

    assert_eq!(restored.get_signal(count).unwrap(), expected_count);
    assert_eq!(restored.get_signal(read).unwrap(), expected_read);
    assert_eq!(restored.get_memory(mem).unwrap(), expected_memory);
}

#[test]
fn loopback_gpu_runtime_smoke_when_adapter_exists() {
    let (design, en, out) = counter_design();
    let topology = RuntimeTopology::local_heterogeneous(0, 2, GpuBatchOptions::default());
    let Ok(mut runtime) = Sim::new_loopback_workers(
        &design,
        "Counter",
        topology,
        parallel_options(),
    ) else {
        return;
    };

    runtime.set_input(en, &[1, 0]).unwrap();
    runtime.tick().unwrap();
    assert_eq!(runtime.get_signal(out).unwrap(), vec![1, 0]);
}

#[test]
fn tcp_runtime_matches_direct_counter_execution() {
    let (design, en, out) = counter_design();
    let topology = two_cpu_topology();
    let mut direct = Sim::new(&design, "Counter", topology.clone()).unwrap();
    let endpoints = endpoints_for_topology(&topology);
    let tcp_out = {
        let mut tcp = Sim::new_tcp_workers(
            &design,
            "Counter",
            topology,
            DistributedRuntimeOptions::default(),
            endpoints,
        )
        .unwrap();

        for runtime in [&mut direct, &mut tcp] {
            runtime.set_input(en, &[1, 0, 1, 0, 1]).unwrap();
            runtime.tick().unwrap();
            runtime.set_input(en, &[1, 1, 0, 1, 1]).unwrap();
            runtime.tick_many(2).unwrap();
        }
        tcp.get_signal(out).unwrap()
    };

    assert_eq!(tcp_out, direct.get_signal(out).unwrap());
}

#[test]
fn tcp_runtime_matches_direct_memory_execution() {
    let (design, we, addr, data, mem, read) = memory_design();
    let topology = two_cpu_topology();
    let mut direct = Sim::new(&design, "MemoryTop", topology.clone()).unwrap();
    let endpoints = endpoints_for_topology(&topology);
    let (tcp_read, tcp_memory) = {
        let mut tcp = Sim::new_tcp_workers(
            &design,
            "MemoryTop",
            topology,
            DistributedRuntimeOptions::default(),
            endpoints,
        )
        .unwrap();
        let seeded = vec![
            vec![1, 2, 3, 4],
            vec![5, 6, 7, 8],
            vec![9, 10, 11, 12],
            vec![13, 14, 15, 16],
            vec![17, 18, 19, 20],
        ];

        for runtime in [&mut direct, &mut tcp] {
            runtime.set_memory(mem, &seeded).unwrap();
            runtime.set_input(we, &[1, 1, 0, 0, 1]).unwrap();
            runtime.set_input(addr, &[0, 1, 2, 3, 0]).unwrap();
            runtime.set_input(data, &[21, 22, 23, 24, 25]).unwrap();
            runtime.tick().unwrap();
            runtime.set_input(we, &[0, 0, 0, 0, 0]).unwrap();
            runtime.eval_combinational().unwrap();
        }
        (tcp.get_signal(read).unwrap(), tcp.get_memory(mem).unwrap())
    };

    assert_eq!(tcp_read, direct.get_signal(read).unwrap());
    assert_eq!(tcp_memory, direct.get_memory(mem).unwrap());
}

#[test]
fn parallel_tcp_runtime_counts_operations() {
    let (design, en, out) = counter_design();
    let topology = two_cpu_topology();
    let endpoints = endpoints_for_topology(&topology);
    let (stats, health) = {
        let mut runtime = Sim::new_tcp_workers(
            &design,
            "Counter",
            topology,
            parallel_options(),
            endpoints,
        )
        .unwrap();

        runtime.set_input(en, &[1, 1, 1, 1, 1]).unwrap();
        runtime.tick().unwrap();
        assert_eq!(runtime.get_signal(out).unwrap(), vec![1, 1, 1, 1, 1]);
        (runtime.stats(), runtime.health().unwrap())
    };

    assert_eq!(stats.execution_mode, RuntimeExecutionMode::Parallel);
    assert_eq!(stats.operations.tick.calls, 1);
    assert_eq!(stats.shards.len(), 2);
    for shard in stats.shards {
        assert_eq!(shard.operations.tick.calls, 1);
    }
    assert_eq!(health.total_lanes, 5);
    assert_eq!(health.shards.len(), 2);
    for shard in health.shards {
        assert_eq!(shard.status, RuntimeShardHealthStatus::Healthy);
        assert_eq!(shard.operations.unwrap().tick.calls, 1);
    }
}

#[test]
fn tcp_runtime_snapshot_restore_round_trip() {
    let (design, en, we, addr, data, mem, count, read) = snapshot_design();
    let topology = two_cpu_topology();
    let source_endpoints = endpoints_for_topology(&topology);
    let (snapshot, expected_count, expected_read, expected_memory) = {
        let mut source = Sim::new_tcp_workers(
            &design,
            "SnapshotTop",
            topology.clone(),
            DistributedRuntimeOptions::default(),
            source_endpoints,
        )
        .unwrap();
        source.set_input(en, &[1, 0, 1, 0, 1]).unwrap();
        source.set_input(we, &[1, 1, 1, 1, 1]).unwrap();
        source.set_input(addr, &[0, 1, 2, 3, 0]).unwrap();
        source.set_input(data, &[9, 11, 13, 15, 17]).unwrap();
        source.tick().unwrap();
        source.set_input(we, &[0, 0, 0, 0, 0]).unwrap();
        source.eval_combinational().unwrap();
        (
            source.snapshot().unwrap(),
            source.get_signal(count).unwrap(),
            source.get_signal(read).unwrap(),
            source.get_memory(mem).unwrap(),
        )
    };

    let restore_endpoints = endpoints_for_topology(&topology);
    let (restored_count, restored_read, restored_memory) = {
        let mut restored = Sim::new_tcp_workers(
            &design,
            "SnapshotTop",
            topology,
            DistributedRuntimeOptions::default(),
            restore_endpoints,
        )
        .unwrap();
        restored.restore_snapshot(&snapshot).unwrap();
        (
            restored.get_signal(count).unwrap(),
            restored.get_signal(read).unwrap(),
            restored.get_memory(mem).unwrap(),
        )
    };

    assert_eq!(restored_count, expected_count);
    assert_eq!(restored_read, expected_read);
    assert_eq!(restored_memory, expected_memory);
}

#[test]
fn tcp_runtime_checkpoint_restore_round_trip() {
    let (design, en, we, addr, data, mem, count, read) = snapshot_design();
    let topology = two_cpu_topology();
    let source_endpoints = endpoints_for_topology(&topology);
    let (checkpoint, expected_count, expected_read, expected_memory) = {
        let mut source = Sim::new_tcp_workers(
            &design,
            "SnapshotTop",
            topology.clone(),
            DistributedRuntimeOptions::default(),
            source_endpoints.clone(),
        )
        .unwrap();
        source.set_input(en, &[1, 0, 1, 0, 1]).unwrap();
        source.set_input(we, &[1, 1, 1, 1, 1]).unwrap();
        source.set_input(addr, &[0, 1, 2, 3, 0]).unwrap();
        source.set_input(data, &[9, 11, 13, 15, 17]).unwrap();
        source.tick().unwrap();
        source.set_input(we, &[0, 0, 0, 0, 0]).unwrap();
        source.eval_combinational().unwrap();
        (
            source
                .checkpoint_with_tcp_endpoints(&source_endpoints)
                .unwrap(),
            source.get_signal(count).unwrap(),
            source.get_signal(read).unwrap(),
            source.get_memory(mem).unwrap(),
        )
    };
    assert_eq!(endpoint_map(&checkpoint).unwrap(), source_endpoints);

    let restore_endpoints = endpoints_for_topology(&topology);
    let (restored_count, restored_read, restored_memory) = {
        let mut restored = Sim::new_tcp_workers(
            &design,
            "SnapshotTop",
            topology,
            DistributedRuntimeOptions::default(),
            restore_endpoints,
        )
        .unwrap();
        restored.restore_checkpoint(&checkpoint).unwrap();
        (
            restored.get_signal(count).unwrap(),
            restored.get_signal(read).unwrap(),
            restored.get_memory(mem).unwrap(),
        )
    };

    assert_eq!(restored_count, expected_count);
    assert_eq!(restored_read, expected_read);
    assert_eq!(restored_memory, expected_memory);
}

#[test]
fn tcp_runtime_recovers_workers_from_checkpoint() {
    let (design, en, we, addr, data, mem, count, read) = snapshot_design();
    let topology = two_cpu_topology();
    let initial_endpoints = endpoints_for_topology(&topology);
    let mut runtime = Sim::new_tcp_workers(
        &design,
        "SnapshotTop",
        topology.clone(),
        DistributedRuntimeOptions::default(),
        initial_endpoints.clone(),
    )
    .unwrap();
    runtime.set_input(en, &[1, 0, 1, 0, 1]).unwrap();
    runtime.set_input(we, &[1, 1, 1, 1, 1]).unwrap();
    runtime.set_input(addr, &[0, 1, 2, 3, 0]).unwrap();
    runtime.set_input(data, &[9, 11, 13, 15, 17]).unwrap();
    runtime.tick().unwrap();
    runtime.set_input(we, &[0, 0, 0, 0, 0]).unwrap();
    runtime.eval_combinational().unwrap();
    let checkpoint = runtime
        .checkpoint_with_tcp_endpoints(&initial_endpoints)
        .unwrap();
    let expected_count = runtime.get_signal(count).unwrap();
    let expected_read = runtime.get_signal(read).unwrap();
    let expected_memory = runtime.get_memory(mem).unwrap();
    let top_tick_calls = runtime.stats().operations.tick.calls;

    let recovery_endpoints = endpoints_for_topology(&topology);
    let report = runtime
        .recover_tcp_workers_from_checkpoint(&design, &checkpoint, recovery_endpoints)
        .unwrap();

    assert_eq!(
        report.recovered_workers,
        vec!["cpu-a".to_string(), "cpu-b".to_string()]
    );
    assert_eq!(runtime.get_signal(count).unwrap(), expected_count);
    assert_eq!(runtime.get_signal(read).unwrap(), expected_read);
    assert_eq!(runtime.get_memory(mem).unwrap(), expected_memory);
    let stats = runtime.stats();
    assert_eq!(stats.operations.tick.calls, top_tick_calls);
    for shard in stats.shards {
        assert_operation_stats_zero(shard.operations);
    }

    let mut direct = Sim::new(&design, "SnapshotTop", topology).unwrap();
    direct.restore_checkpoint(&checkpoint).unwrap();
    for recovered in [&mut runtime, &mut direct] {
        recovered.set_input(en, &[1, 1, 1, 1, 1]).unwrap();
        recovered.tick().unwrap();
    }
    assert_eq!(
        runtime.get_signal(count).unwrap(),
        direct.get_signal(count).unwrap()
    );
    assert_eq!(
        runtime.get_signal(read).unwrap(),
        direct.get_signal(read).unwrap()
    );
    assert_eq!(
        runtime.get_memory(mem).unwrap(),
        direct.get_memory(mem).unwrap()
    );

}

#[test]
fn tcp_runtime_recovery_validates_checkpoint_design_and_endpoints() {
    let (design, en, _, _, _, _, _, _) = snapshot_design();
    let topology = two_cpu_topology();
    let initial_endpoints = endpoints_for_topology(&topology);
    let mut runtime = Sim::new_tcp_workers(
        &design,
        "SnapshotTop",
        topology.clone(),
        DistributedRuntimeOptions::default(),
        initial_endpoints.clone(),
    )
    .unwrap();
    runtime.set_input(en, &[1, 0, 1, 0, 1]).unwrap();
    runtime.tick().unwrap();
    let checkpoint = runtime
        .checkpoint_with_tcp_endpoints(&initial_endpoints)
        .unwrap();

    let mut missing = endpoint_map(&checkpoint).unwrap();
    missing.retain(|endpoint| endpoint.worker_id != "cpu-b");
    let err = runtime
        .recover_tcp_workers_from_checkpoint(&design, &checkpoint, missing)
        .unwrap_err();
    assert_eq!(err.diagnostics[0].code, "E_RUNTIME_TCP_ENDPOINT");

    let err = runtime
        .recover_tcp_workers_from_checkpoint(
            &design,
            &checkpoint,
            vec![
                endpoint("cpu-a", "127.0.0.1:1"),
                endpoint("cpu-b", "127.0.0.1:2"),
                endpoint("unknown", "127.0.0.1:3"),
            ],
        )
        .unwrap_err();
    assert_eq!(err.diagnostics[0].code, "E_RUNTIME_TCP_ENDPOINT");

    let (other_design, _, _) = counter_design();
    let err = runtime
        .recover_tcp_workers_from_checkpoint(
            &other_design,
            &checkpoint,
            endpoint_map(&checkpoint).unwrap(),
        )
        .unwrap_err();
    assert_eq!(err.diagnostics[0].code, "E_RUNTIME_CHECKPOINT_PROGRAM");

    let mut bad = checkpoint.clone();
    bad.snapshot.shards[0].values.pop();
    let err = runtime
        .recover_tcp_workers_from_checkpoint(
            &design,
            &bad,
            endpoint_map(&checkpoint).unwrap(),
        )
        .unwrap_err();
    assert_eq!(err.diagnostics[0].code, "E_RUNTIME_SNAPSHOT_STORAGE");

}

#[test]
fn tcp_gpu_runtime_smoke_when_adapter_exists() {
    let (design, en, out) = counter_design();
    let topology = RuntimeTopology::local_heterogeneous(0, 2, GpuBatchOptions::default());
    let endpoints = endpoints_for_topology(&topology);
    let result = {
        let Ok(mut runtime) = Sim::new_tcp_workers(
            &design,
            "Counter",
            topology,
            parallel_options(),
            endpoints,
        ) else {
            return;
        };
        runtime.set_input(en, &[1, 0]).unwrap();
        runtime.tick().unwrap();
        runtime.get_signal(out).unwrap()
    };

    assert_eq!(result, vec![1, 0]);
}

#[test]
fn local_cpu_runtime_ticks_all_lanes() {
    let (design, en, out) = counter_design();
    let mut runtime = Sim::local_cpu(&design, "Counter", 4).unwrap();

    runtime.set_input(en, &[1, 0, 1, 1]).unwrap();
    runtime.tick().unwrap();
    assert_eq!(runtime.get_signal(out).unwrap(), vec![1, 0, 1, 1]);

    runtime.set_input(en, &[1, 1, 0, 1]).unwrap();
    runtime.tick_many(2).unwrap();
    assert_eq!(runtime.get_signal(out).unwrap(), vec![3, 2, 1, 3]);
}

#[test]
fn topology_shards_preserve_global_lane_order() {
    let (design, en, out) = counter_design();
    let mut topology = RuntimeTopology::new();
    topology.push(RuntimeWorker::local_cpu("cpu-a", 2).on_node("node-a"));
    topology.push(RuntimeWorker::local_cpu("cpu-b", 3).on_node("node-b"));
    let mut runtime = Sim::new(&design, "Counter", topology).unwrap();

    assert_eq!(runtime.total_lanes(), 5);
    assert_eq!(
        runtime
            .shard_plan()
            .iter()
            .map(|shard| (shard.worker_id.as_str(), shard.start_lane, shard.lanes))
            .collect::<Vec<_>>(),
        vec![("cpu-a", 0, 2), ("cpu-b", 2, 3)]
    );

    runtime.set_input(en, &[1, 0, 1, 0, 1]).unwrap();
    runtime.tick().unwrap();
    assert_eq!(runtime.get_signal(out).unwrap(), vec![1, 0, 1, 0, 1]);
}

#[test]
fn parallel_cpu_shards_match_serial_counter_execution() {
    let (design, en, out) = counter_design();
    let topology = two_cpu_topology();
    let mut serial = Sim::new(&design, "Counter", topology.clone()).unwrap();
    let mut parallel =
        Sim::new_with_options(&design, "Counter", topology, parallel_options())
            .unwrap();

    for runtime in [&mut serial, &mut parallel] {
        runtime.set_input(en, &[1, 0, 1, 0, 1]).unwrap();
        runtime.tick().unwrap();
        runtime.set_input(en, &[1, 1, 0, 1, 1]).unwrap();
        runtime.tick_many(2).unwrap();
    }

    assert_eq!(
        parallel.get_signal(out).unwrap(),
        serial.get_signal(out).unwrap()
    );
    assert_eq!(parallel.shard_plan(), serial.shard_plan());
}

#[test]
fn serial_runtime_stats_count_operations_and_shards() {
    let (design, en, out) = counter_design();
    let mut runtime = Sim::new(&design, "Counter", two_cpu_topology()).unwrap();

    runtime.set_input(en, &[1, 0, 1, 0, 1]).unwrap();
    runtime.tick().unwrap();
    runtime.tick_many(2).unwrap();
    runtime.eval_combinational().unwrap();
    assert_eq!(runtime.get_signal(out).unwrap(), vec![3, 0, 3, 0, 3]);

    let stats = runtime.stats();
    assert_eq!(stats.execution_mode, RuntimeExecutionMode::Serial);
    assert_eq!(stats.operations.tick.calls, 1);
    assert_eq!(stats.operations.tick_many.calls, 1);
    assert_eq!(stats.operations.eval_combinational.calls, 1);
    for shard in stats.shards {
        assert_eq!(shard.operations.tick.calls, 1);
        assert_eq!(shard.operations.tick_many.calls, 1);
        assert_eq!(shard.operations.eval_combinational.calls, 1);
    }
}

#[test]
fn topology_shards_preserve_memory_global_lane_order() {
    let (design, _, addr, _, mem, read) = memory_design();
    let mut topology = RuntimeTopology::new();
    topology.push(RuntimeWorker::local_cpu("cpu-a", 2).on_node("node-a"));
    topology.push(RuntimeWorker::local_cpu("cpu-b", 3).on_node("node-b"));
    let mut runtime = Sim::new(&design, "MemoryTop", topology).unwrap();
    let memory = vec![
        vec![1, 2, 3, 4],
        vec![5, 6, 7, 8],
        vec![9, 10, 11, 12],
        vec![13, 14, 15, 16],
        vec![17, 18, 19, 20],
    ];

    runtime.set_memory(mem, &memory).unwrap();
    assert_eq!(runtime.get_memory(mem).unwrap(), memory);

    runtime.set_input(addr, &[0, 1, 2, 3, 0]).unwrap();
    runtime.eval_combinational().unwrap();
    assert_eq!(runtime.get_signal(read).unwrap(), vec![1, 6, 11, 16, 17]);
}

#[test]
fn runtime_memory_writes_route_through_shards() {
    let (design, we, addr, data, mem, read) = memory_design();
    let mut topology = RuntimeTopology::new();
    topology.push(RuntimeWorker::local_cpu("cpu-a", 1));
    topology.push(RuntimeWorker::local_cpu("cpu-b", 2));
    let mut runtime = Sim::new(&design, "MemoryTop", topology).unwrap();

    runtime.set_input(we, &[1, 1, 1]).unwrap();
    runtime.set_input(addr, &[0, 1, 2]).unwrap();
    runtime.set_input(data, &[9, 11, 13]).unwrap();
    runtime.tick().unwrap();

    runtime.set_input(we, &[0, 0, 0]).unwrap();
    runtime.eval_combinational().unwrap();
    assert_eq!(runtime.get_signal(read).unwrap(), vec![9, 11, 13]);
    assert_eq!(
        runtime.get_memory(mem).unwrap(),
        vec![vec![9, 0, 0, 0], vec![0, 11, 0, 0], vec![0, 0, 13, 0]]
    );
}

#[test]
fn parallel_cpu_shards_match_serial_memory_execution() {
    let (design, we, addr, data, mem, read) = memory_design();
    let topology = two_cpu_topology();
    let mut serial = Sim::new(&design, "MemoryTop", topology.clone()).unwrap();
    let mut parallel = Sim::new_with_options(
        &design,
        "MemoryTop",
        topology,
        parallel_options(),
    )
    .unwrap();
    let seeded = vec![
        vec![1, 2, 3, 4],
        vec![5, 6, 7, 8],
        vec![9, 10, 11, 12],
        vec![13, 14, 15, 16],
        vec![17, 18, 19, 20],
    ];

    for runtime in [&mut serial, &mut parallel] {
        runtime.set_memory(mem, &seeded).unwrap();
        runtime.set_input(we, &[1, 1, 0, 0, 1]).unwrap();
        runtime.set_input(addr, &[0, 1, 2, 3, 0]).unwrap();
        runtime.set_input(data, &[21, 22, 23, 24, 25]).unwrap();
        runtime.tick().unwrap();
        runtime.set_input(we, &[0, 0, 0, 0, 0]).unwrap();
        runtime.eval_combinational().unwrap();
    }

    assert_eq!(
        parallel.get_signal(read).unwrap(),
        serial.get_signal(read).unwrap()
    );
    assert_eq!(
        parallel.get_memory(mem).unwrap(),
        serial.get_memory(mem).unwrap()
    );
}

#[test]
fn parallel_runtime_stats_count_operations_and_report_mode() {
    let (design, we, addr, data, _, _) = memory_design();
    let mut runtime = Sim::new_with_options(
        &design,
        "MemoryTop",
        two_cpu_topology(),
        parallel_options(),
    )
    .unwrap();

    runtime.set_input(we, &[1, 1, 0, 0, 1]).unwrap();
    runtime.set_input(addr, &[0, 1, 2, 3, 0]).unwrap();
    runtime.set_input(data, &[21, 22, 23, 24, 25]).unwrap();
    runtime.tick().unwrap();
    runtime.tick_many(0).unwrap();
    runtime.eval_combinational().unwrap();

    let stats = runtime.stats();
    assert_eq!(stats.execution_mode, RuntimeExecutionMode::Parallel);
    assert_eq!(stats.operations.tick.calls, 1);
    assert_eq!(stats.operations.tick_many.calls, 1);
    assert_eq!(stats.operations.eval_combinational.calls, 1);
    assert_eq!(stats.shards.len(), 2);
    for shard in stats.shards {
        assert_eq!(shard.operations.tick.calls, 1);
        assert_eq!(shard.operations.tick_many.calls, 1);
        assert_eq!(shard.operations.eval_combinational.calls, 1);
    }
}

#[test]
fn reset_stats_keeps_simulation_state() {
    let (design, en, out) = counter_design();
    let mut runtime = Sim::new_with_options(
        &design,
        "Counter",
        two_cpu_topology(),
        parallel_options(),
    )
    .unwrap();

    runtime.set_input(en, &[1, 1, 1, 1, 1]).unwrap();
    runtime.tick().unwrap();
    assert_eq!(runtime.get_signal(out).unwrap(), vec![1, 1, 1, 1, 1]);
    assert_eq!(runtime.stats().operations.tick.calls, 1);

    runtime.reset_stats();
    let stats = runtime.stats();
    assert_operation_stats_zero(stats.operations);
    for shard in stats.shards {
        assert_operation_stats_zero(shard.operations);
    }
    assert_eq!(runtime.get_signal(out).unwrap(), vec![1, 1, 1, 1, 1]);
}

#[test]
fn parallel_tick_many_zero_steps_keeps_state() {
    let (design, en, out) = counter_design();
    let mut runtime = Sim::new_with_options(
        &design,
        "Counter",
        two_cpu_topology(),
        parallel_options(),
    )
    .unwrap();

    runtime.set_input(en, &[1, 1, 1, 1, 1]).unwrap();
    runtime.tick_many(0).unwrap();
    assert_eq!(runtime.get_signal(out).unwrap(), vec![0, 0, 0, 0, 0]);
}

#[test]
fn runtime_memory_limb_apis_support_wide_words() {
    let design = Design {
        top: Top::WideRuntimeMem,
    };
    let mem = signal(0);
    let mut runtime = Sim::local_cpu(&design, "WideRuntimeMem", 2).unwrap();
    let values = vec![
        vec![vec![1, 2, 3, 4, 5], vec![6, 7, 8, 9, 10]],
        vec![vec![11, 12, 13, 14, 15], vec![16, 17, 18, 19, 20]],
    ];

    runtime.set_memory_limbs(mem, &values).unwrap();
    assert_eq!(runtime.get_memory_limbs(mem).unwrap(), values);

    let err = runtime
        .set_memory(mem, &[vec![0, 1], vec![2, 3]])
        .unwrap_err();
    assert_eq!(err.diagnostics[0].code, "E_RUNTIME_WIDE_MEMORY");
    let err = runtime.get_memory(mem).unwrap_err();
    assert_eq!(err.diagnostics[0].code, "E_RUNTIME_WIDE_MEMORY");
}

#[test]
fn gpu_runtime_memory_apis_work_when_adapter_exists() {
    let (design, _, _, _, mem, _) = memory_design();
    let topology = RuntimeTopology::local_heterogeneous(0, 2, GpuBatchOptions::default());
    let Ok(mut runtime) = Sim::new(&design, "MemoryTop", topology) else {
        return;
    };

    runtime
        .set_memory(mem, &[vec![1, 2, 3, 4], vec![5, 6, 7, 8]])
        .unwrap();
    assert_eq!(
        runtime.get_memory(mem).unwrap(),
        vec![vec![1, 2, 3, 4], vec![5, 6, 7, 8]]
    );
}

#[test]
fn parallel_cpu_gpu_shards_work_when_adapter_exists() {
    let (design, en, out) = counter_design();
    let mut topology = RuntimeTopology::new();
    topology.push(RuntimeWorker::local_cpu("cpu0", 1));
    topology.push(RuntimeWorker::local_gpu(
        "gpu0",
        2,
        GpuBatchOptions::default(),
    ));
    let Ok(mut runtime) =
        Sim::new_with_options(&design, "Counter", topology, parallel_options())
    else {
        return;
    };

    runtime.set_input(en, &[1, 0, 1]).unwrap();
    runtime.tick().unwrap();
    assert_eq!(runtime.get_signal(out).unwrap(), vec![1, 0, 1]);
}

#[test]
fn cpu_gpu_runtime_stats_report_shard_metadata_when_adapter_exists() {
    let (design, en, _) = counter_design();
    let mut topology = RuntimeTopology::new();
    topology.push(RuntimeWorker::local_cpu("cpu0", 1).on_node("host-a"));
    topology.push(
        RuntimeWorker::local_gpu("gpu0", 2, GpuBatchOptions::default()).on_node("host-b"),
    );
    let Ok(mut runtime) =
        Sim::new_with_options(&design, "Counter", topology, parallel_options())
    else {
        return;
    };

    runtime.set_input(en, &[1, 0, 1]).unwrap();
    runtime.tick().unwrap();
    let stats = runtime.stats();
    assert_eq!(stats.execution_mode, RuntimeExecutionMode::Parallel);
    assert_eq!(stats.total_lanes, 3);
    assert_eq!(stats.shards.len(), 2);
    assert_eq!(stats.shards[0].shard.worker_id, "cpu0");
    assert_eq!(stats.shards[0].shard.node, "host-a");
    assert_eq!(stats.shards[0].shard.backend, RuntimeBackend::PackedCpu);
    assert_eq!(stats.shards[0].shard.lanes, 1);
    assert_eq!(stats.shards[1].shard.worker_id, "gpu0");
    assert_eq!(stats.shards[1].shard.node, "host-b");
    assert!(matches!(
        stats.shards[1].shard.backend,
        RuntimeBackend::Gpu(_)
    ));
    assert_eq!(stats.shards[1].shard.lanes, 2);
    assert_eq!(stats.shards[0].operations.tick.calls, 1);
    assert_eq!(stats.shards[1].operations.tick.calls, 1);
}

#[test]
fn rejects_empty_topology_and_wrong_lane_count() {
    let (design, en, _) = counter_design();

    assert!(Sim::new(&design, "Counter", RuntimeTopology::new()).is_err());

    let mut runtime = Sim::local_cpu(&design, "Counter", 2).unwrap();
    let err = runtime.set_input(en, &[1]).unwrap_err();
    assert_eq!(err.diagnostics[0].code, "E_RUNTIME_LANE_VALUES");
}

#[test]
fn parallel_runtime_keeps_lane_count_diagnostics() {
    let (design, en, _) = counter_design();
    let mut runtime = Sim::new_with_options(
        &design,
        "Counter",
        two_cpu_topology(),
        parallel_options(),
    )
    .unwrap();

    let err = runtime.set_input(en, &[1, 0, 1, 0]).unwrap_err();
    assert_eq!(err.diagnostics[0].code, "E_RUNTIME_LANE_VALUES");
}

/// A supervisor, the runtime that it supervises, and its processes.
struct Supervised {
    supervisor: TcpRuntimeSupervisor,
    sim: Sim,
    processes: Vec<TcpRuntimeWorkerProcess>,
    dead: Vec<bool>,
    started: usize,
}

fn worker_endpoints(topology: &RuntimeTopology, started: usize) -> Vec<RuntimeTcpEndpoint> {
    let mut endpoints = Vec::new();
    for (i, worker) in topology.workers().iter().enumerate() {
        endpoints.push(endpoint(&worker.id, &format!("127.0.0.1:{}", 9000 + started + i)));
    }
    endpoints
}

fn processes_at(endpoints: &[RuntimeTcpEndpoint]) -> Vec<TcpRuntimeWorkerProcess> {
    endpoints
        .iter()
        .map(|at| TcpRuntimeWorkerProcess::new(at.worker_id.clone(), at.addr.clone()))
        .collect()
}

const KILLED: ProcessStatus = ProcessStatus {
    success: false,
    code: None,
};

impl Supervised {
    fn spawn(design: &Design, module_name: &str, topology: RuntimeTopology) -> Supervised {
        let endpoints = worker_endpoints(&topology, 0);
        let options = DistributedRuntimeOptions::default();
        let engines = Sim::engines(&topology);
        let lowered = design.lower(module_name);
        let runtime = DistributedRuntime::new_tcp_workers(
            lowered, &topology, options, &endpoints, &engines,
        )
        .unwrap();
        let sim = Sim::new_tcp_workers(
            design,
            module_name,
            topology.clone(),
            options,
            endpoints.clone(),
        )
        .unwrap();
        Supervised {
            processes: processes_at(&endpoints),
            dead: vec![false; endpoints.len()],
            supervisor: TcpRuntimeSupervisor::new(
                module_name.to_string(),
                topology,
                runtime,
                endpoints,
            ),
            sim,
            started: 2,
        }
    }

    /// Lends the supervisor the runtime.
    fn supervise<T>(&mut self, work: impl FnOnce(&mut TcpRuntimeSupervisor) -> T) -> T {
        std::mem::swap(&mut self.supervisor.runtime, &mut self.sim.runtime);
        let done = work(&mut self.supervisor);
        std::mem::swap(&mut self.supervisor.runtime, &mut self.sim.runtime);
        done
    }

    fn runtime_mut(&mut self) -> &mut Sim {
        &mut self.sim
    }

    fn module_name(&self) -> &str {
        self.supervisor.module_name()
    }

    fn endpoints(&self) -> &Vec<RuntimeTcpEndpoint> {
        self.supervisor.endpoints()
    }

    fn latest_checkpoint(&self) -> Option<&RuntimeCheckpoint> {
        self.supervisor.latest_checkpoint()
    }

    /// Ends a worker.
    fn fail(&mut self, worker: usize) {
        self.dead[worker] = true;
        assert!(!self.processes[worker].kill(Some(KILLED)));
        assert!(!self.processes[worker].wait(KILLED).success);
    }

    fn runtime_health(&mut self) -> Result<RuntimeHealthReport, ErrorReport> {
        if self.dead.contains(&true) {
            return Err(tcp_io_error(TransportFailure::UnexpectedEof, "connection closed"));
        }
        self.sim.health()
    }

    fn process_health(&mut self) -> Vec<TcpRuntimeWorkerProcessHealth> {
        self.processes.iter_mut().map(|process| process.health(None)).collect()
    }

    fn health(&mut self) -> Result<TcpRuntimeSupervisorHealth, ErrorReport> {
        let processes = self.process_health();
        let health = self.runtime_health();
        Ok(TcpRuntimeSupervisorHealth::new(processes, health))
    }

    fn telemetry(&mut self) -> Result<TcpRuntimeSupervisorTelemetry, ErrorReport> {
        let processes = self.process_health();
        let processes = processes.into_iter().map(|health| health.telemetry()).collect();
        let health = self.runtime_health();
        Ok(self.supervise(|supervisor| supervisor.telemetry(processes, health)))
    }

    fn tick_many_with_checkpoints(
        &mut self,
        steps: usize,
        cadence: RuntimeCheckpointCadence,
        mut sink: impl FnMut(RuntimeCheckpointEvent, &RuntimeCheckpoint) -> Result<(), ErrorReport>,
    ) -> Result<RuntimeCheckpointRunReport, ErrorReport> {
        let mut latest = None;
        let endpoints = self.supervisor.endpoints().clone();
        let result = self.sim.tick_many_with_tcp_checkpoints(
            steps,
            cadence,
            &endpoints,
            |event, checkpoint| {
                latest = Some((event, checkpoint.clone()));
                sink(event, checkpoint)
            },
        );
        self.supervisor.keep_checkpoint(latest);
        result
    }

    fn recover_from_latest_checkpoint(
        &mut self,
    ) -> Result<TcpRuntimeSupervisorRecoveryReport, ErrorReport> {
        let checkpoint = self.supervisor.recovery_checkpoint()?;
        let endpoints = worker_endpoints(&self.supervisor.topology, self.started);
        self.started += endpoints.len();
        let design = self.sim.design;
        self.sim.recover_tcp_workers_from_checkpoint(&design, &checkpoint, endpoints.clone())?;
        let exits = self.shutdown()?;
        self.processes = processes_at(&endpoints);
        self.dead = vec![false; endpoints.len()];
        let storages = self.sim.storages();
        self.supervise(|supervisor| {
            supervisor.recover_from_latest_checkpoint(endpoints, exits, &storages)
        })
    }

    fn shutdown(&mut self) -> Result<Vec<TcpRuntimeWorkerProcessExit>, ErrorReport> {
        for process in &mut self.processes {
            process.kill(None);
        }
        Ok(self.processes.iter_mut().map(|process| process.wait(KILLED)).collect())
    }
}

#[test]
fn supervisor_runs_checkpointed_tcp_runtime() {
    let (design, en, out) = counter_design();
    let topology = two_cpu_topology();
    let mut supervisor = Supervised::spawn(&design, "Counter", topology);

    assert_eq!(supervisor.module_name(), "Counter");
    assert_eq!(supervisor.endpoints().len(), 2);
    let health = supervisor.health().unwrap();
    assert_eq!(health.processes.len(), 2);
    assert!(health.runtime_error.is_none());
    assert_eq!(health.runtime.unwrap().shards.len(), 2);

    supervisor
        .runtime_mut()
        .set_input(en, &[1, 1, 1, 1, 1])
        .unwrap();
    let mut events = Vec::new();
    let report = supervisor
        .tick_many_with_checkpoints(
            3,
            RuntimeCheckpointCadence {
                every_steps: 2,
                include_initial: true,
                include_final: true,
            },
            |event, checkpoint| {
                events.push(event);
                assert_eq!(endpoint_map(checkpoint).unwrap().len(), 2);
                Ok(())
            },
        )
        .unwrap();

    assert_eq!(report.completed_steps, 3);
    assert_eq!(report.checkpoints_emitted, 3);
    assert_eq!(
        events,
        vec![
            RuntimeCheckpointEvent {
                completed_steps: 0,
                reason: RuntimeCheckpointReason::Initial,
            },
            RuntimeCheckpointEvent {
                completed_steps: 2,
                reason: RuntimeCheckpointReason::Cadence,
            },
            RuntimeCheckpointEvent {
                completed_steps: 3,
                reason: RuntimeCheckpointReason::Final,
            },
        ]
    );
    assert!(supervisor.latest_checkpoint().is_some());
    assert_eq!(
        supervisor.runtime_mut().get_signal(out).unwrap(),
        vec![3, 3, 3, 3, 3]
    );

    assert_eq!(supervisor.shutdown().unwrap().len(), 2);
}

#[test]
fn supervisor_telemetry_includes_full_checkpoint_and_event() {
    let (design, en, _) = counter_design();
    let topology = two_cpu_topology();
    let mut supervisor = Supervised::spawn(&design, "Counter", topology);
    supervisor
        .runtime_mut()
        .set_input(en, &[1, 1, 1, 1, 1])
        .unwrap();
    supervisor
        .tick_many_with_checkpoints(2, RuntimeCheckpointCadence::every_steps(2), |_, _| Ok(()))
        .unwrap();

    let telemetry = supervisor.telemetry().unwrap();
    let latest = telemetry.latest_checkpoint.unwrap();
    assert_eq!(
        latest.event,
        Some(RuntimeCheckpointEvent {
            completed_steps: 2,
            reason: RuntimeCheckpointReason::Cadence,
        })
    );
    assert_eq!(latest.checkpoint.module_name, "Counter");
    assert_eq!(latest.checkpoint.tcp_endpoints.len(), 2);
    assert_eq!(latest.checkpoint.snapshot.total_lanes, 5);
    assert!(!latest.checkpoint.snapshot.shards[0].values.is_empty());

    assert_eq!(supervisor.shutdown().unwrap().len(), 2);
}

#[test]
fn supervisor_telemetry_reports_worker_failure_and_runtime_error() {
    let (design, _, _) = counter_design();
    let topology = two_cpu_topology();
    let mut supervisor = Supervised::spawn(&design, "Counter", topology);

    supervisor.fail(0);

    let telemetry = supervisor.telemetry().unwrap();
    assert!(telemetry.processes.iter().any(|process| !process.running));
    assert!(telemetry.runtime_health.is_none());
    assert!(telemetry.runtime_health_error.is_some());

    assert_eq!(supervisor.shutdown().unwrap().len(), 2);
}

#[test]
fn supervisor_recovers_from_latest_checkpoint_after_worker_failure() {
    let (design, en, out) = counter_design();
    let topology = two_cpu_topology();
    let mut supervisor =
        Supervised::spawn(&design, "Counter", topology.clone());

    supervisor
        .runtime_mut()
        .set_input(en, &[1, 1, 1, 1, 1])
        .unwrap();
    supervisor
        .tick_many_with_checkpoints(2, RuntimeCheckpointCadence::every_steps(2), |_, _| Ok(()))
        .unwrap();
    let checkpoint_before_recovery = supervisor.latest_checkpoint().unwrap().clone();

    supervisor.fail(0);
    let health = supervisor.health().unwrap();
    assert!(health.processes.iter().any(|worker| !worker.running));

    let recovery = supervisor.recover_from_latest_checkpoint().unwrap();
    assert_eq!(recovery.restarted_workers.len(), 2);
    assert_eq!(
        recovery.runtime_recovery.recovered_workers,
        vec!["cpu-a".to_string(), "cpu-b".to_string()]
    );
    for worker in supervisor.health().unwrap().processes {
        assert!(worker.running);
        assert!(worker.exit.is_none());
    }
    assert_eq!(
        supervisor.runtime_mut().get_signal(out).unwrap(),
        vec![2, 2, 2, 2, 2]
    );

    supervisor
        .runtime_mut()
        .set_input(en, &[1, 1, 1, 1, 1])
        .unwrap();
    supervisor.runtime_mut().tick().unwrap();
    let mut direct = Sim::new(&design, "Counter", topology).unwrap();
    direct
        .restore_checkpoint(&checkpoint_before_recovery)
        .unwrap();
    direct.set_input(en, &[1, 1, 1, 1, 1]).unwrap();
    direct.tick().unwrap();
    assert_eq!(
        supervisor.runtime_mut().get_signal(out).unwrap(),
        direct.get_signal(out).unwrap()
    );

    assert_eq!(supervisor.shutdown().unwrap().len(), 2);
}

#[test]
fn supervisor_telemetry_includes_last_recovery() {
    let (design, en, _) = counter_design();
    let topology = two_cpu_topology();
    let mut supervisor = Supervised::spawn(&design, "Counter", topology);
    supervisor
        .runtime_mut()
        .set_input(en, &[1, 1, 1, 1, 1])
        .unwrap();
    supervisor
        .tick_many_with_checkpoints(1, RuntimeCheckpointCadence::every_steps(1), |_, _| Ok(()))
        .unwrap();
    supervisor.fail(0);
    let recovery = supervisor.recover_from_latest_checkpoint().unwrap();

    let telemetry = supervisor.telemetry().unwrap();
    assert_eq!(telemetry.last_recovery, Some(recovery));
    assert!(telemetry.latest_checkpoint.is_some());
    assert!(telemetry.processes.iter().all(|process| process.running));

    assert_eq!(supervisor.shutdown().unwrap().len(), 2);
}

#[test]
fn supervisor_telemetry_rejects_version_mismatch() {
    let (design, _, _) = counter_design();
    let topology = two_cpu_topology();
    let mut supervisor = Supervised::spawn(&design, "Counter", topology);

    let mut telemetry = supervisor.telemetry().unwrap();
    telemetry.format_version = RUNTIME_TELEMETRY_FORMAT_VERSION + 1;
    let err = telemetry.validate_format_version().unwrap_err();
    assert_eq!(err.diagnostics[0].code, "E_RUNTIME_TELEMETRY_VERSION");

    assert_eq!(supervisor.shutdown().unwrap().len(), 2);
}

#[test]
fn supervisor_recovery_requires_checkpoint() {
    let (design, _, _) = counter_design();
    let topology = two_cpu_topology();
    let mut supervisor = Supervised::spawn(&design, "Counter", topology);

    let err = supervisor.recover_from_latest_checkpoint().unwrap_err();
    assert_eq!(err.diagnostics[0].code, "E_RUNTIME_SUPERVISOR_CHECKPOINT");

    assert_eq!(supervisor.shutdown().unwrap().len(), 2);
}

#[test]
fn supervisor_checkpoint_callback_errors_are_propagated_after_storing_checkpoint() {
    let (design, en, _) = counter_design();
    let topology = two_cpu_topology();
    let mut supervisor = Supervised::spawn(&design, "Counter", topology);
    supervisor
        .runtime_mut()
        .set_input(en, &[1, 1, 1, 1, 1])
        .unwrap();

    let err = supervisor
        .tick_many_with_checkpoints(1, RuntimeCheckpointCadence::every_steps(1), |_, _| {
            Err(error("E_TEST_SUPERVISOR_SINK", "supervisor checkpoint sink failed"))
        })
        .unwrap_err();

    assert_eq!(err.diagnostics[0].code, "E_TEST_SUPERVISOR_SINK");
    assert!(supervisor.latest_checkpoint().is_some());

    assert_eq!(supervisor.shutdown().unwrap().len(), 2);
}

#[test]
fn restored_snapshots_come_back() {
    let (design, ..) = memory_design();
    let mut service = HostedWorker::new();
    let shard = runtime_shard_info("cpu0", RuntimeBackend::PackedCpu, 0, 2);
    let init = init_request(&design, "MemoryTop", shard.clone());
    expect_ack(service.handle(init).unwrap()).unwrap();
    let take = |service: &mut HostedWorker| {
        let request = RuntimeWorkerRequest::Snapshot { worker_id: "cpu0".to_string() };
        let RuntimeWorkerResponse::Snapshot(snapshot) = service.handle(request).unwrap() else {
            panic!("expected snapshot response");
        };
        snapshot
    };
    let mut snapshot = take(&mut service);
    for (n, word) in snapshot.memories.iter_mut().enumerate() {
        *word = 3 + n as u32;
    }
    let restore = |snapshot: &RuntimeShardSnapshot| RuntimeWorkerRequest::RestoreSnapshot {
        worker_id: "cpu0".to_string(),
        snapshot: snapshot.clone(),
    };
    expect_ack(service.handle(restore(&snapshot)).unwrap()).unwrap();
    assert_eq!(take(&mut service), snapshot);

    let mut other = snapshot.clone();
    other.shard.start_lane = 2;
    other.memories[0] = 99;
    let err = service.handle(restore(&other)).unwrap_err();
    assert_eq!(err.diagnostics[0].code, "E_RUNTIME_WORKER_SNAPSHOT");
    assert_eq!(take(&mut service), snapshot);
}

#[test]
fn modes_count_alike() {
    let (design, en, _) = counter_design();
    let mut serial = Sim::new(&design, "Counter", two_cpu_topology()).unwrap();
    let mut parallel =
        Sim::new_with_options(&design, "Counter", two_cpu_topology(), parallel_options()).unwrap();
    for sim in [&mut serial, &mut parallel] {
        sim.set_input(en, &[1, 0, 1, 0, 1]).unwrap();
        sim.eval_combinational().unwrap();
        sim.tick().unwrap();
        sim.tick_many(3).unwrap();
        sim.tick().unwrap();
    }
    let calls = |stats: &RuntimeOperationStats| {
        (stats.eval_combinational.calls, stats.tick.calls, stats.tick_many.calls)
    };
    let one = serial.stats();
    let other = parallel.stats();
    assert_eq!(calls(&one.operations), (1, 2, 1));
    assert_eq!(calls(&other.operations), (1, 2, 1));
    assert_eq!(one.total_lanes, other.total_lanes);
    for (a, b) in one.shards.iter().zip(&other.shards) {
        assert_eq!(a.shard, b.shard);
        assert_eq!(calls(&a.operations), calls(&b.operations));
    }
    assert_ne!(one.execution_mode, other.execution_mode);
}

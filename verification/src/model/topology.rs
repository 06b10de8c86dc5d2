//! Workers, topologies and shards.

use vstd::prelude::*;

verus! {

/// Options of the GPU backend.
///
/// The runtime only carries them from a worker to the engine that it starts.
/// `profile` names one of the option sets of the embedding program; 0 is the
/// default set.
#[derive(Clone, Copy, Debug, PartialEq, Eq, Structural)]
pub struct GpuBatchOptions {
    pub profile: u32,
}

impl DeepView for GpuBatchOptions {
    type V = GpuBatchOptions;

    open spec fn deep_view(&self) -> GpuBatchOptions {
        *self
    }
}

impl Default for GpuBatchOptions {
    fn default() -> (r: Self)
        ensures
            r == (GpuBatchOptions { profile: 0 }),
    {
        GpuBatchOptions { profile: 0 }
    }
}

/// Backend kind used by a runtime worker.
#[derive(Clone, Copy, Debug, PartialEq, Eq, Structural)]
pub enum RuntimeBackend {
    /// Execute one lane with the scalar machine interpreter.
    ScalarCpu,
    /// Interpret the packed simulation machine on the host CPU.
    PackedCpu,
    /// Execute the packed simulation machine with the host SIMD CPU backend.
    SimdCpu,
    /// Execute the packed simulation machine with the CPU JIT backend.
    JitCpu,
    /// Execute the packed simulation machine with the GPU backend.
    Gpu(GpuBatchOptions),
}

impl DeepView for RuntimeBackend {
    type V = RuntimeBackend;

    open spec fn deep_view(&self) -> RuntimeBackend {
        *self
    }
}

/// One worker participating in a distributed runtime topology.
///
/// `node` is placement metadata. Keeping placement explicit makes the shard plan
/// stable for remote transports and external schedulers.
#[derive(Debug, PartialEq, Eq)]
pub struct RuntimeWorker {
    pub id: String,
    pub node: String,
    pub backend: RuntimeBackend,
    pub lanes: usize,
}

/// The model of [`RuntimeWorker`].
#[verifier::ext_equal]
pub struct RuntimeWorkerView {
    pub id: Seq<char>,
    pub node: Seq<char>,
    pub backend: RuntimeBackend,
    pub lanes: usize,
}

impl DeepView for RuntimeWorker {
    type V = RuntimeWorkerView;

    open spec fn deep_view(&self) -> RuntimeWorkerView {
        RuntimeWorkerView {
            id: self.id@,
            node: self.node@,
            backend: self.backend,
            lanes: self.lanes,
        }
    }
}

impl Clone for RuntimeWorker {
    fn clone(&self) -> (r: Self)
        ensures
            r.deep_view() == self.deep_view(),
    {
        RuntimeWorker {
            id: self.id.clone(),
            node: self.node.clone(),
            backend: self.backend,
            lanes: self.lanes,
        }
    }
}

/// Runtime topology for lane-parallel simulations.
#[derive(Debug, PartialEq, Eq)]
pub struct RuntimeTopology {
    pub workers: Vec<RuntimeWorker>,
}

/// The model of [`RuntimeTopology`].
#[verifier::ext_equal]
pub struct RuntimeTopologyView {
    pub workers: Seq<RuntimeWorkerView>,
}

impl DeepView for RuntimeTopology {
    type V = RuntimeTopologyView;

    open spec fn deep_view(&self) -> RuntimeTopologyView {
        RuntimeTopologyView {
            workers: self.workers.deep_view(),
        }
    }
}

impl Clone for RuntimeTopology {
    fn clone(&self) -> (r: Self)
        ensures
            r.deep_view() == self.deep_view(),
    {
        let r = RuntimeTopology {
            workers: self.workers.clone(),
        };
        proof {
            assert(r.workers.deep_view() =~= self.workers.deep_view());
        }
        r
    }
}

/// Public shard plan entry: the global lanes `start_lane..start_lane + lanes` that
/// a worker simulates.
#[derive(Debug, PartialEq, Eq)]
pub struct RuntimeShardInfo {
    pub worker_id: String,
    pub node: String,
    pub backend: RuntimeBackend,
    pub start_lane: usize,
    pub lanes: usize,
}

/// The model of [`RuntimeShardInfo`].
#[verifier::ext_equal]
pub struct RuntimeShardInfoView {
    pub worker_id: Seq<char>,
    pub node: Seq<char>,
    pub backend: RuntimeBackend,
    pub start_lane: usize,
    pub lanes: usize,
}

impl DeepView for RuntimeShardInfo {
    type V = RuntimeShardInfoView;

    open spec fn deep_view(&self) -> RuntimeShardInfoView {
        RuntimeShardInfoView {
            worker_id: self.worker_id@,
            node: self.node@,
            backend: self.backend,
            start_lane: self.start_lane,
            lanes: self.lanes,
        }
    }
}

impl Clone for RuntimeShardInfo {
    fn clone(&self) -> (r: Self)
        ensures
            r.deep_view() == self.deep_view(),
    {
        RuntimeShardInfo {
            worker_id: self.worker_id.clone(),
            node: self.node.clone(),
            backend: self.backend,
            start_lane: self.start_lane,
            lanes: self.lanes,
        }
    }
}

} // verus!

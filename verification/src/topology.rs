//! Building topologies and cutting them into shards.

use vstd::prelude::*;

use crate::model::topology::{
    GpuBatchOptions, RuntimeBackend, RuntimeShardInfo, RuntimeShardInfoView, RuntimeTopology,
    RuntimeWorker, RuntimeWorkerView,
};
use crate::seqs::{
    lemma_sum_by_prefix, lemma_sum_by_step, lemma_sum_by_take, no_items, push_item, sum_by,
};

verus! {

/// A worker on the local node.
pub open spec fn local_worker(id: Seq<char>, backend: RuntimeBackend, lanes: usize) -> RuntimeWorkerView {
    RuntimeWorkerView { id, node: "localhost"@, backend, lanes }
}

/// The lanes of the first `n` workers.
pub open spec fn lanes_before(workers: Seq<RuntimeWorkerView>, n: int) -> int {
    sum_by(workers.take(n), |w: RuntimeWorkerView| w.lanes as int)
}

/// The lanes of all workers.
pub open spec fn total_lanes(workers: Seq<RuntimeWorkerView>) -> int {
    sum_by(workers, |w: RuntimeWorkerView| w.lanes as int)
}

/// The shards of a topology: each worker owns the lanes behind those of the
/// workers before it.
pub open spec fn shards_of(workers: Seq<RuntimeWorkerView>) -> Seq<RuntimeShardInfoView> {
    Seq::new(
        workers.len(),
        |i: int|
            RuntimeShardInfoView {
                worker_id: workers[i].id,
                node: workers[i].node,
                backend: workers[i].backend,
                start_lane: lanes_before(workers, i) as usize,
                lanes: workers[i].lanes,
            },
    )
}

/// The lanes of all shards.
pub open spec fn total_shard_lanes(shards: Seq<RuntimeShardInfoView>) -> int {
    sum_by(shards, |s: RuntimeShardInfoView| s.lanes as int)
}

/// Whether a shard simulates a lane.
pub open spec fn shard_owns(shard: RuntimeShardInfoView, lane: int) -> bool {
    shard.start_lane <= lane < shard.start_lane + shard.lanes
}

/// Whether the lane ranges of all shards end within the machine's integers.
pub open spec fn shard_lanes_fit(shards: Seq<RuntimeShardInfoView>) -> bool {
    &&& total_shard_lanes(shards) <= usize::MAX
    &&& forall|i: int|
        0 <= i < shards.len() ==> (#[trigger] shards[i]).start_lane + shards[i].lanes <= usize::MAX
}

impl RuntimeWorker {
    /// A worker that interprets the packed machine.
    pub fn local_cpu(id: &str, lanes: usize) -> (r: Self)
        ensures
            r.deep_view() == local_worker(id@, RuntimeBackend::PackedCpu, lanes),
    {
        RuntimeWorker {
            id: id.to_owned(),
            node: "localhost".to_owned(),
            backend: RuntimeBackend::PackedCpu,
            lanes,
        }
    }

    /// A worker that interprets a single lane.
    pub fn local_scalar_cpu(id: &str) -> (r: Self)
        ensures
            r.deep_view() == local_worker(id@, RuntimeBackend::ScalarCpu, 1),
    {
        RuntimeWorker {
            id: id.to_owned(),
            node: "localhost".to_owned(),
            backend: RuntimeBackend::ScalarCpu,
            lanes: 1,
        }
    }

    /// A worker that uses the SIMD backend.
    pub fn local_simd_cpu(id: &str, lanes: usize) -> (r: Self)
        ensures
            r.deep_view() == local_worker(id@, RuntimeBackend::SimdCpu, lanes),
    {
        RuntimeWorker {
            id: id.to_owned(),
            node: "localhost".to_owned(),
            backend: RuntimeBackend::SimdCpu,
            lanes,
        }
    }

    /// A worker that uses the JIT backend.
    pub fn local_jit_cpu(id: &str, lanes: usize) -> (r: Self)
        ensures
            r.deep_view() == local_worker(id@, RuntimeBackend::JitCpu, lanes),
    {
        RuntimeWorker {
            id: id.to_owned(),
            node: "localhost".to_owned(),
            backend: RuntimeBackend::JitCpu,
            lanes,
        }
    }

    /// A worker that uses the GPU backend.
    pub fn local_gpu(id: &str, lanes: usize, options: GpuBatchOptions) -> (r: Self)
        ensures
            r.deep_view() == local_worker(id@, RuntimeBackend::Gpu(options), lanes),
    {
        RuntimeWorker {
            id: id.to_owned(),
            node: "localhost".to_owned(),
            backend: RuntimeBackend::Gpu(options),
            lanes,
        }
    }

    /// The same worker on another node.
    pub fn on_node(self, node: &str) -> (r: Self)
        ensures
            r.deep_view() == (RuntimeWorkerView { node: node@, ..self.deep_view() }),
    {
        RuntimeWorker {
            id: self.id,
            node: node.to_owned(),
            backend: self.backend,
            lanes: self.lanes,
        }
    }
}

impl Default for RuntimeTopology {
    fn default() -> (r: Self)
        ensures
            r.deep_view().workers == Seq::<RuntimeWorkerView>::empty(),
    {
        let r = RuntimeTopology { workers: Vec::new() };
        proof {
            assert(r.deep_view().workers =~= Seq::<RuntimeWorkerView>::empty());
        }
        r
    }
}

impl RuntimeTopology {
    /// The topology without workers.
    pub fn new() -> (r: Self)
        ensures
            r.deep_view().workers == Seq::<RuntimeWorkerView>::empty(),
    {
        RuntimeTopology::default()
    }

    /// A topology with one worker that interprets the packed machine.
    pub fn local_cpu(lanes: usize) -> (r: Self)
        ensures
            r.deep_view().workers == seq![
                local_worker("cpu0"@, RuntimeBackend::PackedCpu, lanes),
            ],
    {
        let mut r = RuntimeTopology::new();
        r.push(RuntimeWorker::local_cpu("cpu0", lanes));
        r
    }

    /// A topology with one CPU and one GPU worker; a worker that would own no
    /// lane is left out.
    pub fn local_heterogeneous(
        cpu_lanes: usize,
        gpu_lanes: usize,
        gpu_options: GpuBatchOptions,
    ) -> (r: Self)
        ensures
            r.deep_view().workers == (if cpu_lanes > 0 {
                seq![local_worker("cpu0"@, RuntimeBackend::PackedCpu, cpu_lanes)]
            } else {
                seq![]
            }) + (if gpu_lanes > 0 {
                seq![local_worker("gpu0"@, RuntimeBackend::Gpu(gpu_options), gpu_lanes)]
            } else {
                seq![]
            }),
    {
        let mut topology = RuntimeTopology::new();
        if cpu_lanes > 0 {
            topology.push(RuntimeWorker::local_cpu("cpu0", cpu_lanes));
        }
        if gpu_lanes > 0 {
            topology.push(RuntimeWorker::local_gpu("gpu0", gpu_lanes, gpu_options));
        }
        topology
    }

    /// Adds a worker behind the others.
    pub fn push(&mut self, worker: RuntimeWorker)
        ensures
            final(self).deep_view().workers == old(self).deep_view().workers.push(
                worker.deep_view(),
            ),
    {
        self.workers.push(worker);
        proof {
            assert(self.deep_view().workers =~= old(self).deep_view().workers.push(
                worker.deep_view(),
            ));
        }
    }

    /// The workers, in order.
    pub fn workers(&self) -> (r: &[RuntimeWorker])
        ensures
            r@ == self.workers@,
            r.deep_view() == self.deep_view().workers,
    {
        let r = self.workers.as_slice();
        proof {
            assert(r.deep_view() =~= self.deep_view().workers);
        }
        r
    }

    /// The lanes of all workers.
    pub fn total_lanes(&self) -> (r: usize)
        requires
            total_lanes(self.deep_view().workers) <= usize::MAX,
        ensures
            r == total_lanes(self.deep_view().workers),
    {
        let ghost workers = self.deep_view().workers;
        let ghost lanes = |w: RuntimeWorkerView| w.lanes as int;
        let mut total: usize = 0;
        let mut i: usize = 0;
        while i < self.workers.len()
            invariant
                i <= self.workers.len(),
                workers == self.deep_view().workers,
                lanes == (|w: RuntimeWorkerView| w.lanes as int),
                sum_by(workers, lanes) <= usize::MAX,
                total == sum_by(workers.take(i as int), lanes),
            decreases self.workers.len() - i,
        {
            proof {
                lemma_sum_by_step(workers, i as int, lanes);
            }
            total = total + self.workers[i].lanes;
            i = i + 1;
        }
        proof {
            assert(workers.take(i as int) =~= workers);
        }
        total
    }

    /// Cuts the topology into shards.
    pub fn shard_infos(&self) -> (r: Vec<RuntimeShardInfo>)
        requires
            total_lanes(self.deep_view().workers) <= usize::MAX,
        ensures
            r.deep_view() == shards_of(self.deep_view().workers),
    {
        let ghost workers = self.deep_view().workers;
        let ghost lanes = |w: RuntimeWorkerView| w.lanes as int;
        let mut start_lane: usize = 0;
        let mut shards: Vec<RuntimeShardInfo> = no_items();
        let mut i: usize = 0;
        proof {
            assert(shards_of(workers).take(0) =~= Seq::empty());
        }
        while i < self.workers.len()
            invariant
                i <= self.workers.len(),
                workers == self.deep_view().workers,
                lanes == (|w: RuntimeWorkerView| w.lanes as int),
                sum_by(workers, lanes) <= usize::MAX,
                start_lane == sum_by(workers.take(i as int), lanes),
                shards.deep_view() == shards_of(workers).take(i as int),
            decreases self.workers.len() - i,
        {
            let worker = &self.workers[i];
            proof {
                lemma_sum_by_step(workers, i as int, lanes);
            }
            push_item(
                &mut shards,
                RuntimeShardInfo {
                    worker_id: worker.id.clone(),
                    node: worker.node.clone(),
                    backend: worker.backend,
                    start_lane,
                    lanes: worker.lanes,
                },
            );
            proof {
                assert(shards_of(workers).take(i + 1) =~= shards_of(workers).take(i as int).push(
                    shards_of(workers)[i as int],
                ));
            }
            start_lane = start_lane + worker.lanes;
            i = i + 1;
        }
        proof {
            assert(shards_of(workers).take(i as int) =~= shards_of(workers));
        }
        shards
    }
}

/// The shards of a topology own as many lanes as its workers, and every lane
/// range ends within the machine's integers.
pub proof fn lemma_shards_keep_lanes(workers: Seq<RuntimeWorkerView>)
    requires
        total_lanes(workers) <= usize::MAX,
    ensures
        total_shard_lanes(shards_of(workers)) == total_lanes(workers),
        shard_lanes_fit(shards_of(workers)),
{
    let lanes = |w: RuntimeWorkerView| w.lanes as int;
    let shards = shards_of(workers);
    lemma_shard_prefix_lanes(workers, workers.len() as int);
    assert(shards.take(workers.len() as int) =~= shards);
    assert(workers.take(workers.len() as int) =~= workers);
    assert forall|i: int| 0 <= i < shards.len() implies (#[trigger] shards[i]).start_lane
        + shards[i].lanes <= usize::MAX by {
        lemma_sum_by_step(workers, i, lanes);
    }
}

proof fn lemma_shard_prefix_lanes(workers: Seq<RuntimeWorkerView>, n: int)
    requires
        0 <= n <= workers.len(),
    ensures
        total_shard_lanes(shards_of(workers).take(n)) == lanes_before(workers, n),
    decreases n,
{
    let lanes = |w: RuntimeWorkerView| w.lanes as int;
    let shard_lanes = |s: RuntimeShardInfoView| s.lanes as int;
    if n > 0 {
        lemma_shard_prefix_lanes(workers, n - 1);
        lemma_sum_by_take(workers, n - 1, lanes);
        lemma_sum_by_take(shards_of(workers), n - 1, shard_lanes);
    }
}

/// Every lane of a topology belongs to exactly one of its shards.
pub proof fn lemma_lane_has_one_shard(workers: Seq<RuntimeWorkerView>, lane: int)
    requires
        total_lanes(workers) <= usize::MAX,
        0 <= lane < total_lanes(workers),
    ensures
        exists|i: int|
            0 <= i < workers.len() && #[trigger] shard_owns(shards_of(workers)[i], lane),
        forall|i: int, j: int|
            0 <= i < workers.len() && 0 <= j < workers.len() && #[trigger] shard_owns(
                shards_of(workers)[i],
                lane,
            ) && #[trigger] shard_owns(shards_of(workers)[j], lane) ==> i == j,
{
    let lanes = |w: RuntimeWorkerView| w.lanes as int;
    assert(workers.take(workers.len() as int) =~= workers);
    lemma_lane_in_prefix(workers, lane, workers.len() as int);
    assert forall|i: int, j: int|
        0 <= i < workers.len() && 0 <= j < workers.len() && #[trigger] shard_owns(
            shards_of(workers)[i],
            lane,
        ) && #[trigger] shard_owns(shards_of(workers)[j], lane) implies i == j by {
        lemma_sum_by_step(workers, i, lanes);
        lemma_sum_by_step(workers, j, lanes);
        if i < j {
            lemma_sum_by_prefix(workers, i + 1, j, lanes);
        }
        if j < i {
            lemma_sum_by_prefix(workers, j + 1, i, lanes);
        }
    }
}

proof fn lemma_lane_in_prefix(workers: Seq<RuntimeWorkerView>, lane: int, n: int)
    requires
        total_lanes(workers) <= usize::MAX,
        0 <= n <= workers.len(),
        0 <= lane < lanes_before(workers, n),
    ensures
        exists|i: int| 0 <= i < n && #[trigger] shard_owns(shards_of(workers)[i], lane),
    decreases n,
{
    let lanes = |w: RuntimeWorkerView| w.lanes as int;
    if n == 0 {
        assert(workers.take(0) =~= Seq::empty());
    } else {
        lemma_sum_by_step(workers, n - 1, lanes);
        if lane < lanes_before(workers, n - 1) {
            lemma_lane_in_prefix(workers, lane, n - 1);
        } else {
            assert(shard_owns(shards_of(workers)[n - 1], lane));
        }
    }
}

} // verus!

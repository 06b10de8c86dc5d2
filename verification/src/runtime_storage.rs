//! Snapshots and checkpoints of a runtime: taking them, checking them, and going back to them.

use vstd::prelude::*;

use crate::collect::{build_items, check_each, gather, gather_items};
use crate::error::{error, fails_with, report, ErrorReport, ErrorReportView};
use crate::ids::{find_last_named, last_named};
use crate::model::runtime::{
    RuntimeCheckpoint, RuntimeCheckpointView, RuntimeShardSnapshot, RuntimeShardSnapshotView,
    RuntimeSnapshot, RuntimeSnapshotView, RuntimeTcpEndpoint, RuntimeTcpEndpointView,
    RUNTIME_CHECKPOINT_FORMAT_VERSION,
};
use crate::model::topology::{RuntimeShardInfoView, RuntimeTopology, RuntimeTopologyView};
use crate::runtime::{
    infos_of, lanes_in_order, workers_of, DistributedRuntime, DistributedRuntimeView,
    RuntimeShardView,
};
use crate::seqs::{first_index, first_problem, lemma_first_index, lemma_first_index_is, or_problem};
use crate::text::{append_decimal, decimal, same_text};
use crate::topology::lemma_shards_keep_lanes;
use crate::versions::checkpoint_version_problem;

verus! {

/// The words that an engine stores: those of all signals and those of all memories.
#[derive(Debug, PartialEq, Eq)]
pub struct RuntimeShardStorage {
    pub values: Vec<u32>,
    pub memories: Vec<u32>,
}

/// The model of [`RuntimeShardStorage`].
#[verifier::ext_equal]
pub struct RuntimeShardStorageView {
    pub values: Seq<u32>,
    pub memories: Seq<u32>,
}

impl DeepView for RuntimeShardStorage {
    type V = RuntimeShardStorageView;

    open spec fn deep_view(&self) -> RuntimeShardStorageView {
        RuntimeShardStorageView { values: self.values@, memories: self.memories@ }
    }
}

// ---------------------------------------------------------------------------
// Taking snapshots
// ---------------------------------------------------------------------------

/// The snapshot of a shard.
pub open spec fn shard_snapshot(
    info: RuntimeShardInfoView,
    storage: RuntimeShardStorageView,
) -> RuntimeShardSnapshotView {
    RuntimeShardSnapshotView { shard: info, values: storage.values, memories: storage.memories }
}

/// The snapshot of a runtime whose engines store `storages`.
pub open spec fn snapshot_of(
    runtime: DistributedRuntimeView,
    storages: Seq<RuntimeShardStorageView>,
) -> RuntimeSnapshotView {
    RuntimeSnapshotView {
        total_lanes: runtime.total_lanes,
        program_top: runtime.program.top,
        signal_words_per_lane: runtime.program.total_signal_words,
        memory_words_per_lane: runtime.program.total_memory_words_per_lane,
        shards: Seq::new(
            runtime.shards.len(),
            |i: int| shard_snapshot(runtime.shards[i].info, storages[i]),
        ),
    }
}

/// Whether a shard is run by a worker.
pub open spec fn runs_worker(shards: Seq<RuntimeShardView>, worker: Seq<char>) -> spec_fn(
    int,
) -> bool {
    |i: int| shards[i].info.worker_id == worker
}

/// Whether a worker runs any shard.
pub open spec fn is_known(shards: Seq<RuntimeShardView>, worker: Seq<char>) -> bool {
    first_index(shards.len(), runs_worker(shards, worker)) is Some
}

/// What is wrong with an endpoint of a checkpoint.
pub open spec fn stray_endpoint(
    shards: Seq<RuntimeShardView>,
    endpoints: Seq<RuntimeTcpEndpointView>,
) -> spec_fn(int) -> Option<ErrorReportView> {
    |k: int|
        if is_known(shards, endpoints[k].worker_id) {
            None
        } else {
            Some(
                report(
                    "E_RUNTIME_CHECKPOINT_ENDPOINT"@,
                    "TCP endpoint provided for unknown worker `"@ + endpoints[k].worker_id + "`"@,
                ),
            )
        }
}

/// The endpoint of a shard.
pub open spec fn shard_endpoint(
    shards: Seq<RuntimeShardView>,
    endpoints: Seq<RuntimeTcpEndpointView>,
) -> spec_fn(int) -> Option<RuntimeTcpEndpointView> {
    |i: int|
        match last_named::<RuntimeTcpEndpoint>(endpoints, shards[i].info.worker_id) {
            Some(k) => Some(
                RuntimeTcpEndpointView {
                    worker_id: shards[i].info.worker_id,
                    addr: endpoints[k].addr,
                },
            ),
            None => None,
        }
}

/// What keeps a checkpoint from being taken.
pub open spec fn checkpoint_endpoints_problem(
    runtime: DistributedRuntimeView,
    endpoints: Seq<RuntimeTcpEndpointView>,
) -> Option<ErrorReportView> {
    first_problem(endpoints.len(), stray_endpoint(runtime.shards, endpoints))
}

/// The checkpoint of a runtime.
pub open spec fn checkpoint_of(
    runtime: DistributedRuntimeView,
    endpoints: Seq<RuntimeTcpEndpointView>,
    storages: Seq<RuntimeShardStorageView>,
) -> RuntimeCheckpointView {
    RuntimeCheckpointView {
        format_version: RUNTIME_CHECKPOINT_FORMAT_VERSION,
        module_name: runtime.program.top,
        topology: RuntimeTopologyView { workers: workers_of(runtime.shards) },
        tcp_endpoints: gather(
            runtime.shards.len(),
            shard_endpoint(runtime.shards, endpoints),
        ),
        snapshot: snapshot_of(runtime, storages),
    }
}

// ---------------------------------------------------------------------------
// Checking snapshots
// ---------------------------------------------------------------------------

/// What is wrong with the head of a snapshot.
pub open spec fn snapshot_head_problem(
    runtime: DistributedRuntimeView,
    snapshot: RuntimeSnapshotView,
) -> Option<ErrorReportView> {
    if snapshot.total_lanes != runtime.total_lanes {
        Some(
            report(
                "E_RUNTIME_SNAPSHOT_TOPOLOGY"@,
                "snapshot has "@ + decimal(snapshot.total_lanes as nat) + " lanes, runtime has "@
                    + decimal(runtime.total_lanes as nat),
            ),
        )
    } else if snapshot.shards.len() != runtime.shards.len() {
        Some(
            report(
                "E_RUNTIME_SNAPSHOT_TOPOLOGY"@,
                "snapshot has "@ + decimal(snapshot.shards.len()) + " shards, runtime has "@
                    + decimal(runtime.shards.len()),
            ),
        )
    } else if snapshot.program_top != runtime.program.top {
        Some(
            report(
                "E_RUNTIME_SNAPSHOT_PROGRAM"@,
                "snapshot program `"@ + snapshot.program_top
                    + "` does not match runtime program `"@ + runtime.program.top + "`"@,
            ),
        )
    } else if snapshot.signal_words_per_lane != runtime.program.total_signal_words {
        Some(
            report(
                "E_RUNTIME_SNAPSHOT_PROGRAM"@,
                "snapshot has "@ + decimal(snapshot.signal_words_per_lane as nat)
                    + " signal words per lane, runtime has "@ + decimal(
                    runtime.program.total_signal_words as nat,
                ),
            ),
        )
    } else if snapshot.memory_words_per_lane != runtime.program.total_memory_words_per_lane {
        Some(
            report(
                "E_RUNTIME_SNAPSHOT_PROGRAM"@,
                "snapshot has "@ + decimal(snapshot.memory_words_per_lane as nat)
                    + " memory words per lane, runtime has "@ + decimal(
                    runtime.program.total_memory_words_per_lane as nat,
                ),
            ),
        )
    } else {
        None
    }
}

/// What is wrong with shard `i` of a snapshot.
pub open spec fn snapshot_shard_problem(
    runtime: DistributedRuntimeView,
    snapshot: RuntimeSnapshotView,
    i: int,
) -> Option<ErrorReportView> {
    let found = snapshot.shards[i];
    let info = runtime.shards[i].info;
    let values = runtime.program.total_signal_words * info.lanes;
    let memories = runtime.program.total_memory_words_per_lane * info.lanes;
    if found.shard.start_lane != info.start_lane || found.shard.lanes != info.lanes {
        Some(
            report(
                "E_RUNTIME_SNAPSHOT_TOPOLOGY"@,
                "snapshot shard "@ + decimal(i as nat) + " covers lanes "@ + decimal(
                    found.shard.start_lane as nat,
                ) + ".."@ + decimal((found.shard.start_lane + found.shard.lanes) as nat)
                    + ", runtime shard covers lanes "@ + decimal(info.start_lane as nat) + ".."@
                    + decimal((info.start_lane + info.lanes) as nat),
            ),
        )
    } else if found.values.len() != values {
        Some(
            report(
                "E_RUNTIME_SNAPSHOT_STORAGE"@,
                "snapshot shard "@ + decimal(i as nat) + " has "@ + decimal(found.values.len())
                    + " signal words, expected "@ + decimal(values as nat),
            ),
        )
    } else if found.memories.len() != memories {
        Some(
            report(
                "E_RUNTIME_SNAPSHOT_STORAGE"@,
                "snapshot shard "@ + decimal(i as nat) + " has "@ + decimal(found.memories.len())
                    + " memory words, expected "@ + decimal(memories as nat),
            ),
        )
    } else {
        None
    }
}

/// What is wrong with the shards of a snapshot.
pub open spec fn snapshot_shards_check(
    runtime: DistributedRuntimeView,
    snapshot: RuntimeSnapshotView,
) -> spec_fn(int) -> Option<ErrorReportView> {
    |i: int| snapshot_shard_problem(runtime, snapshot, i)
}

/// What is wrong with a snapshot.
pub open spec fn snapshot_problem(
    runtime: DistributedRuntimeView,
    snapshot: RuntimeSnapshotView,
) -> Option<ErrorReportView> {
    or_problem(
        snapshot_head_problem(runtime, snapshot),
        first_problem(runtime.shards.len(), snapshot_shards_check(runtime, snapshot)),
    )
}

/// Whether the numbers that a check of shard `i` needs fit.
pub open spec fn snapshot_shard_fits(
    runtime: DistributedRuntimeView,
    snapshot: RuntimeSnapshotView,
    i: int,
) -> bool {
    &&& snapshot.shards[i].shard.start_lane + snapshot.shards[i].shard.lanes <= usize::MAX
    &&& runtime.program.total_signal_words * runtime.shards[i].info.lanes <= usize::MAX
    &&& runtime.program.total_memory_words_per_lane * runtime.shards[i].info.lanes <= usize::MAX
}

/// Whether the numbers that a check of a snapshot needs fit, as far as the check goes.
pub open spec fn snapshot_fits(
    runtime: DistributedRuntimeView,
    snapshot: RuntimeSnapshotView,
) -> bool {
    snapshot_head_problem(runtime, snapshot) is None ==> forall|i: nat|
        i < runtime.shards.len() && first_problem(
            i,
            snapshot_shards_check(runtime, snapshot),
        ) is None ==> #[trigger] snapshot_shard_fits(runtime, snapshot, i as int)
}

/// What is wrong with a checkpoint, but for its snapshot.
pub open spec fn checkpoint_problem(
    runtime: DistributedRuntimeView,
    checkpoint: RuntimeCheckpointView,
) -> Option<ErrorReportView> {
    or_problem(
        checkpoint_version_problem(checkpoint.format_version),
        if checkpoint.module_name != runtime.program.top {
            Some(
                report(
                    "E_RUNTIME_CHECKPOINT_PROGRAM"@,
                    "checkpoint module `"@ + checkpoint.module_name
                        + "` does not match runtime program `"@ + runtime.program.top + "`"@,
                ),
            )
        } else if checkpoint.topology.workers != workers_of(runtime.shards) {
            Some(
                report(
                    "E_RUNTIME_CHECKPOINT_TOPOLOGY"@,
                    "checkpoint topology does not match runtime topology"@,
                ),
            )
        } else {
            None
        },
    )
}

/// What the engines store after going back to a snapshot.
pub open spec fn storages_of(snapshot: RuntimeSnapshotView) -> Seq<RuntimeShardStorageView> {
    Seq::new(
        snapshot.shards.len(),
        |i: int|
            RuntimeShardStorageView {
                values: snapshot.shards[i].values,
                memories: snapshot.shards[i].memories,
            },
    )
}

fn same_topology(a: &RuntimeTopology, b: &RuntimeTopology) -> (same: bool)
    ensures
        same == (a.deep_view().workers == b.deep_view().workers),
{
    let ghost x = a.deep_view().workers;
    let ghost y = b.deep_view().workers;
    proof {
        assert(x.len() == a.workers@.len());
        assert(y.len() == b.workers@.len());
    }
    if a.workers.len() != b.workers.len() {
        return false;
    }
    let mut i: usize = 0;
    while i < a.workers.len()
        invariant
            i <= a.workers@.len(),
            x == a.deep_view().workers,
            y == b.deep_view().workers,
            x.len() == a.workers@.len(),
            y.len() == b.workers@.len(),
            x.len() == y.len(),
            forall|j: int| 0 <= j < i ==> x[j] == y[j],
        decreases a.workers@.len() - i,
    {
        let l = &a.workers[i];
        let r = &b.workers[i];
        proof {
            assert(x[i as int] == l.deep_view());
            assert(y[i as int] == r.deep_view());
        }
        if !same_text(l.id.as_str(), r.id.as_str()) || !same_text(l.node.as_str(), r.node.as_str())
            || l.backend != r.backend || l.lanes != r.lanes {
            return false;
        }
        i = i + 1;
    }
    proof {
        assert(x =~= y);
    }
    true
}

fn two_numbers(head: &str, a: u64, middle: &str, b: u64) -> (r: String)
    ensures
        r@ == head@ + decimal(a as nat) + middle@ + decimal(b as nat),
{
    let mut message = head.to_owned();
    append_decimal(&mut message, a);
    message.append(middle);
    append_decimal(&mut message, b);
    message
}

impl DistributedRuntime {
    /// Takes a snapshot, of what the engines store.
    pub fn snapshot(&self, storages: &Vec<RuntimeShardStorage>) -> (r: RuntimeSnapshot)
        requires
            storages@.len() == self.shards@.len(),
        ensures
            r.deep_view() == snapshot_of(self.deep_view(), storages.deep_view()),
    {
        let ghost shards = self.deep_view().shards;
        let ghost ss = storages.deep_view();
        let ghost taken = |i: int| shard_snapshot(shards[i].info, ss[i]);
        let all = build_items(
            self.shards.len(),
            |i: usize| -> (y: RuntimeShardSnapshot)
                requires
                    i < self.shards@.len(),
                    storages@.len() == self.shards@.len(),
                    shards == self.deep_view().shards,
                    ss == storages.deep_view(),
                    taken == (|i: int| shard_snapshot(shards[i].info, ss[i])),
                ensures
                    y.deep_view() == taken(i as int)
                {
                    proof {
                        assert(shards[i as int] == self.shards@[i as int].deep_view());
                        assert(ss[i as int] == storages@[i as int].deep_view());
                    }
                    let y = RuntimeShardSnapshot {
                        shard: self.shards[i].info.clone(),
                        values: storages[i].values.clone(),
                        memories: storages[i].memories.clone(),
                    };
                    proof {
                        assert(y.values@ =~= storages@[i as int].values@);
                        assert(y.memories@ =~= storages@[i as int].memories@);
                    }
                    y
                },
            Ghost(taken),
        );
        let r = RuntimeSnapshot {
            total_lanes: self.total_lanes,
            program_top: self.program.top.clone(),
            signal_words_per_lane: self.program.total_signal_words,
            memory_words_per_lane: self.program.total_memory_words_per_lane,
            shards: all,
        };
        proof {
            assert(r.deep_view().shards =~= snapshot_of(self.deep_view(), ss).shards);
        }
        r
    }

    pub(crate) fn has_worker(&self, worker: &str) -> (r: bool)
        ensures
            r == is_known(self.deep_view().shards, worker@),
    {
        let ghost shards = self.deep_view().shards;
        let ghost p = runs_worker(shards, worker@);
        proof {
            assert(shards.len() == self.shards@.len());
        }
        let mut i: usize = 0;
        while i < self.shards.len()
            invariant
                i <= self.shards@.len(),
                shards == self.deep_view().shards,
                shards.len() == self.shards@.len(),
                p == runs_worker(shards, worker@),
                forall|j: int| 0 <= j < i ==> !#[trigger] p(j),
            decreases self.shards@.len() - i,
        {
            proof {
                assert(shards[i as int] == self.shards@[i as int].deep_view());
            }
            if same_text(self.shards[i].info.worker_id.as_str(), worker) {
                proof {
                    assert(p(i as int));
                    lemma_first_index_is(shards.len(), p, i as int);
                }
                return true;
            }
            i = i + 1;
        }
        proof {
            lemma_first_index(shards.len(), p);
        }
        false
    }

    /// Takes a checkpoint without endpoints.
    pub fn checkpoint(&self, storages: &Vec<RuntimeShardStorage>) -> (r: RuntimeCheckpoint)
        requires
            storages@.len() == self.shards@.len(),
        ensures
            r.deep_view() == checkpoint_of(self.deep_view(), Seq::empty(), storages.deep_view()),
    {
        let r = RuntimeCheckpoint {
            format_version: RUNTIME_CHECKPOINT_FORMAT_VERSION,
            module_name: self.program.top.clone(),
            topology: self.runtime_topology(),
            tcp_endpoints: Vec::new(),
            snapshot: self.snapshot(storages),
        };
        proof {
            let shards = self.deep_view().shards;
            lemma_no_endpoints(shards, shards.len());
            assert(r.tcp_endpoints.deep_view() =~= Seq::<RuntimeTcpEndpointView>::empty());
        }
        r
    }

    /// Takes a checkpoint with the endpoints of the workers; all of them must be known.
    pub fn checkpoint_with_tcp_endpoints(
        &self,
        endpoints: &Vec<RuntimeTcpEndpoint>,
        storages: &Vec<RuntimeShardStorage>,
    ) -> (r: Result<RuntimeCheckpoint, ErrorReport>)
        requires
            storages@.len() == self.shards@.len(),
        ensures
            fails_with(
                r,
                checkpoint_endpoints_problem(self.deep_view(), endpoints.deep_view()),
            ),
            r matches Ok(checkpoint) ==> checkpoint.deep_view() == checkpoint_of(
                self.deep_view(),
                endpoints.deep_view(),
                storages.deep_view(),
            ),
    {
        let ghost shards = self.deep_view().shards;
        let ghost es = endpoints.deep_view();
        let ghost stray = stray_endpoint(shards, es);
        let ghost place = shard_endpoint(shards, es);
        proof {
            assert(es.len() == endpoints@.len());
            assert(shards.len() == self.shards@.len());
        }
        let tcp_endpoints = gather_items(
            self.shards.len(),
            |i: usize| -> (y: Option<RuntimeTcpEndpoint>)
                requires
                    i < self.shards@.len(),
                    shards == self.deep_view().shards,
                    es == endpoints.deep_view(),
                    place == shard_endpoint(shards, es),
                ensures
                    y.deep_view() == place(i as int)
                {
                    proof {
                        assert(shards[i as int] == self.shards@[i as int].deep_view());
                    }
                    match find_last_named(endpoints, self.shards[i].info.worker_id.as_str()) {
                        Some(k) => {
                            proof {
                                assert(es[k as int] == endpoints@[k as int].deep_view());
                            }
                            Some(
                                RuntimeTcpEndpoint {
                                    worker_id: self.shards[i].info.worker_id.clone(),
                                    addr: endpoints[k].addr.clone(),
                                },
                            )
                        },
                        None => None,
                    }
                },
            Ghost(place),
        );
        check_each(
            endpoints.len(),
            |k: usize| -> (y: Result<(), ErrorReport>)
                requires
                    k < endpoints@.len(),
                    shards == self.deep_view().shards,
                    es == endpoints.deep_view(),
                    stray == stray_endpoint(shards, es),
                ensures
                    fails_with(y, stray(k as int))
                {
                    proof {
                        assert(es[k as int] == endpoints@[k as int].deep_view());
                    }
                    if self.has_worker(endpoints[k].worker_id.as_str()) {
                        Ok(())
                    } else {
                        let mut message = "TCP endpoint provided for unknown worker `".to_owned();
                        message.append(endpoints[k].worker_id.as_str());
                        message.append("`");
                        Err(error("E_RUNTIME_CHECKPOINT_ENDPOINT", message.as_str()))
                    }
                },
            Ghost(stray),
        )?;
        Ok(
            RuntimeCheckpoint {
                format_version: RUNTIME_CHECKPOINT_FORMAT_VERSION,
                module_name: self.program.top.clone(),
                topology: self.runtime_topology(),
                tcp_endpoints,
                snapshot: self.snapshot(storages),
            },
        )
    }

    fn validate_snapshot_head(&self, snapshot: &RuntimeSnapshot) -> (r: Result<(), ErrorReport>)
        ensures
            fails_with(r, snapshot_head_problem(self.deep_view(), snapshot.deep_view())),
    {
        proof {
            assert(self.deep_view().shards.len() == self.shards@.len());
            assert(snapshot.deep_view().shards.len() == snapshot.shards@.len());
        }
        if snapshot.total_lanes != self.total_lanes {
            let message = two_numbers(
                "snapshot has ",
                snapshot.total_lanes as u64,
                " lanes, runtime has ",
                self.total_lanes as u64,
            );
            return Err(error("E_RUNTIME_SNAPSHOT_TOPOLOGY", message.as_str()));
        }
        if snapshot.shards.len() != self.shards.len() {
            let message = two_numbers(
                "snapshot has ",
                snapshot.shards.len() as u64,
                " shards, runtime has ",
                self.shards.len() as u64,
            );
            return Err(error("E_RUNTIME_SNAPSHOT_TOPOLOGY", message.as_str()));
        }
        if !same_text(snapshot.program_top.as_str(), self.program.top.as_str()) {
            let mut message = "snapshot program `".to_owned();
            message.append(snapshot.program_top.as_str());
            message.append("` does not match runtime program `");
            message.append(self.program.top.as_str());
            message.append("`");
            return Err(error("E_RUNTIME_SNAPSHOT_PROGRAM", message.as_str()));
        }
        if snapshot.signal_words_per_lane != self.program.total_signal_words {
            let message = two_numbers(
                "snapshot has ",
                snapshot.signal_words_per_lane as u64,
                " signal words per lane, runtime has ",
                self.program.total_signal_words as u64,
            );
            return Err(error("E_RUNTIME_SNAPSHOT_PROGRAM", message.as_str()));
        }
        if snapshot.memory_words_per_lane != self.program.total_memory_words_per_lane {
            let message = two_numbers(
                "snapshot has ",
                snapshot.memory_words_per_lane as u64,
                " memory words per lane, runtime has ",
                self.program.total_memory_words_per_lane as u64,
            );
            return Err(error("E_RUNTIME_SNAPSHOT_PROGRAM", message.as_str()));
        }
        Ok(())
    }

    fn validate_snapshot_shard(&self, snapshot: &RuntimeSnapshot, i: usize) -> (r: Result<
        (),
        ErrorReport,
    >)
        requires
            lanes_in_order(self.deep_view()),
            i < self.shards@.len(),
            i < snapshot.shards@.len(),
            snapshot_shard_fits(self.deep_view(), snapshot.deep_view(), i as int),
        ensures
            fails_with(r, snapshot_shard_problem(self.deep_view(), snapshot.deep_view(), i as int)),
    {
        let found = &snapshot.shards[i];
        let info = &self.shards[i].info;
        proof {
            let shards = self.deep_view().shards;
            assert(shards[i as int] == self.shards@[i as int].deep_view());
            assert(snapshot.deep_view().shards[i as int] == snapshot.shards@[i as int].deep_view());
            lemma_shards_keep_lanes(workers_of(shards));
            assert(infos_of(shards)[i as int] == shards[i as int].info);
        }
        if found.shard.start_lane != info.start_lane || found.shard.lanes != info.lanes {
            let mut message = two_numbers(
                "snapshot shard ",
                i as u64,
                " covers lanes ",
                found.shard.start_lane as u64,
            );
            message.append("..");
            append_decimal(&mut message, (found.shard.start_lane + found.shard.lanes) as u64);
            message.append(", runtime shard covers lanes ");
            append_decimal(&mut message, info.start_lane as u64);
            message.append("..");
            append_decimal(&mut message, (info.start_lane + info.lanes) as u64);
            return Err(error("E_RUNTIME_SNAPSHOT_TOPOLOGY", message.as_str()));
        }
        let expected_values: usize = self.program.total_signal_words * info.lanes;
        if found.values.len() != expected_values {
            let mut message = two_numbers(
                "snapshot shard ",
                i as u64,
                " has ",
                found.values.len() as u64,
            );
            message.append(" signal words, expected ");
            append_decimal(&mut message, expected_values as u64);
            return Err(error("E_RUNTIME_SNAPSHOT_STORAGE", message.as_str()));
        }
        let expected_memories: usize = self.program.total_memory_words_per_lane * info.lanes;
        if found.memories.len() != expected_memories {
            let mut message = two_numbers(
                "snapshot shard ",
                i as u64,
                " has ",
                found.memories.len() as u64,
            );
            message.append(" memory words, expected ");
            append_decimal(&mut message, expected_memories as u64);
            return Err(error("E_RUNTIME_SNAPSHOT_STORAGE", message.as_str()));
        }
        Ok(())
    }

    /// Checks that a snapshot is one of this runtime.
    pub fn validate_snapshot(&self, snapshot: &RuntimeSnapshot) -> (r: Result<(), ErrorReport>)
        requires
            lanes_in_order(self.deep_view()),
            snapshot_fits(self.deep_view(), snapshot.deep_view()),
        ensures
            fails_with(r, snapshot_problem(self.deep_view(), snapshot.deep_view())),
    {
        self.validate_snapshot_head(snapshot)?;
        let ghost check = snapshot_shards_check(self.deep_view(), snapshot.deep_view());
        proof {
            assert(self.deep_view().shards.len() == self.shards@.len());
            assert(snapshot.deep_view().shards.len() == snapshot.shards@.len());
        }
        let mut i: usize = 0;
        while i < self.shards.len()
            invariant
                i <= self.shards@.len(),
                self.deep_view().shards.len() == self.shards@.len(),
                snapshot.shards@.len() == self.shards@.len(),
                lanes_in_order(self.deep_view()),
                snapshot_head_problem(self.deep_view(), snapshot.deep_view()) is None,
                snapshot_fits(self.deep_view(), snapshot.deep_view()),
                check == snapshot_shards_check(self.deep_view(), snapshot.deep_view()),
                first_problem(i as nat, check) is None,
            decreases self.shards@.len() - i,
        {
            proof {
                assert(snapshot_shard_fits(
                    self.deep_view(),
                    snapshot.deep_view(),
                    (i as nat) as int,
                ));
            }
            match self.validate_snapshot_shard(snapshot, i) {
                Ok(_) => {},
                Err(e) => {
                    proof {
                        crate::seqs::lemma_first_problem_stays(
                            (i + 1) as nat,
                            self.shards@.len(),
                            check,
                        );
                    }
                    return Err(e);
                },
            }
            i = i + 1;
        }
        Ok(())
    }

    /// Checks that a checkpoint is one of this runtime.
    pub fn validate_checkpoint(&self, checkpoint: &RuntimeCheckpoint) -> (r: Result<
        (),
        ErrorReport,
    >)
        ensures
            fails_with(r, checkpoint_problem(self.deep_view(), checkpoint.deep_view())),
    {
        checkpoint.validate_format_version()?;
        if !same_text(checkpoint.module_name.as_str(), self.program.top.as_str()) {
            let mut message = "checkpoint module `".to_owned();
            message.append(checkpoint.module_name.as_str());
            message.append("` does not match runtime program `");
            message.append(self.program.top.as_str());
            message.append("`");
            return Err(error("E_RUNTIME_CHECKPOINT_PROGRAM", message.as_str()));
        }
        let topology = self.runtime_topology();
        if !same_topology(&checkpoint.topology, &topology) {
            return Err(
                error(
                    "E_RUNTIME_CHECKPOINT_TOPOLOGY",
                    "checkpoint topology does not match runtime topology",
                ),
            );
        }
        Ok(())
    }

    /// What the engines have to store so that a snapshot is restored.
    pub fn restore_snapshot(&self, snapshot: &RuntimeSnapshot) -> (r: Result<
        Vec<RuntimeShardStorage>,
        ErrorReport,
    >)
        requires
            lanes_in_order(self.deep_view()),
            snapshot_fits(self.deep_view(), snapshot.deep_view()),
        ensures
            fails_with(r, snapshot_problem(self.deep_view(), snapshot.deep_view())),
            r matches Ok(storages) ==> storages.deep_view() == storages_of(snapshot.deep_view()),
    {
        self.validate_snapshot(snapshot)?;
        let ghost shards = snapshot.deep_view().shards;
        let ghost stored = |i: int|
            RuntimeShardStorageView { values: shards[i].values, memories: shards[i].memories };
        let r = build_items(
            snapshot.shards.len(),
            |i: usize| -> (y: RuntimeShardStorage)
                requires
                    i < snapshot.shards@.len(),
                    shards == snapshot.deep_view().shards,
                    stored == (|i: int|
                        RuntimeShardStorageView {
                            values: shards[i].values,
                            memories: shards[i].memories,
                        }),
                ensures
                    y.deep_view() == stored(i as int)
                {
                    proof {
                        assert(shards[i as int] == snapshot.shards@[i as int].deep_view());
                    }
                    let y = RuntimeShardStorage {
                        values: snapshot.shards[i].values.clone(),
                        memories: snapshot.shards[i].memories.clone(),
                    };
                    proof {
                        assert(y.values@ =~= snapshot.shards@[i as int].values@);
                        assert(y.memories@ =~= snapshot.shards@[i as int].memories@);
                    }
                    y
                },
            Ghost(stored),
        );
        proof {
            assert(r.deep_view() =~= storages_of(snapshot.deep_view()));
        }
        Ok(r)
    }

    /// What the engines have to store so that a checkpoint is restored.
    pub fn restore_checkpoint(&self, checkpoint: &RuntimeCheckpoint) -> (r: Result<
        Vec<RuntimeShardStorage>,
        ErrorReport,
    >)
        requires
            lanes_in_order(self.deep_view()),
            checkpoint_problem(self.deep_view(), checkpoint.deep_view()) is None ==> snapshot_fits(
                self.deep_view(),
                checkpoint.deep_view().snapshot,
            ),
        ensures
            fails_with(
                r,
                or_problem(
                    checkpoint_problem(self.deep_view(), checkpoint.deep_view()),
                    snapshot_problem(self.deep_view(), checkpoint.deep_view().snapshot),
                ),
            ),
            r matches Ok(storages) ==> storages.deep_view() == storages_of(
                checkpoint.deep_view().snapshot,
            ),
    {
        self.validate_checkpoint(checkpoint)?;
        self.restore_snapshot(&checkpoint.snapshot)
    }
}

proof fn lemma_no_endpoints(shards: Seq<RuntimeShardView>, n: nat)
    ensures
        gather(n, shard_endpoint(shards, Seq::<RuntimeTcpEndpointView>::empty())) == Seq::<
            RuntimeTcpEndpointView,
        >::empty(),
    decreases n,
{
    if n > 0 {
        lemma_no_endpoints(shards, (n - 1) as nat);
    }
}

// ---------------------------------------------------------------------------
// Laws
// ---------------------------------------------------------------------------

/// Whether the engines of a runtime store as many words as its program needs.
pub open spec fn storages_match(
    runtime: DistributedRuntimeView,
    storages: Seq<RuntimeShardStorageView>,
) -> bool {
    &&& storages.len() == runtime.shards.len()
    &&& forall|i: int|
        #![trigger storages[i]]
        0 <= i < storages.len() ==> {
            &&& storages[i].values.len() == runtime.program.total_signal_words
                * runtime.shards[i].info.lanes
            &&& storages[i].memories.len() == runtime.program.total_memory_words_per_lane
                * runtime.shards[i].info.lanes
        }
}

/// A snapshot can be restored to the runtime it was taken of, and gives back what the engines
/// stored.
pub proof fn lemma_snapshot_restores(
    runtime: DistributedRuntimeView,
    storages: Seq<RuntimeShardStorageView>,
)
    requires
        storages_match(runtime, storages),
    ensures
        snapshot_problem(runtime, snapshot_of(runtime, storages)) is None,
        storages_of(snapshot_of(runtime, storages)) == storages,
{
    let snapshot = snapshot_of(runtime, storages);
    let check = snapshot_shards_check(runtime, snapshot);
    assert forall|i: int| 0 <= i < runtime.shards.len() implies (#[trigger] check(i)) is None by {
        assert(storages[i].values.len() == runtime.program.total_signal_words
            * runtime.shards[i].info.lanes);
    }
    crate::seqs::lemma_first_problem_none(runtime.shards.len(), check);
    assert(storages_of(snapshot) =~= storages);
}

/// A checkpoint can be restored to the runtime it was taken of, and gives back what the engines
/// stored.
pub proof fn lemma_checkpoint_restores(
    runtime: DistributedRuntimeView,
    endpoints: Seq<RuntimeTcpEndpointView>,
    storages: Seq<RuntimeShardStorageView>,
)
    requires
        storages_match(runtime, storages),
    ensures
        checkpoint_problem(runtime, checkpoint_of(runtime, endpoints, storages)) is None,
        snapshot_problem(runtime, checkpoint_of(runtime, endpoints, storages).snapshot) is None,
        storages_of(checkpoint_of(runtime, endpoints, storages).snapshot) == storages,
{
    lemma_snapshot_restores(runtime, storages);
}

} // verus!

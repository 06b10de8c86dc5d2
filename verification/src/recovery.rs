//! Recovering a runtime: workers that are started anew take over from a checkpoint.

use vstd::prelude::*;

use crate::collect::{append_items, build_items, check_each};
use crate::error::{error, fails_with, report, DiagnosticView, ErrorReport, ErrorReportView};
use crate::ids::{
    find_last_named, is_repeated_name, last_named, repeats_name,
};
use crate::model::runtime::{
    RuntimeCheckpoint, RuntimeCheckpointView, RuntimeRecoveryReport, RuntimeRecoveryReportView,
    RuntimeShardSnapshot, RuntimeShardSnapshotView, RuntimeTcpEndpoint, RuntimeTcpEndpointView,
};
use crate::model::topology::{RuntimeShardInfo, RuntimeShardInfoView};
use crate::order::{sort_by_key, sorted_by_key, SortKey, Ranked};
use crate::runtime::{
    lanes_in_order, missing_endpoint, missing_endpoint_error, DistributedRuntime,
    DistributedRuntimeView, RuntimeShardView,
};
use crate::runtime_actions::shards_reset;
use crate::runtime_storage::{
    checkpoint_problem, is_known, snapshot_fits, snapshot_problem,
};
use crate::seqs::{first_problem, lemma_first_problem_none, or_problem};

verus! {

/// What one worker has to take over.
#[derive(Debug, PartialEq, Eq)]
pub struct RuntimeRecoveryStep {
    pub addr: String,
    pub shard: RuntimeShardInfo,
    pub snapshot: RuntimeShardSnapshot,
}

/// The model of [`RuntimeRecoveryStep`].
#[verifier::ext_equal]
pub struct RuntimeRecoveryStepView {
    pub addr: Seq<char>,
    pub shard: RuntimeShardInfoView,
    pub snapshot: RuntimeShardSnapshotView,
}

impl DeepView for RuntimeRecoveryStep {
    type V = RuntimeRecoveryStepView;

    open spec fn deep_view(&self) -> RuntimeRecoveryStepView {
        RuntimeRecoveryStepView {
            addr: self.addr@,
            shard: self.shard.deep_view(),
            snapshot: self.snapshot.deep_view(),
        }
    }
}

/// How the design of a recovery compiled and lowered: why it did not compile, why the module of
/// the checkpoint could not be lowered, or whether the program is that of the runtime.
pub type RecoveryProgram = Result<Result<bool, ErrorReport>, ErrorReport>;

/// What is wrong with the program of a recovery.
pub open spec fn recovery_program_problem(compiled: RecoveryProgram) -> Option<ErrorReportView> {
    match compiled {
        Err(e) => Some(e.deep_view()),
        Ok(Err(e)) => Some(
            ErrorReportView {
                diagnostics: seq![
                    DiagnosticView {
                        code: "E_RUNTIME_CHECKPOINT_PROGRAM"@,
                        message: "recovery design cannot be lowered for the checkpoint module"@,
                    },
                ] + e.deep_view().diagnostics,
            },
        ),
        Ok(Ok(same)) => if same {
            None
        } else {
            Some(
                report(
                    "E_RUNTIME_CHECKPOINT_PROGRAM"@,
                    "recovery design does not match checkpoint runtime program"@,
                ),
            )
        },
    }
}

/// Whether a shard has no endpoint to recover at.
pub open spec fn unreachable_shard(
    shards: Seq<RuntimeShardView>,
    endpoints: Seq<RuntimeTcpEndpointView>,
) -> spec_fn(int) -> Option<ErrorReportView> {
    |i: int|
        if last_named::<RuntimeTcpEndpoint>(endpoints, shards[i].info.worker_id) is None {
            Some(missing_endpoint(shards[i].info.worker_id))
        } else {
            None
        }
}

/// Whether an endpoint belongs to no shard.
pub open spec fn stray_recovery_endpoint(
    shards: Seq<RuntimeShardView>,
    endpoints: Seq<RuntimeTcpEndpointView>,
) -> spec_fn(int) -> Option<ErrorReportView> {
    |k: int|
        if is_known(shards, endpoints[k].worker_id) {
            None
        } else {
            Some(
                report(
                    "E_RUNTIME_TCP_ENDPOINT"@,
                    "recovery endpoint provided for unknown worker `"@ + endpoints[k].worker_id
                        + "`"@,
                ),
            )
        }
}

/// What keeps a runtime from recovering.
pub open spec fn recovery_problem(
    runtime: DistributedRuntimeView,
    checkpoint: RuntimeCheckpointView,
    compiled: RecoveryProgram,
    endpoints: Seq<RuntimeTcpEndpointView>,
) -> Option<ErrorReportView> {
    or_problem(
        checkpoint_problem(runtime, checkpoint),
        or_problem(
            snapshot_problem(runtime, checkpoint.snapshot),
            or_problem(
                recovery_program_problem(compiled),
                or_problem(
                    first_problem(
                        runtime.shards.len(),
                        unreachable_shard(runtime.shards, endpoints),
                    ),
                    first_problem(
                        endpoints.len(),
                        stray_recovery_endpoint(runtime.shards, endpoints),
                    ),
                ),
            ),
        ),
    )
}

/// What the worker of shard `i` has to take over.
pub open spec fn recovery_step(
    runtime: DistributedRuntimeView,
    checkpoint: RuntimeCheckpointView,
    endpoints: Seq<RuntimeTcpEndpointView>,
) -> spec_fn(int) -> RuntimeRecoveryStepView {
    |i: int|
        RuntimeRecoveryStepView {
            addr: endpoints[last_named::<RuntimeTcpEndpoint>(
                endpoints,
                runtime.shards[i].info.worker_id,
            )->0].addr,
            shard: runtime.shards[i].info,
            snapshot: checkpoint.snapshot.shards[i],
        }
}

/// The workers of all shards.
pub open spec fn worker_ids(shards: Seq<RuntimeShardView>) -> Seq<Seq<char>> {
    Seq::new(shards.len(), |i: int| shards[i].info.worker_id)
}

fn validate_recovery_program(compiled: RecoveryProgram) -> (r: Result<(), ErrorReport>)
    ensures
        fails_with(r, recovery_program_problem(compiled)),
{
    match compiled {
        Err(e) => Err(e),
        Ok(Err(e)) => {
            let mut found = error(
                "E_RUNTIME_CHECKPOINT_PROGRAM",
                "recovery design cannot be lowered for the checkpoint module",
            );
            append_items(&mut found.diagnostics, e.diagnostics);
            Err(found)
        },
        Ok(Ok(same)) => if same {
            Ok(())
        } else {
            Err(
                error(
                    "E_RUNTIME_CHECKPOINT_PROGRAM",
                    "recovery design does not match checkpoint runtime program",
                ),
            )
        },
    }
}

impl DistributedRuntime {
    /// Plans a recovery: what each worker, in the order of the shards, has to take over.
    pub fn recover_tcp_workers_from_checkpoint(
        &self,
        checkpoint: &RuntimeCheckpoint,
        compiled: RecoveryProgram,
        endpoints: &Vec<RuntimeTcpEndpoint>,
    ) -> (r: Result<Vec<RuntimeRecoveryStep>, ErrorReport>)
        requires
            lanes_in_order(self.deep_view()),
            checkpoint_problem(self.deep_view(), checkpoint.deep_view()) is None ==> snapshot_fits(
                self.deep_view(),
                checkpoint.deep_view().snapshot,
            ),
        ensures
            fails_with(
                r,
                recovery_problem(
                    self.deep_view(),
                    checkpoint.deep_view(),
                    compiled,
                    endpoints.deep_view(),
                ),
            ),
            r matches Ok(steps) ==> steps.deep_view() == Seq::new(
                self.deep_view().shards.len(),
                recovery_step(self.deep_view(), checkpoint.deep_view(), endpoints.deep_view()),
            ),
    {
        self.validate_checkpoint(checkpoint)?;
        self.validate_snapshot(&checkpoint.snapshot)?;
        validate_recovery_program(compiled)?;
        let ghost runtime = self.deep_view();
        let ghost shards = runtime.shards;
        let ghost es = endpoints.deep_view();
        let ghost saved = checkpoint.deep_view();
        let ghost unreachable = unreachable_shard(shards, es);
        let ghost stray = stray_recovery_endpoint(shards, es);
        let ghost step = recovery_step(runtime, saved, es);
        proof {
            assert(shards.len() == self.shards@.len());
            assert(es.len() == endpoints@.len());
            assert(saved.snapshot.shards.len() == checkpoint.snapshot.shards@.len());
        }
        check_each(
            self.shards.len(),
            |i: usize| -> (y: Result<(), ErrorReport>)
                requires
                    i < self.shards@.len(),
                    shards == self.deep_view().shards,
                    es == endpoints.deep_view(),
                    unreachable == unreachable_shard(shards, es),
                ensures
                    fails_with(y, unreachable(i as int))
                {
                    proof {
                        assert(shards[i as int] == self.shards@[i as int].deep_view());
                    }
                    let worker = self.shards[i].info.worker_id.as_str();
                    if find_last_named(endpoints, worker).is_none() {
                        Err(missing_endpoint_error(worker))
                    } else {
                        Ok(())
                    }
                },
            Ghost(unreachable),
        )?;
        check_each(
            endpoints.len(),
            |k: usize| -> (y: Result<(), ErrorReport>)
                requires
                    k < endpoints@.len(),
                    shards == self.deep_view().shards,
                    es == endpoints.deep_view(),
                    stray == stray_recovery_endpoint(shards, es),
                ensures
                    fails_with(y, stray(k as int))
                {
                    proof {
                        assert(es[k as int] == endpoints@[k as int].deep_view());
                    }
                    if self.has_worker(endpoints[k].worker_id.as_str()) {
                        Ok(())
                    } else {
                        let mut message =
                            "recovery endpoint provided for unknown worker `".to_owned();
                        message.append(endpoints[k].worker_id.as_str());
                        message.append("`");
                        Err(error("E_RUNTIME_TCP_ENDPOINT", message.as_str()))
                    }
                },
            Ghost(stray),
        )?;
        proof {
            lemma_first_problem_none(shards.len(), unreachable);
        }
        Ok(
            build_items(
                self.shards.len(),
                |i: usize| -> (y: RuntimeRecoveryStep)
                    requires
                        i < self.shards@.len(),
                        runtime == self.deep_view(),
                        shards == runtime.shards,
                        es == endpoints.deep_view(),
                        saved == checkpoint.deep_view(),
                        saved.snapshot.shards.len() == checkpoint.snapshot.shards@.len(),
                        checkpoint.snapshot.shards@.len() == self.shards@.len(),
                        unreachable == unreachable_shard(shards, es),
                        unreachable(i as int) is None,
                        step == recovery_step(runtime, saved, es),
                    ensures
                        y.deep_view() == step(i as int)
                    {
                        proof {
                            assert(shards[i as int] == self.shards@[i as int].deep_view());
                            assert(saved.snapshot.shards[i as int]
                                == checkpoint.snapshot.shards@[i as int].deep_view());
                        }
                        let addr = match find_last_named(
                            endpoints,
                            self.shards[i].info.worker_id.as_str(),
                        ) {
                            Some(k) => {
                                proof {
                                    assert(es[k as int] == endpoints@[k as int].deep_view());
                                }
                                endpoints[k].addr.clone()
                            },
                            None => String::new(),
                        };
                        RuntimeRecoveryStep {
                            addr,
                            shard: self.shards[i].info.clone(),
                            snapshot: checkpoint.snapshot.shards[i].clone(),
                        }
                    },
                Ghost(step),
            ),
        )
    }

    /// Counts anew on all shards once their workers have taken over.
    pub fn finish_recovery(&mut self) -> (r: RuntimeRecoveryReport)
        ensures
            final(self).deep_view() == (DistributedRuntimeView {
                shards: shards_reset(old(self).deep_view().shards),
                ..old(self).deep_view()
            }),
            r.deep_view() == (RuntimeRecoveryReportView {
                recovered_workers: worker_ids(old(self).deep_view().shards),
            }),
    {
        let ghost shards = self.deep_view().shards;
        let ghost id = |i: int| shards[i].info.worker_id;
        let recovered_workers = build_items(
            self.shards.len(),
            |i: usize| -> (y: String)
                requires
                    i < self.shards@.len(),
                    shards == self.deep_view().shards,
                    id == (|i: int| shards[i].info.worker_id),
                ensures
                    y.deep_view() == id(i as int)
                {
                    proof {
                        assert(shards[i as int] == self.shards@[i as int].deep_view());
                    }
                    self.shards[i].info.worker_id.clone()
                },
            Ghost(id),
        );
        proof {
            assert(recovered_workers.deep_view() =~= worker_ids(shards));
        }
        self.reset_shards();
        RuntimeRecoveryReport { recovered_workers }
    }
}

// ---------------------------------------------------------------------------
// Endpoints of checkpoints
// ---------------------------------------------------------------------------

/// What is wrong with endpoint `k` of a checkpoint; `invalid` says why an address is none.
pub open spec fn endpoint_problem(
    endpoints: Seq<RuntimeTcpEndpointView>,
    invalid: Seq<Option<Seq<char>>>,
) -> spec_fn(int) -> Option<ErrorReportView> {
    |k: int|
        match invalid[k] {
            Some(why) => Some(
                report(
                    "E_RUNTIME_CHECKPOINT_ENDPOINT"@,
                    "checkpoint TCP endpoint for worker `"@ + endpoints[k].worker_id
                        + "` has invalid address `"@ + endpoints[k].addr + "`: "@ + why,
                ),
            ),
            None => if repeats_name::<RuntimeTcpEndpoint>(endpoints, k) {
                Some(
                    report(
                        "E_RUNTIME_CHECKPOINT_ENDPOINT"@,
                        "checkpoint has duplicate TCP endpoint for worker `"@
                            + endpoints[k].worker_id + "`"@,
                    ),
                )
            } else {
                None
            },
        }
}

impl RuntimeCheckpoint {
    /// The endpoints of a checkpoint, one per worker. `invalid` says of each address why it is
    /// none, or nothing where it is one.
    pub fn tcp_endpoint_map(&self, invalid: &Vec<Option<String>>) -> (r: Result<
        Vec<RuntimeTcpEndpoint>,
        ErrorReport,
    >)
        requires
            invalid@.len() == self.tcp_endpoints@.len(),
        ensures
            fails_with(
                r,
                first_problem(
                    self.deep_view().tcp_endpoints.len(),
                    endpoint_problem(self.deep_view().tcp_endpoints, invalid.deep_view()),
                ),
            ),
            r matches Ok(endpoints) ==> endpoints.deep_view() == self.deep_view().tcp_endpoints,
    {
        let ghost es = self.deep_view().tcp_endpoints;
        let ghost ws = invalid.deep_view();
        let ghost check = endpoint_problem(es, ws);
        proof {
            assert(es.len() == self.tcp_endpoints@.len());
        }
        check_each(
            self.tcp_endpoints.len(),
            |k: usize| -> (y: Result<(), ErrorReport>)
                requires
                    k < self.tcp_endpoints@.len(),
                    invalid@.len() == self.tcp_endpoints@.len(),
                    es == self.deep_view().tcp_endpoints,
                    ws == invalid.deep_view(),
                    check == endpoint_problem(es, ws),
                ensures
                    fails_with(y, check(k as int))
                {
                    proof {
                        assert(es[k as int] == self.tcp_endpoints@[k as int].deep_view());
                        assert(ws[k as int] == invalid@[k as int].deep_view());
                    }
                    let endpoint = &self.tcp_endpoints[k];
                    match &invalid[k] {
                        Some(why) => {
                            let mut message = "checkpoint TCP endpoint for worker `".to_owned();
                            message.append(endpoint.worker_id.as_str());
                            message.append("` has invalid address `");
                            message.append(endpoint.addr.as_str());
                            message.append("`: ");
                            message.append(why.as_str());
                            Err(error("E_RUNTIME_CHECKPOINT_ENDPOINT", message.as_str()))
                        },
                        None => if is_repeated_name(&self.tcp_endpoints, k) {
                            let mut message =
                                "checkpoint has duplicate TCP endpoint for worker `".to_owned();
                            message.append(endpoint.worker_id.as_str());
                            message.append("`");
                            Err(error("E_RUNTIME_CHECKPOINT_ENDPOINT", message.as_str()))
                        } else {
                            Ok(())
                        },
                    }
                },
            Ghost(check),
        )?;
        let r = self.tcp_endpoints.clone();
        proof {
            assert(r.deep_view() =~= es);
        }
        Ok(r)
    }
}

/// Endpoints by the names of their workers.
pub struct ByWorker {}

impl SortKey<RuntimeTcpEndpoint> for ByWorker {
    type Key = String;

    open spec fn key(v: RuntimeTcpEndpointView) -> Seq<char> {
        v.worker_id
    }

    fn is_key_le(a: &RuntimeTcpEndpoint, b: &RuntimeTcpEndpoint) -> bool {
        a.worker_id.is_ranked_le(&b.worker_id)
    }
}

/// Lists endpoints by the names of their workers.
pub fn tcp_endpoint_list(endpoints: &Vec<RuntimeTcpEndpoint>) -> (r: Vec<RuntimeTcpEndpoint>)
    ensures
        r.deep_view() == sorted_by_key::<RuntimeTcpEndpoint, ByWorker>(endpoints.deep_view()),
{
    let copy = endpoints.clone();
    proof {
        assert(copy.deep_view() =~= endpoints.deep_view());
    }
    sort_by_key::<RuntimeTcpEndpoint, ByWorker>(copy)
}

} // verus!

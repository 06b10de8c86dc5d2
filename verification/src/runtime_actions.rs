//! Stepping the shards of a runtime: what is counted, reported and merged.

use vstd::prelude::*;

use crate::collect::{append_items, build_items, concat_below};
use crate::error::{
    error, fails_with, report, Diagnostic, DiagnosticView, ErrorReport, ErrorReportView,
};
use crate::model::runtime::{
    DistributedRuntimeOptions, RuntimeExecutionMode, RuntimeHealthReport, RuntimeHealthReportView,
    RuntimeOperationCounters, RuntimeOperationStats, RuntimeShardHealth,
    RuntimeShardHealthStatus, RuntimeShardHealthView, RuntimeShardStats, RuntimeShardStatsView,
    RuntimeStats, RuntimeStatsView, RuntimeWorkerHealth, RuntimeWorkerHealthView,
};
use crate::model::surrogate::{
    EventRuntimePlan, GemmRuntimePlan, RuntimeSurrogateAttachment, RuntimeSurrogateAttachmentView,
    RuntimeSurrogateExecutionReport, RuntimeSurrogateExecutionReportView,
};
use crate::operations::{
    no_operations, recorded, records_one_more, runtime_surrogate_action_kind, shard_action_kind,
    RuntimeShardAction,
};
use crate::runtime::{
    infos_of, lanes_in_order, workers_of, DistributedRuntime, DistributedRuntimeView,
    RuntimeShardView,
};
use crate::seqs::no_items;
use crate::surrogate::{
    attach_event_runtime_plan_to_shard_infos, attach_gemm_runtime_plan_to_shard_infos,
    attachment_of, event_items, event_lanes_fit, event_plan_problem, gemm_items, gemm_lanes_fit,
    gemm_plan_problem,
};
use crate::surrogate_report::execution_report;
use crate::topology::lemma_shards_keep_lanes;

verus! {

// ---------------------------------------------------------------------------
// Merging results
// ---------------------------------------------------------------------------

/// The diagnostics of a result.
pub open spec fn result_diagnostics(results: Seq<Result<(), ErrorReport>>) -> spec_fn(int) -> Seq<
    DiagnosticView,
> {
    |i: int|
        match results[i] {
            Ok(_) => Seq::empty(),
            Err(e) => e.deep_view().diagnostics,
        }
}

/// The failure of several results: the diagnostics of all of them, in their order.
pub open spec fn merged_problem(results: Seq<Result<(), ErrorReport>>) -> Option<ErrorReportView> {
    let diagnostics = concat_below(results.len(), result_diagnostics(results));
    if diagnostics.len() == 0 {
        None
    } else {
        Some(ErrorReportView { diagnostics })
    }
}

/// Merges results in their order.
pub fn merge_ordered_results(results: &Vec<Result<(), ErrorReport>>) -> (r: Result<(), ErrorReport>)
    ensures
        fails_with(r, merged_problem(results@)),
{
    let ghost g = result_diagnostics(results@);
    let mut diagnostics: Vec<Diagnostic> = no_items();
    let mut i: usize = 0;
    while i < results.len()
        invariant
            i <= results@.len(),
            g == result_diagnostics(results@),
            diagnostics.deep_view() == concat_below(i as nat, g),
        decreases results@.len() - i,
    {
        match &results[i] {
            Ok(_) => {
                proof {
                    assert(concat_below((i + 1) as nat, g) =~= concat_below(i as nat, g));
                }
            },
            Err(e) => {
                let more = e.diagnostics.clone();
                proof {
                    assert(more.deep_view() =~= e.diagnostics.deep_view());
                }
                append_items(&mut diagnostics, more);
            },
        }
        i = i + 1;
    }
    proof {
        assert(diagnostics.deep_view().len() == diagnostics@.len());
    }
    if diagnostics.len() == 0 {
        Ok(())
    } else {
        Err(ErrorReport { diagnostics })
    }
}

/// Reports a shard that panicked while all were stepped at once, with what it said if it said
/// anything.
pub fn parallel_panic_error(said: Option<&str>) -> (r: ErrorReport)
    ensures
        r.deep_view() == report(
            "E_RUNTIME_PARALLEL"@,
            match said {
                Some(text) => "runtime shard panicked during parallel execution: "@ + text@,
                None => "runtime shard panicked during parallel execution"@,
            },
        ),
{
    match said {
        Some(text) => {
            let mut message = "runtime shard panicked during parallel execution: ".to_owned();
            message.append(text);
            error("E_RUNTIME_PARALLEL", message.as_str())
        },
        None => error(
            "E_RUNTIME_PARALLEL",
            "runtime shard panicked during parallel execution",
        ),
    }
}

// ---------------------------------------------------------------------------
// Stepping
// ---------------------------------------------------------------------------

/// A shard after an action, which counts it unless it panicked.
pub open spec fn executed_shard(
    shard: RuntimeShardView,
    action: RuntimeShardAction,
    elapsed_ns: Option<u128>,
) -> RuntimeShardView {
    match elapsed_ns {
        Some(ns) => RuntimeShardView { operations: recorded(shard.operations, action, ns), ..shard },
        None => shard,
    }
}

/// What surrogates report after one more action.
pub open spec fn execution_after(runtime: DistributedRuntimeView, action: RuntimeShardAction) -> Option<
    RuntimeSurrogateExecutionReportView,
> {
    match runtime.surrogate_attachment {
        None => runtime.surrogate_execution,
        Some(attachment) => Some(
            execution_report(
                attachment,
                Some(shard_action_kind(action)),
                (previous_actions(runtime) + 1) as u64,
            ),
        ),
    }
}

/// How many actions surrogates reported so far.
pub open spec fn previous_actions(runtime: DistributedRuntimeView) -> u64 {
    match runtime.surrogate_execution {
        Some(execution) => execution.action_count,
        None => 0,
    }
}

/// A runtime after an action that took `shard_ns` on its shards and `elapsed_ns` as a whole. A shard
/// that failed counts it too; only a shard that panicked has no time and does not.
pub open spec fn executed(
    runtime: DistributedRuntimeView,
    action: RuntimeShardAction,
    results: Seq<Result<(), ErrorReport>>,
    shard_ns: Seq<Option<u128>>,
    elapsed_ns: u128,
) -> DistributedRuntimeView {
    DistributedRuntimeView {
        shards: Seq::new(
            runtime.shards.len(),
            |i: int| executed_shard(runtime.shards[i], action, shard_ns[i]),
        ),
        operations: recorded(runtime.operations, action, elapsed_ns),
        surrogate_execution: if merged_problem(results) is None {
            execution_after(runtime, action)
        } else {
            runtime.surrogate_execution
        },
        ..runtime
    }
}

/// Whether the counts of an action fit, and each shard has a result.
pub open spec fn execution_fits(
    runtime: DistributedRuntimeView,
    action: RuntimeShardAction,
    results: Seq<Result<(), ErrorReport>>,
    shard_ns: Seq<Option<u128>>,
    elapsed_ns: u128,
) -> bool {
    &&& results.len() == runtime.shards.len()
    &&& shard_ns.len() == runtime.shards.len()
    &&& forall|i: int|
        0 <= i < runtime.shards.len() ==> (shard_ns[i] matches Some(ns) ==> records_one_more(
            (#[trigger] runtime.shards[i]).operations,
            action,
            ns,
        ))
    &&& records_one_more(runtime.operations, action, elapsed_ns)
    &&& runtime.surrogate_attachment is Some && merged_problem(results) is None
        ==> previous_actions(runtime) < u64::MAX
}

/// What is counted of a runtime.
pub open spec fn runtime_stats(runtime: DistributedRuntimeView) -> RuntimeStatsView {
    RuntimeStatsView {
        execution_mode: runtime.options.execution_mode,
        total_lanes: runtime.total_lanes,
        operations: runtime.operations,
        surrogate_execution: runtime.surrogate_execution,
        shards: Seq::new(
            runtime.shards.len(),
            |i: int|
                RuntimeShardStatsView {
                    shard: runtime.shards[i].info,
                    operations: runtime.shards[i].operations,
                },
        ),
    }
}

/// A runtime with nothing counted.
pub open spec fn runtime_reset(runtime: DistributedRuntimeView) -> DistributedRuntimeView {
    DistributedRuntimeView {
        operations: no_operations(),
        surrogate_execution: match runtime.surrogate_attachment {
            Some(attachment) => Some(execution_report(attachment, None, 0)),
            None => None,
        },
        shards: shards_reset(runtime.shards),
        ..runtime
    }
}

/// Shards with nothing counted.
pub open spec fn shards_reset(shards: Seq<RuntimeShardView>) -> Seq<RuntimeShardView> {
    Seq::new(
        shards.len(),
        |i: int| RuntimeShardView { operations: no_operations(), ..shards[i] },
    )
}

/// A runtime with an attachment that was not used yet.
pub open spec fn runtime_attached(
    runtime: DistributedRuntimeView,
    attachment: RuntimeSurrogateAttachmentView,
) -> DistributedRuntimeView {
    DistributedRuntimeView {
        surrogate_attachment: Some(attachment),
        surrogate_execution: Some(execution_report(attachment, None, 0)),
        ..runtime
    }
}

/// The health of a shard. One with an engine in this process is healthy; otherwise its worker
/// says how it is.
pub open spec fn shard_health(
    shard: RuntimeShardView,
    reply: Option<RuntimeWorkerHealthView>,
) -> RuntimeShardHealthView {
    match reply {
        None => RuntimeShardHealthView {
            shard: shard.info,
            status: RuntimeShardHealthStatus::Healthy,
            operations: Some(shard.operations),
        },
        Some(health) => RuntimeShardHealthView {
            shard: match health.shard {
                Some(info) => info,
                None => shard.info,
            },
            status: if health.initialized {
                RuntimeShardHealthStatus::Healthy
            } else {
                RuntimeShardHealthStatus::Uninitialized
            },
            operations: health.operations,
        },
    }
}

impl DistributedRuntime {
    /// What is counted of the runtime and its shards.
    pub fn stats(&self) -> (r: RuntimeStats)
        ensures
            r.deep_view() == runtime_stats(self.deep_view()),
    {
        let ghost shards = self.deep_view().shards;
        let ghost stats = |i: int|
            RuntimeShardStatsView { shard: shards[i].info, operations: shards[i].operations };
        let counted = build_items(
            self.shards.len(),
            |i: usize| -> (y: RuntimeShardStats)
                requires
                    i < self.shards@.len(),
                    shards == self.deep_view().shards,
                    stats == (|i: int|
                        RuntimeShardStatsView {
                            shard: shards[i].info,
                            operations: shards[i].operations,
                        }),
                ensures
                    y.deep_view() == stats(i as int)
                {
                    proof {
                        assert(shards[i as int] == self.shards@[i as int].deep_view());
                    }
                    RuntimeShardStats {
                        shard: self.shards[i].info.clone(),
                        operations: self.shards[i].operations,
                    }
                },
            Ghost(stats),
        );
        let execution = self.surrogate_execution.clone();
        let r = RuntimeStats {
            execution_mode: self.options.execution_mode,
            total_lanes: self.total_lanes,
            operations: self.operations,
            surrogate_execution: execution,
            shards: counted,
        };
        proof {
            assert(execution.deep_view() =~= self.surrogate_execution.deep_view());
            assert(r.deep_view().shards =~= runtime_stats(self.deep_view()).shards);
        }
        r
    }

    pub(crate) fn reset_shards(&mut self)
        ensures
            final(self).deep_view() == (DistributedRuntimeView {
                shards: shards_reset(old(self).deep_view().shards),
                ..old(self).deep_view()
            }),
    {
        let ghost before = self.deep_view().shards;
        let ghost all = shards_reset(before);
        let mut i: usize = 0;
        while i < self.shards.len()
            invariant
                i <= self.shards@.len(),
                before == old(self).deep_view().shards,
                all == shards_reset(before),
                self.shards@.len() == before.len(),
                self.deep_view() == (DistributedRuntimeView {
                    shards: all.take(i as int) + before.skip(i as int),
                    ..old(self).deep_view()
                }),
            decreases self.shards@.len() - i,
        {
            let ghost now = self.shards.deep_view();
            self.shards[i].operations = RuntimeOperationStats::default();
            proof {
                assert(now[i as int] == before[i as int]);
                assert(self.shards.deep_view() =~= now.update(i as int, all[i as int]));
                assert(self.shards.deep_view() =~= all.take(i + 1) + before.skip(i + 1));
            }
            i = i + 1;
        }
        proof {
            assert(all.take(i as int) + before.skip(i as int) =~= all);
        }
    }

    /// Forgets all that was counted.
    pub fn reset_stats(&mut self)
        ensures
            final(self).deep_view() == runtime_reset(old(self).deep_view()),
    {
        self.operations = RuntimeOperationStats::default();
        self.surrogate_execution = match &self.surrogate_attachment {
            Some(attachment) => Some(
                RuntimeSurrogateExecutionReport::inspect_attachment(attachment),
            ),
            None => None,
        };
        self.reset_shards();
    }

    /// Attaches a GEMM plan.
    pub fn attach_surrogate_plan(&mut self, plan: &GemmRuntimePlan) -> (r: Result<(), ErrorReport>)
        requires
            lanes_in_order(old(self).deep_view()),
            gemm_lanes_fit(infos_of(old(self).deep_view().shards), *plan),
        ensures
            fails_with(r, gemm_plan_problem(infos_of(old(self).deep_view().shards), *plan)),
            final(self).deep_view() == if r is Ok {
                runtime_attached(
                    old(self).deep_view(),
                    attachment_of(
                        plan.schema@,
                        infos_of(old(self).deep_view().shards),
                        gemm_items(*plan),
                    ),
                )
            } else {
                old(self).deep_view()
            },
    {
        let infos = self.shard_plan();
        proof {
            lemma_shards_keep_lanes(workers_of(self.deep_view().shards));
        }
        let attachment = attach_gemm_runtime_plan_to_shard_infos(&infos, plan)?;
        self.surrogate_execution =
        Some(RuntimeSurrogateExecutionReport::inspect_attachment(&attachment));
        self.surrogate_attachment = Some(attachment);
        Ok(())
    }

    /// Attaches an event plan.
    pub fn attach_event_surrogate_plan(&mut self, plan: &EventRuntimePlan) -> (r: Result<
        (),
        ErrorReport,
    >)
        requires
            lanes_in_order(old(self).deep_view()),
            event_lanes_fit(infos_of(old(self).deep_view().shards), *plan),
        ensures
            fails_with(r, event_plan_problem(infos_of(old(self).deep_view().shards), *plan)),
            final(self).deep_view() == if r is Ok {
                runtime_attached(
                    old(self).deep_view(),
                    attachment_of(
                        plan.schema@,
                        infos_of(old(self).deep_view().shards),
                        event_items(*plan),
                    ),
                )
            } else {
                old(self).deep_view()
            },
    {
        let infos = self.shard_plan();
        proof {
            lemma_shards_keep_lanes(workers_of(self.deep_view().shards));
        }
        let attachment = attach_event_runtime_plan_to_shard_infos(&infos, plan)?;
        self.surrogate_execution =
        Some(RuntimeSurrogateExecutionReport::inspect_attachment(&attachment));
        self.surrogate_attachment = Some(attachment);
        Ok(())
    }

    /// What is attached.
    pub fn surrogate_attachment(&self) -> (r: Option<&RuntimeSurrogateAttachment>)
        ensures
            match r {
                Some(a) => self.deep_view().surrogate_attachment == Some(a.deep_view()),
                None => self.deep_view().surrogate_attachment is None,
            },
    {
        match &self.surrogate_attachment {
            Some(attachment) => Some(attachment),
            None => None,
        }
    }

    /// What surrogates report.
    pub fn surrogate_execution(&self) -> (r: Option<&RuntimeSurrogateExecutionReport>)
        ensures
            match r {
                Some(e) => self.deep_view().surrogate_execution == Some(e.deep_view()),
                None => self.deep_view().surrogate_execution is None,
            },
    {
        match &self.surrogate_execution {
            Some(execution) => Some(execution),
            None => None,
        }
    }

    /// The health of all shards, of what the workers replied: nothing for a shard whose engine is
    /// in this process.
    pub fn health(&self, replies: &Vec<Option<RuntimeWorkerHealth>>) -> (r: RuntimeHealthReport)
        requires
            replies@.len() == self.shards@.len(),
        ensures
            r.deep_view() == (RuntimeHealthReportView {
                total_lanes: self.deep_view().total_lanes,
                shards: Seq::new(
                    self.deep_view().shards.len(),
                    |i: int| shard_health(self.deep_view().shards[i], replies.deep_view()[i]),
                ),
            }),
    {
        let ghost shards = self.deep_view().shards;
        let ghost rs = replies.deep_view();
        let ghost health = |i: int| shard_health(shards[i], rs[i]);
        let all = build_items(
            self.shards.len(),
            |i: usize| -> (y: RuntimeShardHealth)
                requires
                    i < self.shards@.len(),
                    replies@.len() == self.shards@.len(),
                    shards == self.deep_view().shards,
                    rs == replies.deep_view(),
                    health == (|i: int| shard_health(shards[i], rs[i])),
                ensures
                    y.deep_view() == health(i as int)
                {
                    proof {
                        assert(shards[i as int] == self.shards@[i as int].deep_view());
                        assert(rs[i as int] == replies@[i as int].deep_view());
                    }
                    match &replies[i] {
                        None => RuntimeShardHealth {
                            shard: self.shards[i].info.clone(),
                            status: RuntimeShardHealthStatus::Healthy,
                            operations: Some(self.shards[i].operations),
                        },
                        Some(reply) => RuntimeShardHealth {
                            shard: match &reply.shard {
                                Some(info) => info.clone(),
                                None => self.shards[i].info.clone(),
                            },
                            status: if reply.initialized {
                                RuntimeShardHealthStatus::Healthy
                            } else {
                                RuntimeShardHealthStatus::Uninitialized
                            },
                            operations: reply.operations,
                        },
                    }
                },
            Ghost(health),
        );
        let r = RuntimeHealthReport { total_lanes: self.total_lanes, shards: all };
        proof {
            assert(r.deep_view().shards =~= Seq::new(
                shards.len(),
                |i: int| shard_health(shards[i], rs[i]),
            ));
        }
        r
    }

    /// Counts an action that was made on all shards, and merges its results.
    pub fn execute_shards(
        &mut self,
        action: RuntimeShardAction,
        results: &Vec<Result<(), ErrorReport>>,
        shard_ns: &Vec<Option<u128>>,
        elapsed_ns: u128,
    ) -> (r: Result<(), ErrorReport>)
        requires
            execution_fits(old(self).deep_view(), action, results@, shard_ns@, elapsed_ns),
        ensures
            fails_with(r, merged_problem(results@)),
            final(self).deep_view() == executed(
                old(self).deep_view(),
                action,
                results@,
                shard_ns@,
                elapsed_ns,
            ),
    {
        let ghost start = self.deep_view();
        let ghost before = start.shards;
        let ghost all = executed(start, action, results@, shard_ns@, elapsed_ns).shards;
        let mut i: usize = 0;
        proof {
            assert(before.len() == self.shards@.len());
            assert(all.take(0) + before.skip(0) =~= before);
        }
        while i < self.shards.len()
            invariant
                i <= self.shards@.len(),
                start == old(self).deep_view(),
                before == start.shards,
                all == executed(start, action, results@, shard_ns@, elapsed_ns).shards,
                execution_fits(start, action, results@, shard_ns@, elapsed_ns),
                self.shards@.len() == before.len(),
                self.deep_view() == (DistributedRuntimeView {
                    shards: all.take(i as int) + before.skip(i as int),
                    ..start
                }),
            decreases self.shards@.len() - i,
        {
            let ghost now = self.shards.deep_view();
            proof {
                assert(now[i as int] == before[i as int]);
                assert(now[i as int] == self.shards@[i as int].deep_view());
            }
            if let Some(ns) = shard_ns[i] {
                self.shards[i].operations.record(action, ns);
            }
            proof {
                assert(self.shards.deep_view() =~= now.update(i as int, all[i as int]));
                assert(self.shards.deep_view() =~= all.take(i + 1) + before.skip(i + 1));
            }
            i = i + 1;
        }
        proof {
            assert(all.take(i as int) + before.skip(i as int) =~= all);
        }
        self.operations.record(action, elapsed_ns);
        let result = merge_ordered_results(results);
        if result.is_ok() {
            self.record_surrogate_execution(action);
        }
        result
    }

    fn record_surrogate_execution(&mut self, action: RuntimeShardAction)
        requires
            old(self).deep_view().surrogate_attachment is Some ==> previous_actions(
                old(self).deep_view(),
            ) < u64::MAX,
        ensures
            final(self).deep_view() == (DistributedRuntimeView {
                surrogate_execution: execution_after(old(self).deep_view(), action),
                ..old(self).deep_view()
            }),
    {
        let execution = match &self.surrogate_attachment {
            Some(attachment) => {
                let previous: u64 = match &self.surrogate_execution {
                    Some(execution) => execution.action_count,
                    None => 0,
                };
                Some(
                    RuntimeSurrogateExecutionReport::from_attachment(
                        attachment,
                        Some(runtime_surrogate_action_kind(action)),
                        previous + 1,
                    ),
                )
            },
            None => None,
        };
        if execution.is_some() {
            self.surrogate_execution = execution;
        }
    }

    /// Counts an evaluation of all combinational logic.
    pub fn eval_combinational(
        &mut self,
        results: &Vec<Result<(), ErrorReport>>,
        shard_ns: &Vec<Option<u128>>,
        elapsed_ns: u128,
    ) -> (r: Result<(), ErrorReport>)
        requires
            execution_fits(
                old(self).deep_view(),
                RuntimeShardAction::EvalCombinational,
                results@,
                shard_ns@,
                elapsed_ns,
            ),
        ensures
            fails_with(r, merged_problem(results@)),
            final(self).deep_view() == executed(
                old(self).deep_view(),
                RuntimeShardAction::EvalCombinational,
                results@,
                shard_ns@,
                elapsed_ns,
            ),
    {
        self.execute_shards(RuntimeShardAction::EvalCombinational, results, shard_ns, elapsed_ns)
    }

    /// Counts a clock cycle.
    pub fn tick(
        &mut self,
        results: &Vec<Result<(), ErrorReport>>,
        shard_ns: &Vec<Option<u128>>,
        elapsed_ns: u128,
    ) -> (r: Result<(), ErrorReport>)
        requires
            execution_fits(
                old(self).deep_view(),
                RuntimeShardAction::Tick,
                results@,
                shard_ns@,
                elapsed_ns,
            ),
        ensures
            fails_with(r, merged_problem(results@)),
            final(self).deep_view() == executed(
                old(self).deep_view(),
                RuntimeShardAction::Tick,
                results@,
                shard_ns@,
                elapsed_ns,
            ),
    {
        self.execute_shards(RuntimeShardAction::Tick, results, shard_ns, elapsed_ns)
    }

    /// Counts several clock cycles.
    pub fn tick_many(
        &mut self,
        steps: usize,
        results: &Vec<Result<(), ErrorReport>>,
        shard_ns: &Vec<Option<u128>>,
        elapsed_ns: u128,
    ) -> (r: Result<(), ErrorReport>)
        requires
            execution_fits(
                old(self).deep_view(),
                RuntimeShardAction::TickMany(steps),
                results@,
                shard_ns@,
                elapsed_ns,
            ),
        ensures
            fails_with(r, merged_problem(results@)),
            final(self).deep_view() == executed(
                old(self).deep_view(),
                RuntimeShardAction::TickMany(steps),
                results@,
                shard_ns@,
                elapsed_ns,
            ),
    {
        self.execute_shards(RuntimeShardAction::TickMany(steps), results, shard_ns, elapsed_ns)
    }
}

// ---------------------------------------------------------------------------
// Laws
// ---------------------------------------------------------------------------

/// An action leaves the lanes of every shard where they are.
pub proof fn lemma_execution_keeps_lanes(
    runtime: DistributedRuntimeView,
    action: RuntimeShardAction,
    results: Seq<Result<(), ErrorReport>>,
    shard_ns: Seq<Option<u128>>,
    elapsed_ns: u128,
)
    requires
        lanes_in_order(runtime),
    ensures
        lanes_in_order(executed(runtime, action, results, shard_ns, elapsed_ns)),
        infos_of(executed(runtime, action, results, shard_ns, elapsed_ns).shards) == infos_of(
            runtime.shards,
        ),
{
    let after = executed(runtime, action, results, shard_ns, elapsed_ns);
    assert(workers_of(after.shards) =~= workers_of(runtime.shards));
    assert(infos_of(after.shards) =~= infos_of(runtime.shards));
}

/// Results fail together exactly where one of them has a diagnostic.
pub proof fn lemma_merged_problem(results: Seq<Result<(), ErrorReport>>)
    ensures
        merged_problem(results) is Some <==> exists|i: int|
            0 <= i < results.len() && #[trigger] results[i] is Err
                && results[i]->Err_0.deep_view().diagnostics.len() > 0,
{
    let g = result_diagnostics(results);
    lemma_concat_len(results.len(), g);
    if exists|i: int|
        0 <= i < results.len() && #[trigger] results[i] is Err
            && results[i]->Err_0.deep_view().diagnostics.len() > 0 {
        let i = choose|i: int|
            0 <= i < results.len() && #[trigger] results[i] is Err
                && results[i]->Err_0.deep_view().diagnostics.len() > 0;
        assert(g(i).len() > 0);
    }
    if merged_problem(results) is Some {
        let i = choose|i: int| 0 <= i < results.len() && #[trigger] g(i).len() > 0;
        assert(results[i] is Err);
    }
}

proof fn lemma_concat_len(n: nat, g: spec_fn(int) -> Seq<DiagnosticView>)
    ensures
        concat_below(n, g).len() > 0 <==> exists|i: int| 0 <= i < n && #[trigger] g(i).len() > 0,
    decreases n,
{
    if n > 0 {
        lemma_concat_len((n - 1) as nat, g);
        if g(n - 1).len() > 0 {
            assert(concat_below(n, g).len() > 0);
        }
    }
}

/// What is made of a step: the action, how it went on each shard, and the times that it took.
pub struct ShardStep {
    pub action: RuntimeShardAction,
    pub results: Seq<Result<(), ErrorReport>>,
    pub shard_ns: Seq<Option<u128>>,
    pub elapsed_ns: u128,
}

/// A runtime after several steps.
pub open spec fn executed_all(
    runtime: DistributedRuntimeView,
    steps: Seq<ShardStep>,
) -> DistributedRuntimeView
    decreases steps.len(),
{
    if steps.len() == 0 {
        runtime
    } else {
        let step = steps.last();
        executed(
            executed_all(runtime, steps.drop_last()),
            step.action,
            step.results,
            step.shard_ns,
            step.elapsed_ns,
        )
    }
}

/// A runtime that steps its shards in another mode.
pub open spec fn in_mode(
    runtime: DistributedRuntimeView,
    mode: RuntimeExecutionMode,
) -> DistributedRuntimeView {
    DistributedRuntimeView {
        options: DistributedRuntimeOptions { execution_mode: mode },
        ..runtime
    }
}

/// Shards that go through the same steps one after the other and all at once end alike: the two
/// runtimes differ in their mode alone, and so does what they count.
pub proof fn lemma_modes_run_alike(
    runtime: DistributedRuntimeView,
    mode: RuntimeExecutionMode,
    steps: Seq<ShardStep>,
)
    ensures
        executed_all(in_mode(runtime, mode), steps) == in_mode(executed_all(runtime, steps), mode),
        infos_of(executed_all(in_mode(runtime, mode), steps).shards) == infos_of(
            executed_all(runtime, steps).shards,
        ),
        runtime_stats(executed_all(in_mode(runtime, mode), steps)) == (RuntimeStatsView {
            execution_mode: mode,
            ..runtime_stats(executed_all(runtime, steps))
        }),
    decreases steps.len(),
{
    if steps.len() > 0 {
        lemma_modes_run_alike(runtime, mode, steps.drop_last());
        let step = steps.last();
        let one = executed_all(runtime, steps.drop_last());
        let other = executed_all(in_mode(runtime, mode), steps.drop_last());
        assert(executed(
            other,
            step.action,
            step.results,
            step.shard_ns,
            step.elapsed_ns,
        ).shards =~= executed(
            one,
            step.action,
            step.results,
            step.shard_ns,
            step.elapsed_ns,
        ).shards);
    }
    let one = runtime_stats(executed_all(runtime, steps));
    let other = runtime_stats(executed_all(in_mode(runtime, mode), steps));
    assert(one.shards =~= other.shards);
}

/// Counters without the times.
pub open spec fn calls_alone(operations: RuntimeOperationStats) -> RuntimeOperationStats {
    RuntimeOperationStats {
        eval_combinational: RuntimeOperationCounters {
            calls: operations.eval_combinational.calls,
            total_ns: 0,
            last_ns: 0,
        },
        tick: RuntimeOperationCounters { calls: operations.tick.calls, total_ns: 0, last_ns: 0 },
        tick_many: RuntimeOperationCounters {
            calls: operations.tick_many.calls,
            total_ns: 0,
            last_ns: 0,
        },
    }
}

/// A runtime without the times that it counted.
pub open spec fn timeless(runtime: DistributedRuntimeView) -> DistributedRuntimeView {
    DistributedRuntimeView {
        operations: calls_alone(runtime.operations),
        shards: Seq::new(
            runtime.shards.len(),
            |i: int|
                RuntimeShardView {
                    operations: calls_alone(runtime.shards[i].operations),
                    ..runtime.shards[i]
                },
        ),
        ..runtime
    }
}

/// Whether two steps differ in their times alone.
pub open spec fn same_step(a: ShardStep, b: ShardStep) -> bool {
    &&& a.action == b.action
    &&& a.results == b.results
    &&& a.shard_ns.len() == b.shard_ns.len()
    &&& forall|i: int|
        0 <= i < a.shard_ns.len() ==> ((#[trigger] a.shard_ns[i]) is Some <==> b.shard_ns[i] is Some)
}

/// Runtimes that agree but for times, and whose steps do, agree but for times in the end: in
/// shards, counts and what surrogates report.
pub proof fn lemma_times_do_not_matter(
    a: DistributedRuntimeView,
    b: DistributedRuntimeView,
    a_steps: Seq<ShardStep>,
    b_steps: Seq<ShardStep>,
)
    requires
        timeless(a) == timeless(b),
        a_steps.len() == b_steps.len(),
        forall|i: int| 0 <= i < a_steps.len() ==> same_step(#[trigger] a_steps[i], b_steps[i]),
        forall|i: int|
            0 <= i < a_steps.len() ==> (#[trigger] a_steps[i]).shard_ns.len() == a.shards.len(),
    ensures
        timeless(executed_all(a, a_steps)) == timeless(executed_all(b, b_steps)),
        executed_all(a, a_steps).shards.len() == a.shards.len(),
    decreases a_steps.len(),
{
    if a_steps.len() > 0 {
        let n = a_steps.len() - 1;
        let a_before = a_steps.drop_last();
        let b_before = b_steps.drop_last();
        assert forall|i: int| 0 <= i < a_before.len() implies same_step(
            #[trigger] a_before[i],
            b_before[i],
        ) && a_before[i].shard_ns.len() == a.shards.len() by {
            assert(a_before[i] == a_steps[i]);
            assert(b_before[i] == b_steps[i]);
        }
        lemma_times_do_not_matter(a, b, a_before, b_before);
        let x = executed_all(a, a_before);
        let y = executed_all(b, b_before);
        let p = a_steps[n];
        let q = b_steps[n];
        assert(same_step(p, q));
        let after_x = timeless(executed(x, p.action, p.results, p.shard_ns, p.elapsed_ns));
        let after_y = timeless(executed(y, q.action, q.results, q.shard_ns, q.elapsed_ns));
        assert(timeless(x).shards.len() == timeless(y).shards.len());
        assert forall|i: int| 0 <= i < x.shards.len() implies #[trigger] after_x.shards[i]
            == after_y.shards[i] by {
            assert(timeless(x).shards[i] == timeless(y).shards[i]);
            assert(p.shard_ns[i] is Some <==> q.shard_ns[i] is Some);
        }
        assert(after_x.shards =~= after_y.shards);
    }
}

} // verus!

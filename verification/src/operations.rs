//! Counting what workers do.

use vstd::prelude::*;

use crate::model::runtime::{RuntimeOperationCounters, RuntimeOperationStats};
use crate::model::session::RuntimePartitionWorkerActionKind;
use crate::model::surrogate::RuntimeSurrogateActionKind;

verus! {

/// A step that all shards of a runtime perform.
#[derive(Clone, Copy, Debug, PartialEq, Eq, Structural)]
pub enum RuntimeShardAction {
    EvalCombinational,
    Tick,
    TickMany(usize),
}

/// Counters that have counted nothing.
pub open spec fn no_counters() -> RuntimeOperationCounters {
    RuntimeOperationCounters { calls: 0, total_ns: 0, last_ns: 0 }
}

/// Statistics of nothing.
pub open spec fn no_operations() -> RuntimeOperationStats {
    RuntimeOperationStats {
        eval_combinational: no_counters(),
        tick: no_counters(),
        tick_many: no_counters(),
    }
}

impl Default for RuntimeOperationCounters {
    fn default() -> (r: Self)
        ensures
            r == no_counters(),
    {
        RuntimeOperationCounters { calls: 0, total_ns: 0, last_ns: 0 }
    }
}

impl Default for RuntimeOperationStats {
    fn default() -> (r: Self)
        ensures
            r == no_operations(),
    {
        RuntimeOperationStats {
            eval_combinational: RuntimeOperationCounters::default(),
            tick: RuntimeOperationCounters::default(),
            tick_many: RuntimeOperationCounters::default(),
        }
    }
}

/// Whether one more call can be counted.
pub open spec fn counts_one_more(c: RuntimeOperationCounters, elapsed_ns: u128) -> bool {
    c.calls < u64::MAX && c.total_ns + elapsed_ns <= u128::MAX
}

/// Counters after one more call.
pub open spec fn counted(c: RuntimeOperationCounters, elapsed_ns: u128) -> RuntimeOperationCounters {
    RuntimeOperationCounters {
        calls: (c.calls + 1) as u64,
        total_ns: (c.total_ns + elapsed_ns) as u128,
        last_ns: elapsed_ns,
    }
}

impl RuntimeOperationCounters {
    /// Counts a call that took `elapsed_ns` nanoseconds.
    pub fn record(&mut self, elapsed_ns: u128)
        requires
            counts_one_more(*old(self), elapsed_ns),
        ensures
            *final(self) == counted(*old(self), elapsed_ns),
    {
        self.calls = self.calls + 1;
        self.total_ns = self.total_ns + elapsed_ns;
        self.last_ns = elapsed_ns;
    }
}

/// Whether one more step can be counted.
pub open spec fn records_one_more(
    stats: RuntimeOperationStats,
    action: RuntimeShardAction,
    elapsed_ns: u128,
) -> bool {
    match action {
        RuntimeShardAction::EvalCombinational => counts_one_more(
            stats.eval_combinational,
            elapsed_ns,
        ),
        RuntimeShardAction::Tick => counts_one_more(stats.tick, elapsed_ns),
        RuntimeShardAction::TickMany(_) => counts_one_more(stats.tick_many, elapsed_ns),
    }
}

/// Statistics after one more step.
pub open spec fn recorded(
    stats: RuntimeOperationStats,
    action: RuntimeShardAction,
    elapsed_ns: u128,
) -> RuntimeOperationStats {
    match action {
        RuntimeShardAction::EvalCombinational => RuntimeOperationStats {
            eval_combinational: counted(stats.eval_combinational, elapsed_ns),
            ..stats
        },
        RuntimeShardAction::Tick => RuntimeOperationStats {
            tick: counted(stats.tick, elapsed_ns),
            ..stats
        },
        RuntimeShardAction::TickMany(_) => RuntimeOperationStats {
            tick_many: counted(stats.tick_many, elapsed_ns),
            ..stats
        },
    }
}

impl RuntimeOperationStats {
    /// Counts a step that took `elapsed_ns` nanoseconds.
    pub fn record(&mut self, action: RuntimeShardAction, elapsed_ns: u128)
        requires
            records_one_more(*old(self), action, elapsed_ns),
        ensures
            *final(self) == recorded(*old(self), action, elapsed_ns),
    {
        match action {
            RuntimeShardAction::EvalCombinational => {
                self.eval_combinational.record(elapsed_ns);
            },
            RuntimeShardAction::Tick => {
                self.tick.record(elapsed_ns);
            },
            RuntimeShardAction::TickMany(_) => {
                self.tick_many.record(elapsed_ns);
            },
        }
    }
}

/// Whether one more structural step can be counted.
pub open spec fn records_partition_action(
    stats: RuntimeOperationStats,
    action: RuntimePartitionWorkerActionKind,
) -> bool {
    match action {
        RuntimePartitionWorkerActionKind::EvalCombinational => counts_one_more(
            stats.eval_combinational,
            0,
        ),
        RuntimePartitionWorkerActionKind::Tick => counts_one_more(stats.tick, 0),
        RuntimePartitionWorkerActionKind::TickMany(steps) => steps > 0 ==> counts_one_more(
            stats.tick_many,
            0,
        ),
    }
}

/// Statistics after one more structural step, which takes no time. No ticks at
/// all do not count.
pub open spec fn partition_recorded(
    stats: RuntimeOperationStats,
    action: RuntimePartitionWorkerActionKind,
) -> RuntimeOperationStats {
    match action {
        RuntimePartitionWorkerActionKind::EvalCombinational => RuntimeOperationStats {
            eval_combinational: counted(stats.eval_combinational, 0),
            ..stats
        },
        RuntimePartitionWorkerActionKind::Tick => RuntimeOperationStats {
            tick: counted(stats.tick, 0),
            ..stats
        },
        RuntimePartitionWorkerActionKind::TickMany(steps) => if steps > 0 {
            RuntimeOperationStats { tick_many: counted(stats.tick_many, 0), ..stats }
        } else {
            stats
        },
    }
}

/// Counts a structural step.
pub fn record_partition_worker_action(
    operations: &mut RuntimeOperationStats,
    action: RuntimePartitionWorkerActionKind,
)
    requires
        records_partition_action(*old(operations), action),
    ensures
        *final(operations) == partition_recorded(*old(operations), action),
{
    match action {
        RuntimePartitionWorkerActionKind::EvalCombinational => {
            operations.eval_combinational.record(0);
        },
        RuntimePartitionWorkerActionKind::Tick => {
            operations.tick.record(0);
        },
        RuntimePartitionWorkerActionKind::TickMany(steps) => {
            if steps > 0 {
                operations.tick_many.record(0);
            }
        },
    }
}

/// Whether two counters can be added.
pub open spec fn counters_add(a: RuntimeOperationCounters, b: RuntimeOperationCounters) -> bool {
    &&& a.calls + b.calls <= u64::MAX
    &&& a.total_ns + b.total_ns <= u128::MAX
    &&& a.last_ns + b.last_ns <= u128::MAX
}

/// The field-wise sum of two counters.
pub open spec fn counters_sum(a: RuntimeOperationCounters, b: RuntimeOperationCounters) -> RuntimeOperationCounters {
    RuntimeOperationCounters {
        calls: (a.calls + b.calls) as u64,
        total_ns: (a.total_ns + b.total_ns) as u128,
        last_ns: (a.last_ns + b.last_ns) as u128,
    }
}

/// Whether two statistics can be added.
pub open spec fn stats_add(a: RuntimeOperationStats, b: RuntimeOperationStats) -> bool {
    &&& counters_add(a.eval_combinational, b.eval_combinational)
    &&& counters_add(a.tick, b.tick)
    &&& counters_add(a.tick_many, b.tick_many)
}

/// The field-wise sum of two statistics.
pub open spec fn stats_sum(a: RuntimeOperationStats, b: RuntimeOperationStats) -> RuntimeOperationStats {
    RuntimeOperationStats {
        eval_combinational: counters_sum(a.eval_combinational, b.eval_combinational),
        tick: counters_sum(a.tick, b.tick),
        tick_many: counters_sum(a.tick_many, b.tick_many),
    }
}

fn add_counters(acc: &mut RuntimeOperationCounters, more: RuntimeOperationCounters)
    requires
        counters_add(*old(acc), more),
    ensures
        *final(acc) == counters_sum(*old(acc), more),
{
    acc.calls = acc.calls + more.calls;
    acc.total_ns = acc.total_ns + more.total_ns;
    acc.last_ns = acc.last_ns + more.last_ns;
}

/// Adds statistics to an accumulator, field by field.
pub fn add_operation_stats(acc: &mut RuntimeOperationStats, more: RuntimeOperationStats)
    requires
        stats_add(*old(acc), more),
    ensures
        *final(acc) == stats_sum(*old(acc), more),
{
    add_counters(&mut acc.eval_combinational, more.eval_combinational);
    add_counters(&mut acc.tick, more.tick);
    add_counters(&mut acc.tick_many, more.tick_many);
}

/// Whether the calls and times of two counters can be added.
pub open spec fn counters_follow(a: RuntimeOperationCounters, b: RuntimeOperationCounters) -> bool {
    a.calls + b.calls <= u64::MAX && a.total_ns + b.total_ns <= u128::MAX
}

/// The sum of two counters in which the later one gives the last time.
pub open spec fn counters_after(a: RuntimeOperationCounters, b: RuntimeOperationCounters) -> RuntimeOperationCounters {
    RuntimeOperationCounters {
        calls: (a.calls + b.calls) as u64,
        total_ns: (a.total_ns + b.total_ns) as u128,
        last_ns: b.last_ns,
    }
}

/// Whether the calls and times of two statistics can be added.
pub open spec fn stats_follow(a: RuntimeOperationStats, b: RuntimeOperationStats) -> bool {
    &&& counters_follow(a.eval_combinational, b.eval_combinational)
    &&& counters_follow(a.tick, b.tick)
    &&& counters_follow(a.tick_many, b.tick_many)
}

/// The sum of two statistics in which the later one gives the last times.
pub open spec fn stats_after(a: RuntimeOperationStats, b: RuntimeOperationStats) -> RuntimeOperationStats {
    RuntimeOperationStats {
        eval_combinational: counters_after(a.eval_combinational, b.eval_combinational),
        tick: counters_after(a.tick, b.tick),
        tick_many: counters_after(a.tick_many, b.tick_many),
    }
}

fn follow_counters(acc: &mut RuntimeOperationCounters, more: RuntimeOperationCounters)
    requires
        counters_follow(*old(acc), more),
    ensures
        *final(acc) == counters_after(*old(acc), more),
{
    acc.calls = acc.calls + more.calls;
    acc.total_ns = acc.total_ns + more.total_ns;
    acc.last_ns = more.last_ns;
}

/// Adds the calls and times of later statistics to an accumulator.
pub fn follow_operation_stats(acc: &mut RuntimeOperationStats, more: RuntimeOperationStats)
    requires
        stats_follow(*old(acc), more),
    ensures
        *final(acc) == stats_after(*old(acc), more),
{
    follow_counters(&mut acc.eval_combinational, more.eval_combinational);
    follow_counters(&mut acc.tick, more.tick);
    follow_counters(&mut acc.tick_many, more.tick_many);
}

/// What a step of the shards is called in surrogate reports.
pub open spec fn shard_action_kind(action: RuntimeShardAction) -> RuntimeSurrogateActionKind {
    match action {
        RuntimeShardAction::EvalCombinational => RuntimeSurrogateActionKind::EvalCombinational,
        RuntimeShardAction::Tick => RuntimeSurrogateActionKind::Tick,
        RuntimeShardAction::TickMany(_) => RuntimeSurrogateActionKind::TickMany,
    }
}

/// Names a step of the shards for surrogate reports.
pub fn runtime_surrogate_action_kind(action: RuntimeShardAction) -> (r: RuntimeSurrogateActionKind)
    ensures
        r == shard_action_kind(action),
{
    match action {
        RuntimeShardAction::EvalCombinational => RuntimeSurrogateActionKind::EvalCombinational,
        RuntimeShardAction::Tick => RuntimeSurrogateActionKind::Tick,
        RuntimeShardAction::TickMany(_) => RuntimeSurrogateActionKind::TickMany,
    }
}

/// What a structural step is called in surrogate reports.
pub open spec fn partition_action_kind(action: RuntimePartitionWorkerActionKind) -> RuntimeSurrogateActionKind {
    match action {
        RuntimePartitionWorkerActionKind::EvalCombinational =>
            RuntimeSurrogateActionKind::PartitionEvalCombinational,
        RuntimePartitionWorkerActionKind::Tick => RuntimeSurrogateActionKind::PartitionTick,
        RuntimePartitionWorkerActionKind::TickMany(_) =>
            RuntimeSurrogateActionKind::PartitionTickMany,
    }
}

/// Names a structural step for surrogate reports.
pub fn partition_surrogate_action_kind(action: RuntimePartitionWorkerActionKind) -> (r:
    RuntimeSurrogateActionKind)
    ensures
        r == partition_action_kind(action),
{
    match action {
        RuntimePartitionWorkerActionKind::EvalCombinational =>
            RuntimeSurrogateActionKind::PartitionEvalCombinational,
        RuntimePartitionWorkerActionKind::Tick => RuntimeSurrogateActionKind::PartitionTick,
        RuntimePartitionWorkerActionKind::TickMany(_) =>
            RuntimeSurrogateActionKind::PartitionTickMany,
    }
}

} // verus!

//! What counters owe the steps that they count.

use vstd::prelude::*;

use crate::model::runtime::{RuntimeOperationCounters, RuntimeOperationStats};
use crate::model::session::RuntimePartitionWorkerActionKind;
use crate::operations::{
    no_operations, partition_recorded, recorded, records_one_more, records_partition_action,
    stats_add, stats_after, stats_follow, stats_sum, RuntimeShardAction,
};

verus! {

/// How many steps some statistics count.
pub open spec fn steps_counted(stats: RuntimeOperationStats) -> int {
    stats.eval_combinational.calls + stats.tick.calls + stats.tick_many.calls
}

/// How long the steps that some statistics count took.
pub open spec fn time_counted(stats: RuntimeOperationStats) -> int {
    stats.eval_combinational.total_ns + stats.tick.total_ns + stats.tick_many.total_ns
}

/// The counters of a kind of step.
pub open spec fn counters_for(stats: RuntimeOperationStats, action: RuntimeShardAction) -> RuntimeOperationCounters {
    match action {
        RuntimeShardAction::EvalCombinational => stats.eval_combinational,
        RuntimeShardAction::Tick => stats.tick,
        RuntimeShardAction::TickMany(_) => stats.tick_many,
    }
}

/// A step is counted once, with the time that it took, among the steps of its kind, and nothing
/// else is counted.
pub proof fn lemma_step_is_counted(
    stats: RuntimeOperationStats,
    action: RuntimeShardAction,
    elapsed_ns: u128,
)
    requires
        records_one_more(stats, action, elapsed_ns),
    ensures
        ({
            let after = recorded(stats, action, elapsed_ns);
            &&& steps_counted(after) == steps_counted(stats) + 1
            &&& time_counted(after) == time_counted(stats) + elapsed_ns
            &&& counters_for(after, action).calls == counters_for(stats, action).calls + 1
            &&& counters_for(after, action).total_ns == counters_for(stats, action).total_ns
                + elapsed_ns
            &&& counters_for(after, action).last_ns == elapsed_ns
        }),
{
}

/// Steps of different kinds are counted apart.
pub proof fn lemma_other_steps_stay(
    stats: RuntimeOperationStats,
    action: RuntimeShardAction,
    other: RuntimeShardAction,
    elapsed_ns: u128,
)
    requires
        action is EvalCombinational != other is EvalCombinational || action is Tick
            != other is Tick,
    ensures
        counters_for(recorded(stats, action, elapsed_ns), other) == counters_for(stats, other),
{
}

/// A structural step is counted once and takes no time; no ticks at all are not counted.
pub proof fn lemma_structural_step_is_counted(
    stats: RuntimeOperationStats,
    action: RuntimePartitionWorkerActionKind,
)
    requires
        records_partition_action(stats, action),
    ensures
        ({
            let after = partition_recorded(stats, action);
            let counts = !(action matches RuntimePartitionWorkerActionKind::TickMany(n) && n == 0);
            &&& !counts ==> after == stats
            &&& counts ==> steps_counted(after) == steps_counted(stats) + 1
            &&& time_counted(after) == time_counted(stats)
            &&& counts ==> match action {
                RuntimePartitionWorkerActionKind::EvalCombinational => after.eval_combinational.calls
                    == stats.eval_combinational.calls + 1,
                RuntimePartitionWorkerActionKind::Tick => after.tick.calls == stats.tick.calls + 1,
                RuntimePartitionWorkerActionKind::TickMany(_) => after.tick_many.calls
                    == stats.tick_many.calls + 1,
            }
        }),
{
}

/// Adding up statistics loses no step and no time, does not depend on the order, and statistics of
/// nothing add nothing.
pub proof fn lemma_statistics_add_up(a: RuntimeOperationStats, b: RuntimeOperationStats)
    requires
        stats_add(a, b),
        stats_add(b, a),
    ensures
        steps_counted(stats_sum(a, b)) == steps_counted(a) + steps_counted(b),
        time_counted(stats_sum(a, b)) == time_counted(a) + time_counted(b),
        stats_sum(a, b) == stats_sum(b, a),
        stats_sum(a, no_operations()) == a,
        stats_sum(a, b).eval_combinational.calls == a.eval_combinational.calls
            + b.eval_combinational.calls,
        stats_sum(a, b).tick.calls == a.tick.calls + b.tick.calls,
        stats_sum(a, b).tick_many.calls == a.tick_many.calls + b.tick_many.calls,
        stats_sum(a, b).tick.total_ns == a.tick.total_ns + b.tick.total_ns,
        stats_sum(a, b).tick.last_ns == a.tick.last_ns + b.tick.last_ns,
        steps_counted(no_operations()) == 0,
        time_counted(no_operations()) == 0,
{
}

/// Statistics that follow others add to them, and the last times are those of the later ones: a
/// step that is counted on its own and added counts as if it had been counted at once.
pub proof fn lemma_statistics_follow(
    a: RuntimeOperationStats,
    b: RuntimeOperationStats,
)
    requires
        stats_follow(a, b),
    ensures
        steps_counted(stats_after(a, b)) == steps_counted(a) + steps_counted(b),
        time_counted(stats_after(a, b)) == time_counted(a) + time_counted(b),
        stats_after(a, b).tick.calls == a.tick.calls + b.tick.calls,
        stats_after(a, b).tick_many.calls == a.tick_many.calls + b.tick_many.calls,
        stats_after(a, b).tick.last_ns == b.tick.last_ns,
        stats_after(a, b).tick_many.last_ns == b.tick_many.last_ns,
        stats_after(a, b).eval_combinational.last_ns == b.eval_combinational.last_ns,
        stats_after(no_operations(), b) == b,
{
}

} // verus!

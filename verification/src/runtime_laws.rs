//! What a runtime and its engines come to over a run: whether shards act one after another or all
//! at once makes no difference to what is read.

use vstd::prelude::*;

use crate::model::autotune::{
    RuntimeMemoryLimbsView, RuntimeSignalLimbsView, RuntimeSignalValueView,
};
use crate::model::design::Signal;
use crate::model::runtime::RuntimeExecutionMode;
use crate::operations::RuntimeShardAction;
use crate::runtime::{infos_of, DistributedRuntimeView};
use crate::runtime_actions::{
    executed, executed_all, in_mode, lemma_modes_run_alike, lemma_times_do_not_matter, same_step,
    timeless, ShardStep,
};
use crate::runtime_lanes::{
    decoded_lanes, decoded_words, lane_count_problem, lanes_of, memory_parts, memory_problem,
    memory_width, put_together,
};

verus! {

/// What the engine of a shard is told.
pub enum ShardCall {
    Input(RuntimeSignalValueView),
    InputLimbs(RuntimeSignalLimbsView),
    Memory(RuntimeMemoryLimbsView),
    Act(RuntimeShardAction),
}

/// What is asked of a runtime. When the shards act, `order` is the order in which they come to it.
pub enum RuntimeCall {
    SetInput { signal: Signal, lane_values: Seq<u128> },
    SetInputLimbs { signal: Signal, lane_limbs: Seq<Seq<u32>> },
    SetMemoryLimbs { memory: Signal, lane_words: Seq<Seq<Seq<u32>>> },
    Act { step: ShardStep, order: Seq<int> },
}

/// What every engine was told so far.
pub type Histories = Seq<Seq<ShardCall>>;

/// Whether an order has each of `n` shards exactly once.
pub open spec fn reaches_each_once(order: Seq<int>, n: nat) -> bool {
    &&& order.no_duplicates()
    &&& forall|k: int| 0 <= k < order.len() ==> 0 <= #[trigger] order[k] < n
    &&& forall|i: int| 0 <= i < n ==> #[trigger] order.contains(i)
}

/// The histories after the shards were told to act, in some order.
pub open spec fn acted_in_order(
    histories: Histories,
    order: Seq<int>,
    action: RuntimeShardAction,
) -> Histories
    decreases order.len(),
{
    if order.len() == 0 {
        histories
    } else {
        let before = acted_in_order(histories, order.drop_last(), action);
        before.update(order.last(), before[order.last()].push(ShardCall::Act(action)))
    }
}

/// The histories after each engine was told one thing more.
pub open spec fn told(histories: Histories, calls: Seq<ShardCall>) -> Histories {
    Seq::new(histories.len(), |i: int| histories[i].push(calls[i]))
}

/// The histories after a call. What a runtime refuses, no engine is told.
pub open spec fn histories_after(
    runtime: DistributedRuntimeView,
    histories: Histories,
    call: RuntimeCall,
) -> Histories {
    let shards = runtime.shards;
    match call {
        RuntimeCall::SetInput { signal, lane_values } => if lane_count_problem(
            runtime,
            lane_values.len(),
        ) is None {
            told(
                histories,
                Seq::new(
                    shards.len(),
                    |i: int|
                        ShardCall::Input(
                            RuntimeSignalValueView {
                                signal,
                                lane_values: lanes_of(shards[i].info, lane_values),
                            },
                        ),
                ),
            )
        } else {
            histories
        },
        RuntimeCall::SetInputLimbs { signal, lane_limbs } => if lane_count_problem(
            runtime,
            lane_limbs.len(),
        ) is None {
            told(
                histories,
                Seq::new(
                    shards.len(),
                    |i: int|
                        ShardCall::InputLimbs(
                            RuntimeSignalLimbsView {
                                signal,
                                lane_values: lanes_of(shards[i].info, lane_limbs),
                            },
                        ),
                ),
            )
        } else {
            histories
        },
        RuntimeCall::SetMemoryLimbs { memory, lane_words } => if lane_count_problem(
            runtime,
            lane_words.len(),
        ) is None {
            told(
                histories,
                Seq::new(
                    shards.len(),
                    |i: int| ShardCall::Memory(memory_parts(shards, memory, lane_words)[i]),
                ),
            )
        } else {
            histories
        },
        RuntimeCall::Act { step, order } => acted_in_order(histories, order, step.action),
    }
}

/// A runtime after a call.
pub open spec fn runtime_after(
    runtime: DistributedRuntimeView,
    call: RuntimeCall,
) -> DistributedRuntimeView {
    match call {
        RuntimeCall::Act { step, .. } => executed(
            runtime,
            step.action,
            step.results,
            step.shard_ns,
            step.elapsed_ns,
        ),
        _ => runtime,
    }
}

/// A runtime and the histories of its engines after several calls.
pub open spec fn after_calls(
    runtime: DistributedRuntimeView,
    histories: Histories,
    calls: Seq<RuntimeCall>,
) -> (DistributedRuntimeView, Histories)
    decreases calls.len(),
{
    if calls.len() == 0 {
        (runtime, histories)
    } else {
        let (now, so_far) = after_calls(runtime, histories, calls.drop_last());
        (runtime_after(now, calls.last()), histories_after(now, so_far, calls.last()))
    }
}

/// Whether two calls ask the same: steps may differ in their times, and in the order in which the
/// shards come to act.
pub open spec fn same_call(a: RuntimeCall, b: RuntimeCall, n: nat) -> bool {
    match (a, b) {
        (
            RuntimeCall::Act { step: p, order: x },
            RuntimeCall::Act { step: q, order: y },
        ) => {
            &&& same_step(p, q)
            &&& p.shard_ns.len() == n
            &&& reaches_each_once(x, n)
            &&& reaches_each_once(y, n)
        },
        _ => a == b && !(a is Act),
    }
}

/// A runtime without its mode and the times that it counted.
pub open spec fn untimed(runtime: DistributedRuntimeView) -> DistributedRuntimeView {
    timeless(in_mode(runtime, RuntimeExecutionMode::Serial))
}

/// What is read of a signal, if the engine of shard `i` replies `reply(i, history, signal)`.
pub open spec fn signal_read(
    reply: spec_fn(int, Seq<ShardCall>, Signal) -> Seq<Seq<u32>>,
    histories: Histories,
    signal: Signal,
) -> Seq<u128> {
    decoded_words(
        put_together(Seq::new(histories.len(), |i: int| reply(i, histories[i], signal))),
    )
}

/// What is read of a memory, if the engine of shard `i` replies `reply(i, history, memory)`.
pub open spec fn memory_read(
    reply: spec_fn(int, Seq<ShardCall>, Signal) -> Seq<Seq<Seq<u32>>>,
    histories: Histories,
    memory: Signal,
) -> Seq<Seq<u128>> {
    decoded_lanes(
        put_together(Seq::new(histories.len(), |i: int| reply(i, histories[i], memory))),
    )
}

/// One after another is an order that has each shard once.
pub proof fn lemma_one_after_another(n: nat)
    ensures
        reaches_each_once(Seq::new(n, |i: int| i), n),
{
    let order = Seq::new(n, |i: int| i);
    assert forall|i: int| 0 <= i < n implies #[trigger] order.contains(i) by {
        assert(order[i] == i);
    }
}

proof fn lemma_acted_so_far(histories: Histories, order: Seq<int>, action: RuntimeShardAction)
    requires
        order.no_duplicates(),
        forall|k: int| 0 <= k < order.len() ==> 0 <= #[trigger] order[k] < histories.len(),
    ensures
        acted_in_order(histories, order, action).len() == histories.len(),
        forall|i: int|
            0 <= i < histories.len() ==> #[trigger] acted_in_order(histories, order, action)[i]
                == if order.contains(i) {
                histories[i].push(ShardCall::Act(action))
            } else {
                histories[i]
            },
    decreases order.len(),
{
    if order.len() > 0 {
        let earlier = order.drop_last();
        let last = order.last();
        assert forall|k: int| 0 <= k < earlier.len() implies 0 <= #[trigger] earlier[k]
            < histories.len() by {
            assert(earlier[k] == order[k]);
        }
        lemma_acted_so_far(histories, earlier, action);
        assert(order[order.len() - 1] == last);
        assert forall|i: int| 0 <= i < histories.len() implies #[trigger] acted_in_order(
            histories,
            order,
            action,
        )[i] == if order.contains(i) {
            histories[i].push(ShardCall::Act(action))
        } else {
            histories[i]
        } by {
            if i == last {
                if earlier.contains(i) {
                    let k = choose|k: int| 0 <= k < earlier.len() && earlier[k] == i;
                    assert(order[k] == order[order.len() - 1]);
                }
                assert(order.contains(i));
            } else {
                if order.contains(i) {
                    let k = choose|k: int| 0 <= k < order.len() && order[k] == i;
                    assert(earlier[k] == i);
                }
                if earlier.contains(i) {
                    let k = choose|k: int| 0 <= k < earlier.len() && earlier[k] == i;
                    assert(order[k] == i);
                }
            }
        }
    }
}

/// In whatever order the shards come to act, each engine is told so once.
pub proof fn lemma_order_does_not_matter(
    histories: Histories,
    order: Seq<int>,
    action: RuntimeShardAction,
)
    requires
        reaches_each_once(order, histories.len()),
    ensures
        acted_in_order(histories, order, action) == Seq::new(
            histories.len(),
            |i: int| histories[i].push(ShardCall::Act(action)),
        ),
{
    lemma_acted_so_far(histories, order, action);
    assert(acted_in_order(histories, order, action) =~= Seq::new(
        histories.len(),
        |i: int| histories[i].push(ShardCall::Act(action)),
    ));
}

proof fn lemma_untimed_step(
    a: DistributedRuntimeView,
    b: DistributedRuntimeView,
    p: ShardStep,
    q: ShardStep,
)
    requires
        untimed(a) == untimed(b),
        same_step(p, q),
        p.shard_ns.len() == a.shards.len(),
    ensures
        untimed(executed(a, p.action, p.results, p.shard_ns, p.elapsed_ns)) == untimed(
            executed(b, q.action, q.results, q.shard_ns, q.elapsed_ns),
        ),
{
    let serial = RuntimeExecutionMode::Serial;
    lemma_modes_run_alike(a, serial, seq![p]);
    lemma_modes_run_alike(b, serial, seq![q]);
    lemma_times_do_not_matter(in_mode(a, serial), in_mode(b, serial), seq![p], seq![q]);
    reveal_with_fuel(executed_all, 2);
    assert(seq![p].drop_last() =~= Seq::empty());
    assert(seq![q].drop_last() =~= Seq::empty());
}

proof fn lemma_untimed_shards(a: DistributedRuntimeView, b: DistributedRuntimeView)
    requires
        untimed(a) == untimed(b),
    ensures
        a.shards.len() == b.shards.len(),
        a.total_lanes == b.total_lanes,
        a.program == b.program,
        forall|i: int| 0 <= i < a.shards.len() ==> (#[trigger] a.shards[i]).info == b.shards[i].info,
        infos_of(a.shards) == infos_of(b.shards),
{
    assert(untimed(a).shards.len() == a.shards.len());
    assert(untimed(b).shards.len() == b.shards.len());
    assert forall|i: int| 0 <= i < a.shards.len() implies (#[trigger] a.shards[i]).info
        == b.shards[i].info by {
        assert(untimed(a).shards[i].info == a.shards[i].info);
        assert(untimed(b).shards[i].info == b.shards[i].info);
    }
    assert(infos_of(a.shards) =~= infos_of(b.shards));
}

proof fn lemma_told_alike(
    a: DistributedRuntimeView,
    b: DistributedRuntimeView,
    histories: Histories,
    x: RuntimeCall,
    y: RuntimeCall,
)
    requires
        untimed(a) == untimed(b),
        histories.len() == a.shards.len(),
        same_call(x, y, a.shards.len()),
    ensures
        histories_after(a, histories, x) == histories_after(b, histories, y),
        histories_after(a, histories, x).len() == histories.len(),
        untimed(runtime_after(a, x)) == untimed(runtime_after(b, y)),
        runtime_after(a, x).shards.len() == a.shards.len(),
{
    lemma_untimed_shards(a, b);
    match (x, y) {
        (
            RuntimeCall::Act { step: p, order: from },
            RuntimeCall::Act { step: q, order: to },
        ) => {
            lemma_order_does_not_matter(histories, from, p.action);
            lemma_order_does_not_matter(histories, to, q.action);
            lemma_untimed_step(a, b, p, q);
        },
        _ => {
            assert(histories_after(a, histories, x) =~= histories_after(b, histories, y));
        },
    }
}

/// Two runtimes that differ in their mode and their times alone, whose engines were told the same,
/// and that are asked the same, stay alike: their engines are told the same, their shards and the
/// calls that they count agree, and where their engines reply alike, every signal and every memory
/// reads the same on both.
pub proof fn lemma_modes_read_alike(
    a: DistributedRuntimeView,
    b: DistributedRuntimeView,
    histories: Histories,
    a_calls: Seq<RuntimeCall>,
    b_calls: Seq<RuntimeCall>,
    signals: spec_fn(int, Seq<ShardCall>, Signal) -> Seq<Seq<u32>>,
    memories: spec_fn(int, Seq<ShardCall>, Signal) -> Seq<Seq<Seq<u32>>>,
    signal: Signal,
)
    requires
        untimed(a) == untimed(b),
        histories.len() == a.shards.len(),
        a_calls.len() == b_calls.len(),
        forall|i: int|
            0 <= i < a_calls.len() ==> same_call(
                #[trigger] a_calls[i],
                b_calls[i],
                a.shards.len(),
            ),
    ensures
        ({
            let (a_end, a_told) = after_calls(a, histories, a_calls);
            let (b_end, b_told) = after_calls(b, histories, b_calls);
            &&& a_told == b_told
            &&& a_told.len() == histories.len()
            &&& a_end.shards.len() == a.shards.len()
            &&& untimed(a_end) == untimed(b_end)
            &&& infos_of(a_end.shards) == infos_of(b_end.shards)
            &&& signal_read(signals, a_told, signal) == signal_read(signals, b_told, signal)
            &&& memory_read(memories, a_told, signal) == memory_read(memories, b_told, signal)
            &&& memory_problem(a_end, signal) == memory_problem(b_end, signal)
            &&& memory_width(a_end, signal) == memory_width(b_end, signal)
        }),
    decreases a_calls.len(),
{
    if a_calls.len() > 0 {
        let n = a_calls.len() - 1;
        let x = a_calls.drop_last();
        let y = b_calls.drop_last();
        assert forall|i: int| 0 <= i < x.len() implies same_call(
            #[trigger] x[i],
            y[i],
            a.shards.len(),
        ) by {
            assert(x[i] == a_calls[i]);
            assert(y[i] == b_calls[i]);
        }
        lemma_modes_read_alike(a, b, histories, x, y, signals, memories, signal);
        let (a_now, so_far) = after_calls(a, histories, x);
        let (b_now, _) = after_calls(b, histories, y);
        assert(same_call(a_calls[n], b_calls[n], a.shards.len()));
        lemma_told_alike(a_now, b_now, so_far, a_calls[n], b_calls[n]);
    }
    let (a_end, _) = after_calls(a, histories, a_calls);
    let (b_end, _) = after_calls(b, histories, b_calls);
    lemma_untimed_shards(a_end, b_end);
}

} // verus!

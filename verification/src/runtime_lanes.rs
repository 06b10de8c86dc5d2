//! Lane values of a runtime: cutting them up for the shards, and putting them together again.

use vstd::prelude::*;

use crate::collect::{append_items, build_items, concat_below};
use crate::error::{error, fails_with, report, ErrorReport, ErrorReportView};
use crate::model::autotune::{
    RuntimeMemoryLimbs, RuntimeMemoryLimbsView, RuntimeSignalLimbs, RuntimeSignalLimbsView,
    RuntimeSignalValue, RuntimeSignalValueView,
};
use crate::model::design::{Signal, Width};
use crate::model::topology::{
    RuntimeBackend, RuntimeShardInfo, RuntimeShardInfoView, RuntimeWorkerView,
};
use crate::limbs::limb_count;
use crate::runtime::{
    infos_of, lanes_in_order, workers_of, DistributedRuntime, DistributedRuntimeView, RuntimeMemory,
    RuntimeShardView,
};
use crate::seqs::{
    first_index, lemma_first_index, lemma_first_index_is, lemma_sum_by_prefix, lemma_sum_by_step,
    no_items, or_problem, push_item, sum_by, take_first,
};
use crate::text::{append_decimal, decimal};
use crate::topology::{lanes_before, shards_of, total_lanes};
use crate::words::{
    decode_u128_limbs, decoded_limbs, encode_u128_limbs, truncated, words_value,
};

verus! {

/// A value of one lane.
pub trait LaneValue: DeepView + Sized {
    /// A copy of the value.
    fn copied(&self) -> (r: Self)
        ensures
            r.deep_view() == self.deep_view(),
    ;
}

impl LaneValue for u128 {
    fn copied(&self) -> u128 {
        *self
    }
}

impl LaneValue for Vec<u32> {
    fn copied(&self) -> Vec<u32> {
        let r = self.clone();
        proof {
            assert(r.deep_view() =~= self.deep_view());
        }
        r
    }
}

impl LaneValue for Vec<Vec<u32>> {
    fn copied(&self) -> Vec<Vec<u32>> {
        let r = build_items(
            self.len(),
            |i: usize| -> (y: Vec<u32>)
                requires
                    i < self@.len(),
                ensures
                    y.deep_view() == self.deep_view()[i as int]
                {
                    proof {
                        assert(self.deep_view()[i as int] == self@[i as int].deep_view());
                    }
                    self[i].copied()
                },
            Ghost(|i: int| self.deep_view()[i]),
        );
        proof {
            assert(r.deep_view() =~= self.deep_view());
        }
        r
    }
}

/// The lanes of a shard.
pub open spec fn lanes_of<A>(info: RuntimeShardInfoView, values: Seq<A>) -> Seq<A> {
    values.subrange(info.start_lane as int, info.start_lane + info.lanes)
}

/// The lanes of all shards, each by itself.
pub open spec fn lane_parts<A>(shards: Seq<RuntimeShardView>, values: Seq<A>) -> Seq<Seq<A>> {
    Seq::new(shards.len(), |i: int| lanes_of(shards[i].info, values))
}

/// Part `i` of some parts.
pub open spec fn part_at<A>(parts: Seq<Seq<A>>) -> spec_fn(int) -> Seq<A> {
    |i: int| parts[i]
}

/// Parts put together in their order.
pub open spec fn put_together<A>(parts: Seq<Seq<A>>) -> Seq<A> {
    concat_below(parts.len(), part_at(parts))
}

/// What is wrong with a number of lane values.
pub open spec fn lane_count_problem(runtime: DistributedRuntimeView, got: nat) -> Option<
    ErrorReportView,
> {
    if got != runtime.total_lanes {
        Some(
            report(
                "E_RUNTIME_LANE_VALUES"@,
                "expected "@ + decimal(runtime.total_lanes as nat) + " lane values, got "@
                    + decimal(got),
            ),
        )
    } else {
        None
    }
}

fn cut_lanes<T: LaneValue>(info: &RuntimeShardInfo, values: &Vec<T>) -> (r: Vec<T>)
    requires
        info.start_lane + info.lanes <= values@.len(),
    ensures
        r.deep_view() == lanes_of(info.deep_view(), values.deep_view()),
{
    let ghost all = lanes_of(info.deep_view(), values.deep_view());
    let ghost lane = |k: int| all[k];
    let r = build_items(
        info.lanes,
        |k: usize| -> (y: T)
            requires
                k < info.lanes,
                info.start_lane + info.lanes <= values@.len(),
                all == lanes_of(info.deep_view(), values.deep_view()),
                lane == (|k: int| all[k]),
            ensures
                y.deep_view() == lane(k as int)
            {
                proof {
                    assert(values@.len() == values.len());
                    assert(values.deep_view()[info.start_lane + k] == values@[info.start_lane
                        + k].deep_view());
                }
                values[info.start_lane + k].copied()
            },
        Ghost(lane),
    );
    proof {
        assert(values.deep_view().len() == values@.len());
        assert(r.deep_view() =~= all);
    }
    r
}

fn together<T: DeepView>(parts: Vec<Vec<T>>) -> (r: Vec<T>)
    ensures
        r.deep_view() == put_together(parts.deep_view()),
{
    let ghost all = parts.deep_view();
    let ghost part = part_at(all);
    let mut rest = parts;
    let mut r: Vec<T> = no_items();
    let mut i: usize = 0;
    let n: usize = rest.len();
    proof {
        assert(all.len() == n);
        assert(rest.deep_view() =~= all.skip(0));
    }
    while i < n
        invariant
            i <= n,
            n == all.len(),
            part == part_at(all),
            rest@.len() == n - i,
            rest.deep_view() == all.skip(i as int),
            r.deep_view() == concat_below(i as nat, part),
        decreases n - i,
    {
        let first = take_first(&mut rest);
        proof {
            assert(all.skip(i as int).skip(1) =~= all.skip(i + 1));
        }
        append_items(&mut r, first);
        i = i + 1;
    }
    r
}

// ---------------------------------------------------------------------------
// Memories
// ---------------------------------------------------------------------------

/// Whether a memory has a source.
pub open spec fn has_source(memories: Seq<RuntimeMemory>, memory: Signal) -> spec_fn(int) -> bool {
    |k: int| memories[k].source == memory
}

/// The first memory of a source.
pub open spec fn memory_at(memories: Seq<RuntimeMemory>, memory: Signal) -> Option<int> {
    first_index(memories.len(), has_source(memories, memory))
}

/// What is wrong with a memory.
pub open spec fn memory_problem(runtime: DistributedRuntimeView, memory: Signal) -> Option<
    ErrorReportView,
> {
    if memory_at(runtime.program.memories, memory) is None {
        Some(
            report(
                "E_RUNTIME_MEMORY"@,
                "memory SignalId("@ + decimal(memory.id.0 as nat)
                    + ") is not part of this runtime module"@,
            ),
        )
    } else {
        None
    }
}

/// The width of the words of a memory.
pub open spec fn memory_width(runtime: DistributedRuntimeView, memory: Signal) -> Width {
    runtime.program.memories[memory_at(runtime.program.memories, memory)->0].width
}

/// That the words of a memory are too wide for `advice` to be needless.
pub open spec fn wide_memory_problem(
    runtime: DistributedRuntimeView,
    memory: Signal,
    advice: Seq<char>,
) -> Option<ErrorReportView> {
    if memory_width(runtime, memory) > 128 {
        Some(report("E_RUNTIME_WIDE_MEMORY"@, advice))
    } else {
        None
    }
}

/// Whether limbs hold a value in a width.
pub open spec fn holds(limbs: Seq<u32>, value: u128, width: Width) -> bool {
    limbs.len() == limb_count(width) && words_value(limbs) == truncated(value as nat, width)
}

/// Whether the limbs of some words hold their values.
pub open spec fn words_hold(limbs: Seq<Seq<u32>>, words: Seq<u128>, width: Width) -> bool {
    &&& limbs.len() == words.len()
    &&& forall|k: int| 0 <= k < words.len() ==> holds(#[trigger] limbs[k], words[k], width)
}

/// Whether the limbs of all lanes hold their values.
pub open spec fn lanes_hold(
    limbs: Seq<Seq<Seq<u32>>>,
    lane_words: Seq<Seq<u128>>,
    width: Width,
) -> bool {
    &&& limbs.len() == lane_words.len()
    &&& forall|lane: int|
        0 <= lane < lane_words.len() ==> words_hold(#[trigger] limbs[lane], lane_words[lane], width)
}

/// The value of the first limbs.
pub open spec fn decoded(limbs: Seq<u32>) -> u128 {
    words_value(limbs.take(decoded_limbs(limbs.len()))) as u128
}

/// The values of some words.
pub open spec fn decoded_words(words: Seq<Seq<u32>>) -> Seq<u128> {
    Seq::new(words.len(), |k: int| decoded(words[k]))
}

/// The values of the words of all lanes.
pub open spec fn decoded_lanes(lanes: Seq<Seq<Seq<u32>>>) -> Seq<Seq<u128>> {
    Seq::new(lanes.len(), |lane: int| decoded_words(lanes[lane]))
}

fn encode_words(words: &Vec<u128>, width: Width) -> (r: Vec<Vec<u32>>)
    ensures
        words_hold(r.deep_view(), words@, width),
{
    let mut r: Vec<Vec<u32>> = no_items();
    let mut k: usize = 0;
    while k < words.len()
        invariant
            k <= words@.len(),
            r@.len() == k,
            r.deep_view().len() == k,
            forall|j: int| 0 <= j < k ==> holds(#[trigger] r.deep_view()[j], words@[j], width),
        decreases words@.len() - k,
    {
        let ghost before = r.deep_view();
        let limbs = encode_u128_limbs(words[k], width);
        proof {
            assert(limbs.deep_view() =~= limbs@);
        }
        push_item(&mut r, limbs);
        proof {
            assert forall|j: int| 0 <= j < k + 1 implies holds(
                #[trigger] r.deep_view()[j],
                words@[j],
                width,
            ) by {
                if j < k {
                    assert(r.deep_view()[j] == before[j]);
                }
            }
        }
        k = k + 1;
    }
    r
}

fn decode_words(words: &Vec<Vec<u32>>) -> (r: Vec<u128>)
    ensures
        r@ == decoded_words(words.deep_view()),
{
    let ghost all = decoded_words(words.deep_view());
    let mut r: Vec<u128> = Vec::new();
    let mut k: usize = 0;
    proof {
        assert(words.deep_view().len() == words@.len());
    }
    while k < words.len()
        invariant
            k <= words@.len(),
            words.deep_view().len() == words@.len(),
            all == decoded_words(words.deep_view()),
            r@ == all.take(k as int),
        decreases words@.len() - k,
    {
        proof {
            assert(words.deep_view()[k as int] =~= words@[k as int]@);
            assert(all.take(k + 1) =~= all.take(k as int).push(all[k as int]));
        }
        r.push(decode_u128_limbs(&words[k]));
        k = k + 1;
    }
    proof {
        assert(all.take(k as int) =~= all);
    }
    r
}

impl DistributedRuntime {
    /// Checks that there is one value per lane.
    pub fn validate_lane_count(&self, got: usize) -> (r: Result<(), ErrorReport>)
        ensures
            fails_with(r, lane_count_problem(self.deep_view(), got as nat)),
    {
        if got != self.total_lanes {
            let mut message = "expected ".to_owned();
            append_decimal(&mut message, self.total_lanes as u64);
            message.append(" lane values, got ");
            append_decimal(&mut message, got as u64);
            return Err(error("E_RUNTIME_LANE_VALUES", message.as_str()));
        }
        Ok(())
    }

    fn cut<T: LaneValue>(&self, values: &Vec<T>) -> (r: Vec<Vec<T>>)
        requires
            lanes_in_order(self.deep_view()),
            values@.len() == self.total_lanes,
        ensures
            r.deep_view() == lane_parts(self.deep_view().shards, values.deep_view()),
    {
        let ghost runtime = self.deep_view();
        let ghost shards = runtime.shards;
        let ghost vs = values.deep_view();
        let ghost part = |i: int| lanes_of(shards[i].info, vs);
        let r = build_items(
            self.shards.len(),
            |i: usize| -> (y: Vec<T>)
                requires
                    i < self.shards@.len(),
                    runtime == self.deep_view(),
                    shards == runtime.shards,
                    lanes_in_order(runtime),
                    values@.len() == runtime.total_lanes,
                    vs == values.deep_view(),
                    part == (|i: int| lanes_of(shards[i].info, vs)),
                ensures
                    y.deep_view() == part(i as int)
                {
                    proof {
                        assert(shards[i as int] == self.shards@[i as int].deep_view());
                        lemma_shard_within(runtime, i as int);
                    }
                    cut_lanes(&self.shards[i].info, values)
                },
            Ghost(part),
        );
        proof {
            assert(r.deep_view() =~= lane_parts(shards, vs));
        }
        r
    }

    /// What the engine of each shard is given so that a signal has one value per lane.
    pub fn set_input(&self, signal: Signal, lane_values: &Vec<u128>) -> (r: Result<
        Vec<RuntimeSignalValue>,
        ErrorReport,
    >)
        requires
            lanes_in_order(self.deep_view()),
        ensures
            fails_with(r, lane_count_problem(self.deep_view(), lane_values@.len())),
            r matches Ok(inputs) ==> inputs.deep_view() == Seq::new(
                self.deep_view().shards.len(),
                |i: int|
                    RuntimeSignalValueView {
                        signal,
                        lane_values: lanes_of(self.deep_view().shards[i].info, lane_values@),
                    },
            ),
    {
        self.validate_lane_count(lane_values.len())?;
        let mut parts = self.cut(lane_values);
        let ghost shards = self.deep_view().shards;
        let ghost all = Seq::new(
            shards.len(),
            |i: int|
                RuntimeSignalValueView {
                    signal,
                    lane_values: lanes_of(shards[i].info, lane_values@),
                },
        );
        let ghost cut = parts.deep_view();
        let mut inputs: Vec<RuntimeSignalValue> = no_items();
        let n: usize = parts.len();
        let mut i: usize = 0;
        proof {
            assert(lane_values.deep_view() =~= lane_values@);
            assert(cut.len() == n);
            assert(parts.deep_view() =~= cut.skip(0));
            assert(all.take(0) =~= Seq::empty());
        }
        while i < n
            invariant
                i <= n,
                n == cut.len(),
                cut == lane_parts(shards, lane_values@),
                all == Seq::new(
                    shards.len(),
                    |i: int|
                        RuntimeSignalValueView {
                            signal,
                            lane_values: lanes_of(shards[i].info, lane_values@),
                        },
                ),
                parts@.len() == n - i,
                parts.deep_view() == cut.skip(i as int),
                inputs.deep_view() == all.take(i as int),
            decreases n - i,
        {
            let first = take_first(&mut parts);
            proof {
                assert(cut.skip(i as int).skip(1) =~= cut.skip(i + 1));
                assert(first.deep_view() =~= first@);
                assert(all.take(i + 1) =~= all.take(i as int).push(all[i as int]));
            }
            push_item(&mut inputs, RuntimeSignalValue { signal, lane_values: first });
            i = i + 1;
        }
        proof {
            assert(all.take(i as int) =~= all);
        }
        Ok(inputs)
    }

    /// What the engine of each shard is given so that a signal has the limbs of one value per
    /// lane.
    pub fn set_input_limbs(&self, signal: Signal, lane_values: &Vec<Vec<u32>>) -> (r: Result<
        Vec<RuntimeSignalLimbs>,
        ErrorReport,
    >)
        requires
            lanes_in_order(self.deep_view()),
        ensures
            fails_with(r, lane_count_problem(self.deep_view(), lane_values@.len())),
            r matches Ok(inputs) ==> inputs.deep_view() == Seq::new(
                self.deep_view().shards.len(),
                |i: int|
                    RuntimeSignalLimbsView {
                        signal,
                        lane_values: lanes_of(
                            self.deep_view().shards[i].info,
                            lane_values.deep_view(),
                        ),
                    },
            ),
    {
        self.validate_lane_count(lane_values.len())?;
        let mut parts = self.cut(lane_values);
        let ghost shards = self.deep_view().shards;
        let ghost vs = lane_values.deep_view();
        let ghost all = Seq::new(
            shards.len(),
            |i: int|
                RuntimeSignalLimbsView { signal, lane_values: lanes_of(shards[i].info, vs) },
        );
        let ghost cut = parts.deep_view();
        let mut inputs: Vec<RuntimeSignalLimbs> = no_items();
        let n: usize = parts.len();
        let mut i: usize = 0;
        proof {
            assert(cut.len() == n);
            assert(parts.deep_view() =~= cut.skip(0));
            assert(all.take(0) =~= Seq::empty());
        }
        while i < n
            invariant
                i <= n,
                n == cut.len(),
                cut == lane_parts(shards, vs),
                all == Seq::new(
                    shards.len(),
                    |i: int|
                        RuntimeSignalLimbsView { signal, lane_values: lanes_of(shards[i].info, vs) },
                ),
                parts@.len() == n - i,
                parts.deep_view() == cut.skip(i as int),
                inputs.deep_view() == all.take(i as int),
            decreases n - i,
        {
            let first = take_first(&mut parts);
            proof {
                assert(cut.skip(i as int).skip(1) =~= cut.skip(i + 1));
                assert(all.take(i + 1) =~= all.take(i as int).push(all[i as int]));
            }
            push_item(&mut inputs, RuntimeSignalLimbs { signal, lane_values: first });
            i = i + 1;
        }
        proof {
            assert(all.take(i as int) =~= all);
        }
        Ok(inputs)
    }

    /// What the engine of each shard is given so that a memory has the limbs of its words on
    /// every lane.
    pub fn set_memory_limbs(&self, memory: Signal, lane_words: &Vec<Vec<Vec<u32>>>) -> (r: Result<
        Vec<RuntimeMemoryLimbs>,
        ErrorReport,
    >)
        requires
            lanes_in_order(self.deep_view()),
        ensures
            fails_with(r, lane_count_problem(self.deep_view(), lane_words@.len())),
            r matches Ok(memories) ==> memories.deep_view() == memory_parts(
                self.deep_view().shards,
                memory,
                lane_words.deep_view(),
            ),
    {
        self.validate_lane_count(lane_words.len())?;
        let mut parts = self.cut(lane_words);
        let ghost shards = self.deep_view().shards;
        let ghost vs = lane_words.deep_view();
        let ghost all = memory_parts(shards, memory, vs);
        let ghost cut = parts.deep_view();
        let mut memories: Vec<RuntimeMemoryLimbs> = no_items();
        let n: usize = parts.len();
        let mut i: usize = 0;
        proof {
            assert(cut.len() == n);
            assert(parts.deep_view() =~= cut.skip(0));
            assert(all.take(0) =~= Seq::empty());
        }
        while i < n
            invariant
                i <= n,
                n == cut.len(),
                cut == lane_parts(shards, vs),
                all == memory_parts(shards, memory, vs),
                parts@.len() == n - i,
                parts.deep_view() == cut.skip(i as int),
                memories.deep_view() == all.take(i as int),
            decreases n - i,
        {
            let first = take_first(&mut parts);
            proof {
                assert(cut.skip(i as int).skip(1) =~= cut.skip(i + 1));
                assert(all.take(i + 1) =~= all.take(i as int).push(all[i as int]));
            }
            push_item(&mut memories, RuntimeMemoryLimbs { memory, lane_words: first });
            i = i + 1;
        }
        proof {
            assert(all.take(i as int) =~= all);
        }
        Ok(memories)
    }

    /// The width of the words of a memory.
    pub fn memory_ty(&self, memory: Signal) -> (r: Result<Width, ErrorReport>)
        ensures
            fails_with(r, memory_problem(self.deep_view(), memory)),
            r matches Ok(width) ==> width == memory_width(self.deep_view(), memory),
    {
        let ghost memories = self.deep_view().program.memories;
        let ghost p = has_source(memories, memory);
        let mut k: usize = 0;
        while k < self.program.memories.len()
            invariant
                k <= self.program.memories@.len(),
                memories == self.deep_view().program.memories,
                memories == self.program.memories@,
                p == has_source(memories, memory),
                forall|j: int| 0 <= j < k ==> !#[trigger] p(j),
            decreases self.program.memories@.len() - k,
        {
            if self.program.memories[k].source == memory {
                proof {
                    assert(p(k as int));
                    lemma_first_index_is(memories.len(), p, k as int);
                }
                return Ok(self.program.memories[k].width);
            }
            k = k + 1;
        }
        proof {
            lemma_first_index(memories.len(), p);
        }
        let mut message = "memory SignalId(".to_owned();
        append_decimal(&mut message, memory.id.0 as u64);
        message.append(") is not part of this runtime module");
        Err(error("E_RUNTIME_MEMORY", message.as_str()))
    }

    /// What the engine of each shard is given so that a memory has its words on every lane.
    pub fn set_memory(&self, memory: Signal, lane_words: &Vec<Vec<u128>>) -> (r: Result<
        Vec<RuntimeMemoryLimbs>,
        ErrorReport,
    >)
        requires
            lanes_in_order(self.deep_view()),
        ensures
            fails_with(
                r,
                or_problem(
                    lane_count_problem(self.deep_view(), lane_words@.len()),
                    or_problem(
                        memory_problem(self.deep_view(), memory),
                        wide_memory_problem(
                            self.deep_view(),
                            memory,
                            "use set_memory_limbs for memories wider than 128 bits"@,
                        ),
                    ),
                ),
            ),
            r matches Ok(memories) ==> exists|limbs: Seq<Seq<Seq<u32>>>| #[trigger]
                lanes_hold(
                    limbs,
                    lane_words.deep_view(),
                    memory_width(self.deep_view(), memory),
                ) && memories.deep_view() == memory_parts(self.deep_view().shards, memory, limbs),
    {
        self.validate_lane_count(lane_words.len())?;
        let width = self.memory_ty(memory)?;
        if width > 128 {
            return Err(
                error(
                    "E_RUNTIME_WIDE_MEMORY",
                    "use set_memory_limbs for memories wider than 128 bits",
                ),
            );
        }
        let mut lane_limbs: Vec<Vec<Vec<u32>>> = no_items();
        let mut lane: usize = 0;
        while lane < lane_words.len()
            invariant
                lane <= lane_words@.len(),
                lane_limbs@.len() == lane,
                lane_limbs.deep_view().len() == lane,
                forall|j: int|
                    0 <= j < lane ==> words_hold(
                        #[trigger] lane_limbs.deep_view()[j],
                        lane_words.deep_view()[j],
                        width,
                    ),
            decreases lane_words@.len() - lane,
        {
            let ghost before = lane_limbs.deep_view();
            let limbs = encode_words(&lane_words[lane], width);
            push_item(&mut lane_limbs, limbs);
            proof {
                assert(lane_words.deep_view()[lane as int] =~= lane_words@[lane as int]@);
                assert forall|j: int| 0 <= j < lane + 1 implies words_hold(
                    #[trigger] lane_limbs.deep_view()[j],
                    lane_words.deep_view()[j],
                    width,
                ) by {
                    if j < lane {
                        assert(lane_limbs.deep_view()[j] == before[j]);
                    }
                }
            }
            lane = lane + 1;
        }
        proof {
            assert(lane_words.deep_view().len() == lane_words@.len());
            assert(lanes_hold(lane_limbs.deep_view(), lane_words.deep_view(), width));
        }
        self.set_memory_limbs(memory, &lane_limbs)
    }

    /// The limbs of a signal on every lane, of what the engines replied.
    pub fn get_signal_limbs(&self, parts: Vec<Vec<Vec<u32>>>) -> (r: Vec<Vec<u32>>)
        ensures
            r.deep_view() == put_together(parts.deep_view()),
    {
        together(parts)
    }

    /// The value of a signal on every lane, of what the engines replied.
    pub fn get_signal(&self, parts: Vec<Vec<Vec<u32>>>) -> (r: Vec<u128>)
        ensures
            r@ == decoded_words(put_together(parts.deep_view())),
    {
        let limbs = together(parts);
        decode_words(&limbs)
    }

    /// The limbs of the words of a memory on every lane, of what the engines replied.
    pub fn get_memory_limbs(&self, parts: Vec<Vec<Vec<Vec<u32>>>>) -> (r: Vec<Vec<Vec<u32>>>)
        ensures
            r.deep_view() == put_together(parts.deep_view()),
    {
        together(parts)
    }

    /// Checks that the words of a memory can be read as integers, before any engine is asked.
    pub fn validate_memory_words(&self, memory: Signal) -> (r: Result<(), ErrorReport>)
        ensures
            fails_with(
                r,
                or_problem(
                    memory_problem(self.deep_view(), memory),
                    wide_memory_problem(
                        self.deep_view(),
                        memory,
                        "use get_memory_limbs for memories wider than 128 bits"@,
                    ),
                ),
            ),
    {
        let width = self.memory_ty(memory)?;
        if width > 128 {
            return Err(
                error(
                    "E_RUNTIME_WIDE_MEMORY",
                    "use get_memory_limbs for memories wider than 128 bits",
                ),
            );
        }
        Ok(())
    }

    /// The words of a memory on every lane, of what the engines replied.
    pub fn get_memory(&self, memory: Signal, parts: Vec<Vec<Vec<Vec<u32>>>>) -> (r: Result<
        Vec<Vec<u128>>,
        ErrorReport,
    >)
        ensures
            fails_with(
                r,
                or_problem(
                    memory_problem(self.deep_view(), memory),
                    wide_memory_problem(
                        self.deep_view(),
                        memory,
                        "use get_memory_limbs for memories wider than 128 bits"@,
                    ),
                ),
            ),
            r matches Ok(words) ==> words.deep_view() == decoded_lanes(
                put_together(parts.deep_view()),
            ),
    {
        self.validate_memory_words(memory)?;
        let lanes = together(parts);
        let ghost ls = lanes.deep_view();
        let ghost word = |lane: int| decoded_words(ls[lane]);
        let words = build_items(
            lanes.len(),
            |lane: usize| -> (y: Vec<u128>)
                requires
                    lane < lanes@.len(),
                    ls == lanes.deep_view(),
                    word == (|lane: int| decoded_words(ls[lane])),
                ensures
                    y.deep_view() == word(lane as int)
                {
                    proof {
                        assert(ls[lane as int] == lanes@[lane as int].deep_view());
                    }
                    let y = decode_words(&lanes[lane]);
                    proof {
                        assert(y.deep_view() =~= y@);
                    }
                    y
                },
            Ghost(word),
        );
        proof {
            assert(words.deep_view() =~= decoded_lanes(ls));
        }
        Ok(words)
    }
}

/// What is wrong with the values of a scalar engine.
pub open spec fn scalar_value_problem(count: nat) -> Option<ErrorReportView> {
    if count != 1 {
        Some(
            report(
                "E_RUNTIME_LANE_VALUES"@,
                "expected one scalar lane value, got "@ + decimal(count),
            ),
        )
    } else {
        None
    }
}

/// Takes the value of the only lane of a scalar engine.
pub fn scalar_lane_value(values: &Vec<u128>) -> (r: Result<u128, ErrorReport>)
    ensures
        fails_with(r, scalar_value_problem(values@.len())),
        r matches Ok(value) ==> value == values@[0],
{
    if values.len() != 1 {
        let mut message = "expected one scalar lane value, got ".to_owned();
        append_decimal(&mut message, values.len() as u64);
        return Err(error("E_RUNTIME_LANE_VALUES", message.as_str()));
    }
    Ok(values[0])
}

/// Whether every value fits in 32 bits.
pub open spec fn all_narrow(values: Seq<u128>) -> bool {
    forall|i: int| 0 <= i < values.len() ==> #[trigger] values[i] <= u32::MAX
}

/// What is wrong with the values of a GPU engine.
pub open spec fn wide_value_problem(values: Seq<u128>) -> Option<ErrorReportView> {
    if all_narrow(values) {
        None
    } else {
        Some(
            report(
                "E_RUNTIME_WIDE_SIGNAL"@,
                "use set_input_limbs for GPU signal values wider than 32 bits"@,
            ),
        )
    }
}

/// Narrows the values of a GPU engine.
pub fn gpu_lane_values(values: &Vec<u128>) -> (r: Result<Vec<u32>, ErrorReport>)
    ensures
        fails_with(r, wide_value_problem(values@)),
        r matches Ok(narrow) ==> narrow@ == Seq::new(
            values@.len(),
            |i: int| values@[i] as u32,
        ),
{
    let ghost all = Seq::new(values@.len(), |i: int| values@[i] as u32);
    let mut narrow: Vec<u32> = Vec::new();
    let mut i: usize = 0;
    while i < values.len()
        invariant
            i <= values@.len(),
            all == Seq::new(values@.len(), |i: int| values@[i] as u32),
            narrow@ == all.take(i as int),
            forall|j: int| 0 <= j < i ==> #[trigger] values@[j] <= u32::MAX,
        decreases values@.len() - i,
    {
        if values[i] > u32::MAX as u128 {
            return Err(
                error(
                    "E_RUNTIME_WIDE_SIGNAL",
                    "use set_input_limbs for GPU signal values wider than 32 bits",
                ),
            );
        }
        narrow.push(values[i] as u32);
        proof {
            assert(all.take(i + 1) =~= all.take(i as int).push(all[i as int]));
        }
        i = i + 1;
    }
    proof {
        assert(all.take(i as int) =~= all);
    }
    Ok(narrow)
}

/// What keeps a backend from taking the values of a signal: a scalar engine takes exactly one, and
/// a GPU engine none that is wider than a word.
pub open spec fn lane_values_problem(
    backend: RuntimeBackend,
    lane_values: Seq<u128>,
) -> Option<ErrorReportView> {
    match backend {
        RuntimeBackend::ScalarCpu => scalar_value_problem(lane_values.len()),
        RuntimeBackend::Gpu(_) => wide_value_problem(lane_values),
        _ => None,
    }
}

/// Checks that a backend can take the values of a signal.
pub fn check_lane_values(backend: RuntimeBackend, lane_values: &Vec<u128>) -> (r: Result<
    (),
    ErrorReport,
>)
    ensures
        fails_with(r, lane_values_problem(backend, lane_values@)),
{
    match backend {
        RuntimeBackend::ScalarCpu => {
            scalar_lane_value(lane_values)?;
            Ok(())
        },
        RuntimeBackend::Gpu(_) => {
            gpu_lane_values(lane_values)?;
            Ok(())
        },
        _ => Ok(()),
    }
}

/// What the engines are given of a memory.
pub open spec fn memory_parts(
    shards: Seq<RuntimeShardView>,
    memory: Signal,
    lane_words: Seq<Seq<Seq<u32>>>,
) -> Seq<RuntimeMemoryLimbsView> {
    Seq::new(
        shards.len(),
        |i: int|
            RuntimeMemoryLimbsView { memory, lane_words: lanes_of(shards[i].info, lane_words) },
    )
}

// ---------------------------------------------------------------------------
// Laws
// ---------------------------------------------------------------------------

/// The lanes of a shard are lanes of the runtime, and follow those of the shards before it.
pub proof fn lemma_shard_within(runtime: DistributedRuntimeView, i: int)
    requires
        lanes_in_order(runtime),
        0 <= i < runtime.shards.len(),
    ensures
        runtime.shards[i].info.start_lane == lanes_before(workers_of(runtime.shards), i),
        runtime.shards[i].info.start_lane + runtime.shards[i].info.lanes == lanes_before(
            workers_of(runtime.shards),
            i + 1,
        ),
        runtime.shards[i].info.start_lane + runtime.shards[i].info.lanes <= runtime.total_lanes,
{
    let ws = workers_of(runtime.shards);
    let lanes = |w: RuntimeWorkerView| w.lanes as int;
    assert(infos_of(runtime.shards)[i] == shards_of(ws)[i]);
    lemma_sum_by_step(ws, i, lanes);
    lemma_sum_by_prefix(ws, i, ws.len() as int, lanes);
    lemma_sum_by_prefix(ws, i + 1, ws.len() as int, lanes);
    assert(ws.take(ws.len() as int) =~= ws);
    lemma_lanes_nonnegative(ws, i);
    assert(lanes_before(ws, i) <= usize::MAX);
}

proof fn lemma_lanes_nonnegative(ws: Seq<RuntimeWorkerView>, n: int)
    requires
        0 <= n <= ws.len(),
    ensures
        lanes_before(ws, n) >= 0,
    decreases n,
{
    let lanes = |w: RuntimeWorkerView| w.lanes as int;
    if n > 0 {
        lemma_lanes_nonnegative(ws, n - 1);
        lemma_sum_by_step(ws, n - 1, lanes);
    } else {
        assert(ws.take(0) =~= Seq::empty());
        assert(sum_by(ws.take(0), lanes) == 0);
    }
}

proof fn lemma_first_parts<A>(runtime: DistributedRuntimeView, values: Seq<A>, n: nat)
    requires
        lanes_in_order(runtime),
        values.len() == runtime.total_lanes,
        n <= runtime.shards.len(),
    ensures
        0 <= lanes_before(workers_of(runtime.shards), n as int) <= runtime.total_lanes,
        concat_below(n, part_at(lane_parts(runtime.shards, values))) == values.take(
            lanes_before(workers_of(runtime.shards), n as int),
        ),
    decreases n,
{
    let ws = workers_of(runtime.shards);
    let lanes = |w: RuntimeWorkerView| w.lanes as int;
    if n == 0 {
        assert(ws.take(0) =~= Seq::empty());
        assert(sum_by(ws.take(0), lanes) == 0);
        assert(values.take(0) =~= Seq::empty());
    } else {
        let m = (n - 1) as nat;
        lemma_first_parts(runtime, values, m);
        lemma_shard_within(runtime, m as int);
        let from = lanes_before(ws, m as int);
        let to = lanes_before(ws, n as int);
        assert(values.take(to) =~= values.take(from) + values.subrange(from, to));
    }
}

/// Lane values that were cut up for the shards give the same values when they are put together.
pub proof fn lemma_lanes_come_back<A>(runtime: DistributedRuntimeView, values: Seq<A>)
    requires
        lanes_in_order(runtime),
        values.len() == runtime.total_lanes,
    ensures
        put_together(lane_parts(runtime.shards, values)) == values,
{
    let ws = workers_of(runtime.shards);
    lemma_first_parts(runtime, values, runtime.shards.len());
    assert(ws.take(ws.len() as int) =~= ws);
    assert(values.take(values.len() as int) =~= values);
}

/// The words of a memory come back as they were set, as far as the width holds them.
pub proof fn lemma_memory_comes_back(
    runtime: DistributedRuntimeView,
    limbs: Seq<Seq<Seq<u32>>>,
    lane_words: Seq<Seq<u128>>,
    width: Width,
    lane: int,
    k: int,
)
    requires
        lanes_in_order(runtime),
        lane_words.len() == runtime.total_lanes,
        width <= 128,
        lanes_hold(limbs, lane_words, width),
        0 <= lane < lane_words.len(),
        0 <= k < lane_words[lane].len(),
    ensures
        put_together(lane_parts(runtime.shards, limbs)) == limbs,
        decoded_lanes(limbs)[lane][k] == truncated(lane_words[lane][k] as nat, width),
{
    lemma_lanes_come_back(runtime, limbs);
    let word = limbs[lane][k];
    assert(words_hold(limbs[lane], lane_words[lane], width));
    assert(holds(word, lane_words[lane][k], width));
    crate::words::lemma_decode_encoded(lane_words[lane][k], width, word);
    crate::words::lemma_words_bound(word);
    crate::words::lemma_truncated_bound(lane_words[lane][k], width);
}

} // verus!

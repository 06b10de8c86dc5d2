//! What numbers, texts, timeouts, versions and answers owe what they stand for.

use vstd::arithmetic::power2::pow2;
use vstd::prelude::*;

use crate::limbs::{has_route_index, limb_count, payload_problem, route_at};
use crate::model::design::{Signal, Width};
use crate::model::launch::RuntimePartitionLaunchRouteView;
use crate::model::partition::RuntimePartitionPlanView;
use crate::model::session::RuntimePartitionRoutePayloadView;
use crate::model::topology::{RuntimeBackend, RuntimeWorkerView};
use crate::runtime::DistributedRuntimeView;
use crate::runtime_lanes::{
    has_source, lane_count_problem, lane_values_problem, memory_problem, wide_memory_problem,
};
use crate::seqs::{lemma_first_index, lemma_first_index_is, lemma_sum_by_prefix, lemma_sum_by_take};
use crate::slices::slice_groups;
use crate::text::{decimal, joined};
use crate::topology::{lanes_before, shards_of, total_lanes};
use crate::transport::{timeout_of_millis, timeout_of_secs, whole_millis};
use crate::words::{truncated, words_value};

verus! {

// ---------------------------------------------------------------------------
// Limbs
// ---------------------------------------------------------------------------

/// A width takes as many 32-bit limbs as hold it, and none to spare.
pub proof fn lemma_limbs_hold_width(width: Width)
    ensures
        32 * limb_count(width) >= width,
        32 * limb_count(width) < width + 32,
{
}

/// Limbs stand for the sum of their parts: one limb more, behind the others, weighs as much as all
/// numbers that the others can hold, and the first limb weighs one.
pub proof fn lemma_limb_weighs(limbs: Seq<u32>, limb: u32)
    ensures
        words_value(limbs.push(limb)) == words_value(limbs) + limb * pow2(32 * limbs.len()),
        words_value(seq![limb]) == limb,
        words_value(Seq::empty()) == 0,
{
    assert(limbs.push(limb).drop_last() =~= limbs);
    assert(seq![limb].drop_last() =~= Seq::empty());
    vstd::arithmetic::power2::lemma2_to64();
    assert(words_value(Seq::<u32>::empty()) == 0);
    assert(limb as nat * pow2(0) == limb) by (nonlinear_arith)
        requires
            pow2(0) == 1,
    ;
}

/// A width keeps the values that fit in it, and what it keeps of a value always fits.
pub proof fn lemma_width_keeps(value: nat, width: Width)
    ensures
        truncated(value, width) < pow2(width as nat),
        value < pow2(width as nat) ==> truncated(value, width) == value,
        truncated(truncated(value, width), width) == truncated(value, width),
        truncated(value + pow2(width as nat), width) == truncated(value, width),
{
    vstd::arithmetic::power2::lemma_pow2_pos(width as nat);
    let m = pow2(width as nat) as int;
    vstd::arithmetic::div_mod::lemma_mod_bound(value as int, m);
    vstd::arithmetic::div_mod::lemma_mod_twice(value as int, m);
    vstd::arithmetic::div_mod::lemma_mod_add_multiples_vanish(value as int, m);
    if value < pow2(width as nat) {
        vstd::arithmetic::div_mod::lemma_small_mod(value, pow2(width as nat));
    }
}

/// A payload is taken exactly when the worker has the route, in the same width, and the payload
/// has at least one limb, where the width needs any, and no more than the width needs.
pub proof fn lemma_payload_is_taken(
    worker: Seq<char>,
    payload: RuntimePartitionRoutePayloadView,
    routes: Seq<RuntimePartitionLaunchRouteView>,
    direction: Seq<char>,
    k: int,
)
    requires
        0 <= k < routes.len(),
        routes[k].route_index == payload.route_index,
        forall|j: int|
            0 <= j < k ==> (#[trigger] routes[j]).route_index != payload.route_index,
    ensures
        payload_problem(worker, payload, routes, direction) is None <==> {
            &&& payload.width == routes[k].width
            &&& payload.width > 0 ==> payload.limbs.len() > 0
            &&& 32 * payload.limbs.len() < payload.width + 32
        },
{
    let p = has_route_index(routes, payload.route_index);
    assert forall|j: int| 0 <= j < k implies !#[trigger] p(j) by {
        assert(routes[j].route_index != payload.route_index);
    }
    lemma_first_index_is(routes.len(), p, k);
    lemma_limbs_hold_width(payload.width);
}

/// A payload of a route that the worker does not have is refused.
pub proof fn lemma_stray_payload_is_refused(
    worker: Seq<char>,
    payload: RuntimePartitionRoutePayloadView,
    routes: Seq<RuntimePartitionLaunchRouteView>,
    direction: Seq<char>,
)
    requires
        forall|j: int|
            0 <= j < routes.len() ==> (#[trigger] routes[j]).route_index != payload.route_index,
    ensures
        payload_problem(worker, payload, routes, direction) is Some,
{
    let p = has_route_index(routes, payload.route_index);
    lemma_first_index(routes.len(), p);
    if route_at(routes, payload.route_index) is Some {
        let k = route_at(routes, payload.route_index)->0;
        assert(routes[k].route_index != payload.route_index);
    }
}

/// A scalar engine takes one value, a GPU engine values of 32 bits, and every other engine any.
pub proof fn lemma_backend_takes_values(backend: RuntimeBackend, values: Seq<u128>)
    ensures
        backend is ScalarCpu ==> (lane_values_problem(backend, values) is None <==> values.len()
            == 1),
        backend is Gpu ==> (lane_values_problem(backend, values) is None <==> forall|i: int|
            0 <= i < values.len() ==> #[trigger] values[i] < 0x1_0000_0000),
        !(backend is ScalarCpu) && !(backend is Gpu) ==> lane_values_problem(backend, values) is None,
{
    assert((forall|i: int| 0 <= i < values.len() ==> #[trigger] values[i] < 0x1_0000_0000) <==> (
    forall|i: int| 0 <= i < values.len() ==> #[trigger] values[i] <= u32::MAX));
}

// ---------------------------------------------------------------------------
// Lanes
// ---------------------------------------------------------------------------

/// The shards of a topology follow its workers: the first starts at lane zero, and each other one
/// where the one before it ends.
pub proof fn lemma_shards_follow_each_other(workers: Seq<RuntimeWorkerView>, i: int)
    requires
        0 <= i < workers.len(),
        total_lanes(workers) <= usize::MAX,
    ensures
        ({
            let shards = shards_of(workers);
            &&& shards.len() == workers.len()
            &&& shards[0].start_lane == 0
            &&& i > 0 ==> shards[i].start_lane == shards[i - 1].start_lane + shards[i - 1].lanes
            &&& shards[i].worker_id == workers[i].id
            &&& shards[i].node == workers[i].node
            &&& shards[i].backend == workers[i].backend
            &&& shards[i].lanes == workers[i].lanes
        }),
{
    let f = |w: RuntimeWorkerView| w.lanes as int;
    assert(workers.take(0) =~= Seq::empty());
    assert(lanes_before(workers, 0) == 0);
    if i > 0 {
        lemma_sum_by_take(workers, i - 1, f);
        lemma_sum_by_prefix(workers, i - 1, i, f);
        lemma_sum_by_prefix(workers, i, workers.len() as int, f);
        assert(workers.take(workers.len() as int) =~= workers);
    }
}

// ---------------------------------------------------------------------------
// Texts
// ---------------------------------------------------------------------------

/// A joined text ends in its last part, behind a separator and all other parts joined.
pub proof fn lemma_joined_ends_in_last(parts: Seq<Seq<char>>, part: Seq<char>, separator: Seq<char>)
    ensures
        joined(seq![part], separator) == part,
        joined(Seq::empty(), separator).len() == 0,
        parts.len() > 0 ==> joined(parts.push(part), separator) == joined(parts, separator)
            + separator + part,
{
    assert(parts.push(part).drop_last() =~= parts);
}

/// A decimal number grows by one digit behind the others when it grows ten times.
pub proof fn lemma_decimal_grows(n: nat, d: nat)
    requires
        d < 10,
        n > 0,
    ensures
        decimal(10 * n + d) == decimal(n) + decimal(d),
        decimal(d).len() == 1,
        decimal(d)[0] as nat == '0' as nat + d,
{
    assert((10 * n + d) / 10 == n);
    assert((10 * n + d) % 10 == d);
    assert(decimal(10 * n + d) =~= decimal(n) + decimal(d));
}

/// Every partition of a plan has a slice group of its own, which owns the path of its instance.
pub proof fn lemma_slice_groups(plan: RuntimePartitionPlanView, i: int)
    requires
        0 <= i < plan.partitions.len(),
    ensures
        slice_groups(plan).len() == plan.partitions.len(),
        slice_groups(plan)[i].id == plan.partitions[i].id,
        slice_groups(plan)[i].owned_paths.len() == 1,
        slice_groups(plan)[i].owned_paths[0] == joined(plan.partitions[i].instance_path, "."@),
{
}

// ---------------------------------------------------------------------------
// Timeouts
// ---------------------------------------------------------------------------

/// A timeout of so many milliseconds lasts so many, and a thousand of them are a second.
pub proof fn lemma_timeout_lasts(millis: u64, secs: u64)
    ensures
        whole_millis(timeout_of_millis(millis)) == millis,
        timeout_of_millis(millis).well_formed(),
        whole_millis(timeout_of_secs(secs)) == 1000 * secs,
        timeout_of_secs(secs).well_formed(),
        1000 * secs <= u64::MAX ==> timeout_of_millis((1000 * secs) as u64) == timeout_of_secs(secs),
{
}

// ---------------------------------------------------------------------------
// Lanes and memories
// ---------------------------------------------------------------------------

/// A runtime takes one value for each of its lanes.
pub proof fn lemma_lanes_are_counted(runtime: DistributedRuntimeView, got: nat)
    ensures
        lane_count_problem(runtime, got) is None <==> got == runtime.total_lanes,
{
}

/// A memory is found by its source, and its words are read as numbers up to 128 bits.
pub proof fn lemma_memory_is_found(
    runtime: DistributedRuntimeView,
    memory: Signal,
    advice: Seq<char>,
    k: int,
)
    requires
        0 <= k < runtime.program.memories.len(),
        runtime.program.memories[k].source == memory,
        forall|j: int| 0 <= j < k ==> (#[trigger] runtime.program.memories[j]).source != memory,
    ensures
        memory_problem(runtime, memory) is None,
        wide_memory_problem(runtime, memory, advice) is None
            <==> runtime.program.memories[k].width <= 128,
{
    let p = has_source(runtime.program.memories, memory);
    assert(p(k));
    lemma_first_index_is(runtime.program.memories.len(), p, k);
}

/// A memory that is not there is not found.
pub proof fn lemma_unknown_memory_is_refused(runtime: DistributedRuntimeView, memory: Signal)
    requires
        forall|j: int|
            0 <= j < runtime.program.memories.len() ==> (
            #[trigger] runtime.program.memories[j]).source != memory,
    ensures
        memory_problem(runtime, memory) is Some,
{
    lemma_first_index(
        runtime.program.memories.len(),
        has_source(runtime.program.memories, memory),
    );
}

} // verus!

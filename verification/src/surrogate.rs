//! Attaching surrogate plans to the shards of a runtime.
//!
//! A plan is accepted only if it agrees with the shards in every respect: its
//! lanes, its workers and their lane ranges, the lane of every item and the item
//! counts of every worker. The first disagreement is reported.

use vstd::prelude::*;

use crate::error::{error, fails_with, report, ErrorReport, ErrorReportView};
use crate::model::surrogate::{
    EventPolicyDecision, EventRuntimePlan, EventRuntimePlanItem, GemmDivergence,
    GemmPolicyDecision, GemmRuntimePlan, GemmRuntimePlanItem, GemmRuntimeSourceResult,
    GemmRuntimeWorkerSummary, RuntimeSurrogateAttachment, RuntimeSurrogateAttachmentView,
    RuntimeSurrogateGemmDivergence, RuntimeSurrogateHealth, RuntimeSurrogateHealthView,
    RuntimeSurrogateItemAttachment, RuntimeSurrogateItemAttachmentView,
    RuntimeSurrogateWorkerAttachment, RuntimeSurrogateWorkerAttachmentView,
    EVENT_RUNTIME_PLAN_SCHEMA, GEMM_RUNTIME_PLAN_SCHEMA,
    RUNTIME_SURROGATE_ATTACHMENT_FORMAT_VERSION,
};
use crate::model::topology::{RuntimeShardInfo, RuntimeShardInfoView, RuntimeTopology};
use crate::seqs::{
    count_if, first_index, first_problem, lemma_count_if_bound, lemma_count_if_same,
    lemma_count_if_split, lemma_count_if_take, lemma_first_index, lemma_first_index_is,
    lemma_first_problem_none, lemma_first_problem_stays, lemma_sum_by_step, lemma_sum_by_take,
    no_items, or_problem, push_item, sum_by,
};
use crate::text::{append_decimal, decimal, same_text};
use crate::topology::{
    lemma_shards_keep_lanes, shard_lanes_fit, shard_owns, shards_of, total_lanes,
    total_shard_lanes,
};

verus! {

// ---------------------------------------------------------------------------
// Tallies of items
// ---------------------------------------------------------------------------

/// Which items a tally looks at.
pub enum ItemScope<'a> {
    All,
    Worker(&'a str),
    Lane(usize),
}

/// Whether an item is in a scope.
pub open spec fn in_scope(scope: ItemScope, item: RuntimeSurrogateItemAttachmentView) -> bool {
    match scope {
        ItemScope::All => true,
        ItemScope::Worker(id) => item.worker_id == id@,
        ItemScope::Lane(lane) => item.lane == lane,
    }
}

/// How many items in a scope have a property.
pub open spec fn scoped_count(
    items: Seq<RuntimeSurrogateItemAttachmentView>,
    scope: ItemScope,
    p: spec_fn(RuntimeSurrogateItemAttachmentView) -> bool,
) -> nat {
    count_if(items, |x: RuntimeSurrogateItemAttachmentView| in_scope(scope, x) && p(x))
}

pub open spec fn is_any() -> spec_fn(RuntimeSurrogateItemAttachmentView) -> bool {
    |x: RuntimeSurrogateItemAttachmentView| true
}

pub open spec fn is_from(source: GemmRuntimeSourceResult) -> spec_fn(
    RuntimeSurrogateItemAttachmentView,
) -> bool {
    |x: RuntimeSurrogateItemAttachmentView| x.source_result == source
}

pub open spec fn is_compared() -> spec_fn(RuntimeSurrogateItemAttachmentView) -> bool {
    |x: RuntimeSurrogateItemAttachmentView| x.shadow_ok is Some
}

pub open spec fn is_shadow(ok: bool) -> spec_fn(RuntimeSurrogateItemAttachmentView) -> bool {
    |x: RuntimeSurrogateItemAttachmentView| x.shadow_ok == Some(ok)
}

pub open spec fn is_unavailable() -> spec_fn(RuntimeSurrogateItemAttachmentView) -> bool {
    |x: RuntimeSurrogateItemAttachmentView|
        x.decision == GemmPolicyDecision::ShadowCompare && x.shadow_ok is None
}

/// Counts of the items in a scope.
#[derive(Clone, Copy, Debug, PartialEq, Eq, Structural)]
pub struct SurrogateTally {
    pub assigned: usize,
    pub surrogate: usize,
    pub exact: usize,
    pub shadow_compared: usize,
    pub shadow_passed: usize,
    pub shadow_failed: usize,
    pub shadow_unavailable: usize,
}

/// Whether a tally counts the items in a scope.
pub open spec fn tally_of(
    tally: SurrogateTally,
    items: Seq<RuntimeSurrogateItemAttachmentView>,
    scope: ItemScope,
) -> bool {
    &&& tally.assigned == scoped_count(items, scope, is_any())
    &&& tally.surrogate == scoped_count(items, scope, is_from(GemmRuntimeSourceResult::Surrogate))
    &&& tally.exact == scoped_count(items, scope, is_from(GemmRuntimeSourceResult::Exact))
    &&& tally.shadow_compared == scoped_count(items, scope, is_compared())
    &&& tally.shadow_passed == scoped_count(items, scope, is_shadow(true))
    &&& tally.shadow_failed == scoped_count(items, scope, is_shadow(false))
    &&& tally.shadow_unavailable == scoped_count(items, scope, is_unavailable())
}

fn item_in_scope(scope: &ItemScope, item: &RuntimeSurrogateItemAttachment) -> (r: bool)
    ensures
        r == in_scope(*scope, item.deep_view()),
{
    match scope {
        ItemScope::All => true,
        ItemScope::Worker(id) => same_text(item.worker_id.as_str(), id),
        ItemScope::Lane(lane) => item.lane == *lane,
    }
}

proof fn lemma_scoped_count_step(
    items: Seq<RuntimeSurrogateItemAttachmentView>,
    i: int,
    scope: ItemScope,
    p: spec_fn(RuntimeSurrogateItemAttachmentView) -> bool,
)
    requires
        0 <= i < items.len(),
    ensures
        scoped_count(items.take(i + 1), scope, p) == scoped_count(items.take(i), scope, p) + (if in_scope(
            scope,
            items[i],
        ) && p(items[i]) {
            1nat
        } else {
            0nat
        }),
        scoped_count(items.take(i), scope, p) <= i,
{
    let q = |x: RuntimeSurrogateItemAttachmentView| in_scope(scope, x) && p(x);
    lemma_count_if_take(items, i, q);
    lemma_count_if_bound(items.take(i), q);
}

/// Counts the items in a scope.
pub fn tally_items(
    items: &Vec<RuntimeSurrogateItemAttachment>,
    scope: &ItemScope,
) -> (tally: SurrogateTally)
    ensures
        tally_of(tally, items.deep_view(), *scope),
{
    let ghost all = items.deep_view();
    let ghost from_surrogate = is_from(GemmRuntimeSourceResult::Surrogate);
    let ghost from_exact = is_from(GemmRuntimeSourceResult::Exact);
    let mut tally = SurrogateTally {
        assigned: 0,
        surrogate: 0,
        exact: 0,
        shadow_compared: 0,
        shadow_passed: 0,
        shadow_failed: 0,
        shadow_unavailable: 0,
    };
    let mut i: usize = 0;
    while i < items.len()
        invariant
            i <= items.len(),
            all == items.deep_view(),
            from_surrogate == is_from(GemmRuntimeSourceResult::Surrogate),
            from_exact == is_from(GemmRuntimeSourceResult::Exact),
            tally_of(tally, all.take(i as int), *scope),
        decreases items.len() - i,
    {
        let item = &items[i];
        proof {
            assert(all[i as int] == item.deep_view());
            lemma_scoped_count_step(all, i as int, *scope, is_any());
            lemma_scoped_count_step(all, i as int, *scope, from_surrogate);
            lemma_scoped_count_step(all, i as int, *scope, from_exact);
            lemma_scoped_count_step(all, i as int, *scope, is_compared());
            lemma_scoped_count_step(all, i as int, *scope, is_shadow(true));
            lemma_scoped_count_step(all, i as int, *scope, is_shadow(false));
            lemma_scoped_count_step(all, i as int, *scope, is_unavailable());
        }
        if item_in_scope(scope, item) {
            tally.assigned = tally.assigned + 1;
            match item.source_result {
                GemmRuntimeSourceResult::Surrogate => {
                    tally.surrogate = tally.surrogate + 1;
                },
                GemmRuntimeSourceResult::Exact => {
                    tally.exact = tally.exact + 1;
                },
            }
            match item.shadow_ok {
                Some(ok) => {
                    tally.shadow_compared = tally.shadow_compared + 1;
                    if ok {
                        tally.shadow_passed = tally.shadow_passed + 1;
                    } else {
                        tally.shadow_failed = tally.shadow_failed + 1;
                    }
                },
                None => {
                    if item.decision == GemmPolicyDecision::ShadowCompare {
                        tally.shadow_unavailable = tally.shadow_unavailable + 1;
                    }
                },
            }
        }
        i = i + 1;
    }
    proof {
        assert(all.take(i as int) =~= all);
    }
    tally
}

// ---------------------------------------------------------------------------
// What a plan must agree with
// ---------------------------------------------------------------------------

/// The first shard of a worker.
pub open spec fn find_shard(shards: Seq<RuntimeShardInfoView>, id: Seq<char>) -> Option<int> {
    first_index(shards.len(), |i: int| shards[i].worker_id == id)
}

/// Whether a summary is of a worker.
pub open spec fn is_summary_of(
    workers: Seq<GemmRuntimeWorkerSummary>,
    id: Seq<char>,
) -> spec_fn(int) -> bool {
    |i: int| workers[i].worker_id@ == id
}

/// The first summary of a worker.
pub open spec fn find_summary(workers: Seq<GemmRuntimeWorkerSummary>, id: Seq<char>) -> Option<int> {
    first_index(workers.len(), is_summary_of(workers, id))
}

pub open spec fn worker_report(message: Seq<char>) -> ErrorReportView {
    report("E_RUNTIME_SURROGATE_ATTACHMENT_WORKER"@, message)
}

pub open spec fn item_report(message: Seq<char>) -> ErrorReportView {
    report("E_RUNTIME_SURROGATE_ATTACHMENT_ITEM"@, message)
}

/// What is wrong with shard `i`: it owns no lane, or its worker came before.
pub open spec fn shard_problem(shards: Seq<RuntimeShardInfoView>, i: int) -> Option<ErrorReportView> {
    let id = shards[i].worker_id;
    if shards[i].lanes == 0 {
        Some(worker_report("runtime worker `"@ + id + "` owns zero lanes"@))
    } else if find_shard(shards.take(i), id) is Some {
        Some(worker_report("runtime worker `"@ + id + "` appears more than once"@))
    } else {
        None
    }
}

/// What is wrong with worker `i` of a plan: no shard has it, its lanes differ
/// from those of the shard, or it came before.
pub open spec fn plan_worker_problem(
    label: Seq<char>,
    shards: Seq<RuntimeShardInfoView>,
    workers: Seq<GemmRuntimeWorkerSummary>,
    i: int,
) -> Option<ErrorReportView> {
    let worker = workers[i];
    let id = worker.worker_id@;
    match find_shard(shards, id) {
        None => Some(
            worker_report(label + " plan references unknown runtime worker `"@ + id + "`"@),
        ),
        Some(k) => {
            let shard = shards[k];
            if worker.start_lane != shard.start_lane || worker.lanes != shard.lanes {
                Some(
                    worker_report(
                        label + " worker `"@ + id + "` maps lanes "@ + decimal(
                            worker.start_lane as nat,
                        ) + ".."@ + decimal((worker.start_lane + worker.lanes) as nat)
                            + ", runtime maps lanes "@ + decimal(shard.start_lane as nat) + ".."@
                            + decimal((shard.start_lane + shard.lanes) as nat),
                    ),
                )
            } else if find_summary(workers.take(i), id) is Some {
                Some(worker_report(label + " plan worker `"@ + id + "` appears more than once"@))
            } else {
                None
            }
        },
    }
}

/// Whether the lanes of a worker of a plan end within the machine's integers, as far as workers are
/// looked at: those up to the first with a problem, where a shard has them.
pub open spec fn worker_lanes_fit(
    label: Seq<char>,
    shards: Seq<RuntimeShardInfoView>,
    workers: Seq<GemmRuntimeWorkerSummary>,
) -> bool {
    forall|i: int|
        0 <= i < workers.len() && first_problem(
            i as nat,
            |j: int| plan_worker_problem(label, shards, workers, j),
        ) is None && find_shard(shards, (#[trigger] workers[i]).worker_id@) is Some
            ==> workers[i].start_lane + workers[i].lanes <= usize::MAX
}

/// What is wrong with an item: no shard has its worker, or its lane is outside
/// the lanes of that shard.
pub open spec fn item_problem(
    label: Seq<char>,
    shards: Seq<RuntimeShardInfoView>,
    item: RuntimeSurrogateItemAttachmentView,
) -> Option<ErrorReportView> {
    match find_shard(shards, item.worker_id) {
        None => Some(
            item_report(
                label + " plan item "@ + decimal(item.index as nat)
                    + " references unknown runtime worker `"@ + item.worker_id + "`"@,
            ),
        ),
        Some(k) => {
            let shard = shards[k];
            if !shard_owns(shard, item.lane as int) {
                Some(
                    item_report(
                        label + " plan item "@ + decimal(item.index as nat) + " lane "@ + decimal(
                            item.lane as nat,
                        ) + " is outside worker `"@ + item.worker_id + "` lane range "@ + decimal(
                            shard.start_lane as nat,
                        ) + ".."@ + decimal((shard.start_lane + shard.lanes) as nat),
                    ),
                )
            } else {
                None
            }
        },
    }
}

/// What is wrong with where an event item's result comes from: a surrogate
/// result must not be marked exact, an exact one must be.
pub open spec fn provenance_problem(item: RuntimeSurrogateItemAttachmentView) -> Option<
    ErrorReportView,
> {
    if item.source_result == GemmRuntimeSourceResult::Surrogate && item.exact {
        Some(
            item_report(
                "event plan item "@ + decimal(item.index as nat)
                    + " surrogate provenance is exact"@,
            ),
        )
    } else if item.source_result == GemmRuntimeSourceResult::Exact && !item.exact {
        Some(
            item_report(
                "event plan item "@ + decimal(item.index as nat)
                    + " exact provenance is approximate"@,
            ),
        )
    } else {
        None
    }
}

/// Whether a summary states the counts of its worker's items.
pub open spec fn summary_counts_match(
    summary: GemmRuntimeWorkerSummary,
    items: Seq<RuntimeSurrogateItemAttachmentView>,
    id: Seq<char>,
) -> bool {
    &&& summary.assigned_items == worker_count(items, id, is_any())
    &&& summary.used_surrogate == worker_count(
        items,
        id,
        is_from(GemmRuntimeSourceResult::Surrogate),
    )
    &&& summary.exact_fallbacks == worker_count(items, id, is_from(GemmRuntimeSourceResult::Exact))
}

/// How many items of a worker have a property.
pub open spec fn worker_count(
    items: Seq<RuntimeSurrogateItemAttachmentView>,
    id: Seq<char>,
    p: spec_fn(RuntimeSurrogateItemAttachmentView) -> bool,
) -> nat {
    count_if(items, |x: RuntimeSurrogateItemAttachmentView| x.worker_id == id && p(x))
}

/// What is wrong with the summary of shard `i`: there is none, or its counts are
/// not those of the items.
pub open spec fn summary_problem(
    label: Seq<char>,
    shards: Seq<RuntimeShardInfoView>,
    workers: Seq<GemmRuntimeWorkerSummary>,
    items: Seq<RuntimeSurrogateItemAttachmentView>,
    i: int,
) -> Option<ErrorReportView> {
    let id = shards[i].worker_id;
    match find_summary(workers, id) {
        None => Some(worker_report(label + " plan missing runtime worker `"@ + id + "`"@)),
        Some(k) => if !summary_counts_match(workers[k], items, id) {
            Some(
                worker_report(
                    label + " worker `"@ + id + "` summary counts do not match attached items"@,
                ),
            )
        } else {
            None
        },
    }
}

/// The first shard that cannot be attached to.
pub open spec fn shards_problem(shards: Seq<RuntimeShardInfoView>) -> Option<ErrorReportView> {
    first_problem(shards.len(), |i: int| shard_problem(shards, i))
}

/// The first worker of a plan that disagrees with the shards.
pub open spec fn plan_workers_problem(
    label: Seq<char>,
    shards: Seq<RuntimeShardInfoView>,
    workers: Seq<GemmRuntimeWorkerSummary>,
) -> Option<ErrorReportView> {
    first_problem(workers.len(), |i: int| plan_worker_problem(label, shards, workers, i))
}

/// A plan must describe as many workers as there are shards.
pub open spec fn worker_number_problem(
    label: Seq<char>,
    shards: Seq<RuntimeShardInfoView>,
    workers: Seq<GemmRuntimeWorkerSummary>,
) -> Option<ErrorReportView> {
    if workers.len() != shards.len() {
        Some(worker_report(label + " plan worker summaries must match runtime workers"@))
    } else {
        None
    }
}

/// The first shard whose summary is missing or wrong.
pub open spec fn summaries_problem(
    label: Seq<char>,
    shards: Seq<RuntimeShardInfoView>,
    workers: Seq<GemmRuntimeWorkerSummary>,
    items: Seq<RuntimeSurrogateItemAttachmentView>,
) -> Option<ErrorReportView> {
    first_problem(shards.len(), |i: int| summary_problem(label, shards, workers, items, i))
}

/// The attachment of one shard.
pub open spec fn attached_worker(
    shard: RuntimeShardInfoView,
    items: Seq<RuntimeSurrogateItemAttachmentView>,
) -> RuntimeSurrogateWorkerAttachmentView {
    RuntimeSurrogateWorkerAttachmentView {
        worker_id: shard.worker_id,
        node: shard.node,
        backend: shard.backend,
        start_lane: shard.start_lane,
        lanes: shard.lanes,
        assigned_items: worker_count(items, shard.worker_id, is_any()) as usize,
        used_surrogate: worker_count(
            items,
            shard.worker_id,
            is_from(GemmRuntimeSourceResult::Surrogate),
        ) as usize,
        exact_fallbacks: worker_count(
            items,
            shard.worker_id,
            is_from(GemmRuntimeSourceResult::Exact),
        ) as usize,
    }
}

/// The attachment of a plan without problems.
pub open spec fn attachment_of(
    schema: Seq<char>,
    shards: Seq<RuntimeShardInfoView>,
    items: Seq<RuntimeSurrogateItemAttachmentView>,
) -> RuntimeSurrogateAttachmentView {
    RuntimeSurrogateAttachmentView {
        format_version: RUNTIME_SURROGATE_ATTACHMENT_FORMAT_VERSION,
        plan_schema: schema,
        total_lanes: total_shard_lanes(shards) as usize,
        workers: shards.map_values(|s: RuntimeShardInfoView| attached_worker(s, items)),
        items,
        health: RuntimeSurrogateHealthView {
            ready: true,
            worker_count: shards.len() as usize,
            item_count: items.len() as usize,
            used_surrogate: sum_by(
                shards,
                |s: RuntimeShardInfoView|
                    worker_count(items, s.worker_id, is_from(GemmRuntimeSourceResult::Surrogate))
                        as int,
            ) as usize,
            exact_fallbacks: sum_by(
                shards,
                |s: RuntimeShardInfoView|
                    worker_count(items, s.worker_id, is_from(GemmRuntimeSourceResult::Exact)) as int,
            ) as usize,
            diagnostics: seq![],
        },
    }
}

// ---------------------------------------------------------------------------
// Checks
// ---------------------------------------------------------------------------

fn find_shard_index(shards: &Vec<RuntimeShardInfo>, n: usize, id: &str) -> (r: Option<usize>)
    requires
        n <= shards.len(),
    ensures
        match r {
            Some(k) => find_shard(shards.deep_view().take(n as int), id@) == Some(k as int) && k < n
                && shards[k as int].worker_id@ == id@,
            None => find_shard(shards.deep_view().take(n as int), id@) is None,
        },
{
    let ghost prefix = shards.deep_view().take(n as int);
    let ghost p = |i: int| prefix[i].worker_id == id@;
    let mut i: usize = 0;
    while i < n
        invariant
            i <= n <= shards.len(),
            prefix == shards.deep_view().take(n as int),
            p == (|i: int| prefix[i].worker_id == id@),
            forall|j: int| 0 <= j < i ==> !#[trigger] p(j),
        decreases n - i,
    {
        if same_text(shards[i].worker_id.as_str(), id) {
            proof {
                assert(p(i as int));
                lemma_first_index_is(n as nat, p, i as int);
            }
            return Some(i);
        }
        i = i + 1;
    }
    proof {
        lemma_first_index(n as nat, p);
    }
    None
}

fn find_summary_index(workers: &Vec<GemmRuntimeWorkerSummary>, n: usize, id: &str) -> (r: Option<
    usize,
>)
    requires
        n <= workers.len(),
    ensures
        match r {
            Some(k) => find_summary(workers@.take(n as int), id@) == Some(k as int) && k < n,
            None => find_summary(workers@.take(n as int), id@) is None,
        },
{
    let ghost prefix = workers@.take(n as int);
    let ghost p = is_summary_of(prefix, id@);
    let mut i: usize = 0;
    while i < n
        invariant
            i <= n <= workers.len(),
            prefix == workers@.take(n as int),
            p == is_summary_of(prefix, id@),
            forall|j: int| 0 <= j < i ==> !#[trigger] p(j),
        decreases n - i,
    {
        if same_text(workers[i].worker_id.as_str(), id) {
            proof {
                assert(p(i as int));
                lemma_first_index_is(n as nat, p, i as int);
            }
            return Some(i);
        }
        i = i + 1;
    }
    proof {
        lemma_first_index(n as nat, p);
    }
    None
}

fn worker_error(message: &str) -> (r: ErrorReport)
    ensures
        r.deep_view() == worker_report(message@),
{
    error("E_RUNTIME_SURROGATE_ATTACHMENT_WORKER", message)
}

fn item_error(message: &str) -> (r: ErrorReport)
    ensures
        r.deep_view() == item_report(message@),
{
    error("E_RUNTIME_SURROGATE_ATTACHMENT_ITEM", message)
}

/// Checks that every shard owns a lane and that no worker has two shards.
fn runtime_shards_by_worker(shards: &Vec<RuntimeShardInfo>) -> (r: Result<(), ErrorReport>)
    ensures
        fails_with(r, shards_problem(shards.deep_view())),
{
    let ghost all = shards.deep_view();
    let ghost check = |i: int| shard_problem(all, i);
    let mut i: usize = 0;
    while i < shards.len()
        invariant
            i <= shards.len(),
            all == shards.deep_view(),
            check == (|i: int| shard_problem(all, i)),
            first_problem(i as nat, check) is None,
        decreases shards.len() - i,
    {
        let shard = &shards[i];
        proof {
            if check(i as int) is Some {
                lemma_first_problem_stays((i + 1) as nat, all.len(), check);
            }
        }
        if shard.lanes == 0 {
            let mut message = "runtime worker `".to_owned();
            message.append(shard.worker_id.as_str());
            message.append("` owns zero lanes");
            return Err(worker_error(message.as_str()));
        }
        if find_shard_index(shards, i, shard.worker_id.as_str()).is_some() {
            let mut message = "runtime worker `".to_owned();
            message.append(shard.worker_id.as_str());
            message.append("` appears more than once");
            return Err(worker_error(message.as_str()));
        }
        i = i + 1;
    }
    Ok(())
}

/// Checks the workers of a plan against the shards.
fn check_plan_workers(
    label: &str,
    shards: &Vec<RuntimeShardInfo>,
    workers: &Vec<GemmRuntimeWorkerSummary>,
) -> (r: Result<(), ErrorReport>)
    requires
        shard_lanes_fit(shards.deep_view()),
        worker_lanes_fit(label@, shards.deep_view(), workers@),
    ensures
        fails_with(r, plan_workers_problem(label@, shards.deep_view(), workers@)),
{
    let ghost all = shards.deep_view();
    let ghost check = |i: int| plan_worker_problem(label@, all, workers@, i);
    proof {
        assert(all.take(all.len() as int) =~= all);
    }
    let mut i: usize = 0;
    while i < workers.len()
        invariant
            i <= workers.len(),
            all == shards.deep_view(),
            all.take(all.len() as int) == all,
            check == (|i: int| plan_worker_problem(label@, all, workers@, i)),
            first_problem(i as nat, check) is None,
            shard_lanes_fit(all),
            worker_lanes_fit(label@, all, workers@),
        decreases workers.len() - i,
    {
        let worker = &workers[i];
        proof {
            if check(i as int) is Some {
                lemma_first_problem_stays((i + 1) as nat, workers@.len(), check);
            }
        }
        match find_shard_index(shards, shards.len(), worker.worker_id.as_str()) {
            None => {
                let mut message = label.to_owned();
                message.append(" plan references unknown runtime worker `");
                message.append(worker.worker_id.as_str());
                message.append("`");
                return Err(worker_error(message.as_str()));
            },
            Some(k) => {
                let shard = &shards[k];
                proof {
                    assert(all[k as int] == shard.deep_view());
                    assert(workers@[i as int] == *worker);
                }
                if worker.start_lane != shard.start_lane || worker.lanes != shard.lanes {
                    let mut message = label.to_owned();
                    message.append(" worker `");
                    message.append(worker.worker_id.as_str());
                    message.append("` maps lanes ");
                    append_decimal(&mut message, worker.start_lane as u64);
                    message.append("..");
                    append_decimal(&mut message, (worker.start_lane + worker.lanes) as u64);
                    message.append(", runtime maps lanes ");
                    append_decimal(&mut message, shard.start_lane as u64);
                    message.append("..");
                    append_decimal(&mut message, (shard.start_lane + shard.lanes) as u64);
                    return Err(worker_error(message.as_str()));
                }
                if find_summary_index(workers, i, worker.worker_id.as_str()).is_some() {
                    let mut message = label.to_owned();
                    message.append(" plan worker `");
                    message.append(worker.worker_id.as_str());
                    message.append("` appears more than once");
                    return Err(worker_error(message.as_str()));
                }
            },
        }
        i = i + 1;
    }
    Ok(())
}

/// Checks that a plan describes as many workers as there are shards.
fn check_worker_number(
    label: &str,
    shards: &Vec<RuntimeShardInfo>,
    workers: &Vec<GemmRuntimeWorkerSummary>,
) -> (r: Result<(), ErrorReport>)
    ensures
        fails_with(r, worker_number_problem(label@, shards.deep_view(), workers@)),
{
    if workers.len() != shards.len() {
        let mut message = label.to_owned();
        message.append(" plan worker summaries must match runtime workers");
        return Err(worker_error(message.as_str()));
    }
    Ok(())
}

/// Checks the worker and the lane of an item against the shards.
fn check_item(
    label: &str,
    shards: &Vec<RuntimeShardInfo>,
    item: &RuntimeSurrogateItemAttachment,
) -> (r: Result<(), ErrorReport>)
    requires
        shard_lanes_fit(shards.deep_view()),
    ensures
        fails_with(r, item_problem(label@, shards.deep_view(), item.deep_view())),
{
    let ghost all = shards.deep_view();
    proof {
        assert(all.take(all.len() as int) =~= all);
    }
    match find_shard_index(shards, shards.len(), item.worker_id.as_str()) {
        None => {
            let mut message = label.to_owned();
            message.append(" plan item ");
            append_decimal(&mut message, item.index as u64);
            message.append(" references unknown runtime worker `");
            message.append(item.worker_id.as_str());
            message.append("`");
            Err(item_error(message.as_str()))
        },
        Some(k) => {
            let shard = &shards[k];
            proof {
                assert(all[k as int] == shard.deep_view());
            }
            let end_lane: usize = shard.start_lane + shard.lanes;
            if item.lane < shard.start_lane || item.lane >= end_lane {
                let mut message = label.to_owned();
                message.append(" plan item ");
                append_decimal(&mut message, item.index as u64);
                message.append(" lane ");
                append_decimal(&mut message, item.lane as u64);
                message.append(" is outside worker `");
                message.append(item.worker_id.as_str());
                message.append("` lane range ");
                append_decimal(&mut message, shard.start_lane as u64);
                message.append("..");
                append_decimal(&mut message, end_lane as u64);
                return Err(item_error(message.as_str()));
            }
            Ok(())
        },
    }
}

/// Checks where the result of an event item comes from.
fn check_provenance(item: &RuntimeSurrogateItemAttachment) -> (r: Result<(), ErrorReport>)
    ensures
        fails_with(r, provenance_problem(item.deep_view())),
{
    if item.source_result == GemmRuntimeSourceResult::Surrogate && item.exact {
        let mut message = "event plan item ".to_owned();
        append_decimal(&mut message, item.index as u64);
        message.append(" surrogate provenance is exact");
        return Err(item_error(message.as_str()));
    }
    if item.source_result == GemmRuntimeSourceResult::Exact && !item.exact {
        let mut message = "event plan item ".to_owned();
        append_decimal(&mut message, item.index as u64);
        message.append(" exact provenance is approximate");
        return Err(item_error(message.as_str()));
    }
    Ok(())
}

// ---------------------------------------------------------------------------
// Counting over shards
// ---------------------------------------------------------------------------

/// A worker has a shard exactly if some shard bears its id.
pub proof fn lemma_find_shard(shards: Seq<RuntimeShardInfoView>, id: Seq<char>)
    ensures
        find_shard(shards, id) is Some <==> exists|i: int|
            0 <= i < shards.len() && (#[trigger] shards[i]).worker_id == id,
        find_shard(shards, id) matches Some(k) ==> 0 <= k < shards.len() && shards[k].worker_id
            == id,
{
    let p = |i: int| shards[i].worker_id == id;
    lemma_first_index(shards.len(), p);
    if exists|i: int| 0 <= i < shards.len() && (#[trigger] shards[i]).worker_id == id {
        let i = choose|i: int| 0 <= i < shards.len() && (#[trigger] shards[i]).worker_id == id;
        assert(p(i));
    }
}

/// A summary that is found is of the worker that was looked for.
pub proof fn lemma_find_summary(workers: Seq<GemmRuntimeWorkerSummary>, id: Seq<char>)
    ensures
        find_summary(workers, id) matches Some(k) ==> 0 <= k < workers.len()
            && workers[k].worker_id@ == id,
{
    lemma_first_index(workers.len(), is_summary_of(workers, id));
}

proof fn lemma_find_shard_step(shards: Seq<RuntimeShardInfoView>, n: int, id: Seq<char>)
    requires
        0 <= n < shards.len(),
    ensures
        find_shard(shards.take(n + 1), id) is Some <==> (find_shard(shards.take(n), id) is Some
            || shards[n].worker_id == id),
{
    lemma_find_shard(shards.take(n + 1), id);
    lemma_find_shard(shards.take(n), id);
    if find_shard(shards.take(n), id) is Some {
        let i = choose|i: int|
            0 <= i < n && (#[trigger] shards.take(n)[i]).worker_id == id;
        assert(shards.take(n + 1)[i].worker_id == id);
    }
    if shards[n].worker_id == id {
        assert(shards.take(n + 1)[n].worker_id == id);
    }
    if find_shard(shards.take(n + 1), id) is Some {
        let i = choose|i: int|
            0 <= i < n + 1 && (#[trigger] shards.take(n + 1)[i]).worker_id == id;
        if i < n {
            assert(shards.take(n)[i].worker_id == id);
        }
    }
}

/// With one shard per worker, the items of the first `n` shards are counted once
/// each.
proof fn lemma_worker_counts_add_up(
    shards: Seq<RuntimeShardInfoView>,
    items: Seq<RuntimeSurrogateItemAttachmentView>,
    p: spec_fn(RuntimeSurrogateItemAttachmentView) -> bool,
    n: int,
)
    requires
        shards_problem(shards) is None,
        0 <= n <= shards.len(),
    ensures
        sum_by(
            shards.take(n),
            |s: RuntimeShardInfoView| worker_count(items, s.worker_id, p) as int,
        ) == count_if(
            items,
            |x: RuntimeSurrogateItemAttachmentView|
                find_shard(shards.take(n), x.worker_id) is Some && p(x),
        ),
        sum_by(
            shards.take(n),
            |s: RuntimeShardInfoView| worker_count(items, s.worker_id, p) as int,
        ) <= items.len(),
    decreases n,
{
    let measure = |s: RuntimeShardInfoView| worker_count(items, s.worker_id, p) as int;
    let whole = |x: RuntimeSurrogateItemAttachmentView|
        find_shard(shards.take(n), x.worker_id) is Some && p(x);
    lemma_count_if_bound(items, whole);
    if n == 0 {
        assert forall|i: int| 0 <= i < items.len() implies !whole(#[trigger] items[i]) by {
            lemma_find_shard(shards.take(0), items[i].worker_id);
        }
        lemma_count_if_same(items, whole, |x: RuntimeSurrogateItemAttachmentView| false);
        lemma_count_if_never(items);
    } else {
        lemma_worker_counts_add_up(shards, items, p, n - 1);
        lemma_sum_by_take(shards, n - 1, measure);
        let id = shards[n - 1].worker_id;
        let before = |x: RuntimeSurrogateItemAttachmentView|
            find_shard(shards.take(n - 1), x.worker_id) is Some && p(x);
        let own = |x: RuntimeSurrogateItemAttachmentView| x.worker_id == id && p(x);
        let check = |i: int| shard_problem(shards, i);
        lemma_first_problem_none(shards.len(), check);
        assert(check(n - 1) is None);
        assert forall|i: int| 0 <= i < items.len() implies (whole(#[trigger] items[i]) <==> before(
            items[i],
        ) || own(items[i])) && !(before(items[i]) && own(items[i])) by {
            lemma_find_shard_step(shards, n - 1, items[i].worker_id);
        }
        lemma_count_if_split(items, before, own, whole);
    }
}

proof fn lemma_count_if_never(items: Seq<RuntimeSurrogateItemAttachmentView>)
    ensures
        count_if(items, |x: RuntimeSurrogateItemAttachmentView| false) == 0,
    decreases items.len(),
{
    if items.len() > 0 {
        lemma_count_if_never(items.drop_last());
    }
}

/// Checks the summaries against the items and attaches the workers.
fn attach_workers(
    label: &str,
    schema: &str,
    shards: &Vec<RuntimeShardInfo>,
    workers: &Vec<GemmRuntimeWorkerSummary>,
    items: Vec<RuntimeSurrogateItemAttachment>,
    total_lanes: usize,
) -> (r: Result<RuntimeSurrogateAttachment, ErrorReport>)
    requires
        shards_problem(shards.deep_view()) is None,
        total_lanes == total_shard_lanes(shards.deep_view()),
    ensures
        fails_with(
            r,
            summaries_problem(label@, shards.deep_view(), workers@, items.deep_view()),
        ),
        r matches Ok(a) ==> a.deep_view() == attachment_of(
            schema@,
            shards.deep_view(),
            items.deep_view(),
        ),
{
    let ghost all = shards.deep_view();
    let ghost its = items.deep_view();
    let ghost check = |i: int| summary_problem(label@, all, workers@, its, i);
    let ghost attach = |s: RuntimeShardInfoView| attached_worker(s, its);
    let ghost of_surrogate = is_from(GemmRuntimeSourceResult::Surrogate);
    let ghost of_exact = is_from(GemmRuntimeSourceResult::Exact);
    let ghost surrogate_measure = |s: RuntimeShardInfoView|
        worker_count(its, s.worker_id, of_surrogate) as int;
    let ghost exact_measure = |s: RuntimeShardInfoView|
        worker_count(its, s.worker_id, of_exact) as int;
    let ghost attached = all.map_values(attach);
    proof {
        assert(workers@.take(workers@.len() as int) =~= workers@);
        assert(attached.take(0) =~= Seq::empty());
    }
    let mut attachments: Vec<RuntimeSurrogateWorkerAttachment> = no_items();
    let mut used_surrogate: usize = 0;
    let mut exact_fallbacks: usize = 0;
    let mut i: usize = 0;
    while i < shards.len()
        invariant
            i <= shards.len(),
            all == shards.deep_view(),
            its == items.deep_view(),
            workers@.take(workers@.len() as int) == workers@,
            check == (|i: int| summary_problem(label@, all, workers@, its, i)),
            attach == (|s: RuntimeShardInfoView| attached_worker(s, its)),
            attached == all.map_values(attach),
            of_surrogate == is_from(GemmRuntimeSourceResult::Surrogate),
            of_exact == is_from(GemmRuntimeSourceResult::Exact),
            surrogate_measure == (|s: RuntimeShardInfoView|
                worker_count(its, s.worker_id, of_surrogate) as int),
            exact_measure == (|s: RuntimeShardInfoView|
                worker_count(its, s.worker_id, of_exact) as int),
            shards_problem(all) is None,
            first_problem(i as nat, check) is None,
            used_surrogate == sum_by(all.take(i as int), surrogate_measure),
            exact_fallbacks == sum_by(all.take(i as int), exact_measure),
            attachments.deep_view() == attached.take(i as int),
        decreases shards.len() - i,
    {
        let shard = &shards[i];
        proof {
            assert(all[i as int] == shard.deep_view());
            if check(i as int) is Some {
                lemma_first_problem_stays((i + 1) as nat, all.len(), check);
            }
        }
        let planned = match find_summary_index(workers, workers.len(), shard.worker_id.as_str()) {
            None => {
                let mut message = label.to_owned();
                message.append(" plan missing runtime worker `");
                message.append(shard.worker_id.as_str());
                message.append("`");
                return Err(worker_error(message.as_str()));
            },
            Some(k) => &workers[k],
        };
        let scope = ItemScope::Worker(shard.worker_id.as_str());
        let tally = tally_items(&items, &scope);
        proof {
            let id = shard.worker_id@;
            lemma_scoped_is_worker(its, scope, id, is_any());
            lemma_scoped_is_worker(its, scope, id, of_surrogate);
            lemma_scoped_is_worker(its, scope, id, of_exact);
        }
        if planned.assigned_items != tally.assigned || planned.used_surrogate != tally.surrogate
            || planned.exact_fallbacks != tally.exact {
            let mut message = label.to_owned();
            message.append(" worker `");
            message.append(shard.worker_id.as_str());
            message.append("` summary counts do not match attached items");
            return Err(worker_error(message.as_str()));
        }
        proof {
            lemma_worker_counts_add_up(all, its, of_surrogate, i + 1);
            lemma_worker_counts_add_up(all, its, of_exact, i + 1);
            assert(its.len() == items.len());
            lemma_sum_by_take(all, i as int, surrogate_measure);
            lemma_sum_by_take(all, i as int, exact_measure);
        }
        used_surrogate = used_surrogate + tally.surrogate;
        exact_fallbacks = exact_fallbacks + tally.exact;
        push_item(
            &mut attachments,
            RuntimeSurrogateWorkerAttachment {
                worker_id: shard.worker_id.clone(),
                node: shard.node.clone(),
                backend: shard.backend,
                start_lane: shard.start_lane,
                lanes: shard.lanes,
                assigned_items: tally.assigned,
                used_surrogate: tally.surrogate,
                exact_fallbacks: tally.exact,
            },
        );
        proof {
            assert(attached.take(i + 1) =~= attached.take(i as int).push(attached[i as int]));
        }
        i = i + 1;
    }
    proof {
        assert(all.take(i as int) =~= all);
        assert(attached.take(i as int) =~= attached);
    }
    let item_count: usize = items.len();
    let r = RuntimeSurrogateAttachment {
        format_version: RUNTIME_SURROGATE_ATTACHMENT_FORMAT_VERSION,
        plan_schema: schema.to_owned(),
        total_lanes,
        workers: attachments,
        items,
        health: RuntimeSurrogateHealth {
            ready: true,
            worker_count: shards.len(),
            item_count,
            used_surrogate,
            exact_fallbacks,
            diagnostics: no_items(),
        },
    };
    proof {
        assert(r.deep_view() =~= attachment_of(schema@, all, its));
    }
    Ok(r)
}

proof fn lemma_scoped_is_worker(
    items: Seq<RuntimeSurrogateItemAttachmentView>,
    scope: ItemScope,
    id: Seq<char>,
    p: spec_fn(RuntimeSurrogateItemAttachmentView) -> bool,
)
    requires
        scope matches ItemScope::Worker(w) && w@ == id,
    ensures
        scoped_count(items, scope, p) == worker_count(items, id, p),
{
    lemma_count_if_same(
        items,
        |x: RuntimeSurrogateItemAttachmentView| in_scope(scope, x) && p(x),
        |x: RuntimeSurrogateItemAttachmentView| x.worker_id == id && p(x),
    );
}

// ---------------------------------------------------------------------------
// Attaching
// ---------------------------------------------------------------------------

/// The attached divergence of a shadow run.
pub open spec fn gemm_divergence(d: GemmDivergence) -> RuntimeSurrogateGemmDivergence {
    RuntimeSurrogateGemmDivergence {
        row: d.row,
        col: d.col,
        expected: d.expected,
        actual: d.actual,
    }
}

fn runtime_gemm_divergence(divergence: &GemmDivergence) -> (r: RuntimeSurrogateGemmDivergence)
    ensures
        r == gemm_divergence(*divergence),
{
    RuntimeSurrogateGemmDivergence {
        row: divergence.row,
        col: divergence.col,
        expected: divergence.expected,
        actual: divergence.actual,
    }
}

/// The decision of an event item, in the terms of attachments.
pub open spec fn gemm_decision(decision: EventPolicyDecision) -> GemmPolicyDecision {
    match decision {
        EventPolicyDecision::SurrogateUsed => GemmPolicyDecision::SurrogateUsed,
        EventPolicyDecision::ExactFallback => GemmPolicyDecision::ExactFallback,
        EventPolicyDecision::FailClosed => GemmPolicyDecision::FailClosed,
        EventPolicyDecision::ShadowCompare => GemmPolicyDecision::ShadowCompare,
    }
}

fn event_decision_to_gemm(decision: EventPolicyDecision) -> (r: GemmPolicyDecision)
    ensures
        r == gemm_decision(decision),
{
    match decision {
        EventPolicyDecision::SurrogateUsed => GemmPolicyDecision::SurrogateUsed,
        EventPolicyDecision::ExactFallback => GemmPolicyDecision::ExactFallback,
        EventPolicyDecision::FailClosed => GemmPolicyDecision::FailClosed,
        EventPolicyDecision::ShadowCompare => GemmPolicyDecision::ShadowCompare,
    }
}

/// The attachment of a GEMM item.
pub open spec fn gemm_item(item: GemmRuntimePlanItem) -> RuntimeSurrogateItemAttachmentView {
    RuntimeSurrogateItemAttachmentView {
        index: item.index,
        sample_id: None,
        target: None,
        lane: item.lane,
        worker_id: item.worker_id@,
        decision: item.decision,
        source_result: item.source_result,
        provenance_tag: item.provenance.tag@,
        exact: item.provenance.exact,
        surrogate_id: item.provenance.surrogate_id@,
        shadow_ok: item.shadow_ok,
        shadow_error: item.shadow_error.deep_view(),
        shadow_predicted: None,
        shadow_expected: None,
        shadow_max_abs_error: item.shadow_max_abs_error,
        shadow_latency_error_cycles: item.shadow_latency_error_cycles,
        shadow_first_divergence: match item.shadow_first_divergence {
            Some(d) => Some(gemm_divergence(d)),
            None => None,
        },
    }
}

/// The attachment of an event item. An empty target is no target.
pub open spec fn event_item(item: EventRuntimePlanItem) -> RuntimeSurrogateItemAttachmentView {
    RuntimeSurrogateItemAttachmentView {
        index: item.index,
        sample_id: Some(item.sample_id),
        target: if item.target@.len() == 0 {
            None
        } else {
            Some(item.target@)
        },
        lane: item.lane,
        worker_id: item.worker_id@,
        decision: gemm_decision(item.decision),
        source_result: item.source_result,
        provenance_tag: item.provenance.tag@,
        exact: item.provenance.exact,
        surrogate_id: item.provenance.surrogate_id@,
        shadow_ok: item.shadow_ok,
        shadow_error: item.shadow_error.deep_view(),
        shadow_predicted: item.predicted,
        shadow_expected: item.expected,
        shadow_max_abs_error: None,
        shadow_latency_error_cycles: None,
        shadow_first_divergence: None,
    }
}

fn attach_gemm_item(item: &GemmRuntimePlanItem) -> (r: RuntimeSurrogateItemAttachment)
    ensures
        r.deep_view() == gemm_item(*item),
{
    RuntimeSurrogateItemAttachment {
        index: item.index,
        sample_id: None,
        target: None,
        lane: item.lane,
        worker_id: item.worker_id.clone(),
        decision: item.decision,
        source_result: item.source_result,
        provenance_tag: item.provenance.tag.clone(),
        exact: item.provenance.exact,
        surrogate_id: item.provenance.surrogate_id.clone(),
        shadow_ok: item.shadow_ok,
        shadow_error: item.shadow_error.clone(),
        shadow_predicted: None,
        shadow_expected: None,
        shadow_max_abs_error: item.shadow_max_abs_error,
        shadow_latency_error_cycles: item.shadow_latency_error_cycles,
        shadow_first_divergence: match &item.shadow_first_divergence {
            Some(d) => Some(runtime_gemm_divergence(d)),
            None => None,
        },
    }
}

fn attach_event_item(item: &EventRuntimePlanItem) -> (r: RuntimeSurrogateItemAttachment)
    ensures
        r.deep_view() == event_item(*item),
{
    RuntimeSurrogateItemAttachment {
        index: item.index,
        sample_id: Some(item.sample_id),
        target: if item.target.as_str().is_empty() {
            None
        } else {
            Some(item.target.clone())
        },
        lane: item.lane,
        worker_id: item.worker_id.clone(),
        decision: event_decision_to_gemm(item.decision),
        source_result: item.source_result,
        provenance_tag: item.provenance.tag.clone(),
        exact: item.provenance.exact,
        surrogate_id: item.provenance.surrogate_id.clone(),
        shadow_ok: item.shadow_ok,
        shadow_error: item.shadow_error.clone(),
        shadow_predicted: item.predicted,
        shadow_expected: item.expected,
        shadow_max_abs_error: None,
        shadow_latency_error_cycles: None,
        shadow_first_divergence: None,
    }
}

/// All items of a GEMM plan, attached.
pub open spec fn gemm_items(plan: GemmRuntimePlan) -> Seq<RuntimeSurrogateItemAttachmentView> {
    plan.items@.map_values(|item: GemmRuntimePlanItem| gemm_item(item))
}

/// All items of an event plan, attached.
pub open spec fn event_items(plan: EventRuntimePlan) -> Seq<RuntimeSurrogateItemAttachmentView> {
    plan.items@.map_values(|item: EventRuntimePlanItem| event_item(item))
}

/// What is wrong with the head of a GEMM plan: its schema, its state or its
/// number of lanes.
pub open spec fn gemm_head_problem(shards: Seq<RuntimeShardInfoView>, plan: GemmRuntimePlan) -> Option<
    ErrorReportView,
> {
    if plan.schema@ != GEMM_RUNTIME_PLAN_SCHEMA@ {
        Some(
            report(
                "E_RUNTIME_SURROGATE_ATTACHMENT_SCHEMA"@,
                "unsupported GEMM runtime plan schema `"@ + plan.schema@ + "`, expected `"@
                    + GEMM_RUNTIME_PLAN_SCHEMA@ + "`"@,
            ),
        )
    } else if !plan.ok {
        Some(
            report(
                "E_RUNTIME_SURROGATE_ATTACHMENT_PLAN"@,
                "cannot attach surrogate runtime plan that is not ok"@,
            ),
        )
    } else if plan.errors@.len() > 0 {
        Some(
            report(
                "E_RUNTIME_SURROGATE_ATTACHMENT_PLAN"@,
                "cannot attach surrogate runtime plan with validation errors"@,
            ),
        )
    } else {
        lanes_problem("surrogate"@, shards, plan.total_lanes)
    }
}

/// What is wrong with the head of an event plan.
pub open spec fn event_head_problem(shards: Seq<RuntimeShardInfoView>, plan: EventRuntimePlan) -> Option<
    ErrorReportView,
> {
    if plan.schema@ != EVENT_RUNTIME_PLAN_SCHEMA@ {
        Some(
            report(
                "E_RUNTIME_SURROGATE_ATTACHMENT_SCHEMA"@,
                "unsupported event runtime plan schema `"@ + plan.schema@ + "`, expected `"@
                    + EVENT_RUNTIME_PLAN_SCHEMA@ + "`"@,
            ),
        )
    } else if !plan.ok || plan.errors@.len() > 0 {
        Some(
            report(
                "E_RUNTIME_SURROGATE_ATTACHMENT_PLAN"@,
                "cannot attach event runtime plan that is not ok"@,
            ),
        )
    } else {
        lanes_problem("event"@, shards, plan.total_lanes)
    }
}

/// A plan must cover as many lanes as the shards own.
pub open spec fn lanes_problem(
    label: Seq<char>,
    shards: Seq<RuntimeShardInfoView>,
    plan_lanes: usize,
) -> Option<ErrorReportView> {
    if plan_lanes != total_shard_lanes(shards) {
        Some(
            report(
                "E_RUNTIME_SURROGATE_ATTACHMENT_LANES"@,
                label + " plan total lanes "@ + decimal(plan_lanes as nat)
                    + " does not match runtime total lanes "@ + decimal(
                    total_shard_lanes(shards) as nat,
                ),
            ),
        )
    } else {
        None
    }
}

/// The first problem of a GEMM plan.
pub open spec fn gemm_plan_problem(shards: Seq<RuntimeShardInfoView>, plan: GemmRuntimePlan) -> Option<
    ErrorReportView,
> {
    or_problem(
        gemm_head_problem(shards, plan),
        or_problem(
            shards_problem(shards),
            or_problem(
                plan_workers_problem("surrogate"@, shards, plan.workers@),
                or_problem(
                    worker_number_problem("surrogate"@, shards, plan.workers@),
                    or_problem(
                        first_problem(
                            plan.items@.len(),
                            |i: int| item_problem("surrogate"@, shards, gemm_items(plan)[i]),
                        ),
                        summaries_problem("surrogate"@, shards, plan.workers@, gemm_items(plan)),
                    ),
                ),
            ),
        ),
    )
}

/// Whether the lanes of a GEMM plan fit, where no problem comes before they are looked at.
pub open spec fn gemm_lanes_fit(shards: Seq<RuntimeShardInfoView>, plan: GemmRuntimePlan) -> bool {
    gemm_head_problem(shards, plan) is None && shards_problem(shards) is None ==> worker_lanes_fit(
        "surrogate"@,
        shards,
        plan.workers@,
    )
}

/// The first problem of an event item.
pub open spec fn event_item_problem(
    shards: Seq<RuntimeShardInfoView>,
    item: RuntimeSurrogateItemAttachmentView,
) -> Option<ErrorReportView> {
    or_problem(item_problem("event"@, shards, item), provenance_problem(item))
}

/// The first problem of an event plan.
pub open spec fn event_plan_problem(shards: Seq<RuntimeShardInfoView>, plan: EventRuntimePlan) -> Option<
    ErrorReportView,
> {
    or_problem(
        event_head_problem(shards, plan),
        or_problem(
            shards_problem(shards),
            or_problem(
                worker_number_problem("event"@, shards, plan.workers@),
                or_problem(
                    plan_workers_problem("event"@, shards, plan.workers@),
                    or_problem(
                        first_problem(
                            plan.items@.len(),
                            |i: int| event_item_problem(shards, event_items(plan)[i]),
                        ),
                        summaries_problem("event"@, shards, plan.workers@, event_items(plan)),
                    ),
                ),
            ),
        ),
    )
}

/// Whether the lanes of an event plan fit, where no problem comes before they are looked at.
pub open spec fn event_lanes_fit(
    shards: Seq<RuntimeShardInfoView>,
    plan: EventRuntimePlan,
) -> bool {
    event_head_problem(shards, plan) is None && shards_problem(shards) is None
        && worker_number_problem("event"@, shards, plan.workers@) is None ==> worker_lanes_fit(
        "event"@,
        shards,
        plan.workers@,
    )
}

fn shard_lane_total(shards: &Vec<RuntimeShardInfo>) -> (r: usize)
    requires
        shard_lanes_fit(shards.deep_view()),
    ensures
        r == total_shard_lanes(shards.deep_view()),
{
    let ghost all = shards.deep_view();
    let ghost lanes = |s: RuntimeShardInfoView| s.lanes as int;
    let mut total: usize = 0;
    let mut i: usize = 0;
    while i < shards.len()
        invariant
            i <= shards.len(),
            all == shards.deep_view(),
            lanes == (|s: RuntimeShardInfoView| s.lanes as int),
            sum_by(all, lanes) <= usize::MAX,
            total == sum_by(all.take(i as int), lanes),
        decreases shards.len() - i,
    {
        proof {
            assert(all[i as int] == shards[i as int].deep_view());
            lemma_sum_by_step(all, i as int, lanes);
        }
        total = total + shards[i].lanes;
        i = i + 1;
    }
    proof {
        assert(all.take(i as int) =~= all);
    }
    total
}

fn check_lanes(label: &str, plan_lanes: usize, total: usize, shards: &Vec<RuntimeShardInfo>) -> (r:
    Result<(), ErrorReport>)
    requires
        total == total_shard_lanes(shards.deep_view()),
    ensures
        fails_with(r, lanes_problem(label@, shards.deep_view(), plan_lanes)),
{
    if plan_lanes != total {
        let mut message = label.to_owned();
        message.append(" plan total lanes ");
        append_decimal(&mut message, plan_lanes as u64);
        message.append(" does not match runtime total lanes ");
        append_decimal(&mut message, total as u64);
        return Err(error("E_RUNTIME_SURROGATE_ATTACHMENT_LANES", message.as_str()));
    }
    Ok(())
}

/// Attaches a GEMM plan to shards.
pub fn attach_gemm_runtime_plan_to_shard_infos(
    shards: &Vec<RuntimeShardInfo>,
    plan: &GemmRuntimePlan,
) -> (r: Result<RuntimeSurrogateAttachment, ErrorReport>)
    requires
        plan.schema@ == GEMM_RUNTIME_PLAN_SCHEMA@ && plan.ok && plan.errors@.len() == 0
            ==> shard_lanes_fit(shards.deep_view()),
        gemm_lanes_fit(shards.deep_view(), *plan),
    ensures
        fails_with(r, gemm_plan_problem(shards.deep_view(), *plan)),
        r matches Ok(a) ==> a.deep_view() == attachment_of(
            plan.schema@,
            shards.deep_view(),
            gemm_items(*plan),
        ),
{
    if !same_text(plan.schema.as_str(), GEMM_RUNTIME_PLAN_SCHEMA) {
        let mut message = "unsupported GEMM runtime plan schema `".to_owned();
        message.append(plan.schema.as_str());
        message.append("`, expected `");
        message.append(GEMM_RUNTIME_PLAN_SCHEMA);
        message.append("`");
        return Err(error("E_RUNTIME_SURROGATE_ATTACHMENT_SCHEMA", message.as_str()));
    }
    if !plan.ok {
        return Err(
            error(
                "E_RUNTIME_SURROGATE_ATTACHMENT_PLAN",
                "cannot attach surrogate runtime plan that is not ok",
            ),
        );
    }
    if !plan.errors.is_empty() {
        return Err(
            error(
                "E_RUNTIME_SURROGATE_ATTACHMENT_PLAN",
                "cannot attach surrogate runtime plan with validation errors",
            ),
        );
    }
    let total: usize = shard_lane_total(shards);
    check_lanes("surrogate", plan.total_lanes, total, shards)?;
    runtime_shards_by_worker(shards)?;
    check_plan_workers("surrogate", shards, &plan.workers)?;
    check_worker_number("surrogate", shards, &plan.workers)?;

    let ghost all = shards.deep_view();
    let ghost attached = gemm_items(*plan);
    let ghost check = |i: int| item_problem("surrogate"@, all, attached[i]);
    let mut items: Vec<RuntimeSurrogateItemAttachment> = no_items();
    proof {
        assert(attached.take(0) =~= Seq::empty());
    }
    let mut i: usize = 0;
    while i < plan.items.len()
        invariant
            i <= plan.items.len(),
            all == shards.deep_view(),
            shard_lanes_fit(all),
            attached == gemm_items(*plan),
            check == (|i: int| item_problem("surrogate"@, all, attached[i])),
            first_problem(i as nat, check) is None,
            items.deep_view() == attached.take(i as int),
            gemm_head_problem(all, *plan) is None,
            shards_problem(all) is None,
            plan_workers_problem("surrogate"@, all, plan.workers@) is None,
            worker_number_problem("surrogate"@, all, plan.workers@) is None,
        decreases plan.items.len() - i,
    {
        let item = attach_gemm_item(&plan.items[i]);
        proof {
            assert(item.deep_view() == attached[i as int]);
            if check(i as int) is Some {
                lemma_first_problem_stays((i + 1) as nat, plan.items@.len(), check);
            }
        }
        check_item("surrogate", shards, &item)?;
        push_item(&mut items, item);
        proof {
            assert(attached.take(i + 1) =~= attached.take(i as int).push(attached[i as int]));
        }
        i = i + 1;
    }
    proof {
        assert(attached.take(i as int) =~= attached);
    }
    attach_workers("surrogate", plan.schema.as_str(), shards, &plan.workers, items, total)
}

/// Attaches an event plan to shards.
pub fn attach_event_runtime_plan_to_shard_infos(
    shards: &Vec<RuntimeShardInfo>,
    plan: &EventRuntimePlan,
) -> (r: Result<RuntimeSurrogateAttachment, ErrorReport>)
    requires
        plan.schema@ == EVENT_RUNTIME_PLAN_SCHEMA@ && plan.ok && plan.errors@.len() == 0
            ==> shard_lanes_fit(shards.deep_view()),
        event_lanes_fit(shards.deep_view(), *plan),
    ensures
        fails_with(r, event_plan_problem(shards.deep_view(), *plan)),
        r matches Ok(a) ==> a.deep_view() == attachment_of(
            plan.schema@,
            shards.deep_view(),
            event_items(*plan),
        ),
{
    if !same_text(plan.schema.as_str(), EVENT_RUNTIME_PLAN_SCHEMA) {
        let mut message = "unsupported event runtime plan schema `".to_owned();
        message.append(plan.schema.as_str());
        message.append("`, expected `");
        message.append(EVENT_RUNTIME_PLAN_SCHEMA);
        message.append("`");
        return Err(error("E_RUNTIME_SURROGATE_ATTACHMENT_SCHEMA", message.as_str()));
    }
    if !plan.ok || !plan.errors.is_empty() {
        return Err(
            error(
                "E_RUNTIME_SURROGATE_ATTACHMENT_PLAN",
                "cannot attach event runtime plan that is not ok",
            ),
        );
    }
    let total: usize = shard_lane_total(shards);
    check_lanes("event", plan.total_lanes, total, shards)?;
    runtime_shards_by_worker(shards)?;
    check_worker_number("event", shards, &plan.workers)?;
    check_plan_workers("event", shards, &plan.workers)?;

    let ghost all = shards.deep_view();
    let ghost attached = event_items(*plan);
    let ghost check = |i: int| event_item_problem(all, attached[i]);
    let mut items: Vec<RuntimeSurrogateItemAttachment> = no_items();
    proof {
        assert(attached.take(0) =~= Seq::empty());
    }
    let mut i: usize = 0;
    while i < plan.items.len()
        invariant
            i <= plan.items.len(),
            all == shards.deep_view(),
            shard_lanes_fit(all),
            attached == event_items(*plan),
            check == (|i: int| event_item_problem(all, attached[i])),
            first_problem(i as nat, check) is None,
            items.deep_view() == attached.take(i as int),
            event_head_problem(all, *plan) is None,
            shards_problem(all) is None,
            plan_workers_problem("event"@, all, plan.workers@) is None,
            worker_number_problem("event"@, all, plan.workers@) is None,
        decreases plan.items.len() - i,
    {
        let item = attach_event_item(&plan.items[i]);
        proof {
            assert(item.deep_view() == attached[i as int]);
            if check(i as int) is Some {
                lemma_first_problem_stays((i + 1) as nat, plan.items@.len(), check);
            }
        }
        check_item("event", shards, &item)?;
        check_provenance(&item)?;
        push_item(&mut items, item);
        proof {
            assert(attached.take(i + 1) =~= attached.take(i as int).push(attached[i as int]));
        }
        i = i + 1;
    }
    proof {
        assert(attached.take(i as int) =~= attached);
    }
    attach_workers("event", plan.schema.as_str(), shards, &plan.workers, items, total)
}

impl RuntimeTopology {
    /// Attaches a GEMM plan to the shards of the topology.
    pub fn attach_gemm_runtime_plan(&self, plan: &GemmRuntimePlan) -> (r: Result<
        RuntimeSurrogateAttachment,
        ErrorReport,
    >)
        requires
            total_lanes(self.deep_view().workers) <= usize::MAX,
            gemm_lanes_fit(shards_of(self.deep_view().workers), *plan),
        ensures
            fails_with(r, gemm_plan_problem(shards_of(self.deep_view().workers), *plan)),
            r matches Ok(a) ==> a.deep_view() == attachment_of(
                plan.schema@,
                shards_of(self.deep_view().workers),
                gemm_items(*plan),
            ),
    {
        let shards = self.shard_infos();
        proof {
            lemma_shards_keep_lanes(self.deep_view().workers);
        }
        attach_gemm_runtime_plan_to_shard_infos(&shards, plan)
    }

    /// Attaches an event plan to the shards of the topology.
    pub fn attach_event_runtime_plan(&self, plan: &EventRuntimePlan) -> (r: Result<
        RuntimeSurrogateAttachment,
        ErrorReport,
    >)
        requires
            total_lanes(self.deep_view().workers) <= usize::MAX,
            event_lanes_fit(shards_of(self.deep_view().workers), *plan),
        ensures
            fails_with(r, event_plan_problem(shards_of(self.deep_view().workers), *plan)),
            r matches Ok(a) ==> a.deep_view() == attachment_of(
                plan.schema@,
                shards_of(self.deep_view().workers),
                event_items(*plan),
            ),
    {
        let shards = self.shard_infos();
        proof {
            lemma_shards_keep_lanes(self.deep_view().workers);
        }
        attach_event_runtime_plan_to_shard_infos(&shards, plan)
    }
}

// ---------------------------------------------------------------------------
// Laws
// ---------------------------------------------------------------------------

/// In an accepted plan every item lies on a lane that a shard of its worker owns.
pub proof fn lemma_attached_item_has_shard(
    label: Seq<char>,
    shards: Seq<RuntimeShardInfoView>,
    item: RuntimeSurrogateItemAttachmentView,
)
    requires
        item_problem(label, shards, item) is None,
    ensures
        exists|k: int|
            0 <= k < shards.len() && (#[trigger] shards[k]).worker_id == item.worker_id
                && shard_owns(shards[k], item.lane as int),
{
    lemma_find_shard(shards, item.worker_id);
    let k = find_shard(shards, item.worker_id)->0;
    assert(shards[k].worker_id == item.worker_id);
}

/// The health of an attachment counts every item exactly once: as a surrogate
/// result or as an exact one.
pub proof fn lemma_attachment_counts_every_item(
    label: Seq<char>,
    schema: Seq<char>,
    shards: Seq<RuntimeShardInfoView>,
    items: Seq<RuntimeSurrogateItemAttachmentView>,
)
    requires
        shards_problem(shards) is None,
        items.len() <= usize::MAX,
        forall|i: int|
            0 <= i < items.len() ==> (#[trigger] item_problem(label, shards, items[i])) is None,
    ensures
        ({
            let health = attachment_of(schema, shards, items).health;
            &&& health.item_count == items.len()
            &&& health.used_surrogate == count_if(
                items,
                is_from(GemmRuntimeSourceResult::Surrogate),
            )
            &&& health.exact_fallbacks == count_if(items, is_from(GemmRuntimeSourceResult::Exact))
            &&& health.used_surrogate + health.exact_fallbacks == health.item_count
        }),
{
    let of_surrogate = is_from(GemmRuntimeSourceResult::Surrogate);
    let of_exact = is_from(GemmRuntimeSourceResult::Exact);
    let n = shards.len() as int;
    assert(shards.take(n) =~= shards);
    lemma_worker_counts_add_up(shards, items, of_surrogate, n);
    lemma_worker_counts_add_up(shards, items, of_exact, n);
    assert forall|i: int| 0 <= i < items.len() implies find_shard(
        shards,
        (#[trigger] items[i]).worker_id,
    ) is Some by {
        assert(item_problem(label, shards, items[i]) is None);
    }
    lemma_count_if_same(
        items,
        |x: RuntimeSurrogateItemAttachmentView|
            find_shard(shards.take(n), x.worker_id) is Some && of_surrogate(x),
        of_surrogate,
    );
    lemma_count_if_same(
        items,
        |x: RuntimeSurrogateItemAttachmentView|
            find_shard(shards.take(n), x.worker_id) is Some && of_exact(x),
        of_exact,
    );
    lemma_count_if_split(items, of_surrogate, of_exact, is_any());
    lemma_count_if_everything(items);
    lemma_count_if_bound(items, of_surrogate);
    lemma_count_if_bound(items, of_exact);
}

/// Every item is counted by the predicate that holds of all.
pub proof fn lemma_count_if_everything(items: Seq<RuntimeSurrogateItemAttachmentView>)
    ensures
        count_if(items, is_any()) == items.len(),
    decreases items.len(),
{
    if items.len() > 0 {
        lemma_count_if_everything(items.drop_last());
    }
}

/// An accepted plan gives every worker the items that its summary states, and the
/// workers' items are all items of the plan.
pub proof fn lemma_attached_workers_share_items(
    label: Seq<char>,
    shards: Seq<RuntimeShardInfoView>,
    items: Seq<RuntimeSurrogateItemAttachmentView>,
)
    requires
        shards_problem(shards) is None,
        forall|i: int|
            0 <= i < items.len() ==> (#[trigger] item_problem(label, shards, items[i])) is None,
    ensures
        sum_by(
            shards,
            |s: RuntimeShardInfoView| worker_count(items, s.worker_id, is_any()) as int,
        ) == items.len(),
{
    let n = shards.len() as int;
    assert(shards.take(n) =~= shards);
    lemma_worker_counts_add_up(shards, items, is_any(), n);
    assert forall|i: int| 0 <= i < items.len() implies find_shard(
        shards,
        (#[trigger] items[i]).worker_id,
    ) is Some by {
        assert(item_problem(label, shards, items[i]) is None);
    }
    lemma_count_if_same(
        items,
        |x: RuntimeSurrogateItemAttachmentView|
            find_shard(shards.take(n), x.worker_id) is Some && is_any()(x),
        is_any(),
    );
    lemma_count_if_everything(items);
}

} // verus!

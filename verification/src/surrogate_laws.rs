//! What the reports of surrogate plans owe the items that they count.

use vstd::prelude::*;

use crate::model::surrogate::{
    EventRuntimePlan, EventRuntimePlanItem, GemmPolicyDecision, GemmRuntimePlan,
    GemmRuntimePlanItem, GemmRuntimeSourceResult, RuntimeSurrogateActionKind,
    RuntimeSurrogateAttachmentView, RuntimeSurrogateEventLaneReport,
    RuntimeSurrogateEventWorkerReportView, RuntimeSurrogateItemAttachmentView,
    RuntimeSurrogateWorkerAttachmentView, EVENT_RUNTIME_PLAN_SCHEMA, GEMM_RUNTIME_PLAN_SCHEMA,
};
use crate::model::topology::RuntimeShardInfoView;
use crate::seqs::{
    count_if, lemma_count_if_bound, lemma_count_if_push, lemma_count_if_same,
    lemma_first_problem_none, lemma_sum_by_add, lemma_sum_by_prefix, lemma_sum_by_single,
    lemma_sum_by_zero, sum_by,
};
use crate::surrogate::{
    attachment_of, event_item, event_item_problem, event_items, event_plan_problem, find_summary,
    gemm_item, gemm_items, gemm_plan_problem, is_any, is_compared, is_from, is_shadow,
    is_unavailable, item_problem, lemma_attached_item_has_shard,
    lemma_attachment_counts_every_item, lemma_count_if_everything, lemma_find_summary,
    shards_problem, summary_problem, worker_count,
};
use crate::surrogate_report::{execution_report, item_lanes, lane_count, lemma_item_lanes};
use crate::topology::{shard_owns, total_shard_lanes};

verus! {

// ---------------------------------------------------------------------------
// Sums over parts
// ---------------------------------------------------------------------------

/// Where the parts of a list are told apart by a key and every item falls into one, the counts of
/// all parts make up the count of the whole.
proof fn lemma_parts_make_whole<K>(
    keys: Seq<K>,
    items: Seq<RuntimeSurrogateItemAttachmentView>,
    key: spec_fn(RuntimeSurrogateItemAttachmentView) -> K,
    p: spec_fn(RuntimeSurrogateItemAttachmentView) -> bool,
)
    requires
        forall|i: int, j: int| 0 <= i < j < keys.len() ==> keys[i] != keys[j],
        forall|i: int| 0 <= i < items.len() ==> keys.contains(key(#[trigger] items[i])),
    ensures
        sum_by(
            keys,
            |k: K|
                count_if(items, |x: RuntimeSurrogateItemAttachmentView| key(x) == k && p(x)) as int,
        ) == count_if(items, p),
    decreases items.len(),
{
    let all = |k: K|
        count_if(items, |x: RuntimeSurrogateItemAttachmentView| key(x) == k && p(x)) as int;
    if items.len() == 0 {
        lemma_sum_by_zero(keys, all);
    } else {
        let rest = items.drop_last();
        let x = items.last();
        assert forall|i: int| 0 <= i < rest.len() implies keys.contains(key(#[trigger] rest[i])) by {
            assert(rest[i] == items[i]);
        }
        lemma_parts_make_whole(keys, rest, key, p);
        let before = |k: K|
            count_if(rest, |x: RuntimeSurrogateItemAttachmentView| key(x) == k && p(x)) as int;
        let one = |k: K|
            if key(x) == k && p(x) {
                1int
            } else {
                0int
            };
        assert forall|i: int| 0 <= i < keys.len() implies all(#[trigger] keys[i]) == before(
            keys[i],
        ) + one(keys[i]) by {}
        lemma_sum_by_add(keys, before, one, all);
        assert(keys.contains(key(items[items.len() - 1])));
        let at = choose|at: int| 0 <= at < keys.len() && keys[at] == key(x);
        if p(x) {
            lemma_sum_by_single(keys, one, at);
        } else {
            lemma_sum_by_zero(keys, one);
        }
    }
}

/// The keys of some things, and a measure of the things that only their key decides.
proof fn lemma_sum_by_keys<A, K>(
    s: Seq<A>,
    keys: Seq<K>,
    f: spec_fn(A) -> int,
    g: spec_fn(K) -> int,
)
    requires
        s.len() == keys.len(),
        forall|i: int| 0 <= i < s.len() ==> f(#[trigger] s[i]) == g(keys[i]),
    ensures
        sum_by(s, f) == sum_by(keys, g),
    decreases s.len(),
{
    if s.len() > 0 {
        let t = s.drop_last();
        let l = keys.drop_last();
        assert forall|i: int| 0 <= i < t.len() implies f(#[trigger] t[i]) == g(l[i]) by {
            assert(f(s[i]) == g(keys[i]));
        }
        lemma_sum_by_keys(t, l, f, g);
        assert(f(s[s.len() - 1]) == g(keys[s.len() - 1]));
    }
}

proof fn lemma_lanes_sum(
    items: Seq<RuntimeSurrogateItemAttachmentView>,
    reports: Seq<RuntimeSurrogateEventLaneReport>,
    f: spec_fn(RuntimeSurrogateEventLaneReport) -> int,
    p: spec_fn(RuntimeSurrogateItemAttachmentView) -> bool,
)
    requires
        reports.len() == item_lanes(items).len(),
        forall|i: int|
            0 <= i < reports.len() ==> f(#[trigger] reports[i]) == lane_count(
                items,
                item_lanes(items)[i],
                p,
            ),
    ensures
        sum_by(reports, f) == count_if(items, p),
{
    let lanes = item_lanes(items);
    let key = |x: RuntimeSurrogateItemAttachmentView| x.lane;
    let g = |k: usize|
        count_if(items, |x: RuntimeSurrogateItemAttachmentView| key(x) == k && p(x)) as int;
    lemma_item_lanes(items);
    assert forall|i: int| 0 <= i < items.len() implies lanes.contains(key(#[trigger] items[i])) by {
        assert(items[i].lane == key(items[i]));
    }
    lemma_parts_make_whole(lanes, items, key, p);
    assert forall|i: int| 0 <= i < reports.len() implies f(#[trigger] reports[i]) == g(lanes[i]) by {
        lemma_count_if_same(
            items,
            |x: RuntimeSurrogateItemAttachmentView| x.lane == lanes[i] && p(x),
            |x: RuntimeSurrogateItemAttachmentView| key(x) == lanes[i] && p(x),
        );
    }
    lemma_sum_by_keys(reports, lanes, f, g);
}

proof fn lemma_lane_counts_bound(items: Seq<RuntimeSurrogateItemAttachmentView>, lane: usize)
    ensures
        lane_count(items, lane, is_any()) <= items.len(),
        lane_count(items, lane, is_from(GemmRuntimeSourceResult::Surrogate)) <= items.len(),
        lane_count(items, lane, is_from(GemmRuntimeSourceResult::Exact)) <= items.len(),
        lane_count(items, lane, is_compared()) <= items.len(),
        lane_count(items, lane, is_shadow(false)) <= items.len(),
{
    let p = is_any();
    lemma_count_if_bound(items, |x: RuntimeSurrogateItemAttachmentView| x.lane == lane && p(x));
    let p = is_from(GemmRuntimeSourceResult::Surrogate);
    lemma_count_if_bound(items, |x: RuntimeSurrogateItemAttachmentView| x.lane == lane && p(x));
    let p = is_from(GemmRuntimeSourceResult::Exact);
    lemma_count_if_bound(items, |x: RuntimeSurrogateItemAttachmentView| x.lane == lane && p(x));
    let p = is_compared();
    lemma_count_if_bound(items, |x: RuntimeSurrogateItemAttachmentView| x.lane == lane && p(x));
    let p = is_shadow(false);
    lemma_count_if_bound(items, |x: RuntimeSurrogateItemAttachmentView| x.lane == lane && p(x));
}

/// The lanes of a report share its items: what all lanes count together is what the report counts,
/// for surrogate results, exact fallbacks, comparisons and failed comparisons alike.
pub proof fn lemma_lanes_add_up(
    a: RuntimeSurrogateAttachmentView,
    latest: Option<RuntimeSurrogateActionKind>,
    action_count: u64,
)
    requires
        a.plan_schema == EVENT_RUNTIME_PLAN_SCHEMA@,
        a.items.len() <= usize::MAX,
    ensures
        ({
            let r = execution_report(a, latest, action_count);
            let lanes = r.event_lanes;
            &&& sum_by(lanes, |l: RuntimeSurrogateEventLaneReport| l.count as int)
                == r.attached_items
            &&& sum_by(lanes, |l: RuntimeSurrogateEventLaneReport| l.surrogate_replacements as int)
                == r.surrogate_eligible_items
            &&& sum_by(lanes, |l: RuntimeSurrogateEventLaneReport| l.exact_fallbacks as int)
                == r.exact_fallback_items
            &&& sum_by(lanes, |l: RuntimeSurrogateEventLaneReport| l.shadow_compared as int)
                == r.shadow_compared_items
            &&& sum_by(lanes, |l: RuntimeSurrogateEventLaneReport| l.shadow_failed as int)
                == r.shadow_failed_items
        }),
{
    let items = a.items;
    let lanes = execution_report(a, latest, action_count).event_lanes;
    assert forall|i: int| 0 <= i < lanes.len() implies {
        let l = #[trigger] lanes[i];
        &&& l.count == lane_count(items, item_lanes(items)[i], is_any())
        &&& l.surrogate_replacements == lane_count(
            items,
            item_lanes(items)[i],
            is_from(GemmRuntimeSourceResult::Surrogate),
        )
        &&& l.exact_fallbacks == lane_count(
            items,
            item_lanes(items)[i],
            is_from(GemmRuntimeSourceResult::Exact),
        )
        &&& l.shadow_compared == lane_count(items, item_lanes(items)[i], is_compared())
        &&& l.shadow_failed == lane_count(items, item_lanes(items)[i], is_shadow(false))
    } by {
        lemma_lane_counts_bound(items, item_lanes(items)[i]);
    }
    lemma_lanes_sum(items, lanes, |l: RuntimeSurrogateEventLaneReport| l.count as int, is_any());
    lemma_lanes_sum(
        items,
        lanes,
        |l: RuntimeSurrogateEventLaneReport| l.surrogate_replacements as int,
        is_from(GemmRuntimeSourceResult::Surrogate),
    );
    lemma_lanes_sum(
        items,
        lanes,
        |l: RuntimeSurrogateEventLaneReport| l.exact_fallbacks as int,
        is_from(GemmRuntimeSourceResult::Exact),
    );
    lemma_lanes_sum(
        items,
        lanes,
        |l: RuntimeSurrogateEventLaneReport| l.shadow_compared as int,
        is_compared(),
    );
    lemma_lanes_sum(
        items,
        lanes,
        |l: RuntimeSurrogateEventLaneReport| l.shadow_failed as int,
        is_shadow(false),
    );
    lemma_count_if_everything(items);
    lemma_count_if_bound(items, is_from(GemmRuntimeSourceResult::Surrogate));
    lemma_count_if_bound(items, is_from(GemmRuntimeSourceResult::Exact));
    lemma_count_if_bound(items, is_compared());
    lemma_count_if_bound(items, is_shadow(false));
}

proof fn lemma_workers_sum(
    workers: Seq<RuntimeSurrogateWorkerAttachmentView>,
    items: Seq<RuntimeSurrogateItemAttachmentView>,
    reports: Seq<RuntimeSurrogateEventWorkerReportView>,
    f: spec_fn(RuntimeSurrogateEventWorkerReportView) -> int,
    p: spec_fn(RuntimeSurrogateItemAttachmentView) -> bool,
)
    requires
        are_told_apart(workers),
        have_workers(items, workers),
        reports.len() == workers.len(),
        forall|i: int|
            0 <= i < reports.len() ==> f(#[trigger] reports[i]) == worker_count(
                items,
                workers[i].worker_id,
                p,
            ),
    ensures
        sum_by(reports, f) == count_if(items, p),
{
    let ids = workers.map_values(|w: RuntimeSurrogateWorkerAttachmentView| w.worker_id);
    let key = |x: RuntimeSurrogateItemAttachmentView| x.worker_id;
    let g = |k: Seq<char>|
        count_if(items, |x: RuntimeSurrogateItemAttachmentView| key(x) == k && p(x)) as int;
    assert forall|i: int, j: int| 0 <= i < j < ids.len() implies ids[i] != ids[j] by {
        assert(workers[i].worker_id != workers[j].worker_id);
    }
    assert forall|i: int| 0 <= i < items.len() implies ids.contains(key(#[trigger] items[i])) by {
        let k = choose|k: int|
            0 <= k < workers.len() && (#[trigger] workers[k]).worker_id == items[i].worker_id;
        assert(ids[k] == key(items[i]));
    }
    lemma_parts_make_whole(ids, items, key, p);
    assert forall|i: int| 0 <= i < reports.len() implies f(#[trigger] reports[i]) == g(ids[i]) by {
        lemma_count_if_same(
            items,
            |x: RuntimeSurrogateItemAttachmentView| x.worker_id == workers[i].worker_id && p(x),
            |x: RuntimeSurrogateItemAttachmentView| key(x) == ids[i] && p(x),
        );
    }
    lemma_sum_by_keys(reports, ids, f, g);
}

/// Whether no two workers share an id.
pub open spec fn are_told_apart(workers: Seq<RuntimeSurrogateWorkerAttachmentView>) -> bool {
    forall|i: int, j: int|
        0 <= i < j < workers.len() ==> (#[trigger] workers[i]).worker_id != (
        #[trigger] workers[j]).worker_id
}

/// Whether every item belongs to one of some workers.
pub open spec fn have_workers(
    items: Seq<RuntimeSurrogateItemAttachmentView>,
    workers: Seq<RuntimeSurrogateWorkerAttachmentView>,
) -> bool {
    forall|i: int|
        0 <= i < items.len() ==> exists|k: int|
            0 <= k < workers.len() && (#[trigger] workers[k]).worker_id == (
            #[trigger] items[i]).worker_id
}

proof fn lemma_worker_counts_bound(items: Seq<RuntimeSurrogateItemAttachmentView>, id: Seq<char>)
    ensures
        worker_count(items, id, is_any()) <= items.len(),
        worker_count(items, id, is_from(GemmRuntimeSourceResult::Surrogate)) <= items.len(),
        worker_count(items, id, is_from(GemmRuntimeSourceResult::Exact)) <= items.len(),
        worker_count(items, id, is_compared()) <= items.len(),
        worker_count(items, id, is_shadow(false)) <= items.len(),
{
    let p = is_any();
    lemma_count_if_bound(items, |x: RuntimeSurrogateItemAttachmentView| x.worker_id == id && p(x));
    let p = is_from(GemmRuntimeSourceResult::Surrogate);
    lemma_count_if_bound(items, |x: RuntimeSurrogateItemAttachmentView| x.worker_id == id && p(x));
    let p = is_from(GemmRuntimeSourceResult::Exact);
    lemma_count_if_bound(items, |x: RuntimeSurrogateItemAttachmentView| x.worker_id == id && p(x));
    let p = is_compared();
    lemma_count_if_bound(items, |x: RuntimeSurrogateItemAttachmentView| x.worker_id == id && p(x));
    let p = is_shadow(false);
    lemma_count_if_bound(items, |x: RuntimeSurrogateItemAttachmentView| x.worker_id == id && p(x));
}

/// The workers of a report share its items, where each item belongs to one of them: what all
/// workers count together is what the report counts.
pub proof fn lemma_workers_add_up(
    a: RuntimeSurrogateAttachmentView,
    latest: Option<RuntimeSurrogateActionKind>,
    action_count: u64,
)
    requires
        a.plan_schema == EVENT_RUNTIME_PLAN_SCHEMA@,
        a.items.len() <= usize::MAX,
        are_told_apart(a.workers),
        have_workers(a.items, a.workers),
    ensures
        ({
            let r = execution_report(a, latest, action_count);
            let workers = r.event_workers;
            &&& sum_by(workers, |w: RuntimeSurrogateEventWorkerReportView| w.assigned_items as int)
                == r.attached_items
            &&& sum_by(
                workers,
                |w: RuntimeSurrogateEventWorkerReportView| w.surrogate_replacements as int,
            ) == r.surrogate_eligible_items
            &&& sum_by(workers, |w: RuntimeSurrogateEventWorkerReportView| w.exact_fallbacks as int)
                == r.exact_fallback_items
            &&& sum_by(workers, |w: RuntimeSurrogateEventWorkerReportView| w.shadow_compared as int)
                == r.shadow_compared_items
            &&& sum_by(workers, |w: RuntimeSurrogateEventWorkerReportView| w.shadow_failed as int)
                == r.shadow_failed_items
        }),
{
    let items = a.items;
    let workers = a.workers;
    let reports = execution_report(a, latest, action_count).event_workers;
    assert forall|i: int| 0 <= i < reports.len() implies {
        let w = #[trigger] reports[i];
        let id = workers[i].worker_id;
        &&& w.assigned_items == worker_count(items, id, is_any())
        &&& w.surrogate_replacements == worker_count(
            items,
            id,
            is_from(GemmRuntimeSourceResult::Surrogate),
        )
        &&& w.exact_fallbacks == worker_count(items, id, is_from(GemmRuntimeSourceResult::Exact))
        &&& w.shadow_compared == worker_count(items, id, is_compared())
        &&& w.shadow_failed == worker_count(items, id, is_shadow(false))
    } by {
        lemma_worker_counts_bound(items, workers[i].worker_id);
    }
    lemma_workers_sum(
        workers,
        items,
        reports,
        |w: RuntimeSurrogateEventWorkerReportView| w.assigned_items as int,
        is_any(),
    );
    lemma_workers_sum(
        workers,
        items,
        reports,
        |w: RuntimeSurrogateEventWorkerReportView| w.surrogate_replacements as int,
        is_from(GemmRuntimeSourceResult::Surrogate),
    );
    lemma_workers_sum(
        workers,
        items,
        reports,
        |w: RuntimeSurrogateEventWorkerReportView| w.exact_fallbacks as int,
        is_from(GemmRuntimeSourceResult::Exact),
    );
    lemma_workers_sum(
        workers,
        items,
        reports,
        |w: RuntimeSurrogateEventWorkerReportView| w.shadow_compared as int,
        is_compared(),
    );
    lemma_workers_sum(
        workers,
        items,
        reports,
        |w: RuntimeSurrogateEventWorkerReportView| w.shadow_failed as int,
        is_shadow(false),
    );
    lemma_count_if_everything(items);
    lemma_count_if_bound(items, is_from(GemmRuntimeSourceResult::Surrogate));
    lemma_count_if_bound(items, is_from(GemmRuntimeSourceResult::Exact));
    lemma_count_if_bound(items, is_compared());
    lemma_count_if_bound(items, is_shadow(false));
}

// ---------------------------------------------------------------------------
// Items of one source
// ---------------------------------------------------------------------------

proof fn lemma_none_counted<A>(s: Seq<A>, p: spec_fn(A) -> bool)
    requires
        forall|i: int| 0 <= i < s.len() ==> !p(#[trigger] s[i]),
    ensures
        count_if(s, p) == 0,
    decreases s.len(),
{
    if s.len() > 0 {
        assert forall|i: int| 0 <= i < s.drop_last().len() implies !p(#[trigger] s.drop_last()[i]) by {
            assert(!p(s[i]));
        }
        lemma_none_counted(s.drop_last(), p);
        assert(!p(s[s.len() - 1]));
    }
}

/// On a lane where all results come from the surrogate, all are counted as replacements and none
/// as fallbacks; on a lane where all are exact it is the other way round. What was not compared is
/// not counted as compared, and what passed its comparison not as failed.
pub proof fn lemma_lane_of_one_source(
    a: RuntimeSurrogateAttachmentView,
    latest: Option<RuntimeSurrogateActionKind>,
    action_count: u64,
    k: int,
)
    requires
        a.items.len() <= usize::MAX,
        0 <= k < execution_report(a, latest, action_count).event_lanes.len(),
    ensures
        ({
            let l = execution_report(a, latest, action_count).event_lanes[k];
            let on_lane = |i: int| 0 <= i < a.items.len() && a.items[i].lane == l.lane;
            &&& l.count > 0
            &&& (forall|i: int| #[trigger]
                on_lane(i) ==> a.items[i].source_result == GemmRuntimeSourceResult::Surrogate)
                ==> l.surrogate_replacements == l.count && l.exact_fallbacks == 0
            &&& (forall|i: int| #[trigger]
                on_lane(i) ==> a.items[i].source_result == GemmRuntimeSourceResult::Exact)
                ==> l.exact_fallbacks == l.count && l.surrogate_replacements == 0
            &&& (forall|i: int| #[trigger] on_lane(i) ==> a.items[i].shadow_ok is None)
                ==> l.shadow_compared == 0 && l.shadow_failed == 0
            &&& (forall|i: int| #[trigger] on_lane(i) ==> a.items[i].shadow_ok == Some(true))
                ==> l.shadow_compared == l.count && l.shadow_failed == 0
            &&& (forall|i: int| #[trigger] on_lane(i) ==> a.items[i].shadow_ok == Some(false))
                ==> l.shadow_compared == l.count && l.shadow_failed == l.count
        }),
{
    let items = a.items;
    let l = execution_report(a, latest, action_count).event_lanes[k];
    let on_lane = |i: int| 0 <= i < items.len() && items[i].lane == l.lane;
    lemma_lane_counts_bound(items, l.lane);
    let any = is_any();
    let fromsur = is_from(GemmRuntimeSourceResult::Surrogate);
    let fromex = is_from(GemmRuntimeSourceResult::Exact);
    let compared = is_compared();
    let failed = is_shadow(false);
    let all = |x: RuntimeSurrogateItemAttachmentView| x.lane == l.lane && any(x);
    let sur = |x: RuntimeSurrogateItemAttachmentView| x.lane == l.lane && fromsur(x);
    let ex = |x: RuntimeSurrogateItemAttachmentView| x.lane == l.lane && fromex(x);
    let seen = |x: RuntimeSurrogateItemAttachmentView| x.lane == l.lane && compared(x);
    let bad = |x: RuntimeSurrogateItemAttachmentView| x.lane == l.lane && failed(x);
    lemma_item_lanes(items);
    assert(item_lanes(items).contains(item_lanes(items)[k]));
    lemma_some_counted(items, all);
    if forall|i: int| #[trigger]
        on_lane(i) ==> items[i].source_result == GemmRuntimeSourceResult::Surrogate {
        assert forall|i: int| 0 <= i < items.len() implies sur(#[trigger] items[i]) == all(items[i])
            && !ex(items[i]) by {
            assert(on_lane(i) == all(items[i]));
        }
        lemma_count_if_same(items, sur, all);
        lemma_none_counted(items, ex);
    }
    if forall|i: int| #[trigger]
        on_lane(i) ==> items[i].source_result == GemmRuntimeSourceResult::Exact {
        assert forall|i: int| 0 <= i < items.len() implies ex(#[trigger] items[i]) == all(items[i])
            && !sur(items[i]) by {
            assert(on_lane(i) == all(items[i]));
        }
        lemma_count_if_same(items, ex, all);
        lemma_none_counted(items, sur);
    }
    if forall|i: int| #[trigger] on_lane(i) ==> items[i].shadow_ok is None {
        assert forall|i: int| 0 <= i < items.len() implies !seen(#[trigger] items[i]) && !bad(
            items[i],
        ) by {
            assert(on_lane(i) == all(items[i]));
        }
        lemma_none_counted(items, seen);
        lemma_none_counted(items, bad);
    }
    if forall|i: int| #[trigger] on_lane(i) ==> items[i].shadow_ok == Some(true) {
        assert forall|i: int| 0 <= i < items.len() implies seen(#[trigger] items[i]) == all(
            items[i],
        ) && !bad(items[i]) by {
            assert(on_lane(i) == all(items[i]));
        }
        lemma_count_if_same(items, seen, all);
        lemma_none_counted(items, bad);
    }
    if forall|i: int| #[trigger] on_lane(i) ==> items[i].shadow_ok == Some(false) {
        assert forall|i: int| 0 <= i < items.len() implies seen(#[trigger] items[i]) == all(
            items[i],
        ) && bad(items[i]) == all(items[i]) by {
            assert(on_lane(i) == all(items[i]));
        }
        lemma_count_if_same(items, seen, all);
        lemma_count_if_same(items, bad, all);
    }
}

proof fn lemma_some_counted<A>(s: Seq<A>, p: spec_fn(A) -> bool)
    requires
        exists|i: int| 0 <= i < s.len() && p(#[trigger] s[i]),
    ensures
        count_if(s, p) > 0,
    decreases s.len(),
{
    let i = choose|i: int| 0 <= i < s.len() && p(#[trigger] s[i]);
    if i < s.len() - 1 {
        assert(p(s.drop_last()[i]));
        lemma_some_counted(s.drop_last(), p);
    }
}

/// A worker whose results all come from the surrogate has no exact fallbacks, and one whose
/// results are all exact has no replacements; what was not compared is not counted as compared.
pub proof fn lemma_worker_of_one_source(
    a: RuntimeSurrogateAttachmentView,
    latest: Option<RuntimeSurrogateActionKind>,
    action_count: u64,
    k: int,
)
    requires
        a.items.len() <= usize::MAX,
        0 <= k < execution_report(a, latest, action_count).event_workers.len(),
    ensures
        ({
            let w = execution_report(a, latest, action_count).event_workers[k];
            let has = |i: int| 0 <= i < a.items.len() && a.items[i].worker_id == w.worker_id;
            &&& w.worker_id == a.workers[k].worker_id
            &&& w.start_lane == a.workers[k].start_lane
            &&& w.lanes == a.workers[k].lanes
            &&& (forall|i: int| #[trigger]
                has(i) ==> a.items[i].source_result == GemmRuntimeSourceResult::Surrogate)
                ==> w.surrogate_replacements == w.assigned_items && w.exact_fallbacks == 0
            &&& (forall|i: int| #[trigger]
                has(i) ==> a.items[i].source_result == GemmRuntimeSourceResult::Exact)
                ==> w.exact_fallbacks == w.assigned_items && w.surrogate_replacements == 0
            &&& (forall|i: int| #[trigger] has(i) ==> a.items[i].shadow_ok is None)
                ==> w.shadow_compared == 0 && w.shadow_failed == 0
            &&& (forall|i: int| #[trigger] has(i) ==> a.items[i].shadow_ok == Some(true))
                ==> w.shadow_compared == w.assigned_items && w.shadow_failed == 0
            &&& (forall|i: int| #[trigger] has(i) ==> a.items[i].shadow_ok == Some(false))
                ==> w.shadow_compared == w.assigned_items && w.shadow_failed == w.assigned_items
        }),
{
    let items = a.items;
    let w = execution_report(a, latest, action_count).event_workers[k];
    let has = |i: int| 0 <= i < items.len() && items[i].worker_id == w.worker_id;
    lemma_worker_counts_bound(items, w.worker_id);
    let any = is_any();
    let fromsur = is_from(GemmRuntimeSourceResult::Surrogate);
    let fromex = is_from(GemmRuntimeSourceResult::Exact);
    let compared = is_compared();
    let failed = is_shadow(false);
    let all = |x: RuntimeSurrogateItemAttachmentView| x.worker_id == w.worker_id && any(x);
    let sur = |x: RuntimeSurrogateItemAttachmentView| x.worker_id == w.worker_id && fromsur(x);
    let ex = |x: RuntimeSurrogateItemAttachmentView| x.worker_id == w.worker_id && fromex(x);
    let seen = |x: RuntimeSurrogateItemAttachmentView| x.worker_id == w.worker_id && compared(x);
    let bad = |x: RuntimeSurrogateItemAttachmentView| x.worker_id == w.worker_id && failed(x);
    if forall|i: int| #[trigger]
        has(i) ==> items[i].source_result == GemmRuntimeSourceResult::Surrogate {
        assert forall|i: int| 0 <= i < items.len() implies sur(#[trigger] items[i]) == all(items[i])
            && !ex(items[i]) by {
            assert(has(i) == all(items[i]));
        }
        lemma_count_if_same(items, sur, all);
        lemma_none_counted(items, ex);
    }
    if forall|i: int| #[trigger] has(i) ==> items[i].source_result == GemmRuntimeSourceResult::Exact {
        assert forall|i: int| 0 <= i < items.len() implies ex(#[trigger] items[i]) == all(items[i])
            && !sur(items[i]) by {
            assert(has(i) == all(items[i]));
        }
        lemma_count_if_same(items, ex, all);
        lemma_none_counted(items, sur);
    }
    if forall|i: int| #[trigger] has(i) ==> items[i].shadow_ok is None {
        assert forall|i: int| 0 <= i < items.len() implies !seen(#[trigger] items[i]) && !bad(
            items[i],
        ) by {
            assert(has(i) == all(items[i]));
        }
        lemma_none_counted(items, seen);
        lemma_none_counted(items, bad);
    }
    if forall|i: int| #[trigger] has(i) ==> items[i].shadow_ok == Some(true) {
        assert forall|i: int| 0 <= i < items.len() implies seen(#[trigger] items[i]) == all(
            items[i],
        ) && !bad(items[i]) by {
            assert(has(i) == all(items[i]));
        }
        lemma_count_if_same(items, seen, all);
        lemma_none_counted(items, bad);
    }
    if forall|i: int| #[trigger] has(i) ==> items[i].shadow_ok == Some(false) {
        assert forall|i: int| 0 <= i < items.len() implies seen(#[trigger] items[i]) == all(
            items[i],
        ) && bad(items[i]) == all(items[i]) by {
            assert(has(i) == all(items[i]));
        }
        lemma_count_if_same(items, seen, all);
        lemma_count_if_same(items, bad, all);
    }
}

// ---------------------------------------------------------------------------
// One item more
// ---------------------------------------------------------------------------

/// One, where something holds.
pub open spec fn one_if(b: bool) -> int {
    if b {
        1
    } else {
        0
    }
}

/// One item more is counted once, for what it is: by its source, by the outcome of its comparison,
/// or as one whose comparison is still missing.
pub proof fn lemma_one_more_item_is_counted(
    a: RuntimeSurrogateAttachmentView,
    b: RuntimeSurrogateAttachmentView,
    x: RuntimeSurrogateItemAttachmentView,
    latest: Option<RuntimeSurrogateActionKind>,
    action_count: u64,
)
    requires
        b.items == a.items.push(x),
        b.items.len() <= usize::MAX,
    ensures
        ({
            let r = execution_report(a, latest, action_count);
            let s = execution_report(b, latest, action_count);
            &&& s.attached_items == r.attached_items + 1
            &&& s.surrogate_eligible_items == r.surrogate_eligible_items + one_if(
                x.source_result == GemmRuntimeSourceResult::Surrogate,
            )
            &&& s.exact_fallback_items == r.exact_fallback_items + one_if(
                x.source_result == GemmRuntimeSourceResult::Exact,
            )
            &&& s.shadow_compared_items == r.shadow_compared_items + one_if(x.shadow_ok is Some)
            &&& s.shadow_passed_items == r.shadow_passed_items + one_if(x.shadow_ok == Some(true))
            &&& s.shadow_failed_items == r.shadow_failed_items + one_if(x.shadow_ok == Some(false))
            &&& s.shadow_unavailable_items == r.shadow_unavailable_items + one_if(
                x.shadow_ok is None && x.decision == GemmPolicyDecision::ShadowCompare,
            )
            &&& s.invalid_items == 0 && r.invalid_items == 0
        }),
{
    let counted = seq![
        is_from(GemmRuntimeSourceResult::Surrogate),
        is_from(GemmRuntimeSourceResult::Exact),
        is_compared(),
        is_shadow(true),
        is_shadow(false),
        is_unavailable(),
    ];
    assert forall|k: int| 0 <= k < counted.len() implies count_if(b.items, #[trigger] counted[k])
        == count_if(a.items, counted[k]) + one_if(counted[k](x)) && count_if(a.items, counted[k])
        <= a.items.len() by {
        lemma_count_if_push(a.items, x, counted[k]);
        lemma_count_if_bound(a.items, counted[k]);
    }
    assert(counted[0] == is_from(GemmRuntimeSourceResult::Surrogate));
    assert(counted[1] == is_from(GemmRuntimeSourceResult::Exact));
    assert(counted[2] == is_compared());
    assert(counted[3] == is_shadow(true));
    assert(counted[4] == is_shadow(false));
    assert(counted[5] == is_unavailable());
}

/// One item more is counted once on its lane, for what it is, and on no other lane.
pub proof fn lemma_one_more_item_on_its_lane(
    a: RuntimeSurrogateAttachmentView,
    b: RuntimeSurrogateAttachmentView,
    x: RuntimeSurrogateItemAttachmentView,
    latest: Option<RuntimeSurrogateActionKind>,
    action_count: u64,
    j: int,
    k: int,
)
    requires
        b.items == a.items.push(x),
        b.items.len() <= usize::MAX,
        0 <= j < execution_report(a, latest, action_count).event_lanes.len(),
        0 <= k < execution_report(b, latest, action_count).event_lanes.len(),
        execution_report(a, latest, action_count).event_lanes[j].lane == execution_report(
            b,
            latest,
            action_count,
        ).event_lanes[k].lane,
    ensures
        ({
            let l = execution_report(a, latest, action_count).event_lanes[j];
            let m = execution_report(b, latest, action_count).event_lanes[k];
            let here = x.lane == l.lane;
            &&& m.count == l.count + one_if(here)
            &&& m.surrogate_replacements == l.surrogate_replacements + one_if(
                here && x.source_result == GemmRuntimeSourceResult::Surrogate,
            )
            &&& m.exact_fallbacks == l.exact_fallbacks + one_if(
                here && x.source_result == GemmRuntimeSourceResult::Exact,
            )
            &&& m.shadow_compared == l.shadow_compared + one_if(here && x.shadow_ok is Some)
            &&& m.shadow_failed == l.shadow_failed + one_if(here && x.shadow_ok == Some(false))
        }),
{
    let lane = execution_report(a, latest, action_count).event_lanes[j].lane;
    lemma_lane_counts_bound(a.items, lane);
    lemma_lane_counts_bound(b.items, lane);
    let p = is_any();
    lemma_count_if_push(a.items, x, |y: RuntimeSurrogateItemAttachmentView| y.lane == lane && p(y));
    let p = is_from(GemmRuntimeSourceResult::Surrogate);
    lemma_count_if_push(a.items, x, |y: RuntimeSurrogateItemAttachmentView| y.lane == lane && p(y));
    let p = is_from(GemmRuntimeSourceResult::Exact);
    lemma_count_if_push(a.items, x, |y: RuntimeSurrogateItemAttachmentView| y.lane == lane && p(y));
    let p = is_compared();
    lemma_count_if_push(a.items, x, |y: RuntimeSurrogateItemAttachmentView| y.lane == lane && p(y));
    let p = is_shadow(false);
    lemma_count_if_push(a.items, x, |y: RuntimeSurrogateItemAttachmentView| y.lane == lane && p(y));
}

/// One item more is counted once by its worker, for what it is, and by no other worker.
pub proof fn lemma_one_more_item_of_its_worker(
    a: RuntimeSurrogateAttachmentView,
    b: RuntimeSurrogateAttachmentView,
    x: RuntimeSurrogateItemAttachmentView,
    latest: Option<RuntimeSurrogateActionKind>,
    action_count: u64,
    k: int,
)
    requires
        a.plan_schema == EVENT_RUNTIME_PLAN_SCHEMA@,
        b.plan_schema == a.plan_schema,
        b.workers == a.workers,
        b.items == a.items.push(x),
        b.items.len() <= usize::MAX,
        0 <= k < a.workers.len(),
    ensures
        ({
            let v = execution_report(a, latest, action_count).event_workers[k];
            let w = execution_report(b, latest, action_count).event_workers[k];
            let has = x.worker_id == a.workers[k].worker_id;
            &&& w.assigned_items == v.assigned_items + one_if(has)
            &&& w.surrogate_replacements == v.surrogate_replacements + one_if(
                has && x.source_result == GemmRuntimeSourceResult::Surrogate,
            )
            &&& w.exact_fallbacks == v.exact_fallbacks + one_if(
                has && x.source_result == GemmRuntimeSourceResult::Exact,
            )
            &&& w.shadow_compared == v.shadow_compared + one_if(has && x.shadow_ok is Some)
            &&& w.shadow_failed == v.shadow_failed + one_if(has && x.shadow_ok == Some(false))
        }),
{
    let id = a.workers[k].worker_id;
    lemma_worker_counts_bound(a.items, id);
    lemma_worker_counts_bound(b.items, id);
    let p = is_any();
    lemma_count_if_push(a.items, x, |y: RuntimeSurrogateItemAttachmentView| y.worker_id == id && p(y));
    let p = is_from(GemmRuntimeSourceResult::Surrogate);
    lemma_count_if_push(a.items, x, |y: RuntimeSurrogateItemAttachmentView| y.worker_id == id && p(y));
    let p = is_from(GemmRuntimeSourceResult::Exact);
    lemma_count_if_push(a.items, x, |y: RuntimeSurrogateItemAttachmentView| y.worker_id == id && p(y));
    let p = is_compared();
    lemma_count_if_push(a.items, x, |y: RuntimeSurrogateItemAttachmentView| y.worker_id == id && p(y));
    let p = is_shadow(false);
    lemma_count_if_push(a.items, x, |y: RuntimeSurrogateItemAttachmentView| y.worker_id == id && p(y));
}

/// The items of an event report are those of the attachment, in their order, with what each
/// predicted, what was expected of it and where it came from.
pub proof fn lemma_event_items_are_reported(
    a: RuntimeSurrogateAttachmentView,
    latest: Option<RuntimeSurrogateActionKind>,
    action_count: u64,
    i: int,
)
    requires
        a.plan_schema == EVENT_RUNTIME_PLAN_SCHEMA@,
        0 <= i < a.items.len(),
    ensures
        ({
            let r = execution_report(a, latest, action_count);
            let told = r.event_items[i];
            &&& r.event_items.len() == a.items.len()
            &&& told.index == a.items[i].index
            &&& told.sample_id == a.items[i].sample_id
            &&& told.lane == a.items[i].lane
            &&& told.worker_id == a.items[i].worker_id
            &&& told.decision == a.items[i].decision
            &&& told.source_result == a.items[i].source_result
            &&& told.predicted == a.items[i].shadow_predicted
            &&& told.expected == a.items[i].shadow_expected
            &&& told.shadow_ok == a.items[i].shadow_ok
            &&& told.shadow_error == a.items[i].shadow_error
            &&& told.exact == a.items[i].exact
            &&& told.surrogate_id == a.items[i].surrogate_id
        }),
{
}

/// Only the reports of event plans list workers, lanes and items.
pub proof fn lemma_other_plans_list_nothing(
    a: RuntimeSurrogateAttachmentView,
    latest: Option<RuntimeSurrogateActionKind>,
    action_count: u64,
)
    requires
        a.plan_schema != EVENT_RUNTIME_PLAN_SCHEMA@,
    ensures
        execution_report(a, latest, action_count).event_workers.len() == 0,
        execution_report(a, latest, action_count).event_lanes.len() == 0,
        execution_report(a, latest, action_count).event_items.len() == 0,
{
}

/// A report is ready exactly when the attachment is healthy, has lanes and has no diagnostics;
/// it is executed when there was something to do as well.
pub proof fn lemma_report_is_ready(
    a: RuntimeSurrogateAttachmentView,
    latest: Option<RuntimeSurrogateActionKind>,
    action_count: u64,
)
    ensures
        ({
            let r = execution_report(a, latest, action_count);
            &&& r.ready <==> a.health.ready && a.total_lanes > 0 && a.health.diagnostics.len() == 0
            &&& r.ready <==> a.health.ready && r.diagnostics.len() == 0
            &&& r.executed <==> r.ready && a.items.len() > 0
            &&& a.health.diagnostics.is_prefix_of(r.diagnostics)
            &&& r.latest_action_kind == latest
            &&& r.action_count == action_count
            &&& r.total_lanes == a.total_lanes
            &&& r.plan_schema == a.plan_schema
        }),
{
    let d = execution_report(a, latest, action_count).diagnostics;
    assert(a.health.diagnostics =~= d.take(a.health.diagnostics.len() as int));
}

// ---------------------------------------------------------------------------
// Attachments
// ---------------------------------------------------------------------------

/// An event item is attached as it is planned; only an empty target counts as none.
pub proof fn lemma_event_item_is_attached(item: EventRuntimePlanItem)
    ensures
        ({
            let a = event_item(item);
            &&& a.index == item.index
            &&& a.sample_id == Some(item.sample_id)
            &&& a.lane == item.lane
            &&& a.worker_id == item.worker_id@
            &&& a.source_result == item.source_result
            &&& a.exact == item.provenance.exact
            &&& a.shadow_ok == item.shadow_ok
            &&& a.shadow_predicted == item.predicted
            &&& a.shadow_expected == item.expected
            &&& a.target is None <==> item.target@.len() == 0
            &&& a.target is Some ==> a.target == Some(item.target@)
            &&& a.decision is SurrogateUsed <==> item.decision is SurrogateUsed
            &&& a.decision is ExactFallback <==> item.decision is ExactFallback
            &&& a.decision is FailClosed <==> item.decision is FailClosed
            &&& a.decision is ShadowCompare <==> item.decision is ShadowCompare
        }),
{
}

/// A GEMM item is attached as it is planned.
pub proof fn lemma_gemm_item_is_attached(item: GemmRuntimePlanItem)
    ensures
        ({
            let a = gemm_item(item);
            &&& a.index == item.index
            &&& a.sample_id is None
            &&& a.target is None
            &&& a.lane == item.lane
            &&& a.worker_id == item.worker_id@
            &&& a.decision == item.decision
            &&& a.source_result == item.source_result
            &&& a.exact == item.provenance.exact
            &&& a.shadow_ok == item.shadow_ok
            &&& a.shadow_max_abs_error == item.shadow_max_abs_error
            &&& a.shadow_latency_error_cycles == item.shadow_latency_error_cycles
            &&& a.shadow_first_divergence is Some <==> item.shadow_first_divergence is Some
            &&& a.shadow_first_divergence matches Some(d) ==> d.row
                == item.shadow_first_divergence->0.row && d.col
                == item.shadow_first_divergence->0.col && d.expected
                == item.shadow_first_divergence->0.expected && d.actual
                == item.shadow_first_divergence->0.actual
        }),
{
}

/// What an attachment says of its workers is what a report of it says of them, and its health
/// counts what the report counts.
pub proof fn lemma_attachment_agrees_with_report(
    label: Seq<char>,
    shards: Seq<RuntimeShardInfoView>,
    items: Seq<RuntimeSurrogateItemAttachmentView>,
    k: int,
)
    requires
        shards_problem(shards) is None,
        items.len() <= usize::MAX,
        forall|i: int|
            0 <= i < items.len() ==> (#[trigger] item_problem(label, shards, items[i])) is None,
        0 <= k < shards.len() <= usize::MAX,
        total_shard_lanes(shards) <= usize::MAX,
    ensures
        ({
            let a = attachment_of(EVENT_RUNTIME_PLAN_SCHEMA@, shards, items);
            let r = execution_report(a, None, 0);
            &&& r.event_workers.len() == a.workers.len()
            &&& a.workers.len() == shards.len()
            &&& a.workers[k].worker_id == shards[k].worker_id
            &&& a.workers[k].start_lane == shards[k].start_lane
            &&& a.workers[k].lanes == shards[k].lanes
            &&& r.event_workers[k].assigned_items == a.workers[k].assigned_items
            &&& r.event_workers[k].surrogate_replacements == a.workers[k].used_surrogate
            &&& r.event_workers[k].exact_fallbacks == a.workers[k].exact_fallbacks
            &&& r.surrogate_eligible_items == a.health.used_surrogate
            &&& r.exact_fallback_items == a.health.exact_fallbacks
            &&& r.attached_items == a.health.item_count
            &&& a.health.worker_count == shards.len()
            &&& a.total_lanes == sum_by(shards, |s: RuntimeShardInfoView| s.lanes as int)
        }),
{
    lemma_attachment_counts_every_item(label, EVENT_RUNTIME_PLAN_SCHEMA@, shards, items);
    lemma_sum_by_prefix(
        shards,
        0,
        shards.len() as int,
        |s: RuntimeShardInfoView| s.lanes as int,
    );
    assert(shards.take(shards.len() as int) =~= shards);
}

/// A plan is attached only if it is of the right kind, without errors, and for as many lanes as
/// the shards have; and if each item lies on a lane that the shard of its worker owns, and says
/// truly whether its result is exact.
pub proof fn lemma_attached_event_plan_is_sound(
    shards: Seq<RuntimeShardInfoView>,
    plan: EventRuntimePlan,
    i: int,
) -> (k: int)
    requires
        event_plan_problem(shards, plan) is None,
        0 <= i < plan.items@.len(),
    ensures
        plan.schema@ == EVENT_RUNTIME_PLAN_SCHEMA@,
        plan.ok,
        plan.errors@.len() == 0,
        plan.total_lanes == sum_by(shards, |s: RuntimeShardInfoView| s.lanes as int),
        plan.workers@.len() == shards.len(),
        0 <= k < shards.len(),
        shards[k].worker_id == plan.items@[i].worker_id@,
        shards[k].start_lane <= plan.items@[i].lane < shards[k].start_lane + shards[k].lanes,
        plan.items@[i].source_result == GemmRuntimeSourceResult::Surrogate
            <==> !plan.items@[i].provenance.exact,
{
    let items = event_items(plan);
    let f = |x: int| event_item_problem(shards, items[x]);
    lemma_first_problem_none(plan.items@.len(), f);
    assert(f(i) is None);
    assert(items[i] == event_item(plan.items@[i]));
    lemma_attached_item_has_shard("event"@, shards, items[i]);
    let k = choose|k: int|
        0 <= k < shards.len() && (#[trigger] shards[k]).worker_id == items[i].worker_id
            && shard_owns(shards[k], items[i].lane as int);
    k
}

/// A GEMM plan is attached under the same conditions, but for what it says of exact results.
pub proof fn lemma_attached_gemm_plan_is_sound(
    shards: Seq<RuntimeShardInfoView>,
    plan: GemmRuntimePlan,
    i: int,
) -> (k: int)
    requires
        gemm_plan_problem(shards, plan) is None,
        0 <= i < plan.items@.len(),
    ensures
        plan.schema@ == GEMM_RUNTIME_PLAN_SCHEMA@,
        plan.ok,
        plan.errors@.len() == 0,
        plan.total_lanes == sum_by(shards, |s: RuntimeShardInfoView| s.lanes as int),
        plan.workers@.len() == shards.len(),
        0 <= k < shards.len(),
        shards[k].worker_id == plan.items@[i].worker_id@,
        shards[k].start_lane <= plan.items@[i].lane < shards[k].start_lane + shards[k].lanes,
{
    let items = gemm_items(plan);
    let f = |x: int| item_problem("surrogate"@, shards, items[x]);
    lemma_first_problem_none(plan.items@.len(), f);
    assert(f(i) is None);
    assert(items[i] == gemm_item(plan.items@[i]));
    lemma_attached_item_has_shard("surrogate"@, shards, items[i]);
    let k = choose|k: int|
        0 <= k < shards.len() && (#[trigger] shards[k]).worker_id == items[i].worker_id
            && shard_owns(shards[k], items[i].lane as int);
    k
}

/// In an accepted plan every shard has a summary, for the same lanes, that counts the items of its
/// worker: all of them, those from the surrogate and those that are exact.
pub proof fn lemma_accepted_summaries_count_items(
    shards: Seq<RuntimeShardInfoView>,
    plan: EventRuntimePlan,
    s: int,
) -> (k: int)
    requires
        event_plan_problem(shards, plan) is None,
        0 <= s < shards.len(),
    ensures
        0 <= k < plan.workers@.len(),
        ({
            let summary = plan.workers@[k];
            let id = shards[s].worker_id;
            &&& summary.worker_id@ == id
            &&& summary.assigned_items == count_if(
                plan.items@,
                |x: EventRuntimePlanItem| x.worker_id@ == id,
            )
            &&& summary.used_surrogate == count_if(
                plan.items@,
                |x: EventRuntimePlanItem|
                    x.worker_id@ == id && x.source_result == GemmRuntimeSourceResult::Surrogate,
            )
            &&& summary.exact_fallbacks == count_if(
                plan.items@,
                |x: EventRuntimePlanItem|
                    x.worker_id@ == id && x.source_result == GemmRuntimeSourceResult::Exact,
            )
        }),
{
    let items = event_items(plan);
    let id = shards[s].worker_id;
    let f = |x: int| summary_problem("event"@, shards, plan.workers@, items, x);
    lemma_first_problem_none(shards.len(), f);
    assert(f(s) is None);
    let workers = plan.workers@;
    let k = find_summary(workers, id)->0;
    lemma_find_summary(workers, id);
    let any = is_any();
    let sur = is_from(GemmRuntimeSourceResult::Surrogate);
    let ex = is_from(GemmRuntimeSourceResult::Exact);
    lemma_count_mapped(
        plan.items@,
        items,
        |x: EventRuntimePlanItem| x.worker_id@ == id,
        |x: RuntimeSurrogateItemAttachmentView| x.worker_id == id && any(x),
    );
    lemma_count_mapped(
        plan.items@,
        items,
        |x: EventRuntimePlanItem|
            x.worker_id@ == id && x.source_result == GemmRuntimeSourceResult::Surrogate,
        |x: RuntimeSurrogateItemAttachmentView| x.worker_id == id && sur(x),
    );
    lemma_count_mapped(
        plan.items@,
        items,
        |x: EventRuntimePlanItem|
            x.worker_id@ == id && x.source_result == GemmRuntimeSourceResult::Exact,
        |x: RuntimeSurrogateItemAttachmentView| x.worker_id == id && ex(x),
    );
    k
}

proof fn lemma_count_mapped<A, B>(
    s: Seq<A>,
    t: Seq<B>,
    p: spec_fn(A) -> bool,
    q: spec_fn(B) -> bool,
)
    requires
        s.len() == t.len(),
        forall|i: int| 0 <= i < s.len() ==> p(#[trigger] s[i]) == q(t[i]),
    ensures
        count_if(s, p) == count_if(t, q),
    decreases s.len(),
{
    if s.len() > 0 {
        let a = s.drop_last();
        let b = t.drop_last();
        assert forall|i: int| 0 <= i < a.len() implies p(#[trigger] a[i]) == q(b[i]) by {
            assert(p(s[i]) == q(t[i]));
        }
        lemma_count_mapped(a, b, p, q);
        assert(p(s[s.len() - 1]) == q(t[s.len() - 1]));
    }
}

} // verus!

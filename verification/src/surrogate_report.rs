//! Execution reports of attached surrogate plans.

use vstd::prelude::*;

use crate::model::surrogate::{
    GemmRuntimeSourceResult, RuntimeSurrogateActionKind, RuntimeSurrogateAttachment,
    RuntimeSurrogateAttachmentView, RuntimeSurrogateEventItemReport,
    RuntimeSurrogateEventItemReportView, RuntimeSurrogateEventLaneReport,
    RuntimeSurrogateEventWorkerReport, RuntimeSurrogateEventWorkerReportView,
    RuntimeSurrogateExecutionReport, RuntimeSurrogateExecutionReportView,
    RuntimeSurrogateItemAttachmentView, RuntimeSurrogateWorkerAttachmentView,
    EVENT_RUNTIME_PLAN_SCHEMA,
};
use crate::order::{lemma_ranked_sort_is_sorting, ranked_sort, sort_ranked, Ranked};
use crate::seqs::{
    count_if, lemma_count_if_bound, lemma_count_if_same, lemma_count_if_split, no_items, push_item,
};
use crate::surrogate::{
    in_scope, is_any, is_compared, is_from, is_shadow, is_unavailable, lemma_count_if_everything,
    scoped_count, tally_items, worker_count, ItemScope,
};
use crate::text::same_text;
use vstd::relations::sorted_by;

verus! {

/// How many items on a lane have a property.
pub open spec fn lane_count(
    items: Seq<RuntimeSurrogateItemAttachmentView>,
    lane: usize,
    p: spec_fn(RuntimeSurrogateItemAttachmentView) -> bool,
) -> nat {
    count_if(items, |x: RuntimeSurrogateItemAttachmentView| x.lane == lane && p(x))
}

/// A sequence without the elements that repeat the one before them.
pub open spec fn without_repeats(s: Seq<usize>) -> Seq<usize>
    decreases s.len(),
{
    if s.len() == 0 {
        s
    } else {
        let rest = without_repeats(s.drop_last());
        if rest.len() > 0 && rest.last() == s.last() {
            rest
        } else {
            rest.push(s.last())
        }
    }
}

/// The lanes that items lie on, each once, in ascending order.
pub open spec fn item_lanes(items: Seq<RuntimeSurrogateItemAttachmentView>) -> Seq<usize> {
    without_repeats(
        ranked_sort::<usize>(items.map_values(|x: RuntimeSurrogateItemAttachmentView| x.lane)),
    )
}

/// What an event item did.
pub open spec fn event_item_report(item: RuntimeSurrogateItemAttachmentView) -> RuntimeSurrogateEventItemReportView {
    RuntimeSurrogateEventItemReportView {
        index: item.index,
        sample_id: item.sample_id,
        lane: item.lane,
        worker_id: item.worker_id,
        target: item.target,
        decision: item.decision,
        source_result: item.source_result,
        predicted: item.shadow_predicted,
        expected: item.shadow_expected,
        shadow_ok: item.shadow_ok,
        shadow_error: item.shadow_error,
        provenance_tag: item.provenance_tag,
        exact: item.exact,
        surrogate_id: item.surrogate_id,
    }
}

/// What the event items of a worker did.
pub open spec fn event_worker_report(
    worker: RuntimeSurrogateWorkerAttachmentView,
    items: Seq<RuntimeSurrogateItemAttachmentView>,
) -> RuntimeSurrogateEventWorkerReportView {
    let id = worker.worker_id;
    RuntimeSurrogateEventWorkerReportView {
        worker_id: id,
        start_lane: worker.start_lane,
        lanes: worker.lanes,
        assigned_items: worker_count(items, id, is_any()) as usize,
        surrogate_replacements: worker_count(
            items,
            id,
            is_from(GemmRuntimeSourceResult::Surrogate),
        ) as usize,
        exact_fallbacks: worker_count(items, id, is_from(GemmRuntimeSourceResult::Exact)) as usize,
        shadow_compared: worker_count(items, id, is_compared()) as usize,
        shadow_failed: worker_count(items, id, is_shadow(false)) as usize,
    }
}

/// What the event items of a lane did.
pub open spec fn event_lane_report(
    lane: usize,
    items: Seq<RuntimeSurrogateItemAttachmentView>,
) -> RuntimeSurrogateEventLaneReport {
    RuntimeSurrogateEventLaneReport {
        lane,
        count: lane_count(items, lane, is_any()) as usize,
        surrogate_replacements: lane_count(
            items,
            lane,
            is_from(GemmRuntimeSourceResult::Surrogate),
        ) as usize,
        exact_fallbacks: lane_count(items, lane, is_from(GemmRuntimeSourceResult::Exact)) as usize,
        shadow_compared: lane_count(items, lane, is_compared()) as usize,
        shadow_failed: lane_count(items, lane, is_shadow(false)) as usize,
    }
}

/// The diagnostics of a report: those of the attachment, and what keeps it from
/// being ready.
pub open spec fn report_diagnostics(a: RuntimeSurrogateAttachmentView) -> Seq<Seq<char>> {
    a.health.diagnostics + (if !a.health.ready {
        seq!["surrogate attachment health is not ready"@]
    } else {
        seq![]
    }) + (if a.total_lanes == 0 {
        seq!["surrogate attachment has zero runtime lanes"@]
    } else {
        seq![]
    })
}

/// Whether an attachment can take part in a run.
pub open spec fn attachment_ready(a: RuntimeSurrogateAttachmentView) -> bool {
    a.health.ready && report_diagnostics(a).len() == 0
}

/// The report of an attachment after a number of actions. Workers, lanes and
/// items are listed for event plans only.
pub open spec fn execution_report(
    a: RuntimeSurrogateAttachmentView,
    latest: Option<RuntimeSurrogateActionKind>,
    action_count: u64,
) -> RuntimeSurrogateExecutionReportView {
    let events = a.plan_schema == EVENT_RUNTIME_PLAN_SCHEMA@;
    RuntimeSurrogateExecutionReportView {
        ready: attachment_ready(a),
        executed: attachment_ready(a) && a.items.len() > 0,
        plan_schema: a.plan_schema,
        total_lanes: a.total_lanes,
        attached_items: a.items.len() as usize,
        surrogate_eligible_items: count_if(
            a.items,
            is_from(GemmRuntimeSourceResult::Surrogate),
        ) as usize,
        exact_fallback_items: count_if(a.items, is_from(GemmRuntimeSourceResult::Exact)) as usize,
        invalid_items: 0,
        shadow_compared_items: count_if(a.items, is_compared()) as usize,
        shadow_passed_items: count_if(a.items, is_shadow(true)) as usize,
        shadow_failed_items: count_if(a.items, is_shadow(false)) as usize,
        shadow_unavailable_items: count_if(a.items, is_unavailable()) as usize,
        latest_action_kind: latest,
        action_count,
        event_workers: if events {
            a.workers.map_values(
                |w: RuntimeSurrogateWorkerAttachmentView| event_worker_report(w, a.items),
            )
        } else {
            seq![]
        },
        event_lanes: if events {
            item_lanes(a.items).map_values(|lane: usize| event_lane_report(lane, a.items))
        } else {
            seq![]
        },
        event_items: if events {
            a.items.map_values(|x: RuntimeSurrogateItemAttachmentView| event_item_report(x))
        } else {
            seq![]
        },
        diagnostics: report_diagnostics(a),
    }
}

fn runtime_surrogate_event_items(attachment: &RuntimeSurrogateAttachment) -> (r: Vec<
    RuntimeSurrogateEventItemReport,
>)
    ensures
        r.deep_view() == attachment.deep_view().items.map_values(
            |x: RuntimeSurrogateItemAttachmentView| event_item_report(x),
        ),
{
    let ghost reports = attachment.deep_view().items.map_values(
        |x: RuntimeSurrogateItemAttachmentView| event_item_report(x),
    );
    let mut r: Vec<RuntimeSurrogateEventItemReport> = no_items();
    proof {
        assert(reports.take(0) =~= Seq::empty());
    }
    let mut i: usize = 0;
    while i < attachment.items.len()
        invariant
            i <= attachment.items.len(),
            reports == attachment.deep_view().items.map_values(
                |x: RuntimeSurrogateItemAttachmentView| event_item_report(x),
            ),
            r.deep_view() == reports.take(i as int),
        decreases attachment.items.len() - i,
    {
        let item = &attachment.items[i];
        push_item(
            &mut r,
            RuntimeSurrogateEventItemReport {
                index: item.index,
                sample_id: item.sample_id,
                lane: item.lane,
                worker_id: item.worker_id.clone(),
                target: item.target.clone(),
                decision: item.decision,
                source_result: item.source_result,
                predicted: item.shadow_predicted,
                expected: item.shadow_expected,
                shadow_ok: item.shadow_ok,
                shadow_error: item.shadow_error.clone(),
                provenance_tag: item.provenance_tag.clone(),
                exact: item.exact,
                surrogate_id: item.surrogate_id.clone(),
            },
        );
        proof {
            assert(reports.take(i + 1) =~= reports.take(i as int).push(reports[i as int]));
        }
        i = i + 1;
    }
    proof {
        assert(reports.take(i as int) =~= reports);
    }
    r
}

proof fn lemma_scope_worker(
    items: Seq<RuntimeSurrogateItemAttachmentView>,
    scope: ItemScope,
    id: Seq<char>,
    p: spec_fn(RuntimeSurrogateItemAttachmentView) -> bool,
)
    requires
        scope matches ItemScope::Worker(w) && w@ == id,
    ensures
        scoped_count(items, scope, p) == worker_count(items, id, p),
{
    lemma_count_if_same(
        items,
        |x: RuntimeSurrogateItemAttachmentView| in_scope(scope, x) && p(x),
        |x: RuntimeSurrogateItemAttachmentView| x.worker_id == id && p(x),
    );
}

proof fn lemma_scope_lane(
    items: Seq<RuntimeSurrogateItemAttachmentView>,
    lane: usize,
    p: spec_fn(RuntimeSurrogateItemAttachmentView) -> bool,
)
    ensures
        scoped_count(items, ItemScope::Lane(lane), p) == lane_count(items, lane, p),
{
    lemma_count_if_same(
        items,
        |x: RuntimeSurrogateItemAttachmentView| in_scope(ItemScope::Lane(lane), x) && p(x),
        |x: RuntimeSurrogateItemAttachmentView| x.lane == lane && p(x),
    );
}

proof fn lemma_scope_all(
    items: Seq<RuntimeSurrogateItemAttachmentView>,
    p: spec_fn(RuntimeSurrogateItemAttachmentView) -> bool,
)
    ensures
        scoped_count(items, ItemScope::All, p) == count_if(items, p),
{
    lemma_count_if_same(
        items,
        |x: RuntimeSurrogateItemAttachmentView| in_scope(ItemScope::All, x) && p(x),
        p,
    );
}

fn runtime_surrogate_event_workers(attachment: &RuntimeSurrogateAttachment) -> (r: Vec<
    RuntimeSurrogateEventWorkerReport,
>)
    ensures
        r.deep_view() == attachment.deep_view().workers.map_values(
            |w: RuntimeSurrogateWorkerAttachmentView|
                event_worker_report(w, attachment.deep_view().items),
        ),
{
    let ghost items = attachment.deep_view().items;
    let ghost reports = attachment.deep_view().workers.map_values(
        |w: RuntimeSurrogateWorkerAttachmentView| event_worker_report(w, items),
    );
    let mut r: Vec<RuntimeSurrogateEventWorkerReport> = no_items();
    proof {
        assert(reports.take(0) =~= Seq::empty());
    }
    let mut i: usize = 0;
    while i < attachment.workers.len()
        invariant
            i <= attachment.workers.len(),
            items == attachment.deep_view().items,
            reports == attachment.deep_view().workers.map_values(
                |w: RuntimeSurrogateWorkerAttachmentView| event_worker_report(w, items),
            ),
            r.deep_view() == reports.take(i as int),
        decreases attachment.workers.len() - i,
    {
        let worker = &attachment.workers[i];
        let scope = ItemScope::Worker(worker.worker_id.as_str());
        let tally = tally_items(&attachment.items, &scope);
        proof {
            let id = worker.worker_id@;
            lemma_scope_worker(items, scope, id, is_any());
            lemma_scope_worker(items, scope, id, is_from(GemmRuntimeSourceResult::Surrogate));
            lemma_scope_worker(items, scope, id, is_from(GemmRuntimeSourceResult::Exact));
            lemma_scope_worker(items, scope, id, is_compared());
            lemma_scope_worker(items, scope, id, is_shadow(false));
        }
        push_item(
            &mut r,
            RuntimeSurrogateEventWorkerReport {
                worker_id: worker.worker_id.clone(),
                start_lane: worker.start_lane,
                lanes: worker.lanes,
                assigned_items: tally.assigned,
                surrogate_replacements: tally.surrogate,
                exact_fallbacks: tally.exact,
                shadow_compared: tally.shadow_compared,
                shadow_failed: tally.shadow_failed,
            },
        );
        proof {
            assert(reports.take(i + 1) =~= reports.take(i as int).push(reports[i as int]));
        }
        i = i + 1;
    }
    proof {
        assert(reports.take(i as int) =~= reports);
    }
    r
}

fn drop_repeats(sorted: &Vec<usize>) -> (r: Vec<usize>)
    ensures
        r@ == without_repeats(sorted@),
{
    let mut r: Vec<usize> = Vec::new();
    let mut i: usize = 0;
    while i < sorted.len()
        invariant
            i <= sorted.len(),
            r@ == without_repeats(sorted@.take(i as int)),
        decreases sorted.len() - i,
    {
        proof {
            assert(sorted@.take(i + 1).drop_last() =~= sorted@.take(i as int));
        }
        if r.len() == 0 || r[r.len() - 1] != sorted[i] {
            r.push(sorted[i]);
        }
        i = i + 1;
    }
    proof {
        assert(sorted@.take(i as int) =~= sorted@);
    }
    r
}

fn runtime_surrogate_event_lanes(attachment: &RuntimeSurrogateAttachment) -> (r: Vec<
    RuntimeSurrogateEventLaneReport,
>)
    ensures
        r@ == item_lanes(attachment.deep_view().items).map_values(
            |lane: usize| event_lane_report(lane, attachment.deep_view().items),
        ),
{
    let ghost items = attachment.deep_view().items;
    let ghost item_lane = |x: RuntimeSurrogateItemAttachmentView| x.lane;
    let mut all_lanes: Vec<usize> = Vec::new();
    let mut i: usize = 0;
    while i < attachment.items.len()
        invariant
            i <= attachment.items.len(),
            items == attachment.deep_view().items,
            item_lane == (|x: RuntimeSurrogateItemAttachmentView| x.lane),
            all_lanes@ == items.map_values(item_lane).take(i as int),
        decreases attachment.items.len() - i,
    {
        all_lanes.push(attachment.items[i].lane);
        proof {
            assert(all_lanes@ =~= items.map_values(item_lane).take(i + 1));
        }
        i = i + 1;
    }
    proof {
        assert(all_lanes@ =~= items.map_values(item_lane));
        assert(all_lanes.deep_view() =~= all_lanes@);
    }
    let sorted = sort_ranked(all_lanes);
    proof {
        assert(sorted.deep_view() =~= sorted@);
    }
    let lanes = drop_repeats(&sorted);
    let ghost reports = lanes@.map_values(|lane: usize| event_lane_report(lane, items));
    let mut r: Vec<RuntimeSurrogateEventLaneReport> = Vec::new();
    let mut k: usize = 0;
    while k < lanes.len()
        invariant
            k <= lanes.len(),
            items == attachment.deep_view().items,
            reports == lanes@.map_values(|lane: usize| event_lane_report(lane, items)),
            r@ == reports.take(k as int),
        decreases lanes.len() - k,
    {
        let lane: usize = lanes[k];
        let tally = tally_items(&attachment.items, &ItemScope::Lane(lane));
        proof {
            lemma_scope_lane(items, lane, is_any());
            lemma_scope_lane(items, lane, is_from(GemmRuntimeSourceResult::Surrogate));
            lemma_scope_lane(items, lane, is_from(GemmRuntimeSourceResult::Exact));
            lemma_scope_lane(items, lane, is_compared());
            lemma_scope_lane(items, lane, is_shadow(false));
        }
        r.push(
            RuntimeSurrogateEventLaneReport {
                lane,
                count: tally.assigned,
                surrogate_replacements: tally.surrogate,
                exact_fallbacks: tally.exact,
                shadow_compared: tally.shadow_compared,
                shadow_failed: tally.shadow_failed,
            },
        );
        proof {
            assert(r@ =~= reports.take(k + 1));
        }
        k = k + 1;
    }
    proof {
        assert(reports.take(k as int) =~= reports);
    }
    r
}

impl RuntimeSurrogateExecutionReport {
    /// The report of an attachment before any action.
    pub fn inspect_attachment(attachment: &RuntimeSurrogateAttachment) -> (r: Self)
        ensures
            r.deep_view() == execution_report(attachment.deep_view(), None, 0),
    {
        Self::from_attachment(attachment, None, 0)
    }

    /// The report of an attachment after a number of actions.
    pub fn from_attachment(
        attachment: &RuntimeSurrogateAttachment,
        latest_action_kind: Option<RuntimeSurrogateActionKind>,
        action_count: u64,
    ) -> (r: Self)
        ensures
            r.deep_view() == execution_report(
                attachment.deep_view(),
                latest_action_kind,
                action_count,
            ),
    {
        let ghost a = attachment.deep_view();
        let tally = tally_items(&attachment.items, &ItemScope::All);
        proof {
            lemma_scope_all(a.items, is_any());
            lemma_scope_all(a.items, is_from(GemmRuntimeSourceResult::Surrogate));
            lemma_scope_all(a.items, is_from(GemmRuntimeSourceResult::Exact));
            lemma_scope_all(a.items, is_compared());
            lemma_scope_all(a.items, is_shadow(true));
            lemma_scope_all(a.items, is_shadow(false));
            lemma_scope_all(a.items, is_unavailable());
            lemma_every_item_has_a_source(a.items);
        }
        let attached_items: usize = attachment.items.len();
        let mut diagnostics = attachment.health.diagnostics.clone();
        proof {
            assert(diagnostics.deep_view() =~= a.health.diagnostics);
        }
        if !attachment.health.ready {
            push_item(&mut diagnostics, "surrogate attachment health is not ready".to_owned());
        }
        if attachment.total_lanes == 0 {
            push_item(&mut diagnostics, "surrogate attachment has zero runtime lanes".to_owned());
        }
        proof {
            assert(diagnostics.deep_view() =~= report_diagnostics(a));
        }
        let invalid_items: usize = attached_items.saturating_sub(tally.surrogate + tally.exact);
        let ready = attachment.health.ready && diagnostics.is_empty();
        let events = same_text(attachment.plan_schema.as_str(), EVENT_RUNTIME_PLAN_SCHEMA);
        let event_items = if events {
            runtime_surrogate_event_items(attachment)
        } else {
            no_items()
        };
        let event_workers = if events {
            runtime_surrogate_event_workers(attachment)
        } else {
            no_items()
        };
        let event_lanes: Vec<RuntimeSurrogateEventLaneReport> = if events {
            runtime_surrogate_event_lanes(attachment)
        } else {
            Vec::new()
        };
        let r = RuntimeSurrogateExecutionReport {
            ready,
            executed: ready && attached_items > 0,
            plan_schema: attachment.plan_schema.clone(),
            total_lanes: attachment.total_lanes,
            attached_items,
            surrogate_eligible_items: tally.surrogate,
            exact_fallback_items: tally.exact,
            invalid_items,
            shadow_compared_items: tally.shadow_compared,
            shadow_passed_items: tally.shadow_passed,
            shadow_failed_items: tally.shadow_failed,
            shadow_unavailable_items: tally.shadow_unavailable,
            latest_action_kind,
            action_count,
            event_workers,
            event_lanes,
            event_items,
            diagnostics,
        };
        proof {
            assert(r.deep_view() =~= execution_report(a, latest_action_kind, action_count));
        }
        r
    }
}

proof fn lemma_every_item_has_a_source(items: Seq<RuntimeSurrogateItemAttachmentView>)
    ensures
        count_if(items, is_from(GemmRuntimeSourceResult::Surrogate)) + count_if(
            items,
            is_from(GemmRuntimeSourceResult::Exact),
        ) == items.len(),
{
    lemma_count_if_split(
        items,
        is_from(GemmRuntimeSourceResult::Surrogate),
        is_from(GemmRuntimeSourceResult::Exact),
        is_any(),
    );
    lemma_count_if_everything(items);
}

/// A report counts every attached item once by its source, and every compared
/// item once by its outcome; an item that waits for its comparison is not a
/// compared one.
pub proof fn lemma_report_counts_add_up(
    a: RuntimeSurrogateAttachmentView,
    latest: Option<RuntimeSurrogateActionKind>,
    action_count: u64,
)
    requires
        a.items.len() <= usize::MAX,
    ensures
        ({
            let r = execution_report(a, latest, action_count);
            &&& r.surrogate_eligible_items + r.exact_fallback_items == r.attached_items
            &&& r.shadow_passed_items + r.shadow_failed_items == r.shadow_compared_items
            &&& r.shadow_compared_items + r.shadow_unavailable_items <= r.attached_items
        }),
{
    lemma_every_item_has_a_source(a.items);
    assert forall|i: int| 0 <= i < a.items.len() implies (is_compared()(#[trigger] a.items[i])
        <==> is_shadow(true)(a.items[i]) || is_shadow(false)(a.items[i])) && !(is_shadow(true)(
        a.items[i],
    ) && is_shadow(false)(a.items[i])) by {
        match a.items[i].shadow_ok {
            Some(ok) => {
                assert(ok == true || ok == false);
            },
            None => {},
        }
    }
    lemma_count_if_split(a.items, is_shadow(true), is_shadow(false), is_compared());
    let seen = |x: RuntimeSurrogateItemAttachmentView| is_compared()(x) || is_unavailable()(x);
    lemma_count_if_split(a.items, is_compared(), is_unavailable(), seen);
    lemma_count_if_bound(a.items, seen);
}

proof fn lemma_without_repeats(s: Seq<usize>)
    requires
        sorted_by(s, |a: usize, b: usize| a <= b),
    ensures
        forall|i: int, j: int|
            0 <= i < j < without_repeats(s).len() ==> without_repeats(s)[i] < without_repeats(
                s,
            )[j],
        forall|x: usize| #[trigger] without_repeats(s).contains(x) <==> s.contains(x),
        s.len() > 0 ==> without_repeats(s).len() > 0 && without_repeats(s).last() == s.last(),
    decreases s.len(),
{
    let le = |a: usize, b: usize| a <= b;
    if s.len() > 0 {
        let t = s.drop_last();
        assert forall|i: int, j: int| 0 <= i < j < t.len() implies #[trigger] le(t[i], t[j]) by {
            assert(le(s[i], s[j]));
        }
        lemma_without_repeats(t);
        let rest = without_repeats(t);
        let r = without_repeats(s);
        if t.len() > 0 {
            assert(le(s[s.len() - 2], s[s.len() - 1]));
            assert(rest.last() == t.last());
        }
        assert forall|x: usize| #[trigger] r.contains(x) <==> s.contains(x) by {
            assert(s =~= t.push(s.last()));
            if r.contains(x) {
                let i = choose|i: int| 0 <= i < r.len() && r[i] == x;
                if i < rest.len() {
                    assert(rest[i] == x);
                    assert(rest.contains(x));
                    let k = choose|k: int| 0 <= k < t.len() && t[k] == x;
                    assert(s[k] == x);
                } else {
                    assert(s[s.len() - 1] == x);
                }
            }
            if s.contains(x) {
                let k = choose|k: int| 0 <= k < s.len() && s[k] == x;
                if k < t.len() {
                    assert(t[k] == x);
                    assert(t.contains(x));
                    assert(rest.contains(x));
                    let i = choose|i: int| 0 <= i < rest.len() && rest[i] == x;
                    assert(r[i] == x);
                } else {
                    assert(r.last() == x);
                    assert(r[r.len() - 1] == x);
                }
            }
        }
    }
}

/// The lanes of a report are exactly the lanes of its items, in strictly
/// ascending order.
pub proof fn lemma_item_lanes(items: Seq<RuntimeSurrogateItemAttachmentView>)
    ensures
        forall|i: int, j: int|
            0 <= i < j < item_lanes(items).len() ==> item_lanes(items)[i] < item_lanes(items)[j],
        forall|lane: usize| #[trigger]
            item_lanes(items).contains(lane) <==> exists|k: int|
                0 <= k < items.len() && (#[trigger] items[k]).lane == lane,
{
    let lanes = items.map_values(|x: RuntimeSurrogateItemAttachmentView| x.lane);
    let sorted = ranked_sort::<usize>(lanes);
    lemma_ranked_sort_is_sorting::<usize>(lanes);
    let le = |a: usize, b: usize| a <= b;
    let ranked = |a: usize, b: usize| <usize as crate::order::Ranked>::ranked_le(a, b);
    assert forall|i: int, j: int| 0 <= i < j < sorted.len() implies #[trigger] le(
        sorted[i],
        sorted[j],
    ) by {
        assert(ranked(sorted[i], sorted[j]));
    }
    lemma_without_repeats(sorted);
    assert forall|lane: usize| #[trigger] item_lanes(items).contains(lane) <==> exists|k: int|
        0 <= k < items.len() && (#[trigger] items[k]).lane == lane by {
        if lanes.contains(lane) {
            let k = choose|k: int| 0 <= k < lanes.len() && lanes[k] == lane;
            assert(items[k].lane == lane);
        }
        if exists|k: int| 0 <= k < items.len() && (#[trigger] items[k]).lane == lane {
            let k = choose|k: int| 0 <= k < items.len() && (#[trigger] items[k]).lane == lane;
            assert(lanes[k] == lane);
        }
    }
}

} // verus!

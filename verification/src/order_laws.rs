//! In which order partitions, boundaries, assignments, workers, routes, mailboxes and endpoints are
//! listed.

use vstd::prelude::*;

use crate::collect::concat_below;
use crate::communication::{planned_routes, unsorted_routes, RouteOrder};
use crate::hierarchy::module_named;
use crate::ids::is_named;
use crate::launch::{launch_assignments, launch_order, AssignmentOrder, WorkerOrder};
use crate::model::communication::RuntimePartitionRoute;
use crate::model::design::{CompiledDesign, CompiledModule};
use crate::model::launch::RuntimePartitionBundleView;
use crate::model::partition::{
    RuntimePartitionBoundarySignal, RuntimePartitionBoundarySignalView, RuntimePartitionPlanView,
    RuntimePartitionSignalRef,
};
use crate::model::placement::{RuntimePartitionAssignment, RuntimePartitionAssignmentView};
use crate::model::session::{
    RuntimePartitionRouteMailboxReport, RuntimePartitionRouteMailboxReportView,
};
use crate::model::topology::{RuntimeWorker, RuntimeWorkerView};
use crate::order::{key_le, lemma_sorted_by_key, sorted_by_key, text_le, Ranked};
use crate::partitions::{
    listed_signals, partition_plan, region_boundaries, signal_ref, BySignal, ByPort,
};
use crate::placement::{assignments_made, placed_assignments, placement_order};
use crate::regions::{
    planned_regions, refined, split_limit, stays_whole, whole_region, ByPath, PartitionRegion,
};
use crate::seqs::lemma_first_index;
use crate::session::RuntimePartitionSessionView;
use crate::session_routes::{with_mailbox, MailboxOrder};
use crate::text::decimal;

verus! {

/// Text is ordered by its first difference: what ends there comes first, or else what has the
/// smaller character there.
pub proof fn lemma_first_difference_decides(a: Seq<char>, b: Seq<char>, k: int)
    requires
        0 <= k <= a.len(),
        k <= b.len(),
        a.take(k) == b.take(k),
    ensures
        k == a.len() ==> text_le(a, b),
        k == b.len() && k < a.len() ==> !text_le(a, b),
        k < a.len() && k < b.len() && a[k] < b[k] ==> text_le(a, b) && !text_le(b, a),
    decreases k,
{
    if k > 0 {
        assert(a[0] == a.take(k)[0]);
        assert(b[0] == b.take(k)[0]);
        let c = a.skip(1);
        let d = b.skip(1);
        assert(c.take(k - 1) =~= a.take(k).skip(1));
        assert(d.take(k - 1) =~= b.take(k).skip(1));
        lemma_first_difference_decides(c, d, k - 1);
        assert(text_le(a, b) == text_le(c, d));
        assert(text_le(b, a) == text_le(d, c));
    }
}

/// The partitions of a plan are numbered in the order of their paths, and those with the same path
/// in the order of their modules.
pub proof fn lemma_partitions_are_in_order(
    design: CompiledDesign,
    module_name: Seq<char>,
    target: int,
    i: int,
    j: int,
)
    requires
        0 <= i < j < partition_plan(design, module_name, target).partitions.len(),
    ensures
        ({
            let a = partition_plan(design, module_name, target).partitions[i];
            let b = partition_plan(design, module_name, target).partitions[j];
            &&& a.id == "p"@ + decimal(i as nat)
            &&& b.id == "p"@ + decimal(j as nat)
            &&& a.instance_path != b.instance_path ==> Vec::<String>::ranked_le(
                a.instance_path,
                b.instance_path,
            )
            &&& a.instance_path == b.instance_path ==> text_le(a.module_name, b.module_name)
        }),
{
    let top = module_named(design, module_name)->0;
    let name = design.modules@[top].name@;
    assert(!stays_whole(design.modules@[top], target));
    let all = refined(design, seq![whole_region(seq![], name)], target, split_limit(target));
    lemma_sorted_by_key::<PartitionRegion, ByPath>(all);
    let regions = planned_regions(design, top, target);
    assert(regions.len() == partition_plan(design, module_name, target).partitions.len());
    let sorted = sorted_by_key::<PartitionRegion, ByPath>(all);
    assert(key_le::<PartitionRegion, ByPath>(sorted[i], sorted[j]));
    assert(regions[i].instance_path == sorted[i].instance_path);
    assert(regions[j].instance_path == sorted[j].instance_path);
}

/// The boundaries of a plan are listed in the order of their paths, then of their ports, then of
/// their signals.
pub proof fn lemma_boundaries_are_in_order(
    design: CompiledDesign,
    module_name: Seq<char>,
    target: int,
    i: int,
    j: int,
)
    requires
        0 <= i < j < partition_plan(design, module_name, target).boundary_signals.len(),
    ensures
        ({
            let a = partition_plan(design, module_name, target).boundary_signals[i];
            let b = partition_plan(design, module_name, target).boundary_signals[j];
            &&& a.instance_path != b.instance_path ==> Vec::<String>::ranked_le(
                a.instance_path,
                b.instance_path,
            )
            &&& a.instance_path == b.instance_path && a.port_name != b.port_name ==> text_le(
                a.port_name,
                b.port_name,
            )
            &&& a.instance_path == b.instance_path && a.port_name == b.port_name ==> text_le(
                a.signal.signal_name,
                b.signal.signal_name,
            )
        }),
{
    let top = module_named(design, module_name)->0;
    let regions = planned_regions(design, top, target);
    let g = |r: int| region_boundaries(design, top, regions, r);
    lemma_sorted_by_key::<RuntimePartitionBoundarySignal, ByPort>(concat_below(regions.len(), g));
    let all = partition_plan(design, module_name, target).boundary_signals;
    assert(key_le::<RuntimePartitionBoundarySignal, ByPort>(all[i], all[j]));
}

/// The signals of a partition are listed in the order of their numbers.
pub proof fn lemma_signals_are_in_order(module: CompiledModule, i: int, j: int)
    requires
        0 <= i < j < module.signals@.len(),
    ensures
        listed_signals(module).len() == module.signals@.len(),
        ({
            let a = listed_signals(module)[i];
            let b = listed_signals(module)[j];
            &&& a.module_name != b.module_name ==> text_le(a.module_name, b.module_name)
            &&& a.module_name == b.module_name ==> a.signal.id.0 <= b.signal.id.0
        }),
{
    let all = Seq::new(module.signals@.len(), |s: int| signal_ref(module, module.signals@[s]));
    lemma_sorted_by_key::<RuntimePartitionSignalRef, BySignal>(all);
    assert(key_le::<RuntimePartitionSignalRef, BySignal>(
        listed_signals(module)[i],
        listed_signals(module)[j],
    ));
}

/// Assignments are listed in the order of their partitions.
pub proof fn lemma_assignments_are_in_order(
    plan: RuntimePartitionPlanView,
    workers: Seq<RuntimeWorkerView>,
    i: int,
    j: int,
)
    requires
        0 <= i < j < placed_assignments(plan, workers).len(),
    ensures
        text_le(
            placed_assignments(plan, workers)[i].partition_id,
            placed_assignments(plan, workers)[j].partition_id,
        ),
{
    let made = assignments_made(workers, placement_order(plan));
    lemma_sorted_by_key::<RuntimePartitionAssignment, AssignmentOrder>(made);
    let all = placed_assignments(plan, workers);
    assert(key_le::<RuntimePartitionAssignment, AssignmentOrder>(all[i], all[j]));
}

/// A launch goes through workers in the order of their ids, and through assignments in the order
/// of their partitions.
pub proof fn lemma_launch_is_in_order(bundle: RuntimePartitionBundleView, i: int, j: int)
    requires
        0 <= i < j,
    ensures
        j < launch_order(bundle).len() ==> text_le(
            launch_order(bundle)[i].id,
            launch_order(bundle)[j].id,
        ),
        j < launch_assignments(bundle).len() ==> text_le(
            launch_assignments(bundle)[i].partition_id,
            launch_assignments(bundle)[j].partition_id,
        ),
{
    lemma_sorted_by_key::<RuntimeWorker, WorkerOrder>(bundle.placement_plan.topology.workers);
    lemma_sorted_by_key::<RuntimePartitionAssignment, AssignmentOrder>(
        bundle.placement_plan.assignments,
    );
    let workers = launch_order(bundle);
    let assignments = launch_assignments(bundle);
    if j < workers.len() {
        assert(key_le::<RuntimeWorker, WorkerOrder>(workers[i], workers[j]));
    }
    if j < assignments.len() {
        assert(key_le::<RuntimePartitionAssignment, AssignmentOrder>(
            assignments[i],
            assignments[j],
        ));
    }
}

/// Routes are listed in the order of their boundaries, then of the workers that they leave, then of
/// those that they reach, then of the partitions that they reach.
pub proof fn lemma_routes_are_in_order(
    boundaries: Seq<RuntimePartitionBoundarySignalView>,
    assignments: Seq<RuntimePartitionAssignmentView>,
    i: int,
    j: int,
)
    requires
        0 <= i < j < planned_routes(boundaries, assignments).len(),
    ensures
        ({
            let a = planned_routes(boundaries, assignments)[i];
            let b = planned_routes(boundaries, assignments)[j];
            &&& a.boundary_index <= b.boundary_index
            &&& a.boundary_index == b.boundary_index && a.producer_worker != b.producer_worker
                ==> text_le(a.producer_worker, b.producer_worker)
            &&& a.boundary_index == b.boundary_index && a.producer_worker == b.producer_worker
                && a.consumer_worker != b.consumer_worker ==> text_le(
                a.consumer_worker,
                b.consumer_worker,
            )
            &&& a.boundary_index == b.boundary_index && a.producer_worker == b.producer_worker
                && a.consumer_worker == b.consumer_worker ==> text_le(
                a.consumer_partition,
                b.consumer_partition,
            )
        }),
{
    lemma_sorted_by_key::<RuntimePartitionRoute, RouteOrder>(
        unsorted_routes(boundaries, assignments),
    );
    let all = planned_routes(boundaries, assignments);
    assert(key_le::<RuntimePartitionRoute, RouteOrder>(all[i], all[j]));
}

/// A session that hears of the mailbox of a new worker lists all in the order of their workers.
pub proof fn lemma_mailboxes_are_in_order(
    session: RuntimePartitionSessionView,
    found: RuntimePartitionRouteMailboxReportView,
    i: int,
    j: int,
)
    requires
        forall|k: int|
            0 <= k < session.route_mailboxes.len() ==> (
            #[trigger] session.route_mailboxes[k]).worker_id != found.worker_id,
        0 <= i < j <= session.route_mailboxes.len(),
    ensures
        ({
            let after = with_mailbox(session, found).route_mailboxes;
            &&& after.len() == session.route_mailboxes.len() + 1
            &&& text_le(after[i].worker_id, after[j].worker_id)
        }),
{
    let known = session.route_mailboxes;
    lemma_first_index(
        known.len(),
        is_named::<RuntimePartitionRouteMailboxReport>(known, found.worker_id),
    );
    lemma_sorted_by_key::<RuntimePartitionRouteMailboxReport, MailboxOrder>(known.push(found));
    let after = with_mailbox(session, found).route_mailboxes;
    assert(key_le::<RuntimePartitionRouteMailboxReport, MailboxOrder>(after[i], after[j]));
}

} // verus!

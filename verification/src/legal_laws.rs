//! What a legal plan owes its partitions: values that change within a cycle stay inside a group,
//! and values that are stable for a cycle are exchanged where they leave one.

use vstd::prelude::*;

use crate::collect::lemma_gather_contains;
use crate::ids::{distinct_names, last_named, lemma_last_named, Named};
use crate::legality::{
    are_linked, belong_together, exchanged_boundary, group_members, group_of, has_member,
    is_first_of_group, leaves_group, legal_plan, lemma_belong_together,
    lemma_combinational_stays_inside, lemma_group_members, lemma_groups_follow_links,
    lemma_merged_groups, links_at, merged_groups, partition_index, respects_links,
};
use crate::model::partition::{
    RuntimePartition, RuntimePartitionBoundarySignalView, RuntimePartitionPlanView,
};
use crate::seqs::lemma_last_index;
use crate::text::joined;

verus! {

/// Whether a boundary carries a register or an input, which keep their value for a whole cycle.
pub open spec fn is_stable(boundary: RuntimePartitionBoundarySignalView) -> bool {
    boundary.signal.kind is Register || boundary.signal.kind is Input
}

/// Only boundaries of the plan are exchanged, and only those that carry a register or an input.
pub proof fn lemma_only_stable_values_are_exchanged(plan: RuntimePartitionPlanView, x: int)
    requires
        0 <= x < legal_plan(plan).exchange_boundaries.len(),
    ensures
        is_stable(legal_plan(plan).exchange_boundaries[x]),
        plan.boundary_signals.contains(legal_plan(plan).exchange_boundaries[x]),
        legal_plan(plan).exchange_boundaries[x].producer_partition is Some,
{
    let n = plan.boundary_signals.len();
    let g = |i: int| exchanged_boundary(plan, i);
    let v = legal_plan(plan).exchange_boundaries[x];
    assert(legal_plan(plan).exchange_boundaries.contains(v));
    lemma_gather_contains(n, g, v);
    let i = choose|i: int| 0 <= i < n && #[trigger] g(i) == Some(v);
    assert(plan.boundary_signals[i] == v);
}

proof fn lemma_index_of(plan: RuntimePartitionPlanView, p: int)
    requires
        distinct_names::<RuntimePartition>(plan.partitions),
        0 <= p < plan.partitions.len(),
    ensures
        partition_index(plan, plan.partitions[p].id) == Some(p),
{
    lemma_last_named::<RuntimePartition>(plan.partitions, plan.partitions[p].id);
    let l = last_named::<RuntimePartition>(plan.partitions, plan.partitions[p].id)->0;
    if p < l {
        assert(RuntimePartition::name_of(plan.partitions[p]) != RuntimePartition::name_of(
            plan.partitions[l],
        ));
    }
}

/// A value that may change within a cycle does not leave its group: where a boundary carries
/// neither a register nor an input, a group has both the partition that drives it and every
/// partition that reads it.
pub proof fn lemma_unstable_values_stay_in_a_group(
    plan: RuntimePartitionPlanView,
    i: int,
    j: int,
    p: int,
    c: int,
) -> (g: int)
    requires
        distinct_names::<RuntimePartition>(plan.partitions),
        0 <= i < plan.boundary_signals.len(),
        !is_stable(plan.boundary_signals[i]),
        0 <= j < plan.boundary_signals[i].consumer_partitions.len(),
        0 <= p < plan.partitions.len(),
        0 <= c < plan.partitions.len(),
        plan.boundary_signals[i].producer_partition == Some(plan.partitions[p].id),
        plan.boundary_signals[i].consumer_partitions[j] == plan.partitions[c].id,
    ensures
        0 <= g < legal_plan(plan).groups.len(),
        legal_plan(plan).groups[g].members.contains(plan.partitions[p].id),
        legal_plan(plan).groups[g].members.contains(plan.partitions[c].id),
{
    lemma_index_of(plan, p);
    lemma_index_of(plan, c);
    lemma_combinational_stays_inside(plan, i, j);
    let groups = merged_groups(plan);
    lemma_last_index(groups.len(), has_member(groups, plan.partitions[p].id));
    lemma_last_index(groups.len(), has_member(groups, plan.partitions[c].id));
    let g = group_of(groups, plan.partitions[p].id)->0;
    assert(has_member(groups, plan.partitions[p].id)(g));
    assert(has_member(groups, plan.partitions[c].id)(g));
    g
}

/// Every partition is in a group.
pub proof fn lemma_every_partition_has_a_group(plan: RuntimePartitionPlanView, p: int) -> (g: int)
    requires
        distinct_names::<RuntimePartition>(plan.partitions),
        0 <= p < plan.partitions.len(),
    ensures
        0 <= g < legal_plan(plan).groups.len(),
        legal_plan(plan).groups[g].members.contains(plan.partitions[p].id),
        legal_plan(plan).groups[g].id == joined(legal_plan(plan).groups[g].members, "+"@),
        legal_plan(plan).module_name == plan.module_name,
{
    lemma_groups_follow_links(plan, p, p);
    let groups = merged_groups(plan);
    lemma_last_index(groups.len(), has_member(groups, plan.partitions[p].id));
    let g = group_of(groups, plan.partitions[p].id)->0;
    assert(has_member(groups, plan.partitions[p].id)(g));
    g
}

/// A register or an input that a partition of another group reads is exchanged.
pub proof fn lemma_stable_values_that_leave_are_exchanged(
    plan: RuntimePartitionPlanView,
    i: int,
    j: int,
    p: int,
    c: int,
)
    requires
        distinct_names::<RuntimePartition>(plan.partitions),
        0 <= i < plan.boundary_signals.len(),
        is_stable(plan.boundary_signals[i]),
        0 <= j < plan.boundary_signals[i].consumer_partitions.len(),
        0 <= p < plan.partitions.len(),
        0 <= c < plan.partitions.len(),
        plan.boundary_signals[i].producer_partition == Some(plan.partitions[p].id),
        plan.boundary_signals[i].consumer_partitions[j] == plan.partitions[c].id,
        forall|g: int|
            0 <= g < legal_plan(plan).groups.len() ==> !((
            #[trigger] legal_plan(plan).groups[g]).members.contains(plan.partitions[p].id)
                && legal_plan(plan).groups[g].members.contains(plan.partitions[c].id)),
    ensures
        legal_plan(plan).exchange_boundaries.contains(plan.boundary_signals[i]),
{
    let groups = merged_groups(plan);
    let boundary = plan.boundary_signals[i];
    lemma_groups_follow_links(plan, p, p);
    lemma_groups_follow_links(plan, c, c);
    let pid = plan.partitions[p].id;
    let cid = plan.partitions[c].id;
    lemma_last_index(groups.len(), has_member(groups, pid));
    lemma_last_index(groups.len(), has_member(groups, cid));
    if group_of(groups, pid) == group_of(groups, cid) {
        let g = group_of(groups, pid)->0;
        assert(has_member(groups, pid)(g));
        assert(has_member(groups, cid)(g));
        assert(legal_plan(plan).groups[g].members == groups[g]);
    }
    assert(group_of(groups, boundary.consumer_partitions[j]) != group_of(groups, pid));
    assert(leaves_group(groups, boundary));
    let g = |x: int| exchanged_boundary(plan, x);
    assert(g(i) == Some(boundary));
    lemma_gather_contains(plan.boundary_signals.len(), g, boundary);
}

/// Groups are no larger than they have to be: whatever tells the ends of no unstable boundary
/// apart does not tell the members of a group apart.
pub proof fn lemma_groups_join_no_more(
    plan: RuntimePartitionPlanView,
    label: spec_fn(Seq<char>) -> int,
    g: int,
    p: int,
    c: int,
)
    requires
        distinct_names::<RuntimePartition>(plan.partitions),
        forall|i: int, j: int|
            #![trigger plan.boundary_signals[i].consumer_partitions[j]]
            0 <= i < plan.boundary_signals.len() && !is_stable(plan.boundary_signals[i]) && 0 <= j
                < plan.boundary_signals[i].consumer_partitions.len()
                && plan.boundary_signals[i].producer_partition is Some ==> label(
                plan.boundary_signals[i].producer_partition->0,
            ) == label(plan.boundary_signals[i].consumer_partitions[j]),
        0 <= g < legal_plan(plan).groups.len(),
        0 <= p < plan.partitions.len(),
        0 <= c < plan.partitions.len(),
        legal_plan(plan).groups[g].members.contains(plan.partitions[p].id),
        legal_plan(plan).groups[g].members.contains(plan.partitions[c].id),
    ensures
        label(plan.partitions[p].id) == label(plan.partitions[c].id),
{
    lemma_members_belong_together(plan, g, p, c);
    lemma_belong_together(plan, p, c);
    let by_index = |k: int| label(plan.partitions[k].id);
    assert forall|a: int, b: int| #[trigger] are_linked(plan, a, b) implies by_index(a) == by_index(
        b,
    ) by {
        let (i, j) = choose|i: int, j: int| #[trigger] links_at(plan, i, j, a, b);
        let boundary = plan.boundary_signals[i];
        lemma_last_named::<RuntimePartition>(plan.partitions, boundary.producer_partition->0);
        lemma_last_named::<RuntimePartition>(plan.partitions, boundary.consumer_partitions[j]);
        assert(!is_stable(boundary));
        assert(label(boundary.producer_partition->0) == label(boundary.consumer_partitions[j]));
    }
    assert(respects_links(plan, by_index));
    assert(by_index(p) == by_index(c));
}

proof fn lemma_members_belong_together(plan: RuntimePartitionPlanView, g: int, p: int, c: int)
    requires
        distinct_names::<RuntimePartition>(plan.partitions),
        0 <= g < legal_plan(plan).groups.len(),
        0 <= p < plan.partitions.len(),
        0 <= c < plan.partitions.len(),
        legal_plan(plan).groups[g].members.contains(plan.partitions[p].id),
        legal_plan(plan).groups[g].members.contains(plan.partitions[c].id),
    ensures
        belong_together(plan, p, c),
{
    let groups = merged_groups(plan);
    let group = groups[g];
    assert(groups.contains(group));
    lemma_merged_groups(plan, group);
    let r = choose|r: int|
        0 <= r < plan.partitions.len() && #[trigger] is_first_of_group(plan, r) && group
            == group_members(plan, r);
    lemma_group_members(plan, r, plan.partitions[p].id);
    lemma_group_members(plan, r, plan.partitions[c].id);
    let x = choose|x: int|
        0 <= x < plan.partitions.len() && #[trigger] belong_together(plan, r, x)
            && plan.partitions[x].id == plan.partitions[p].id;
    let y = choose|y: int|
        0 <= y < plan.partitions.len() && #[trigger] belong_together(plan, r, y)
            && plan.partitions[y].id == plan.partitions[c].id;
    lemma_index_of(plan, x);
    lemma_index_of(plan, p);
    lemma_index_of(plan, y);
    lemma_index_of(plan, c);
    assert(x == p && y == c);
    lemma_belong_together(plan, r, p);
    lemma_belong_together(plan, r, c);
    lemma_belong_together(plan, p, c);
}

/// What is exchanged leaves a group: no group has both the partition that drives an exchanged
/// boundary and every one that reads it.
pub proof fn lemma_exchanged_values_leave(plan: RuntimePartitionPlanView, x: int, p: int) -> (j: int)
    requires
        distinct_names::<RuntimePartition>(plan.partitions),
        0 <= x < legal_plan(plan).exchange_boundaries.len(),
        0 <= p < plan.partitions.len(),
        legal_plan(plan).exchange_boundaries[x].producer_partition == Some(plan.partitions[p].id),
    ensures
        ({
            let boundary = legal_plan(plan).exchange_boundaries[x];
            &&& 0 <= j < boundary.consumer_partitions.len()
            &&& forall|c: int, g: int|
                #![trigger plan.partitions[c], legal_plan(plan).groups[g]]
                0 <= c < plan.partitions.len() && plan.partitions[c].id
                    == boundary.consumer_partitions[j] && 0 <= g < legal_plan(plan).groups.len()
                    ==> !(legal_plan(plan).groups[g].members.contains(plan.partitions[p].id)
                    && legal_plan(plan).groups[g].members.contains(plan.partitions[c].id))
        }),
{
    let n = plan.boundary_signals.len();
    let e = |i: int| exchanged_boundary(plan, i);
    let boundary = legal_plan(plan).exchange_boundaries[x];
    assert(legal_plan(plan).exchange_boundaries.contains(boundary));
    lemma_gather_contains(n, e, boundary);
    let i = choose|i: int| 0 <= i < n && #[trigger] e(i) == Some(boundary);
    let groups = merged_groups(plan);
    assert(leaves_group(groups, boundary));
    let j = choose|j: int|
        0 <= j < boundary.consumer_partitions.len() && group_of(
            groups,
            #[trigger] boundary.consumer_partitions[j],
        ) != group_of(groups, boundary.producer_partition->0);
    assert forall|c: int, g: int|
        #![trigger plan.partitions[c], legal_plan(plan).groups[g]]
        0 <= c < plan.partitions.len() && plan.partitions[c].id == boundary.consumer_partitions[j]
            && 0 <= g < legal_plan(plan).groups.len() implies !(
    legal_plan(plan).groups[g].members.contains(plan.partitions[p].id)
        && legal_plan(plan).groups[g].members.contains(plan.partitions[c].id)) by {
        if legal_plan(plan).groups[g].members.contains(plan.partitions[p].id)
            && legal_plan(plan).groups[g].members.contains(plan.partitions[c].id) {
            lemma_members_belong_together(plan, g, p, c);
            lemma_groups_follow_links(plan, p, c);
        }
    }
    j
}

} // verus!

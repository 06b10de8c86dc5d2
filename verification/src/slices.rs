//! The groups of signals that simulate the partitions of a plan.

use vstd::prelude::*;

use crate::collect::build_items;
use crate::model::partition::{RuntimePartitionPlan, RuntimePartitionPlanView, RuntimePartitionView};
use crate::seqs::{no_items, push_item};
use crate::text::{join_text, joined};

verus! {

/// A group that owns the signals below some instance paths.
#[derive(Debug, PartialEq, Eq)]
pub struct PackedSliceGroup {
    pub id: String,
    pub owned_paths: Vec<String>,
}

/// The model of [`PackedSliceGroup`].
#[verifier::ext_equal]
pub struct PackedSliceGroupView {
    pub id: Seq<char>,
    pub owned_paths: Seq<Seq<char>>,
}

impl DeepView for PackedSliceGroup {
    type V = PackedSliceGroupView;

    open spec fn deep_view(&self) -> PackedSliceGroupView {
        PackedSliceGroupView { id: self.id@, owned_paths: self.owned_paths.deep_view() }
    }
}

/// The group of a partition: it owns the path of its instance.
pub open spec fn slice_group(partition: RuntimePartitionView) -> PackedSliceGroupView {
    PackedSliceGroupView {
        id: partition.id,
        owned_paths: seq![joined(partition.instance_path, "."@)],
    }
}

/// The groups of all partitions of a plan.
pub open spec fn slice_groups(plan: RuntimePartitionPlanView) -> Seq<PackedSliceGroupView> {
    Seq::new(plan.partitions.len(), |i: int| slice_group(plan.partitions[i]))
}

/// Makes one group of each partition of a plan.
pub fn slice_groups_for_partition_plan(plan: &RuntimePartitionPlan) -> (r: Vec<PackedSliceGroup>)
    ensures
        r.deep_view() == slice_groups(plan.deep_view()),
{
    let ghost partitions = plan.deep_view().partitions;
    let ghost group = |i: int| slice_group(partitions[i]);
    let r = build_items(
        plan.partitions.len(),
        |i: usize| -> (y: PackedSliceGroup)
            requires
                i < plan.partitions@.len(),
                partitions == plan.deep_view().partitions,
                group == (|i: int| slice_group(partitions[i])),
            ensures
                y.deep_view() == group(i as int)
            {
                proof {
                    assert(partitions[i as int] == plan.partitions@[i as int].deep_view());
                }
                let partition = &plan.partitions[i];
                let mut owned_paths: Vec<String> = no_items();
                push_item(&mut owned_paths, join_text(&partition.instance_path, "."));
                proof {
                    assert(owned_paths.deep_view() =~= slice_group(
                        partition.deep_view(),
                    ).owned_paths);
                }
                PackedSliceGroup { id: partition.id.clone(), owned_paths }
            },
        Ghost(group),
    );
    proof {
        assert(r.deep_view() =~= slice_groups(plan.deep_view()));
    }
    r
}

} // verus!

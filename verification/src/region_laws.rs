//! How a hierarchy is cut: where its regions lie, which of them are cut first, and what is left.

use vstd::prelude::*;

use crate::collect::{concat_below, lemma_gather_contains, sum_below};
use crate::conservation::distinct_instances;
use crate::hierarchy::{
    child_of, child_work, children_work, full_work, has_name, hierarchy_ends, instances_problem,
    lemma_child_work, lemma_full_work, lemma_module_named, lemma_no_missing_module, local_work,
    module_named, no_work, work_fits, work_sum, Work,
};
use crate::model::design::{CompiledConnection, CompiledDesign, CompiledModule};
use crate::model::partition::{
    RuntimePartitionBoundarySignal, RuntimePartitionPlanView, RuntimePartitionSignalRef,
};
use crate::order::{
    key_le, lemma_sorted_by_key, lemma_sorted_by_key_contains, sorted_by_key, SortKey,
};
use crate::partitions::{
    partition_of, partition_plan, partition_plan_problem, region_boundaries, signal_ref, ByPort,
    BySignal,
};
use crate::plan_laws::{
    is_step, joins, leads_through, lemma_every_connection_is_a_boundary, lies_at,
};
use crate::regions::{
    are_sound_regions, can_split, child_region, has_local_work, has_remaining_work, instance_name,
    is_sound_region, is_split_candidate, lemma_selected_children, lemma_split_keeps_sound,
    planned_regions, refined, region_score, region_parts, region_split_count, region_work,
    selected_children, selected_names, split_candidate, split_child, split_children, split_count,
    split_limit, split_region, stays_whole, uncut_work, whole_region, with_names, ByPath,
    HeavyFirst, PartitionRegion, PartitionRegionView, SplitChild,
};
use crate::seqs::{lemma_first_index, lemma_first_index_is};

verus! {

// ---------------------------------------------------------------------------
// Where regions lie
// ---------------------------------------------------------------------------

/// Whether the path of a region leads from module `top` to the module of the region.
pub open spec fn is_placed(design: CompiledDesign, top: int, region: PartitionRegionView) -> bool {
    exists|modules: Seq<int>, steps: Seq<int>|
        #![trigger leads_through(design, top, region.instance_path, modules, steps)]
        leads_through(design, top, region.instance_path, modules, steps) && module_named(
            design,
            region.module_name,
        ) == Some(modules.last()) && instances_problem(design, modules.last()) is None
}

proof fn lemma_child_is_placed(
    design: CompiledDesign,
    top: int,
    region: PartitionRegionView,
    i: int,
    k: int,
)
    requires
        distinct_instances(design),
        is_placed(design, top, region),
        module_named(design, region.module_name) == Some(i),
        0 <= k < design.modules@[i].instances@.len(),
        hierarchy_ends(design, i),
    ensures
        is_placed(design, top, child_region(design, i, region.instance_path, k)),
{
    let (modules, steps) = choose|modules: Seq<int>, steps: Seq<int>|
        #![trigger leads_through(design, top, region.instance_path, modules, steps)]
        leads_through(design, top, region.instance_path, modules, steps) && module_named(
            design,
            region.module_name,
        ) == Some(modules.last()) && instances_problem(design, modules.last()) is None;
    let path = region.instance_path;
    let child = child_region(design, i, path, k);
    let name = instance_name(design, i, k);
    let instances = design.modules@[i].instances@;
    lemma_module_named(design, region.module_name);
    lemma_no_missing_module(design, i, instances.len(), k);
    let j = child_of(design, i, k)->0;
    lemma_module_named(design, instances[k].module@);
    lemma_first_index(design.modules@.len(), has_name(design, instances[k].module@));
    assert forall|x: int| 0 <= x < k implies (#[trigger] instances[x]).name@ != name by {
        assert(instance_name(design, i, x) != instance_name(design, i, k));
    }
    assert forall|x: int| 0 <= x < j implies (#[trigger] design.modules@[x]).name@
        != instances[k].module@ by {
        assert(!has_name(design, instances[k].module@)(x));
    }
    assert(is_step(design, i, k, name, j));
    let longer = modules.push(j);
    let more = steps.push(k);
    assert forall|x: int| 0 <= x < more.len() implies is_step(
        design,
        longer[x],
        #[trigger] more[x],
        child.instance_path[x + 1],
        longer[x + 1],
    ) by {
        if x < steps.len() {
            assert(is_step(design, modules[x], steps[x], path[x + 1], modules[x + 1]));
        }
    }
    assert(leads_through(design, top, child.instance_path, longer, more));
    assert(longer.last() == j);
}

proof fn lemma_split_is_placed(
    design: CompiledDesign,
    top: int,
    bound: Work,
    regions: Seq<PartitionRegionView>,
    index: int,
    target: int,
)
    requires
        distinct_instances(design),
        forall|r: int| 0 <= r < regions.len() ==> is_placed(design, top, #[trigger] regions[r]),
        are_sound_regions(design, bound, regions),
        0 <= index < regions.len(),
    ensures
        split_region(design, regions, index, target) matches Some(next) ==> forall|r: int|
            0 <= r < next.len() ==> is_placed(design, top, #[trigger] next[r]),
{
    let region = regions[index];
    assert(is_placed(design, top, region));
    assert(is_sound_region(design, bound, region));
    match module_named(design, region.module_name) {
        None => {},
        Some(i) => {
            let count = region_split_count(design, i, region, regions.len() as int, target);
            if count != 0 {
                let parts = region_parts(design, i, region, count);
                let cut = region.cut_child_instances;
                let names = selected_names(design, i, cut, count);
                let children = selected_children(design, i, cut, names);
                let more = with_names(cut, names, names.len());
                let head: Seq<PartitionRegionView> = if has_remaining_work(design, i, more) {
                    seq![PartitionRegionView { cut_child_instances: more, ..region }]
                } else {
                    seq![]
                };
                lemma_selected_children(design, i, cut, names);
                let next = split_region(design, regions, index, target)->0;
                assert forall|r: int| 0 <= r < next.len() implies is_placed(
                    design,
                    top,
                    #[trigger] next[r],
                ) by {
                    if r < index {
                        assert(next[r] == regions[r]);
                    } else if r < index + parts.len() {
                        let x = r - index;
                        assert(next[r] == parts[x]);
                        if x < head.len() {
                            assert(parts[x] == head[x]);
                            assert(parts[x].instance_path == region.instance_path);
                            assert(parts[x].module_name == region.module_name);
                            let (modules, steps) = choose|modules: Seq<int>, steps: Seq<int>|
                                #![trigger leads_through(design, top, region.instance_path, modules, steps)]
                                leads_through(
                                    design,
                                    top,
                                    region.instance_path,
                                    modules,
                                    steps,
                                ) && module_named(design, region.module_name) == Some(
                                    modules.last(),
                                ) && instances_problem(design, modules.last()) is None;
                            assert(leads_through(
                                design,
                                top,
                                parts[x].instance_path,
                                modules,
                                steps,
                            ));
                        } else {
                            let k = children[x - head.len()].instance as int;
                            assert(parts[x] == child_region(design, i, region.instance_path, k));
                            lemma_child_is_placed(design, top, region, i, k);
                        }
                    } else {
                        assert(next[r] == regions[r - parts.len() + 1]);
                    }
                }
            }
        },
    }
}

proof fn lemma_refined_is_placed(
    design: CompiledDesign,
    top: int,
    bound: Work,
    regions: Seq<PartitionRegionView>,
    target: int,
    steps: nat,
)
    requires
        distinct_instances(design),
        forall|r: int| 0 <= r < regions.len() ==> is_placed(design, top, #[trigger] regions[r]),
        are_sound_regions(design, bound, regions),
    ensures
        forall|r: int|
            0 <= r < refined(design, regions, target, steps).len() ==> is_placed(
                design,
                top,
                #[trigger] refined(design, regions, target, steps)[r],
            ),
    decreases steps,
{
    let all = refined(design, regions, target, steps);
    if regions.len() < target && steps > 0 {
        lemma_first_index(regions.len(), is_split_candidate(design, regions));
        match split_candidate(design, regions) {
            None => {
                assert(all == regions);
            },
            Some(index) => {
                lemma_split_is_placed(design, top, bound, regions, index, target);
                lemma_split_keeps_sound(design, bound, regions, index, target);
                match split_region(design, regions, index, target) {
                    None => {
                        assert(all == regions);
                    },
                    Some(next) => {
                        lemma_refined_is_placed(
                            design,
                            top,
                            bound,
                            next,
                            target,
                            (steps - 1) as nat,
                        );
                        assert(all == refined(design, next, target, (steps - 1) as nat));
                    },
                }
            },
        }
    } else {
        assert(all == regions);
    }
    assert forall|r: int| 0 <= r < all.len() implies is_placed(design, top, #[trigger] all[r]) by {}
}

/// The path of every partition of a plan leads from the planned module, instance by instance, to
/// the module of the partition.
pub proof fn lemma_paths_lead_to_partitions(
    design: CompiledDesign,
    module_name: Seq<char>,
    target: int,
    r: int,
) -> (way: (Seq<int>, Seq<int>))
    requires
        distinct_instances(design),
        partition_plan_problem(design, module_name, target) is None,
        hierarchy_ends(design, module_named(design, module_name)->0),
        0 <= r < partition_plan(design, module_name, target).partitions.len(),
    ensures
        ({
            let partition = partition_plan(design, module_name, target).partitions[r];
            let top = module_named(design, module_name)->0;
            &&& leads_through(design, top, partition.instance_path, way.0, way.1)
            &&& 0 <= way.0.last() < design.modules@.len()
            &&& design.modules@[way.0.last()].name@ == partition.module_name
            &&& partition.external == design.modules@[way.0.last()].is_external
        }),
{
    let top = module_named(design, module_name)->0;
    lemma_module_named(design, module_name);
    let regions = planned_regions(design, top, target);
    let region = regions[r];
    if stays_whole(design.modules@[top], target) {
        let modules = seq![top];
        let steps = Seq::<int>::empty();
        assert(leads_through(design, top, region.instance_path, modules, steps));
        (modules, steps)
    } else {
        let first = seq![whole_region(seq![], module_name)];
        let bound = full_work(design, top);
        assert(leads_through(
            design,
            top,
            first[0].instance_path,
            seq![top],
            Seq::<int>::empty(),
        ));
        assert(seq![top].last() == top);
        assert(is_placed(design, top, first[0]));
        assert(are_sound_regions(design, bound, first));
        lemma_refined_is_placed(design, top, bound, first, target, split_limit(target));
        let all = refined(design, first, target, split_limit(target));
        let sorted = sorted_by_key::<PartitionRegion, ByPath>(all);
        lemma_sorted_by_key::<PartitionRegion, ByPath>(all);
        lemma_sorted_by_key_contains::<PartitionRegion, ByPath>(all, sorted[r]);
        assert(sorted.contains(sorted[r]));
        let x = choose|x: int| 0 <= x < all.len() && all[x] == sorted[r];
        assert(is_placed(design, top, all[x]));
        let (modules, steps) = choose|modules: Seq<int>, steps: Seq<int>|
            #![trigger leads_through(design, top, all[x].instance_path, modules, steps)]
            leads_through(design, top, all[x].instance_path, modules, steps) && module_named(
                design,
                all[x].module_name,
            ) == Some(modules.last()) && instances_problem(design, modules.last()) is None;
        lemma_module_named(design, region.module_name);
        assert(region.instance_path == all[x].instance_path);
        assert(region.module_name == all[x].module_name);
        (modules, steps)
    }
}

/// Whether boundary `b` of a plan stands for a connection to signal `s` of the module around.
pub open spec fn stands_for(
    plan: RuntimePartitionPlanView,
    b: int,
    r: int,
    parent: CompiledModule,
    connection: CompiledConnection,
    s: int,
    around: Option<Seq<char>>,
) -> bool {
    let boundary = plan.boundary_signals[b];
    &&& 0 <= b < plan.boundary_signals.len()
    &&& boundary.instance_path == plan.partitions[r].instance_path
    &&& boundary.port_name == connection.port@
    &&& boundary.signal.signal_name == parent.signals@[s].name@
    &&& boundary.width == connection.width
    &&& joins(boundary, connection.direction, around, plan.partitions[r].id)
}

/// Every partition below the top of a plan, however deep, is wired to the one around it: its
/// instance lies in the module at the rest of its path, and each connection of the instance to a
/// signal of that module has a boundary.
pub proof fn lemma_every_partition_is_wired(
    design: CompiledDesign,
    module_name: Seq<char>,
    target: int,
    r: int,
    around: Option<Seq<char>>,
) -> (way: (Seq<int>, Seq<int>))
    requires
        distinct_instances(design),
        partition_plan_problem(design, module_name, target) is None,
        hierarchy_ends(design, module_named(design, module_name)->0),
        ({
            let plan = partition_plan(design, module_name, target);
            &&& 0 <= r < plan.partitions.len()
            &&& plan.partitions[r].instance_path.len() >= 2
            &&& lies_at(plan.partitions, plan.partitions[r].instance_path.drop_last(), around)
        }),
    ensures
        ({
            let plan = partition_plan(design, module_name, target);
            let path = plan.partitions[r].instance_path;
            let top = module_named(design, module_name)->0;
            let parent = design.modules@[way.0[path.len() - 2]];
            let connections = parent.instances@[way.1.last()].connections@;
            &&& leads_through(design, top, path, way.0, way.1)
            &&& parent.instances@[way.1.last()].name@ == path.last()
            &&& parent.instances@[way.1.last()].module@ == plan.partitions[r].module_name
            &&& forall|c: int, s: int|
                0 <= c < connections.len() && 0 <= s < parent.signals@.len() && (
                #[trigger] parent.signals@[s]).handle == (#[trigger] connections[c]).signal && (
                forall|j: int|
                    0 <= j < s ==> (#[trigger] parent.signals@[j]).handle != connections[c].signal)
                    ==> exists|b: int| #[trigger]
                    stands_for(plan, b, r, parent, connections[c], s, around)
        }),
{
    let plan = partition_plan(design, module_name, target);
    let path = plan.partitions[r].instance_path;
    let way = lemma_paths_lead_to_partitions(design, module_name, target, r);
    let parent = design.modules@[way.0[path.len() - 2]];
    let last = way.1.len() - 1;
    assert(is_step(design, way.0[last], way.1[last], path[last + 1], way.0[last + 1]));
    let connections = parent.instances@[way.1.last()].connections@;
    assert forall|c: int, s: int|
        0 <= c < connections.len() && 0 <= s < parent.signals@.len() && (
        #[trigger] parent.signals@[s]).handle == (#[trigger] connections[c]).signal && (forall|
            j: int,
        |
            0 <= j < s ==> (#[trigger] parent.signals@[j]).handle != connections[c].signal)
        implies exists|b: int| #[trigger]
        stands_for(plan, b, r, parent, connections[c], s, around) by {
        let b = lemma_every_connection_is_a_boundary(
            design,
            module_name,
            target,
            r,
            way.0,
            way.1,
            around,
            c,
            s,
        );
        assert(stands_for(plan, b, r, parent, connections[c], s, around));
    }
    way
}

// ---------------------------------------------------------------------------
// What is cut first
// ---------------------------------------------------------------------------

/// Whether work, all kinds together, can be stated in 64 bits.
pub open spec fn weighs_little(w: Work) -> bool {
    w.compute >= 0 && w.state >= 0 && w.memory >= 0 && w.compute + w.state + w.memory <= u64::MAX
}

/// Of the regions that can be split, one with the most operations, state bits and memory bits
/// together is split first, and the first of those.
pub proof fn lemma_heaviest_region_is_split(
    design: CompiledDesign,
    regions: Seq<PartitionRegionView>,
    k: int,
    j: int,
)
    requires
        split_candidate(design, regions) == Some(k),
        0 <= j < regions.len(),
        can_split(design, regions[j]),
        forall|r: int|
            0 <= r < regions.len() ==> weighs_little(region_work(design, #[trigger] regions[r])),
    ensures
        0 <= k < regions.len(),
        can_split(design, regions[k]),
        ({
            let a = region_work(design, regions[k]);
            let b = region_work(design, regions[j]);
            &&& b.compute + b.state + b.memory <= a.compute + a.state + a.memory
            &&& j < k ==> b.compute + b.state + b.memory < a.compute + a.state + a.memory
        }),
{
    let p = is_split_candidate(design, regions);
    lemma_first_index(regions.len(), p);
    assert(p(k));
    assert(weighs_little(region_work(design, regions[k])));
    assert(weighs_little(region_work(design, regions[j])));
    if j < k {
        assert(!p(j));
        let other = choose|x: int|
            0 <= x < regions.len() && #[trigger] can_split(design, regions[x])
                && region_score(design, regions[x])
                > region_score(design, regions[j]);
        assert(weighs_little(region_work(design, regions[other])));
    }
}

/// A region can be split exactly when its module is there, is not external, and has an instance
/// that is not cut out yet.
pub proof fn lemma_region_can_be_split(design: CompiledDesign, region: PartitionRegionView, i: int)
    requires
        module_named(design, region.module_name) == Some(i),
    ensures
        can_split(design, region) <==> {
            &&& !design.modules@[i].is_external
            &&& exists|k: int|
                0 <= k < design.modules@[i].instances@.len()
                    && !region.cut_child_instances.contains(
                    (#[trigger] design.modules@[i].instances@[k]).name@,
                )
        },
{
    let cut = region.cut_child_instances;
    let n = design.modules@[i].instances@.len();
    let g = |k: int| split_child(design, i, cut, k);
    let all = split_children(design, i, cut);
    if all.len() > 0 {
        assert(all.contains(all[0]));
        lemma_gather_contains(n, g, all[0]);
        let k = choose|k: int| 0 <= k < n && #[trigger] g(k) == Some(all[0]);
        assert(!cut.contains(design.modules@[i].instances@[k].name@));
    }
    if exists|k: int|
        0 <= k < n && !cut.contains((#[trigger] design.modules@[i].instances@[k]).name@) {
        let k = choose|k: int|
            0 <= k < n && !cut.contains((#[trigger] design.modules@[i].instances@[k]).name@);
        let v = g(k)->0;
        assert(g(k) == Some(v));
        lemma_gather_contains(n, g, v);
        assert(all.contains(v));
    }
}

/// As many instances are cut out as there is room for, or all of them: those that have room, or
/// one more where nothing of the region is left.
pub proof fn lemma_as_many_are_cut_as_fit(local: bool, uncut: int, remaining: int)
    requires
        uncut >= 0,
        remaining >= 0,
    ensures
        0 <= split_count(local, uncut, remaining) <= uncut,
        split_count(local, uncut, remaining) == uncut || split_count(local, uncut, remaining)
            == remaining,
        local ==> split_count(local, uncut, remaining) <= remaining,
        !local && uncut <= remaining + 1 ==> split_count(local, uncut, remaining) == uncut,
        split_count(local, uncut, remaining) <= remaining + 1,
        uncut > remaining + 1 ==> split_count(local, uncut, remaining) == remaining,
{
}

/// The instances that are cut out are the heaviest, by the operations, state bits and memory bits
/// of all that is below them: none that is left weighs more.
pub proof fn lemma_heaviest_instances_are_cut(
    design: CompiledDesign,
    i: int,
    cut: Seq<Seq<char>>,
    count: int,
    x: int,
    k: int,
) -> (c: int)
    requires
        hierarchy_ends(design, i),
        0 <= i < design.modules@.len(),
        0 <= x < count <= split_children(design, i, cut).len(),
        0 <= k < design.modules@[i].instances@.len(),
        !cut.contains(design.modules@[i].instances@[k].name@),
        !selected_names(design, i, cut, count).contains(design.modules@[i].instances@[k].name@),
        forall|m: int|
            0 <= m < design.modules@[i].instances@.len() ==> weighs_little(
                #[trigger] child_work(design, i, m),
            ),
    ensures
        0 <= c < design.modules@[i].instances@.len(),
        selected_names(design, i, cut, count)[x] == design.modules@[i].instances@[c].name@,
        !cut.contains(design.modules@[i].instances@[c].name@),
        ({
            let chosen = child_work(design, i, c);
            let left = child_work(design, i, k);
            left.compute + left.state + left.memory <= chosen.compute + chosen.state + chosen.memory
        }),
{
    let n = design.modules@[i].instances@.len();
    assert(n == design.modules@[i].instances.len());
    let g = |m: int| split_child(design, i, cut, m);
    let uncut = split_children(design, i, cut);
    let ranked = sorted_by_key::<SplitChild, HeavyFirst>(uncut);
    let names = selected_names(design, i, cut, count);
    lemma_sorted_by_key::<SplitChild, HeavyFirst>(uncut);
    let left = g(k)->0;
    assert(g(k) == Some(left));
    lemma_gather_contains(n, g, left);
    lemma_sorted_by_key_contains::<SplitChild, HeavyFirst>(uncut, left);
    let y = choose|y: int| 0 <= y < ranked.len() && ranked[y] == left;
    if y < count {
        assert(names[y] == design.modules@[i].instances@[k].name@);
    }
    assert(key_le::<SplitChild, HeavyFirst>(ranked[x], ranked[y]));
    lemma_sorted_by_key_contains::<SplitChild, HeavyFirst>(uncut, ranked[x]);
    assert(ranked.contains(ranked[x]));
    lemma_gather_contains(n, g, ranked[x]);
    let c = choose|c: int| 0 <= c < n && #[trigger] g(c) == Some(ranked[x]);
    assert(weighs_little(child_work(design, i, c)));
    assert(weighs_little(child_work(design, i, k)));
    c
}

/// A module that computes or stores anything by itself has work of its own, and so has one without
/// instances.
pub proof fn lemma_working_module_stays(module: CompiledModule)
    ensures
        local_work(module).compute > 0 || local_work(module).state > 0 ==> has_local_work(module),
        module.instances@.len() == 0 ==> has_local_work(module),
        has_local_work(module) ==> module.instances@.len() == 0 || module.assignments@.len()
            + module.registers@.len() + module.memory_writes@.len() + module.assertions@.len()
            + module.cover_points@.len() > 0,
{
}

// ---------------------------------------------------------------------------
// What is left
// ---------------------------------------------------------------------------

/// What is below an instance, by one kind of work.
pub open spec fn below(
    design: CompiledDesign,
    i: int,
    f: spec_fn(Work) -> int,
) -> spec_fn(int) -> int {
    |k: int| f(child_work(design, i, k))
}

proof fn lemma_children_add_up(design: CompiledDesign, i: int, n: nat)
    requires
        hierarchy_ends(design, i),
        n <= design.modules@[i].instances@.len(),
    ensures
        children_work(design, i, n).compute == sum_below(n, below(design, i, |w: Work| w.compute)),
        children_work(design, i, n).state == sum_below(n, below(design, i, |w: Work| w.state)),
        children_work(design, i, n).memory == sum_below(n, below(design, i, |w: Work| w.memory)),
    decreases n,
{
    if n > 0 {
        lemma_children_add_up(design, i, (n - 1) as nat);
        lemma_child_work(design, i, n - 1);
        let f = below(design, i, |w: Work| w.compute);
        assert(children_work(design, i, n) == work_sum(
            children_work(design, i, (n - 1) as nat),
            child_work(design, i, n - 1),
        ));
        assert(sum_below(n, f) == sum_below((n - 1) as nat, f) + f(n - 1));
    } else {
        assert(children_work(design, i, 0) == no_work());
    }
}

/// The work of a module is its own and that below each of its instances, as often as the module of
/// the instance is used.
pub proof fn lemma_module_work_adds_up(design: CompiledDesign, i: int)
    requires
        hierarchy_ends(design, i),
    ensures
        ({
            let n = design.modules@[i].instances@.len();
            let own = local_work(design.modules@[i]);
            let all = full_work(design, i);
            &&& all.compute == own.compute + sum_below(n, below(design, i, |w: Work| w.compute))
            &&& all.state == own.state + sum_below(n, below(design, i, |w: Work| w.state))
            &&& all.memory == own.memory + sum_below(n, below(design, i, |w: Work| w.memory))
        }),
{
    lemma_children_add_up(design, i, design.modules@[i].instances@.len());
}

/// What is below an instance is all work of the module that it holds.
pub proof fn lemma_instance_work_is_its_module(design: CompiledDesign, i: int, k: int, j: int)
    requires
        0 <= k < design.modules@[i].instances@.len(),
        0 <= j < design.modules@.len(),
        design.modules@[j].name@ == design.modules@[i].instances@[k].module@,
        forall|x: int|
            0 <= x < j ==> (#[trigger] design.modules@[x]).name@
                != design.modules@[i].instances@[k].module@,
    ensures
        child_work(design, i, k) == full_work(design, j),
{
    let name = design.modules@[i].instances@[k].module@;
    assert forall|x: int| 0 <= x < j implies !#[trigger] has_name(design, name)(x) by {
        assert(design.modules@[x].name@ != name);
    }
    lemma_first_index_is(design.modules@.len(), has_name(design, name), j);
}

/// A module that is planned as one partition is that partition: it has the path, the id and all
/// the work of the module.
pub proof fn lemma_whole_module_is_one_partition(
    design: CompiledDesign,
    module_name: Seq<char>,
    target: int,
)
    requires
        partition_plan_problem(design, module_name, target) is None,
        hierarchy_ends(design, module_named(design, module_name)->0),
        work_fits(full_work(design, module_named(design, module_name)->0)),
        target == 1 || design.modules@[module_named(design, module_name)->0].instances@.len() == 0,
    ensures
        ({
            let plan = partition_plan(design, module_name, target);
            let top = module_named(design, module_name)->0;
            &&& plan.partitions.len() == 1
            &&& plan.partitions[0].id == "p0"@
            &&& plan.partitions[0].module_name == module_name
            &&& plan.partitions[0].instance_path == seq![module_name]
            &&& plan.partitions[0].cost.compute_ops == full_work(design, top).compute
            &&& plan.partitions[0].cost.state_bits == full_work(design, top).state
            &&& plan.partitions[0].cost.memory_bits == full_work(design, top).memory
            &&& plan.partitions[0].cost.boundary_bits == 0
            &&& plan.boundary_signals.len() == 0
        }),
{
    let top = module_named(design, module_name)->0;
    lemma_module_named(design, module_name);
    let regions = planned_regions(design, top, target);
    lemma_full_work(design, top);
    lemma_nothing_cut(design, top, design.modules@[top].instances@.len());
    let g = |r: int| region_boundaries(design, top, regions, r);
    assert(concat_below(0, g).len() == 0);
    assert(g(0).len() == 0);
    assert(concat_below(1, g) =~= Seq::empty());
    lemma_sorted_by_key::<
        RuntimePartitionBoundarySignal,
        ByPort,
    >(concat_below(regions.len(), g));
}

proof fn lemma_nothing_cut(design: CompiledDesign, i: int, k: nat)
    requires
        hierarchy_ends(design, i),
        k <= design.modules@[i].instances@.len(),
    ensures
        uncut_work(design, i, Seq::<Seq<char>>::empty(), k) == children_work(design, i, k),
    decreases k,
{
    let none = Seq::<Seq<char>>::empty();
    if k > 0 {
        lemma_nothing_cut(design, i, (k - 1) as nat);
        lemma_child_work(design, i, k - 1);
        assert(!none.contains(design.modules@[i].instances@[k - 1].name@));
        assert(children_work(design, i, k) == work_sum(
            children_work(design, i, (k - 1) as nat),
            child_work(design, i, k - 1),
        ));
    } else {
        assert(children_work(design, i, 0) == no_work());
    }
}

// ---------------------------------------------------------------------------
// Signals of partitions
// ---------------------------------------------------------------------------

/// A partition lists every signal of its module, with its name, handle and width, and says what it
/// is.
pub proof fn lemma_partition_lists_signals(
    design: CompiledDesign,
    region: PartitionRegionView,
    i: int,
    s: int,
) -> (x: int)
    requires
        module_named(design, region.module_name) == Some(i),
        0 <= s < design.modules@[i].signals@.len(),
    ensures
        ({
            let module = design.modules@[i];
            let listed = partition_of(design, region).signals;
            let signal = module.signals@[s];
            &&& listed.len() == module.signals@.len()
            &&& 0 <= x < listed.len()
            &&& listed[x].module_name == module.name@
            &&& listed[x].signal_name == signal.name@
            &&& listed[x].signal == signal.handle
            &&& listed[x].width == signal.width
            &&& listed[x].kind is Register <==> signal.kind is Reg
            &&& listed[x].kind is Memory <==> signal.kind is Mem
            &&& listed[x].kind is Input <==> signal.kind is Input
            &&& listed[x].kind is Output <==> signal.kind is Output
            &&& listed[x].kind is Inout <==> signal.kind is Inout
            &&& listed[x].kind is Wire <==> signal.kind is Wire
        }),
{
    let module = design.modules@[i];
    let all = Seq::new(module.signals@.len(), |s: int| signal_ref(module, module.signals@[s]));
    let sorted = sorted_by_key::<RuntimePartitionSignalRef, BySignal>(all);
    lemma_sorted_by_key::<RuntimePartitionSignalRef, BySignal>(all);
    lemma_sorted_by_key_contains::<RuntimePartitionSignalRef, BySignal>(all, all[s]);
    assert(all.contains(all[s]));
    let x = choose|x: int| 0 <= x < sorted.len() && sorted[x] == all[s];
    x
}

} // verus!

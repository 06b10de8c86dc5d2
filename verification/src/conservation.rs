//! What cutting a hierarchy into regions keeps: the work, and the number of
//! regions that was asked for.

use vstd::prelude::*;

use crate::collect::{gather, lemma_gather_contains, sum_below};
use crate::hierarchy::{
    child_of, child_work, children_work, full_work, hierarchy_ends, is_work, lemma_child_ends,
    lemma_child_work, lemma_local_work, lemma_module_named, local_work, module_named, no_work,
    work_sum, Work,
};
use crate::model::design::{CompiledDesign, CompiledModule};
use crate::order::{lemma_sorted_by_key, lemma_sorted_by_key_contains, sorted_by_key};
use crate::regions::{
    are_sound_regions, child_region, has_local_work, has_remaining_work, instance_name,
    is_sound_region, is_split_candidate, lemma_split_keeps_sound, lemma_uncut_work, listed_regions,
    module_region_work, planned_regions, refined, region_parts, region_split_count, region_work,
    regions_problem, selected_child, selected_children, selected_names, split_candidate,
    split_child, split_children, split_count, split_limit, split_region, stays_whole, uncut_work,
    whole_region, with_names, ByPath, ByPlace, HeavyFirst, NamePlace, PartitionRegion,
    PartitionRegionView, SplitChild,
};
use crate::seqs::{lemma_first_index, lemma_sum_by_push, sum_by};

verus! {

// ---------------------------------------------------------------------------
// Sums over sequences
// ---------------------------------------------------------------------------

/// The sum over two sequences, one behind the other.
pub proof fn lemma_sum_by_concat<A>(s: Seq<A>, t: Seq<A>, f: spec_fn(A) -> int)
    ensures
        sum_by(s + t, f) == sum_by(s, f) + sum_by(t, f),
    decreases t.len(),
{
    if t.len() == 0 {
        assert(s + t =~= s);
    } else {
        lemma_sum_by_concat(s, t.drop_last(), f);
        assert(s + t =~= (s + t.drop_last()).push(t.last()));
        assert(t =~= t.drop_last().push(t.last()));
        lemma_sum_by_push(s + t.drop_last(), t.last(), f);
        lemma_sum_by_push(t.drop_last(), t.last(), f);
    }
}

/// The sum over one value.
pub proof fn lemma_sum_by_one<A>(x: A, f: spec_fn(A) -> int)
    ensures
        sum_by(seq![x], f) == f(x),
{
    assert(seq![x] =~= Seq::<A>::empty().push(x));
    lemma_sum_by_push(Seq::<A>::empty(), x, f);
}

/// A sum does not depend on the order.
pub proof fn lemma_sum_by_permutation<A>(s: Seq<A>, t: Seq<A>, f: spec_fn(A) -> int)
    requires
        s.to_multiset() == t.to_multiset(),
    ensures
        sum_by(s, f) == sum_by(t, f),
    decreases s.len(),
{
    broadcast use vstd::seq_lib::group_to_multiset_ensures;

    assert(s.len() == s.to_multiset().len());
    assert(t.len() == t.to_multiset().len());
    if s.len() > 0 {
        let x = s.last();
        let n = s.len() as int;
        assert(s.contains(x));
        assert(s.to_multiset().count(x) > 0);
        assert(t.contains(x));
        let k = choose|k: int| 0 <= k < t.len() && t[k] == x;
        let rest = t.remove(k);
        assert(s.drop_last() =~= s.remove(n - 1));
        s.to_multiset_ensures();
        t.to_multiset_ensures();
        assert(s.remove(n - 1).to_multiset() =~= s.to_multiset().remove(x));
        assert(t.remove(k).to_multiset() =~= t.to_multiset().remove(x));
        lemma_sum_by_permutation(s.drop_last(), rest, f);
        let head = t.take(k);
        let tail = t.skip(k + 1);
        assert(rest =~= head + tail);
        assert(t =~= head + seq![x] + tail);
        lemma_sum_by_concat(head, tail, f);
        lemma_sum_by_concat(head + seq![x], tail, f);
        lemma_sum_by_concat(head, seq![x], f);
        lemma_sum_by_one(x, f);
        assert(s =~= s.drop_last().push(x));
        lemma_sum_by_push(s.drop_last(), x, f);
    } else {
        assert(t =~= s);
    }
}

/// A sum over a sequence is the sum over its indexes.
pub proof fn lemma_sum_by_index<A>(s: Seq<A>, f: spec_fn(A) -> int, g: spec_fn(int) -> int)
    requires
        forall|i: int| 0 <= i < s.len() ==> f(#[trigger] s[i]) == g(i),
    ensures
        sum_by(s, f) == sum_below(s.len(), g),
    decreases s.len(),
{
    if s.len() > 0 {
        let t = s.drop_last();
        assert forall|i: int| 0 <= i < t.len() implies f(#[trigger] t[i]) == g(i) by {
            assert(f(s[i]) == g(i));
        }
        lemma_sum_by_index(t, f, g);
        assert(f(s[s.len() - 1]) == g(s.len() - 1));
    }
}

/// A sum of values that are not negative is no less than any of them.
pub proof fn lemma_sum_at_least<A>(s: Seq<A>, f: spec_fn(A) -> int, k: int)
    requires
        0 <= k < s.len(),
        forall|i: int| 0 <= i < s.len() ==> f(#[trigger] s[i]) >= 0,
    ensures
        sum_by(s, f) >= f(s[k]),
    decreases s.len(),
{
    let t = s.drop_last();
    assert forall|i: int| 0 <= i < t.len() implies f(#[trigger] t[i]) >= 0 by {
        assert(f(s[i]) >= 0);
    }
    if k < t.len() {
        lemma_sum_at_least(t, f, k);
        assert(t[k] == s[k]);
        assert(f(s[s.len() - 1]) >= 0);
    } else if t.len() > 0 {
        lemma_sum_at_least(t, f, 0);
        assert(f(t[0]) >= 0);
    } else {
        assert(sum_by(t, f) == 0);
    }
    assert(sum_by(s, f) == sum_by(t, f) + f(s[s.len() - 1]));
}

/// The measure of what is gathered at an index.
pub open spec fn gathered<A>(g: spec_fn(int) -> Option<A>, f: spec_fn(A) -> int) -> spec_fn(
    int,
) -> int {
    |k: int|
        match g(k) {
            Some(v) => f(v),
            None => 0,
        }
}

/// A sum over gathered values is a sum over the indexes.
pub proof fn lemma_sum_by_gather<A>(n: nat, g: spec_fn(int) -> Option<A>, f: spec_fn(A) -> int)
    ensures
        sum_by(gather(n, g), f) == sum_below(n, gathered(g, f)),
    decreases n,
{
    if n > 0 {
        lemma_sum_by_gather((n - 1) as nat, g, f);
        match g(n - 1) {
            Some(v) => lemma_sum_by_push(gather((n - 1) as nat, g), v, f),
            None => {},
        }
    }
}

/// The sum over a sequence that is mapped.
pub proof fn lemma_sum_by_mapped<A, B>(
    s: Seq<A>,
    t: Seq<B>,
    f: spec_fn(A) -> int,
    h: spec_fn(B) -> int,
)
    requires
        s.len() == t.len(),
        forall|x: int| 0 <= x < s.len() ==> f(#[trigger] s[x]) == h(t[x]),
    ensures
        sum_by(s, f) == sum_by(t, h),
    decreases s.len(),
{
    if s.len() > 0 {
        assert forall|x: int| 0 <= x < s.drop_last().len() implies f(#[trigger] s.drop_last()[x])
            == h(t.drop_last()[x]) by {
            assert(f(s[x]) == h(t[x]));
        }
        lemma_sum_by_mapped(s.drop_last(), t.drop_last(), f, h);
        assert(f(s[s.len() - 1]) == h(t[s.len() - 1]));
    }
}

// ---------------------------------------------------------------------------
// Work
// ---------------------------------------------------------------------------

/// Whether a measure of work adds up.
pub open spec fn is_part(part: spec_fn(Work) -> int) -> bool {
    &&& part(no_work()) == 0
    &&& forall|a: Work, b: Work| #[trigger] part(work_sum(a, b)) == part(a) + part(b)
    &&& forall|a: Work| is_work(a) ==> #[trigger] part(a) >= 0
}

pub open spec fn compute_part() -> spec_fn(Work) -> int {
    |w: Work| w.compute
}

pub open spec fn state_part() -> spec_fn(Work) -> int {
    |w: Work| w.state
}

pub open spec fn memory_part() -> spec_fn(Work) -> int {
    |w: Work| w.memory
}

/// The work of a region, measured.
pub open spec fn region_part(design: CompiledDesign, part: spec_fn(Work) -> int) -> spec_fn(
    PartitionRegionView,
) -> int {
    |r: PartitionRegionView| part(region_work(design, r))
}

/// Without a cut a region has all the work of its module.
proof fn lemma_uncut_all(design: CompiledDesign, i: int, k: nat)
    requires
        hierarchy_ends(design, i),
        k <= design.modules@[i].instances@.len(),
    ensures
        uncut_work(design, i, seq![], k) == children_work(design, i, k),
    decreases k,
{
    if k > 0 {
        lemma_uncut_all(design, i, (k - 1) as nat);
        lemma_child_work(design, i, k - 1);
        let none = Seq::<Seq<char>>::empty();
        assert(!none.contains(instance_name(design, i, k - 1)));
        assert(uncut_work(design, i, none, k) == work_sum(
            uncut_work(design, i, none, (k - 1) as nat),
            child_work(design, i, k - 1),
        ));
        assert(children_work(design, i, k) == work_sum(
            children_work(design, i, (k - 1) as nat),
            child_work(design, i, k - 1),
        ));
    }
}

proof fn lemma_with_names(cut: Seq<Seq<char>>, names: Seq<Seq<char>>, n: nat, name: Seq<char>)
    requires
        n <= names.len(),
    ensures
        with_names(cut, names, n).contains(name) <==> cut.contains(name) || names.take(
            n as int,
        ).contains(name),
    decreases n,
{
    if n > 0 {
        let rest = with_names(cut, names, (n - 1) as nat);
        let last = names[n - 1];
        lemma_with_names(cut, names, (n - 1) as nat, name);
        assert(names.take(n as int) =~= names.take(n - 1).push(last));
        let few = names.take(n - 1);
        if few.contains(name) {
            let x = choose|x: int| 0 <= x < few.len() && few[x] == name;
            assert(few.push(last)[x] == name);
        }
        if few.push(last).contains(name) && name != last {
            let x = choose|x: int| 0 <= x < few.push(last).len() && few.push(last)[x] == name;
            assert(few[x] == name);
        }
        assert(few.push(last)[n - 1] == last);
        if !rest.contains(last) {
            let more = rest.push(last);
            if rest.contains(name) {
                let x = choose|x: int| 0 <= x < rest.len() && rest[x] == name;
                assert(more[x] == name);
            }
            if more.contains(name) && name != last {
                let x = choose|x: int| 0 <= x < more.len() && more[x] == name;
                assert(rest[x] == name);
            }
            assert(more[rest.len() as int] == last);
        } else if few.push(last).contains(name) && name == last {
            assert(rest.contains(name));
        }
    } else {
        assert(!names.take(0).contains(name));
    }
}

/// The measured work below a selected instance.
spec fn selected_part(
    design: CompiledDesign,
    i: int,
    cut: Seq<Seq<char>>,
    names: Seq<Seq<char>>,
    part: spec_fn(Work) -> int,
) -> spec_fn(int) -> int {
    |k: int|
        match selected_child(design, i, cut, names, k) {
            Some(p) => part(child_work(design, i, p.instance as int)),
            None => 0,
        }
}

/// What is not cut before is not cut after or is selected.
proof fn lemma_cut_more(
    design: CompiledDesign,
    i: int,
    cut: Seq<Seq<char>>,
    names: Seq<Seq<char>>,
    part: spec_fn(Work) -> int,
    n: nat,
)
    requires
        is_part(part),
        n <= design.modules@[i].instances@.len() <= usize::MAX,
    ensures
        part(uncut_work(design, i, cut, n)) == part(
            uncut_work(design, i, with_names(cut, names, names.len()), n),
        ) + sum_below(n, selected_part(design, i, cut, names, part)),
    decreases n,
{
    let more = with_names(cut, names, names.len());
    if n > 0 {
        lemma_cut_more(design, i, cut, names, part, (n - 1) as nat);
        let name = instance_name(design, i, n - 1);
        lemma_with_names(cut, names, names.len(), name);
        assert(names.take(names.len() as int) =~= names);
        let w = child_work(design, i, n - 1);
        let before = uncut_work(design, i, cut, (n - 1) as nat);
        let after = uncut_work(design, i, more, (n - 1) as nat);
        assert(part(work_sum(before, w)) == part(before) + part(w));
        assert(part(work_sum(before, no_work())) == part(before) + part(no_work()));
        assert(part(work_sum(after, w)) == part(after) + part(w));
        assert(part(work_sum(after, no_work())) == part(after) + part(no_work()));
    }
}

/// Splitting a region shares its work out: nothing is counted twice, and only
/// what a module holds without working on it can be dropped.
proof fn lemma_parts_share_work(
    design: CompiledDesign,
    i: int,
    region: PartitionRegionView,
    count: int,
    part: spec_fn(Work) -> int,
)
    requires
        is_part(part),
        count >= 0,
        module_named(design, region.module_name) == Some(i),
        hierarchy_ends(design, i),
    ensures
        sum_by(region_parts(design, i, region, count), region_part(design, part)) <= part(
            region_work(design, region),
        ),
        part(local_work(design.modules@[i])) == 0 || has_local_work(design.modules@[i]) ==> sum_by(
            region_parts(design, i, region, count),
            region_part(design, part),
        ) == part(region_work(design, region)),
{
    let module = design.modules@[i];
    let n = module.instances@.len();
    let f = region_part(design, part);
    let cut = region.cut_child_instances;
    let names = selected_names(design, i, cut, count);
    let more = with_names(cut, names, names.len());
    let children = selected_children(design, i, cut, names);
    let kept = has_remaining_work(design, i, more);
    let rest = PartitionRegionView { cut_child_instances: more, ..region };
    let head: Seq<PartitionRegionView> = if kept {
        seq![rest]
    } else {
        seq![]
    };
    let tail = Seq::new(
        children.len(),
        |x: int| child_region(design, i, region.instance_path, children[x].instance as int),
    );
    assert(n == module.instances.len());
    assert(region_parts(design, i, region, count) =~= head + tail);
    lemma_sum_by_concat(head, tail, f);
    // The instances that become regions.
    let g = |k: int| selected_child(design, i, cut, names, k);
    let found = gather(n, g);
    let h = |p: NamePlace| part(child_work(design, i, p.instance as int));
    lemma_sorted_by_key::<NamePlace, ByPlace>(found);
    lemma_sum_by_permutation(children, found, h);
    lemma_sum_by_gather(n, g, h);
    let by_index = gathered(g, h);
    assert forall|k: int| 0 <= k < n implies #[trigger] by_index(k) == selected_part(
        design,
        i,
        cut,
        names,
        part,
    )(k) by {}
    crate::collect::lemma_sum_below_same(
        n,
        by_index,
        selected_part(design, i, cut, names, part),
    );
    assert forall|x: int| 0 <= x < tail.len() implies f(#[trigger] tail[x]) == h(children[x]) by {
        lemma_sorted_by_key_contains::<NamePlace, ByPlace>(found, children[x]);
        assert(children.contains(children[x]));
        lemma_gather_contains(n, g, children[x]);
        let k = children[x].instance as int;
        assert(0 <= k < n);
        match child_of(design, i, k) {
            Some(j) => {
                lemma_child_ends(design, i, k);
                lemma_uncut_all(design, j, design.modules@[j].instances@.len());
            },
            None => {},
        }
    }
    lemma_sum_by_mapped(tail, children, f, h);
    assert(sum_by(tail, f) == sum_below(n, selected_part(design, i, cut, names, part)));
    // What is left of the region.
    lemma_cut_more(design, i, cut, names, part, n);
    let left = uncut_work(design, i, more, n);
    assert(part(work_sum(local_work(module), left)) == part(local_work(module)) + part(left));
    assert(part(work_sum(local_work(module), uncut_work(design, i, cut, n))) == part(
        local_work(module),
    ) + part(uncut_work(design, i, cut, n)));
    lemma_local_work(module);
    lemma_uncut_work(design, i, more, n);
    assert(part(local_work(module)) >= 0);
    assert(part(left) >= 0);
    if kept {
        lemma_sum_by_one(rest, f);
        assert(f(rest) == part(module_region_work(design, i, more)));
    } else {
        assert(sum_by(head, f) == 0);
        assert(left == no_work()) by {
            lemma_nothing_left(design, i, more, n);
        }
    }
}

proof fn lemma_nothing_left(design: CompiledDesign, i: int, cut: Seq<Seq<char>>, k: nat)
    requires
        !has_remaining_work(design, i, cut),
        k <= design.modules@[i].instances@.len(),
    ensures
        uncut_work(design, i, cut, k) == no_work(),
    decreases k,
{
    if k > 0 {
        lemma_nothing_left(design, i, cut, (k - 1) as nat);
        let name = instance_name(design, i, k - 1);
        if !cut.contains(name) {
            assert(child_of(design, i, k - 1) is None);
        }
    }
}

/// Whether modules without work of their own measure nothing.
pub open spec fn is_exact_part(part: spec_fn(Work) -> int) -> bool {
    forall|m: CompiledModule| !has_local_work(m) ==> part(#[trigger] local_work(m)) == 0
}

proof fn lemma_refined_share_work(
    design: CompiledDesign,
    bound: Work,
    regions: Seq<PartitionRegionView>,
    target: int,
    steps: nat,
    part: spec_fn(Work) -> int,
)
    requires
        is_part(part),
        are_sound_regions(design, bound, regions),
    ensures
        sum_by(refined(design, regions, target, steps), region_part(design, part)) <= sum_by(
            regions,
            region_part(design, part),
        ),
        is_exact_part(part) ==> sum_by(
            refined(design, regions, target, steps),
            region_part(design, part),
        ) == sum_by(regions, region_part(design, part)),
    decreases steps,
{
    if regions.len() < target && steps > 0 {
        lemma_first_index(regions.len(), is_split_candidate(design, regions));
        match split_candidate(design, regions) {
            None => {},
            Some(index) => {
                match split_region(design, regions, index, target) {
                    None => {},
                    Some(next) => {
                        let region = regions[index];
                        assert(is_sound_region(design, bound, region));
                        let i = module_named(design, region.module_name)->0;
                        let count = region_split_count(
                            design,
                            i,
                            region,
                            regions.len() as int,
                            target,
                        );
                        let parts = region_parts(design, i, region, count);
                        let f = region_part(design, part);
                        lemma_parts_share_work(design, i, region, count, part);
                        let head = regions.take(index);
                        let tail = regions.skip(index + 1);
                        lemma_sum_by_concat(head + parts, tail, f);
                        lemma_sum_by_concat(head, parts, f);
                        assert(regions =~= head + seq![region] + tail);
                        lemma_sum_by_concat(head + seq![region], tail, f);
                        lemma_sum_by_concat(head, seq![region], f);
                        lemma_sum_by_one(region, f);
                        lemma_split_keeps_sound(design, bound, regions, index, target);
                        lemma_refined_share_work(
                            design,
                            bound,
                            next,
                            target,
                            (steps - 1) as nat,
                            part,
                        );
                        if is_exact_part(part) && !has_local_work(design.modules@[i]) {
                            assert(part(local_work(design.modules@[i])) == 0);
                        }
                    },
                }
            },
        }
    }
}

proof fn lemma_planned_share_part(
    design: CompiledDesign,
    top: int,
    target: int,
    part: spec_fn(Work) -> int,
)
    requires
        is_part(part),
        0 <= top < design.modules@.len(),
        module_named(design, design.modules@[top].name@) == Some(top),
        hierarchy_ends(design, top),
        regions_problem(design, top, target) is None,
    ensures
        sum_by(planned_regions(design, top, target), region_part(design, part)) <= part(
            full_work(design, top),
        ),
        is_exact_part(part) ==> sum_by(
            planned_regions(design, top, target),
            region_part(design, part),
        ) == part(full_work(design, top)),
{
    let name = design.modules@[top].name@;
    let f = region_part(design, part);
    let n = design.modules@[top].instances@.len();
    lemma_uncut_all(design, top, n);
    let id = if stays_whole(design.modules@[top], target) {
        "p0"@
    } else {
        seq![]
    };
    let whole = whole_region(id, name);
    let first = seq![whole];
    lemma_sum_by_one(whole, f);
    assert(region_work(design, whole) == full_work(design, top));
    if !stays_whole(design.modules@[top], target) {
        let bound = full_work(design, top);
        assert(are_sound_regions(design, bound, first));
        lemma_refined_share_work(design, bound, first, target, split_limit(target), part);
        let all = refined(design, first, target, split_limit(target));
        let sorted = sorted_by_key::<PartitionRegion, ByPath>(all);
        lemma_sorted_by_key::<PartitionRegion, ByPath>(all);
        lemma_sum_by_permutation(sorted, all, f);
        lemma_sum_by_mapped(listed_regions(all), sorted, f, f);
    }
}

/// The regions of a module share its work: every operation and every register bit
/// is in exactly one region, and no memory bit is in two. (A region that has
/// nothing left but memories which its module never writes is dropped.)
pub proof fn lemma_regions_share_work(design: CompiledDesign, top: int, target: int)
    requires
        0 <= top < design.modules@.len(),
        module_named(design, design.modules@[top].name@) == Some(top),
        hierarchy_ends(design, top),
        regions_problem(design, top, target) is None,
    ensures
        sum_by(planned_regions(design, top, target), region_part(design, compute_part()))
            == full_work(design, top).compute,
        sum_by(planned_regions(design, top, target), region_part(design, state_part()))
            == full_work(design, top).state,
        sum_by(planned_regions(design, top, target), region_part(design, memory_part()))
            <= full_work(design, top).memory,
{
    assert(is_exact_part(compute_part()));
    assert(is_exact_part(state_part()));
    lemma_planned_share_part(design, top, target, compute_part());
    lemma_planned_share_part(design, top, target, state_part());
    lemma_planned_share_part(design, top, target, memory_part());
}

// ---------------------------------------------------------------------------
// The number of regions
// ---------------------------------------------------------------------------

/// Whether no two instances of a module share a name.
pub open spec fn distinct_instances(design: CompiledDesign) -> bool {
    forall|i: int, j: int, k: int|
        0 <= i < design.modules@.len() && 0 <= j < k < design.modules@[i].instances@.len()
            ==> #[trigger] instance_name(design, i, j) != #[trigger] instance_name(design, i, k)
}

proof fn lemma_gather_places(
    n: nat,
    g: spec_fn(int) -> Option<NamePlace>,
)
    requires
        n <= usize::MAX,
        forall|k: int|
            0 <= k < n ==> match #[trigger] g(k) {
                Some(p) => p.instance == k,
                None => true,
            },
    ensures
        gather(n, g).no_duplicates(),
        forall|x: int|
            0 <= x < gather(n, g).len() ==> 0 <= (#[trigger] gather(n, g)[x]).instance < n,
    decreases n,
{
    if n > 0 {
        lemma_gather_places((n - 1) as nat, g);
        assert(match g(n - 1) {
            Some(p) => p.instance == n - 1,
            None => true,
        });
    }
}

/// Where instance names are distinct, no more instances become regions than were
/// selected.
proof fn lemma_selected_len(design: CompiledDesign, i: int, cut: Seq<Seq<char>>, count: int)
    requires
        distinct_instances(design),
        0 <= i < design.modules@.len(),
        0 <= count <= split_children(design, i, cut).len(),
    ensures
        selected_children(design, i, cut, selected_names(design, i, cut, count)).len() <= count,
        count > 0 ==> selected_children(
            design,
            i,
            cut,
            selected_names(design, i, cut, count),
        ).len() > 0,
{
    let n = design.modules@[i].instances@.len();
    assert(n == design.modules@[i].instances.len());
    let names = selected_names(design, i, cut, count);
    let g = |k: int| selected_child(design, i, cut, names, k);
    let found = gather(n, g);
    let children = selected_children(design, i, cut, names);
    lemma_sorted_by_key::<NamePlace, ByPlace>(found);
    lemma_gather_places(n, g);
    let uncut = split_children(design, i, cut);
    let ranked = sorted_by_key::<SplitChild, HeavyFirst>(uncut);
    lemma_sorted_by_key::<SplitChild, HeavyFirst>(uncut);
    let u = |k: int| split_child(design, i, cut, k);
    assert forall|x: int| 0 <= x < count implies {
        let k = (#[trigger] ranked[x]).instance as int;
        0 <= k < n && !cut.contains(instance_name(design, i, k)) && names[x] == instance_name(
            design,
            i,
            k,
        )
    } by {
        lemma_sorted_by_key_contains::<SplitChild, HeavyFirst>(uncut, ranked[x]);
        assert(ranked.contains(ranked[x]));
        lemma_gather_contains(n, u, ranked[x]);
    }
    // Every selected instance is one of the first `count` in the ranking.
    let picked = Seq::new(count as nat, |x: int| ranked[x].instance as int);
    let places = Seq::new(found.len(), |x: int| found[x].instance as int);
    assert(places.no_duplicates()) by {
        assert forall|x: int, y: int|
            0 <= x < places.len() && 0 <= y < places.len() && x != y implies places[x]
            != places[y] by {
            lemma_gather_contains(n, g, found[x]);
            lemma_gather_contains(n, g, found[y]);
            assert(found.contains(found[x]));
            assert(found.contains(found[y]));
            assert(found[x] != found[y]);
            let a = found[x].instance as int;
            assert(g(a) == Some(found[x]));
            let b = found[y].instance as int;
            assert(g(b) == Some(found[y]));
        }
    }
    assert forall|v: int| places.to_set().contains(v) implies picked.to_set().contains(v) by {
        let x = choose|x: int| 0 <= x < places.len() && places[x] == v;
        assert(found.contains(found[x]));
        lemma_gather_contains(n, g, found[x]);
        assert(g(v) == Some(found[x]));
        let name = instance_name(design, i, v);
        assert(names.contains(name));
        let y = choose|y: int| 0 <= y < names.len() && names[y] == name;
        let k = ranked[y].instance as int;
        assert(names[y] == instance_name(design, i, k));
        if k < v {
            assert(instance_name(design, i, k) != instance_name(design, i, v));
        } else if v < k {
            assert(instance_name(design, i, v) != instance_name(design, i, k));
        }
        assert(picked[y] == v);
    }
    vstd::seq_lib::seq_to_set_is_finite(places);
    vstd::seq_lib::seq_to_set_is_finite(picked);
    places.unique_seq_to_set();
    picked.lemma_cardinality_of_set();
    vstd::set_lib::lemma_len_subset(places.to_set(), picked.to_set());
    if count > 0 {
        let k = ranked[0].instance as int;
        assert(names[0] == instance_name(design, i, k));
        assert(names.contains(instance_name(design, i, k)));
        let place = g(k)->0;
        assert(g(k) == Some(place));
        lemma_gather_contains(n, g, place);
        assert(found.contains(place));
    }
}

/// Where instance names are distinct, splitting leaves no more regions than are
/// wanted, and at least one.
proof fn lemma_split_len(
    design: CompiledDesign,
    regions: Seq<PartitionRegionView>,
    index: int,
    target: int,
)
    requires
        distinct_instances(design),
        0 <= index < regions.len() <= target,
    ensures
        match split_region(design, regions, index, target) {
            Some(next) => 1 <= next.len() <= target && regions.len() <= next.len(),
            None => true,
        },
{
    let region = regions[index];
    match module_named(design, region.module_name) {
        None => {},
        Some(i) => {
            lemma_module_named(design, region.module_name);
            let cut = region.cut_child_instances;
            let uncut = split_children(design, i, cut);
            let remaining = target - regions.len();
            let count = region_split_count(design, i, region, regions.len() as int, target);
            assert(count == split_count(
                has_local_work(design.modules@[i]),
                uncut.len() as int,
                remaining,
            ));
            if count != 0 {
                lemma_selected_len(design, i, cut, count);
                let names = selected_names(design, i, cut, count);
                let more = with_names(cut, names, names.len());
                if !has_local_work(design.modules@[i]) && uncut.len() <= remaining + 1 {
                    lemma_all_cut(design, i, cut);
                    assert(!has_remaining_work(design, i, more));
                }
            }
        },
    }
}

/// Where all instances are selected, all are cut.
proof fn lemma_all_cut(design: CompiledDesign, i: int, cut: Seq<Seq<char>>)
    requires
        0 <= i < design.modules@.len(),
    ensures
        ({
            let names = selected_names(
                design,
                i,
                cut,
                split_children(design, i, cut).len() as int,
            );
            forall|k: int|
                0 <= k < design.modules@[i].instances@.len() ==> with_names(
                    cut,
                    names,
                    names.len(),
                ).contains(#[trigger] instance_name(design, i, k))
        }),
{
    let n = design.modules@[i].instances@.len();
    assert(n == design.modules@[i].instances.len());
    let uncut = split_children(design, i, cut);
    let names = selected_names(design, i, cut, uncut.len() as int);
    let more = with_names(cut, names, names.len());
    let u = |k: int| split_child(design, i, cut, k);
    let ranked = sorted_by_key::<SplitChild, HeavyFirst>(uncut);
    lemma_sorted_by_key::<SplitChild, HeavyFirst>(uncut);
    assert forall|k: int| 0 <= k < n implies more.contains(
        #[trigger] instance_name(design, i, k),
    ) by {
        let name = instance_name(design, i, k);
        lemma_with_names(cut, names, names.len(), name);
        assert(names.take(names.len() as int) =~= names);
        if !cut.contains(name) {
            let child = u(k)->0;
            assert(u(k) == Some(child));
            lemma_gather_contains(n, u, child);
            lemma_sorted_by_key_contains::<SplitChild, HeavyFirst>(uncut, child);
            let x = choose|x: int| 0 <= x < ranked.len() && ranked[x] == child;
            assert(names[x] == name);
        }
    }
}

proof fn lemma_refined_len(
    design: CompiledDesign,
    regions: Seq<PartitionRegionView>,
    target: int,
    steps: nat,
)
    requires
        distinct_instances(design),
        1 <= regions.len() <= target,
    ensures
        regions.len() <= refined(design, regions, target, steps).len() <= target,
    decreases steps,
{
    if regions.len() < target && steps > 0 {
        lemma_first_index(regions.len(), is_split_candidate(design, regions));
        match split_candidate(design, regions) {
            None => {},
            Some(index) => {
                lemma_split_len(design, regions, index, target);
                match split_region(design, regions, index, target) {
                    None => {},
                    Some(next) => lemma_refined_len(design, next, target, (steps - 1) as nat),
                }
            },
        }
    }
}

/// A module is cut into at least one region and, where instance names are
/// distinct, into no more than were asked for.
pub proof fn lemma_region_count(design: CompiledDesign, top: int, target: int)
    requires
        distinct_instances(design),
        target >= 1,
    ensures
        1 <= planned_regions(design, top, target).len() <= target,
{
    if !stays_whole(design.modules@[top], target) {
        let first = seq![whole_region(seq![], design.modules@[top].name@)];
        lemma_refined_len(design, first, target, split_limit(target));
        let all = refined(design, first, target, split_limit(target));
        lemma_sorted_by_key::<PartitionRegion, ByPath>(all);
    }
}

} // verus!

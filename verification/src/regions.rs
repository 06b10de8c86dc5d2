//! Cutting a module hierarchy into regions.
//!
//! A plan starts from one region, the whole module. As long as there are fewer
//! regions than wanted, the heaviest region that has instances is split: its
//! heaviest instances become regions of their own.

use vstd::prelude::*;

use crate::collect::{append_items, build_items, gather, gather_items, lemma_gather_contains};
use crate::cost::{partition_split_score, split_score};
use crate::error::{fails_with, ErrorReport, ErrorReportView};
use crate::hierarchy::{
    child_of, child_work, cost_of, full_work, hierarchy_ends, instances_problem, is_work,
    lemma_child_work, lemma_children_work, lemma_full_work, lemma_local_work, lemma_module_named,
    lemma_no_missing_module, children_work, local_partition_cost, local_work, module_named,
    module_partition_cost, no_work, validate_partition_instance_modules, work_fits, work_le,
    work_sum, Work,
};
use crate::model::design::{CompiledDesign, CompiledModule};
use crate::model::partition::{RuntimePartitionConfig, RuntimePartitionCost};
use crate::order::{
    lemma_pair_ranked, lemma_sorted_by_key, lemma_sorted_by_key_contains, sort_by_key,
    sorted_by_key, SortKey, Ranked,
};
use crate::seqs::{first_index, lemma_first_index, lemma_first_index_is, no_items, push_item};
use crate::text::{append_decimal, decimal, same_text};

verus! {

/// A part of the hierarchy: an instance with all below it, but for the child
/// instances that were cut out.
#[derive(Debug, PartialEq, Eq)]
pub struct PartitionRegion {
    pub id: String,
    pub module_name: String,
    pub instance_path: Vec<String>,
    pub cut_child_instances: Vec<String>,
}

/// The mathematical content of a region.
#[verifier::ext_equal]
pub struct PartitionRegionView {
    pub id: Seq<char>,
    pub module_name: Seq<char>,
    pub instance_path: Seq<Seq<char>>,
    pub cut_child_instances: Seq<Seq<char>>,
}

impl DeepView for PartitionRegion {
    type V = PartitionRegionView;

    open spec fn deep_view(&self) -> PartitionRegionView {
        PartitionRegionView {
            id: self.id@,
            module_name: self.module_name@,
            instance_path: self.instance_path.deep_view(),
            cut_child_instances: self.cut_child_instances.deep_view(),
        }
    }
}

impl Clone for PartitionRegion {
    fn clone(&self) -> (r: Self)
        ensures
            r.deep_view() == self.deep_view(),
    {
        let r = PartitionRegion {
            id: self.id.clone(),
            module_name: self.module_name.clone(),
            instance_path: self.instance_path.clone(),
            cut_child_instances: self.cut_child_instances.clone(),
        };
        proof {
            assert(r.instance_path.deep_view() =~= self.instance_path.deep_view());
            assert(r.cut_child_instances.deep_view() =~= self.cut_child_instances.deep_view());
        }
        r
    }
}

// ---------------------------------------------------------------------------
// The work of a region
// ---------------------------------------------------------------------------

/// The work below those of the first `k` instances of module `i` that are not
/// cut.
pub open spec fn uncut_work(
    design: CompiledDesign,
    i: int,
    cut: Seq<Seq<char>>,
    k: nat,
) -> Work
    decreases k,
{
    if k == 0 {
        no_work()
    } else {
        work_sum(
            uncut_work(design, i, cut, (k - 1) as nat),
            if cut.contains(design.modules@[i].instances@[k - 1].name@) {
                no_work()
            } else {
                child_work(design, i, k - 1)
            },
        )
    }
}

/// The work of a region of module `i` without its cut instances.
pub open spec fn module_region_work(design: CompiledDesign, i: int, cut: Seq<Seq<char>>) -> Work {
    work_sum(
        local_work(design.modules@[i]),
        uncut_work(design, i, cut, design.modules@[i].instances@.len()),
    )
}

/// The work of a region. One whose module is missing has none.
pub open spec fn region_work(design: CompiledDesign, region: PartitionRegionView) -> Work {
    match module_named(design, region.module_name) {
        Some(i) => module_region_work(design, i, region.cut_child_instances),
        None => no_work(),
    }
}

/// What is not cut is part of all that is below a module.
pub proof fn lemma_uncut_work(design: CompiledDesign, i: int, cut: Seq<Seq<char>>, k: nat)
    requires
        hierarchy_ends(design, i),
        k <= design.modules@[i].instances@.len(),
    ensures
        is_work(uncut_work(design, i, cut, k)),
        work_le(uncut_work(design, i, cut, k), children_work(design, i, k)),
        is_work(module_region_work(design, i, cut)),
        work_le(module_region_work(design, i, cut), full_work(design, i)),
    decreases design.modules@[i].instances@.len() + k,
{
    lemma_local_work(design.modules@[i]);
    lemma_uncut_part(design, i, cut, k);
    lemma_uncut_part(design, i, cut, design.modules@[i].instances@.len());
}

proof fn lemma_uncut_part(design: CompiledDesign, i: int, cut: Seq<Seq<char>>, k: nat)
    requires
        hierarchy_ends(design, i),
        k <= design.modules@[i].instances@.len(),
    ensures
        is_work(uncut_work(design, i, cut, k)),
        work_le(uncut_work(design, i, cut, k), children_work(design, i, k)),
    decreases k,
{
    if k > 0 {
        lemma_uncut_part(design, i, cut, (k - 1) as nat);
        lemma_child_work(design, i, k - 1);
        assert(children_work(design, i, k) == work_sum(
            children_work(design, i, (k - 1) as nat),
            child_work(design, i, k - 1),
        ));
    }
}

pub(crate) fn contains_text(names: &Vec<String>, name: &str) -> (r: bool)
    ensures
        r == names.deep_view().contains(name@),
{
    let ghost all = names.deep_view();
    let mut k: usize = 0;
    while k < names.len()
        invariant
            k <= names@.len(),
            all == names.deep_view(),
            forall|j: int| 0 <= j < k ==> #[trigger] all[j] != name@,
        decreases names@.len() - k,
    {
        proof {
            assert(all[k as int] == names@[k as int]@);
        }
        if same_text(names[k].as_str(), name) {
            return true;
        }
        k = k + 1;
    }
    false
}

/// Counts the work of a region of module `i`.
fn module_region_cost(design: &CompiledDesign, i: usize, cut: &Vec<String>) -> (r:
    RuntimePartitionCost)
    requires
        i < design.modules@.len(),
        hierarchy_ends(*design, i as int),
        work_fits(full_work(*design, i as int)),
    ensures
        r == cost_of(module_region_work(*design, i as int, cut.deep_view())),
{
    let module = &design.modules[i];
    let ghost n = module.instances@.len();
    let ghost c = cut.deep_view();
    proof {
        lemma_full_work(*design, i as int);
        lemma_uncut_work(*design, i as int, c, n);
    }
    let mut cost = local_partition_cost(module);
    let mut k: usize = 0;
    while k < module.instances.len()
        invariant
            i < design.modules@.len(),
            *module == design.modules@[i as int],
            hierarchy_ends(*design, i as int),
            work_fits(full_work(*design, i as int)),
            n == module.instances@.len(),
            c == cut.deep_view(),
            k <= n,
            is_work(local_work(*module)),
            cost == cost_of(
                work_sum(local_work(*module), uncut_work(*design, i as int, c, k as nat)),
            ),
        decreases n - k,
    {
        proof {
            lemma_uncut_work(*design, i as int, c, (k + 1) as nat);
            lemma_uncut_work(*design, i as int, c, k as nat);
            lemma_children_work(*design, i as int, (k + 1) as nat, n);
            lemma_child_work(*design, i as int, k as int);
            lemma_module_named(*design, module.instances@[k as int].module@);
        }
        if !contains_text(cut, module.instances[k].name.as_str()) {
            match design.find_module(module.instances[k].module.as_str()) {
                Some(j) => {
                    let child = module_partition_cost(design, j, true);
                    cost.compute_ops = cost.compute_ops + child.compute_ops;
                    cost.state_bits = cost.state_bits + child.state_bits;
                    cost.memory_bits = cost.memory_bits + child.memory_bits;
                },
                None => {},
            }
        }
        k = k + 1;
    }
    cost
}

/// Counts the work of a region.
pub fn region_partition_cost(design: &CompiledDesign, region: &PartitionRegion) -> (r:
    RuntimePartitionCost)
    requires
        match module_named(*design, region.module_name@) {
            Some(i) => hierarchy_ends(*design, i) && work_fits(full_work(*design, i)),
            None => true,
        },
    ensures
        r == cost_of(region_work(*design, region.deep_view())),
{
    match design.find_module(region.module_name.as_str()) {
        Some(i) => module_region_cost(design, i, &region.cut_child_instances),
        None => RuntimePartitionCost::default(),
    }
}

// ---------------------------------------------------------------------------
// Splitting a region
// ---------------------------------------------------------------------------

/// An instance that a region can be split at, and how much it weighs.
#[derive(Clone, Copy, Debug, PartialEq, Eq, Structural)]
pub struct SplitChild {
    pub instance: usize,
    pub score: u64,
}

impl DeepView for SplitChild {
    type V = SplitChild;

    open spec fn deep_view(&self) -> SplitChild {
        *self
    }
}

/// Heavier instances first; the sort is stable, so equal ones stay in the order
/// of the module.
pub struct HeavyFirst {}

impl SortKey<SplitChild> for HeavyFirst {
    type Key = u64;

    open spec fn key(v: SplitChild) -> u64 {
        (u64::MAX - v.score) as u64
    }

    fn is_key_le(a: &SplitChild, b: &SplitChild) -> bool {
        a.score >= b.score
    }
}

/// An instance and the first place in its module that has its name.
#[derive(Clone, Copy, Debug, PartialEq, Eq, Structural)]
pub struct NamePlace {
    pub first: usize,
    pub instance: usize,
}

impl DeepView for NamePlace {
    type V = NamePlace;

    open spec fn deep_view(&self) -> NamePlace {
        *self
    }
}

/// By the first place of the name.
pub struct ByPlace {}

impl SortKey<NamePlace> for ByPlace {
    type Key = usize;

    open spec fn key(v: NamePlace) -> usize {
        v.first
    }

    fn is_key_le(a: &NamePlace, b: &NamePlace) -> bool {
        a.first <= b.first
    }
}

/// Whether a module has work of its own. One without instances counts as such.
pub open spec fn has_local_work(module: CompiledModule) -> bool {
    ||| module.assignments@.len() > 0
    ||| module.registers@.len() > 0
    ||| module.memory_writes@.len() > 0
    ||| module.assertions@.len() > 0
    ||| module.cover_points@.len() > 0
    ||| module.instances@.len() == 0
}

fn module_has_local_partition_work(module: &CompiledModule) -> (r: bool)
    ensures
        r == has_local_work(*module),
{
    module.assignments.len() > 0 || module.registers.len() > 0 || module.memory_writes.len() > 0
        || module.assertions.len() > 0 || module.cover_points.len() > 0 || module.instances.len()
        == 0
}

/// How many of `uncut` instances become regions when there is room for
/// `remaining` more: all of them if the region can go, else as many as there is
/// room for.
pub open spec fn split_count(local_work: bool, uncut: int, remaining: int) -> int {
    if uncut == 0 {
        0
    } else if !local_work && uncut <= remaining + 1 {
        uncut
    } else if remaining <= uncut {
        remaining
    } else {
        uncut
    }
}

/// Decides how many instances become regions.
pub fn partition_split_child_count(
    local_work: bool,
    uncut_count: usize,
    remaining_slots: usize,
) -> (r: usize)
    ensures
        r == split_count(local_work, uncut_count as int, remaining_slots as int),
{
    if uncut_count == 0 {
        return 0;
    }
    if !local_work && uncut_count - 1 <= remaining_slots {
        return uncut_count;
    }
    if remaining_slots <= uncut_count {
        remaining_slots
    } else {
        uncut_count
    }
}

/// The name of instance `k` of module `i`.
pub open spec fn instance_name(design: CompiledDesign, i: int, k: int) -> Seq<char> {
    design.modules@[i].instances@[k].name@
}

/// Instance `k` of module `i`, unless it is cut.
pub open spec fn split_child(
    design: CompiledDesign,
    i: int,
    cut: Seq<Seq<char>>,
    k: int,
) -> Option<SplitChild> {
    if cut.contains(instance_name(design, i, k)) {
        None
    } else {
        Some(
            SplitChild {
                instance: k as usize,
                score: split_score(cost_of(child_work(design, i, k))),
            },
        )
    }
}

/// The instances of module `i` that are not cut.
pub open spec fn split_children(design: CompiledDesign, i: int, cut: Seq<Seq<char>>) -> Seq<
    SplitChild,
> {
    gather(design.modules@[i].instances@.len(), |k: int| split_child(design, i, cut, k))
}

/// The names of the `count` heaviest instances that are not cut.
pub open spec fn selected_names(
    design: CompiledDesign,
    i: int,
    cut: Seq<Seq<char>>,
    count: int,
) -> Seq<Seq<char>> {
    let ranked = sorted_by_key::<SplitChild, HeavyFirst>(split_children(design, i, cut));
    Seq::new(count as nat, |x: int| instance_name(design, i, ranked[x].instance as int))
}

/// Whether an instance has a name.
pub open spec fn has_instance_name(design: CompiledDesign, i: int, name: Seq<char>) -> spec_fn(
    int,
) -> bool {
    |k: int| instance_name(design, i, k) == name
}

/// The first instance of a name.
pub open spec fn instance_named(design: CompiledDesign, i: int, name: Seq<char>) -> Option<int> {
    first_index(design.modules@[i].instances@.len(), has_instance_name(design, i, name))
}

/// Instance `k` of module `i`, if it is not cut and its name is selected.
pub open spec fn selected_child(
    design: CompiledDesign,
    i: int,
    cut: Seq<Seq<char>>,
    names: Seq<Seq<char>>,
    k: int,
) -> Option<NamePlace> {
    let name = instance_name(design, i, k);
    if !cut.contains(name) && names.contains(name) {
        Some(
            NamePlace {
                first: match instance_named(design, i, name) {
                    Some(f) => f as usize,
                    None => usize::MAX,
                },
                instance: k as usize,
            },
        )
    } else {
        None
    }
}

/// The selected instances in the order of their module.
pub open spec fn selected_children(
    design: CompiledDesign,
    i: int,
    cut: Seq<Seq<char>>,
    names: Seq<Seq<char>>,
) -> Seq<NamePlace> {
    sorted_by_key::<NamePlace, ByPlace>(
        gather(
            design.modules@[i].instances@.len(),
            |k: int| selected_child(design, i, cut, names, k),
        ),
    )
}

/// A list of names with more names that it does not have yet.
pub open spec fn with_names(cut: Seq<Seq<char>>, names: Seq<Seq<char>>, n: nat) -> Seq<Seq<char>>
    decreases n,
{
    if n == 0 {
        cut
    } else {
        let rest = with_names(cut, names, (n - 1) as nat);
        if rest.contains(names[n - 1]) {
            rest
        } else {
            rest.push(names[n - 1])
        }
    }
}

/// Whether a region of module `i` has something left after the cut.
pub open spec fn has_remaining_work(design: CompiledDesign, i: int, cut: Seq<Seq<char>>) -> bool {
    has_local_work(design.modules@[i]) || exists|k: int|
        0 <= k < design.modules@[i].instances@.len() && !cut.contains(
            #[trigger] instance_name(design, i, k),
        ) && child_of(design, i, k) is Some
}

/// The region of instance `k` of module `i`.
pub open spec fn child_region(
    design: CompiledDesign,
    i: int,
    path: Seq<Seq<char>>,
    k: int,
) -> PartitionRegionView {
    PartitionRegionView {
        id: seq![],
        module_name: design.modules@[i].instances@[k].module@,
        instance_path: path.push(instance_name(design, i, k)),
        cut_child_instances: seq![],
    }
}

/// What takes the place of a region of module `i` when `count` instances are cut
/// out: the region itself, if something is left of it, and the instances.
pub open spec fn region_parts(
    design: CompiledDesign,
    i: int,
    region: PartitionRegionView,
    count: int,
) -> Seq<PartitionRegionView> {
    let names = selected_names(design, i, region.cut_child_instances, count);
    let cut = with_names(region.cut_child_instances, names, names.len());
    let children = selected_children(design, i, region.cut_child_instances, names);
    (if has_remaining_work(design, i, cut) {
        seq![PartitionRegionView { cut_child_instances: cut, ..region }]
    } else {
        seq![]
    }) + Seq::new(
        children.len(),
        |x: int| child_region(design, i, region.instance_path, children[x].instance as int),
    )
}

/// The number of instances that are cut out of a region when `len` regions are
/// there and `target` are wanted.
pub open spec fn region_split_count(
    design: CompiledDesign,
    i: int,
    region: PartitionRegionView,
    len: int,
    target: int,
) -> int {
    split_count(
        has_local_work(design.modules@[i]),
        split_children(design, i, region.cut_child_instances).len() as int,
        if target >= len {
            target - len
        } else {
            0
        },
    )
}

/// The regions after region `index` was split, or nothing where it cannot be.
pub open spec fn split_region(
    design: CompiledDesign,
    regions: Seq<PartitionRegionView>,
    index: int,
    target: int,
) -> Option<Seq<PartitionRegionView>> {
    let region = regions[index];
    match module_named(design, region.module_name) {
        None => None,
        Some(i) => {
            let count = region_split_count(design, i, region, regions.len() as int, target);
            if count == 0 {
                None
            } else {
                Some(
                    regions.take(index) + region_parts(design, i, region, count) + regions.skip(
                        index + 1,
                    ),
                )
            }
        },
    }
}

/// Whether a region can be split: its module is not external and has an instance
/// that is not cut.
pub open spec fn can_split(design: CompiledDesign, region: PartitionRegionView) -> bool {
    match module_named(design, region.module_name) {
        Some(i) => !design.modules@[i].is_external && split_children(
            design,
            i,
            region.cut_child_instances,
        ).len() > 0,
        None => false,
    }
}

/// How much a region weighs.
pub open spec fn region_score(design: CompiledDesign, region: PartitionRegionView) -> u64 {
    split_score(cost_of(region_work(design, region)))
}

/// Whether a region is one of the heaviest that can be split.
pub open spec fn is_split_candidate(
    design: CompiledDesign,
    regions: Seq<PartitionRegionView>,
) -> spec_fn(int) -> bool {
    |k: int|
        can_split(design, regions[k]) && forall|j: int|
            0 <= j < regions.len() && #[trigger] can_split(design, regions[j]) ==> region_score(
                design,
                regions[j],
            ) <= region_score(design, regions[k])
}

/// The first of the heaviest regions that can be split.
pub open spec fn split_candidate(
    design: CompiledDesign,
    regions: Seq<PartitionRegionView>,
) -> Option<int> {
    first_index(regions.len(), is_split_candidate(design, regions))
}

/// The regions after at most `steps` splits.
pub open spec fn refined(
    design: CompiledDesign,
    regions: Seq<PartitionRegionView>,
    target: int,
    steps: nat,
) -> Seq<PartitionRegionView>
    decreases steps,
{
    if regions.len() >= target || steps == 0 {
        regions
    } else {
        match split_candidate(design, regions) {
            None => regions,
            Some(index) => match split_region(design, regions, index, target) {
                None => regions,
                Some(next) => refined(design, next, target, (steps - 1) as nat),
            },
        }
    }
}

/// The number of splits that are tried.
pub open spec fn split_limit(target: int) -> nat {
    if target * 8 + 8 <= usize::MAX {
        (target * 8 + 8) as nat
    } else {
        usize::MAX as nat
    }
}

/// Regions are listed by path and module.
pub struct ByPath {}

impl SortKey<PartitionRegion> for ByPath {
    type Key = (Vec<String>, String);

    open spec fn key(v: PartitionRegionView) -> (Seq<Seq<char>>, Seq<char>) {
        (v.instance_path, v.module_name)
    }

    fn is_key_le(a: &PartitionRegion, b: &PartitionRegion) -> bool {
        proof {
            lemma_pair_ranked::<Vec<String>, String>(
                Self::key(a.deep_view()),
                Self::key(b.deep_view()),
            );
            crate::order::lemma_ranked_same::<Vec<String>>(
                a.deep_view().instance_path,
                b.deep_view().instance_path,
            );
        }
        let le: bool = a.instance_path.is_ranked_le(&b.instance_path);
        let ge: bool = b.instance_path.is_ranked_le(&a.instance_path);
        if le && ge {
            a.module_name.is_ranked_le(&b.module_name)
        } else {
            le
        }
    }
}

/// The id of region `k`.
pub open spec fn region_id(k: int) -> Seq<char> {
    "p"@ + decimal(k as nat)
}

/// The region of a whole module.
pub open spec fn whole_region(id: Seq<char>, module_name: Seq<char>) -> PartitionRegionView {
    PartitionRegionView {
        id,
        module_name,
        instance_path: seq![module_name],
        cut_child_instances: seq![],
    }
}

/// Regions in the order in which they are listed, with their ids.
pub open spec fn listed_regions(regions: Seq<PartitionRegionView>) -> Seq<PartitionRegionView> {
    let sorted = sorted_by_key::<PartitionRegion, ByPath>(regions);
    Seq::new(sorted.len(), |k: int| PartitionRegionView { id: region_id(k), ..sorted[k] })
}

/// Whether a module is planned as one region.
pub open spec fn stays_whole(module: CompiledModule, target: int) -> bool {
    module.instances@.len() == 0 || target == 1
}

/// The regions of module `top`.
pub open spec fn planned_regions(design: CompiledDesign, top: int, target: int) -> Seq<
    PartitionRegionView,
> {
    let name = design.modules@[top].name@;
    if stays_whole(design.modules@[top], target) {
        seq![whole_region("p0"@, name)]
    } else {
        listed_regions(
            refined(design, seq![whole_region(seq![], name)], target, split_limit(target)),
        )
    }
}

/// What keeps module `top` from being cut.
pub open spec fn regions_problem(design: CompiledDesign, top: int, target: int) -> Option<
    ErrorReportView,
> {
    if stays_whole(design.modules@[top], target) {
        None
    } else {
        instances_problem(design, top)
    }
}

// ---------------------------------------------------------------------------
// Sound regions
// ---------------------------------------------------------------------------

/// Whether the module of a region is there with all below it, and its work is
/// part of `bound`.
pub open spec fn is_sound_region(
    design: CompiledDesign,
    bound: Work,
    region: PartitionRegionView,
) -> bool {
    match module_named(design, region.module_name) {
        Some(i) => {
            &&& hierarchy_ends(design, i)
            &&& instances_problem(design, i) is None
            &&& work_le(full_work(design, i), bound)
        },
        None => false,
    }
}

/// Whether all regions are sound.
pub open spec fn are_sound_regions(
    design: CompiledDesign,
    bound: Work,
    regions: Seq<PartitionRegionView>,
) -> bool {
    forall|k: int| 0 <= k < regions.len() ==> is_sound_region(design, bound, #[trigger] regions[k])
}

proof fn lemma_child_region_sound(
    design: CompiledDesign,
    bound: Work,
    region: PartitionRegionView,
    i: int,
    path: Seq<Seq<char>>,
    k: int,
)
    requires
        is_sound_region(design, bound, region),
        module_named(design, region.module_name) == Some(i),
        0 <= k < design.modules@[i].instances@.len(),
    ensures
        is_sound_region(design, bound, child_region(design, i, path, k)),
{
    lemma_no_missing_module(design, i, design.modules@[i].instances@.len(), k);
    lemma_child_work(design, i, k);
}

/// The selected instances are instances of their module.
pub proof fn lemma_selected_children(
    design: CompiledDesign,
    i: int,
    cut: Seq<Seq<char>>,
    names: Seq<Seq<char>>,
)
    ensures
        forall|x: int|
            0 <= x < selected_children(design, i, cut, names).len() ==> 0 <= (
            #[trigger] selected_children(design, i, cut, names)[x]).instance
                < design.modules@[i].instances@.len(),
{
    let n = design.modules@[i].instances@.len();
    assert(n == design.modules@[i].instances.len());
    let g = |k: int| selected_child(design, i, cut, names, k);
    let found = gather(n, g);
    let sorted = selected_children(design, i, cut, names);
    assert forall|x: int| 0 <= x < sorted.len() implies 0 <= (#[trigger] sorted[x]).instance
        < n by {
        lemma_sorted_by_key::<NamePlace, ByPlace>(found);
        lemma_sorted_by_key_contains::<NamePlace, ByPlace>(found, sorted[x]);
        assert(sorted.contains(sorted[x]));
        lemma_gather_contains(n, g, sorted[x]);
    }
}

/// Splitting keeps regions sound.
pub proof fn lemma_split_keeps_sound(
    design: CompiledDesign,
    bound: Work,
    regions: Seq<PartitionRegionView>,
    index: int,
    target: int,
)
    requires
        are_sound_regions(design, bound, regions),
        0 <= index < regions.len(),
    ensures
        split_region(design, regions, index, target) is Some ==> are_sound_regions(
            design,
            bound,
            split_region(design, regions, index, target)->0,
        ),
{
    let region = regions[index];
    assert(is_sound_region(design, bound, region));
    let i = module_named(design, region.module_name)->0;
    lemma_module_named(design, region.module_name);
    let count = region_split_count(design, i, region, regions.len() as int, target);
    if count != 0 {
        let parts = region_parts(design, i, region, count);
        let names = selected_names(design, i, region.cut_child_instances, count);
        let children = selected_children(design, i, region.cut_child_instances, names);
        lemma_selected_children(design, i, region.cut_child_instances, names);
        let cut = with_names(region.cut_child_instances, names, names.len());
        let head: Seq<PartitionRegionView> = if has_remaining_work(design, i, cut) {
            seq![PartitionRegionView { cut_child_instances: cut, ..region }]
        } else {
            seq![]
        };
        assert forall|x: int| 0 <= x < parts.len() implies is_sound_region(
            design,
            bound,
            #[trigger] parts[x],
        ) by {
            if x >= head.len() {
                let k = children[x - head.len()].instance as int;
                lemma_child_region_sound(design, bound, region, i, region.instance_path, k);
                assert(parts[x] == child_region(design, i, region.instance_path, k));
            }
        }
        let next = split_region(design, regions, index, target)->0;
        assert forall|x: int| 0 <= x < next.len() implies is_sound_region(
            design,
            bound,
            #[trigger] next[x],
        ) by {
            if x < index {
                assert(next[x] == regions[x]);
            } else if x < index + parts.len() {
                assert(next[x] == parts[x - index]);
            } else {
                assert(next[x] == regions[x - parts.len() + 1]);
            }
        }
    }
}

/// Refining keeps regions sound.
pub proof fn lemma_refined_sound(
    design: CompiledDesign,
    bound: Work,
    regions: Seq<PartitionRegionView>,
    target: int,
    steps: nat,
)
    requires
        are_sound_regions(design, bound, regions),
    ensures
        are_sound_regions(design, bound, refined(design, regions, target, steps)),
    decreases steps,
{
    if regions.len() < target && steps > 0 {
        lemma_first_index(regions.len(), is_split_candidate(design, regions));
        match split_candidate(design, regions) {
            None => {},
            Some(index) => {
                lemma_split_keeps_sound(design, bound, regions, index, target);
                match split_region(design, regions, index, target) {
                    None => {},
                    Some(next) => lemma_refined_sound(
                        design,
                        bound,
                        next,
                        target,
                        (steps - 1) as nat,
                    ),
                }
            },
        }
    }
}

// ---------------------------------------------------------------------------
// Planning regions
// ---------------------------------------------------------------------------

fn uncut_child_instances(design: &CompiledDesign, i: usize, cut: &Vec<String>) -> (r: Vec<
    SplitChild,
>)
    requires
        i < design.modules@.len(),
        hierarchy_ends(*design, i as int),
        work_fits(full_work(*design, i as int)),
    ensures
        r.deep_view() == split_children(*design, i as int, cut.deep_view()),
{
    let module = &design.modules[i];
    let ghost c = cut.deep_view();
    let ghost g = |k: int| split_child(*design, i as int, c, k);
    gather_items(
        module.instances.len(),
        |k: usize| -> (y: Option<SplitChild>)
            requires
                k < module.instances@.len(),
                *module == design.modules@[i as int],
                i < design.modules@.len(),
                hierarchy_ends(*design, i as int),
                work_fits(full_work(*design, i as int)),
                c == cut.deep_view(),
            ensures y.deep_view() == g(k as int)
        {
            let instance = &module.instances[k];
            if contains_text(cut, instance.name.as_str()) {
                None
            } else {
                proof {
                    lemma_child_work(*design, i as int, k as int);
                    lemma_module_named(*design, instance.module@);
                }
                let score: u64 = match design.find_module(instance.module.as_str()) {
                    Some(j) => partition_split_score(module_partition_cost(design, j, true)),
                    None => partition_split_score(RuntimePartitionCost::default()),
                };
                Some(SplitChild { instance: k, score })
            }
        },
        Ghost(g),
    )
}

fn best_partition_split_candidate(
    design: &CompiledDesign,
    regions: &Vec<PartitionRegion>,
    Ghost(bound): Ghost<Work>,
) -> (r: Option<usize>)
    requires
        are_sound_regions(*design, bound, regions.deep_view()),
        work_fits(bound),
    ensures
        match r {
            Some(k) => k < regions@.len() && split_candidate(*design, regions.deep_view()) == Some(
                k as int,
            ),
            None => split_candidate(*design, regions.deep_view()) is None,
        },
{
    let ghost rs = regions.deep_view();
    let mut best: Option<usize> = None;
    let mut best_score: u64 = 0;
    let mut k: usize = 0;
    while k < regions.len()
        invariant
            k <= regions@.len(),
            rs == regions.deep_view(),
            rs.len() == regions@.len(),
            are_sound_regions(*design, bound, rs),
            work_fits(bound),
            match best {
                Some(b) => {
                    &&& b < k
                    &&& can_split(*design, rs[b as int])
                    &&& best_score == region_score(*design, rs[b as int])
                    &&& forall|j: int|
                        0 <= j < k && #[trigger] can_split(*design, rs[j]) ==> region_score(
                            *design,
                            rs[j],
                        ) <= best_score
                    &&& forall|j: int|
                        0 <= j < b && #[trigger] can_split(*design, rs[j]) ==> region_score(
                            *design,
                            rs[j],
                        ) < best_score
                },
                None => forall|j: int| 0 <= j < k ==> !#[trigger] can_split(*design, rs[j]),
            },
        decreases regions@.len() - k,
    {
        let region = &regions[k];
        proof {
            assert(rs[k as int] == region.deep_view());
            assert(is_sound_region(*design, bound, rs[k as int]));
            lemma_module_named(*design, region.module_name@);
        }
        match design.find_module(region.module_name.as_str()) {
            Some(i) => {
                if !design.modules[i].is_external {
                    let uncut = uncut_child_instances(design, i, &region.cut_child_instances);
                    proof {
                        assert(uncut@.len() == uncut.deep_view().len());
                    }
                    if uncut.len() > 0 {
                        let score: u64 = partition_split_score(region_partition_cost(design, region));
                        let better: bool = match best {
                            Some(_) => score > best_score,
                            None => true,
                        };
                        if better {
                            best = Some(k);
                            best_score = score;
                        }
                    }
                }
            },
            None => {},
        }
        k = k + 1;
    }
    proof {
        let p = is_split_candidate(*design, rs);
        match best {
            Some(b) => {
                assert(p(b as int));
                assert forall|j: int| 0 <= j < b implies !#[trigger] p(j) by {
                    assert(can_split(*design, rs[b as int]));
                }
                lemma_first_index_is(rs.len(), p, b as int);
            },
            None => {
                lemma_first_index(rs.len(), p);
            },
        }
    }
    best
}

fn select_partition_split_children(
    design: &CompiledDesign,
    i: usize,
    uncut: Vec<SplitChild>,
    cut: Ghost<Seq<Seq<char>>>,
    count: usize,
) -> (r: Vec<String>)
    requires
        i < design.modules@.len(),
        uncut.deep_view() == split_children(*design, i as int, cut@),
        count <= uncut@.len(),
    ensures
        r.deep_view() == selected_names(*design, i as int, cut@, count as int),
{
    let module = &design.modules[i];
    let ghost n = module.instances@.len();
    let ghost g = |k: int| split_child(*design, i as int, cut@, k);
    let ghost found = gather(n, g);
    let ghost all = uncut.deep_view();
    proof {
        assert(all == found);
        assert(all.len() == uncut@.len());
        lemma_sorted_by_key::<SplitChild, HeavyFirst>(all);
    }
    let ranked = sort_by_key::<SplitChild, HeavyFirst>(uncut);
    let ghost rv = ranked.deep_view();
    let ghost name = |x: int| instance_name(*design, i as int, rv[x].instance as int);
    proof {
        assert(rv.len() == ranked@.len());
        assert forall|x: int| 0 <= x < rv.len() implies (#[trigger] rv[x]).instance < n by {
            lemma_sorted_by_key_contains::<SplitChild, HeavyFirst>(all, rv[x]);
            assert(rv.contains(rv[x]));
            lemma_gather_contains(n, g, rv[x]);
        }
        assert forall|x: int| 0 <= x < rv.len() implies rv[x] == #[trigger] ranked@[x] by {}
    }
    build_items(
        count,
        |x: usize| -> (y: String)
            requires
                x < ranked@.len(),
                ranked@[x as int].instance < module.instances@.len(),
                rv[x as int] == ranked@[x as int],
                *module == design.modules@[i as int],
            ensures y.deep_view() == name(x as int)
        {
            module.instances[ranked[x].instance].name.clone()
        },
        Ghost(name),
    )
}

pub(crate) fn find_instance(design: &CompiledDesign, i: usize, name: &str) -> (r: Option<usize>)
    requires
        i < design.modules@.len(),
    ensures
        match r {
            Some(k) => k < design.modules@[i as int].instances@.len() && instance_named(
                *design,
                i as int,
                name@,
            ) == Some(k as int),
            None => instance_named(*design, i as int, name@) is None,
        },
{
    let module = &design.modules[i];
    let ghost p = has_instance_name(*design, i as int, name@);
    let mut k: usize = 0;
    while k < module.instances.len()
        invariant
            k <= module.instances@.len(),
            *module == design.modules@[i as int],
            p == has_instance_name(*design, i as int, name@),
            forall|j: int| 0 <= j < k ==> !#[trigger] p(j),
        decreases module.instances@.len() - k,
    {
        if same_text(module.instances[k].name.as_str(), name) {
            proof {
                assert(p(k as int));
                lemma_first_index_is(module.instances@.len(), p, k as int);
            }
            return Some(k);
        }
        k = k + 1;
    }
    proof {
        lemma_first_index(module.instances@.len(), p);
    }
    None
}

fn selected_in_module_order(
    design: &CompiledDesign,
    i: usize,
    cut: &Vec<String>,
    names: &Vec<String>,
) -> (r: Vec<NamePlace>)
    requires
        i < design.modules@.len(),
    ensures
        r.deep_view() == selected_children(
            *design,
            i as int,
            cut.deep_view(),
            names.deep_view(),
        ),
{
    let module = &design.modules[i];
    let ghost c = cut.deep_view();
    let ghost ns = names.deep_view();
    let ghost g = |k: int| selected_child(*design, i as int, c, ns, k);
    let found = gather_items(
        module.instances.len(),
        |k: usize| -> (y: Option<NamePlace>)
            requires
                k < module.instances@.len(),
                i < design.modules@.len(),
                *module == design.modules@[i as int],
                c == cut.deep_view(),
                ns == names.deep_view(),
            ensures y.deep_view() == g(k as int)
        {
            let name = module.instances[k].name.as_str();
            if !contains_text(cut, name) && contains_text(names, name) {
                let first: usize = match find_instance(design, i, name) {
                    Some(f) => f,
                    None => usize::MAX,
                };
                Some(NamePlace { first, instance: k })
            } else {
                None
            }
        },
        Ghost(g),
    );
    sort_by_key::<NamePlace, ByPlace>(found)
}

fn cut_also(cut: &Vec<String>, names: &Vec<String>) -> (r: Vec<String>)
    ensures
        r.deep_view() == with_names(cut.deep_view(), names.deep_view(), names@.len()),
{
    let mut r = cut.clone();
    let ghost c = cut.deep_view();
    let ghost ns = names.deep_view();
    proof {
        assert(r.deep_view() =~= c);
    }
    let mut k: usize = 0;
    while k < names.len()
        invariant
            k <= names@.len(),
            ns == names.deep_view(),
            r.deep_view() == with_names(c, ns, k as nat),
        decreases names@.len() - k,
    {
        proof {
            assert(ns[k as int] == names@[k as int]@);
        }
        if !contains_text(&r, names[k].as_str()) {
            push_item(&mut r, names[k].clone());
        }
        k = k + 1;
    }
    r
}

fn partition_region_has_remaining_work(design: &CompiledDesign, i: usize, cut: &Vec<String>) -> (r:
    bool)
    requires
        i < design.modules@.len(),
    ensures
        r == has_remaining_work(*design, i as int, cut.deep_view()),
{
    let module = &design.modules[i];
    if module_has_local_partition_work(module) {
        return true;
    }
    let ghost c = cut.deep_view();
    let mut k: usize = 0;
    while k < module.instances.len()
        invariant
            k <= module.instances@.len(),
            *module == design.modules@[i as int],
            c == cut.deep_view(),
            forall|j: int|
                0 <= j < k && !c.contains(#[trigger] instance_name(*design, i as int, j))
                    ==> child_of(*design, i as int, j) is None,
        decreases module.instances@.len() - k,
    {
        proof {
            assert(instance_name(*design, i as int, k as int) == module.instances@[k as int].name@);
        }
        if !contains_text(cut, module.instances[k].name.as_str()) {
            match design.find_module(module.instances[k].module.as_str()) {
                Some(_) => {
                    return true;
                },
                None => {},
            }
        }
        k = k + 1;
    }
    false
}

fn child_partition_region(design: &CompiledDesign, i: usize, path: &Vec<String>, k: usize) -> (r:
    PartitionRegion)
    requires
        i < design.modules@.len(),
        k < design.modules@[i as int].instances@.len(),
    ensures
        r.deep_view() == child_region(*design, i as int, path.deep_view(), k as int),
{
    let instance = &design.modules[i].instances[k];
    let mut instance_path = path.clone();
    proof {
        assert(instance_path.deep_view() =~= path.deep_view());
    }
    push_item(&mut instance_path, instance.name.clone());
    let r = PartitionRegion {
        id: String::new(),
        module_name: instance.module.clone(),
        instance_path,
        cut_child_instances: no_items(),
    };
    proof {
        assert(r.deep_view() =~= child_region(*design, i as int, path.deep_view(), k as int));
    }
    r
}

fn split_into_parts(design: &CompiledDesign, i: usize, region: &PartitionRegion, count: usize) -> (r:
    Vec<PartitionRegion>)
    requires
        i < design.modules@.len(),
        hierarchy_ends(*design, i as int),
        work_fits(full_work(*design, i as int)),
        count <= split_children(*design, i as int, region.deep_view().cut_child_instances).len(),
    ensures
        r.deep_view() == region_parts(*design, i as int, region.deep_view(), count as int),
{
    let ghost rv = region.deep_view();
    let ghost c = rv.cut_child_instances;
    let uncut = uncut_child_instances(design, i, &region.cut_child_instances);
    proof {
        assert(uncut@.len() == uncut.deep_view().len());
    }
    let names = select_partition_split_children(design, i, uncut, Ghost(c), count);
    let ghost ns = names.deep_view();
    let children = selected_in_module_order(design, i, &region.cut_child_instances, &names);
    let cut = cut_also(&region.cut_child_instances, &names);
    proof {
        assert(ns.len() == names@.len());
        lemma_selected_children(*design, i as int, c, ns);
    }
    let mut parts: Vec<PartitionRegion> = no_items();
    if partition_region_has_remaining_work(design, i, &cut) {
        let mut rest = region.clone();
        rest.cut_child_instances = cut;
        push_item(&mut parts, rest);
    }
    let ghost cs = children.deep_view();
    let ghost g = |x: int| child_region(*design, i as int, rv.instance_path, cs[x].instance as int);
    proof {
        assert forall|x: int| 0 <= x < children@.len() implies cs[x] == #[trigger] children@[x] by {}
    }
    let below = build_items(
        children.len(),
        |x: usize| -> (y: PartitionRegion)
            requires
                x < children@.len(),
                i < design.modules@.len(),
                children@[x as int].instance < design.modules@[i as int].instances@.len(),
                cs[x as int] == children@[x as int],
                rv == region.deep_view(),
            ensures y.deep_view() == g(x as int)
        {
            child_partition_region(design, i, &region.instance_path, children[x].instance)
        },
        Ghost(g),
    );
    append_items(&mut parts, below);
    proof {
        assert(parts.deep_view() =~= region_parts(*design, i as int, rv, count as int));
    }
    parts
}

/// Copies the regions from `start` on, up to `end`.
fn copy_regions(regions: &Vec<PartitionRegion>, start: usize, end: usize) -> (r: Vec<
    PartitionRegion,
>)
    requires
        start <= end <= regions@.len(),
    ensures
        r.deep_view() == regions.deep_view().subrange(start as int, end as int),
{
    let ghost rs = regions.deep_view();
    let ghost g = |x: int| rs[start + x];
    let r = build_items(
        end - start,
        |x: usize| -> (y: PartitionRegion)
            requires x < end - start, end <= regions@.len(), rs == regions.deep_view(),
            ensures y.deep_view() == g(x as int)
        {
            proof {
                assert(rs[start + x] == regions@[start + x].deep_view());
            }
            regions[start + x].clone()
        },
        Ghost(g),
    );
    proof {
        assert(r.deep_view() =~= rs.subrange(start as int, end as int));
    }
    r
}

fn split_partition_region(
    design: &CompiledDesign,
    regions: &Vec<PartitionRegion>,
    index: usize,
    target_partitions: usize,
    Ghost(bound): Ghost<Work>,
) -> (r: Option<Vec<PartitionRegion>>)
    requires
        index < regions@.len(),
        are_sound_regions(*design, bound, regions.deep_view()),
        work_fits(bound),
    ensures
        match r {
            Some(next) => split_region(
                *design,
                regions.deep_view(),
                index as int,
                target_partitions as int,
            ) == Some(next.deep_view()),
            None => split_region(
                *design,
                regions.deep_view(),
                index as int,
                target_partitions as int,
            ) is None,
        },
{
    let ghost rs = regions.deep_view();
    let region = &regions[index];
    proof {
        assert(rs[index as int] == region.deep_view());
        assert(is_sound_region(*design, bound, rs[index as int]));
        assert(rs.len() == regions@.len());
    }
    let i = match design.find_module(region.module_name.as_str()) {
        Some(i) => i,
        None => {
            return None;
        },
    };
    let uncut = uncut_child_instances(design, i, &region.cut_child_instances);
    proof {
        assert(uncut@.len() == uncut.deep_view().len());
    }
    let remaining: usize = if target_partitions >= regions.len() {
        target_partitions - regions.len()
    } else {
        0
    };
    let count: usize = partition_split_child_count(
        module_has_local_partition_work(&design.modules[i]),
        uncut.len(),
        remaining,
    );
    if count == 0 {
        return None;
    }
    let parts = split_into_parts(design, i, region, count);
    let mut next = copy_regions(regions, 0, index);
    append_items(&mut next, parts);
    let rest = copy_regions(regions, index + 1, regions.len());
    append_items(&mut next, rest);
    proof {
        assert(rs.subrange(0, index as int) =~= rs.take(index as int));
        assert(rs.subrange(index + 1, rs.len() as int) =~= rs.skip(index + 1));
    }
    Some(next)
}

fn list_regions(regions: Vec<PartitionRegion>) -> (r: Vec<PartitionRegion>)
    ensures
        r.deep_view() == listed_regions(regions.deep_view()),
{
    let sorted = sort_by_key::<PartitionRegion, ByPath>(regions);
    let ghost sv = sorted.deep_view();
    let ghost g = |k: int| PartitionRegionView { id: region_id(k), ..sv[k] };
    proof {
        assert(sv.len() == sorted@.len());
    }
    build_items(
        sorted.len(),
        |k: usize| -> (y: PartitionRegion)
            requires k < sorted@.len(), sv == sorted.deep_view(),
            ensures y.deep_view() == g(k as int)
        {
            proof {
                assert(sv[k as int] == sorted@[k as int].deep_view());
            }
            let mut region = sorted[k].clone();
            let mut id = "p".to_owned();
            append_decimal(&mut id, k as u64);
            region.id = id;
            region
        },
        Ghost(g),
    )
}

fn whole_partition_region(id: String, module: &CompiledModule) -> (r: PartitionRegion)
    ensures
        r.deep_view() == whole_region(id@, module.name@),
{
    let mut instance_path: Vec<String> = no_items();
    push_item(&mut instance_path, module.name.clone());
    let r = PartitionRegion {
        id,
        module_name: module.name.clone(),
        instance_path,
        cut_child_instances: no_items(),
    };
    proof {
        assert(r.deep_view() =~= whole_region(id@, module.name@));
    }
    r
}

fn split_step_limit(target: usize) -> (r: usize)
    ensures
        r == split_limit(target as int),
{
    match target.checked_mul(8) {
        Some(t) => match t.checked_add(8) {
            Some(l) => l,
            None => usize::MAX,
        },
        None => usize::MAX,
    }
}

/// Cuts module `top` into regions.
pub fn partition_regions(design: &CompiledDesign, top: usize, config: &RuntimePartitionConfig) -> (r:
    Result<Vec<PartitionRegion>, ErrorReport>)
    requires
        top < design.modules@.len(),
        module_named(*design, design.modules@[top as int].name@) == Some(top as int),
        hierarchy_ends(*design, top as int),
        regions_problem(*design, top as int, config.target_partitions as int) is None ==> work_fits(
            full_work(*design, top as int),
        ),
    ensures
        fails_with(
            r,
            regions_problem(*design, top as int, config.target_partitions as int),
        ),
        r matches Ok(regions) ==> regions.deep_view() == planned_regions(
            *design,
            top as int,
            config.target_partitions as int,
        ),
{
    let target: usize = config.target_partitions;
    let module = &design.modules[top];
    if module.instances.len() == 0 || target == 1 {
        let mut regions: Vec<PartitionRegion> = no_items();
        push_item(&mut regions, whole_partition_region("p0".to_owned(), module));
        proof {
            assert(regions.deep_view() =~= planned_regions(*design, top as int, target as int));
        }
        return Ok(regions);
    }
    validate_partition_instance_modules(design, top)?;
    let ghost bound = full_work(*design, top as int);
    let mut regions: Vec<PartitionRegion> = no_items();
    push_item(&mut regions, whole_partition_region(String::new(), module));
    let ghost first = seq![whole_region(seq![], module.name@)];
    proof {
        assert(regions.deep_view() =~= first);
    }
    let mut left: usize = split_step_limit(target);
    let mut done: bool = false;
    while !done && regions.len() < target && left > 0
        invariant
            are_sound_regions(*design, bound, regions.deep_view()),
            work_fits(bound),
            regions.deep_view().len() == regions@.len(),
            done ==> refined(*design, first, target as int, split_limit(target as int))
                == regions.deep_view(),
            !done ==> refined(*design, first, target as int, split_limit(target as int))
                == refined(*design, regions.deep_view(), target as int, left as nat),
        decreases left,
    {
        left = left - 1;
        let ghost before = regions.deep_view();
        match best_partition_split_candidate(design, &regions, Ghost(bound)) {
            None => {
                done = true;
            },
            Some(index) => {
                match split_partition_region(design, &regions, index, target, Ghost(bound)) {
                    None => {
                        done = true;
                    },
                    Some(next) => {
                        proof {
                            lemma_split_keeps_sound(
                                *design,
                                bound,
                                before,
                                index as int,
                                target as int,
                            );
                            assert(next.deep_view().len() == next@.len());
                        }
                        regions = next;
                    },
                }
            },
        }
    }
    Ok(list_regions(regions))
}

/// Every planned region has its module, and its work is part of that of the
/// module that was cut.
pub proof fn lemma_planned_regions_sound(design: CompiledDesign, top: int, target: int, k: int)
    requires
        0 <= top < design.modules@.len(),
        module_named(design, design.modules@[top].name@) == Some(top),
        hierarchy_ends(design, top),
        regions_problem(design, top, target) is None,
        0 <= k < planned_regions(design, top, target).len(),
    ensures
        ({
            let region = planned_regions(design, top, target)[k];
            let i = module_named(design, region.module_name);
            &&& i is Some
            &&& 0 <= i->0 < design.modules@.len()
            &&& hierarchy_ends(design, i->0)
            &&& work_le(full_work(design, i->0), full_work(design, top))
            &&& is_work(region_work(design, region))
            &&& work_le(region_work(design, region), full_work(design, top))
        }),
{
    let name = design.modules@[top].name@;
    let region = planned_regions(design, top, target)[k];
    let bound = full_work(design, top);
    if !stays_whole(design.modules@[top], target) {
        let first = seq![whole_region(seq![], name)];
        assert(are_sound_regions(design, bound, first));
        let all = refined(design, first, target, split_limit(target));
        lemma_refined_sound(design, bound, first, target, split_limit(target));
        let sorted = sorted_by_key::<PartitionRegion, ByPath>(all);
        lemma_sorted_by_key::<PartitionRegion, ByPath>(all);
        lemma_sorted_by_key_contains::<PartitionRegion, ByPath>(all, sorted[k]);
        assert(sorted.contains(sorted[k]));
        let x = choose|x: int| 0 <= x < all.len() && all[x] == sorted[k];
        assert(is_sound_region(design, bound, all[x]));
    }
    lemma_module_named(design, region.module_name);
    let i = module_named(design, region.module_name)->0;
    lemma_uncut_work(
        design,
        i,
        region.cut_child_instances,
        design.modules@[i].instances@.len(),
    );
}

} // verus!

//! Which partition boundaries may be cut.
//!
//! Partitions exchange values once per cycle. A boundary that carries a
//! combinational value cannot wait for the exchange, so the partitions that it
//! joins are merged into one group.

use vstd::prelude::*;

use crate::collect::{
    build_items, gather, gather_items, lemma_gather_all, lemma_gather_contains, lemma_gather_same,
    lemma_sum_below_one, lemma_sum_below_same, lemma_sum_below_swap, sum_below,
};
use crate::conservation::{
    gathered, lemma_sum_by_gather, lemma_sum_by_mapped, lemma_sum_by_permutation,
};
use crate::cost::{
    boundary_of, compute_of, costs_fit, costs_sum, memory_of, state_of, total_of_costs,
};
use crate::ids::{distinct_names, find_last_named, last_named, lemma_last_named, Named};
use crate::model::partition::{
    BoundaryLegality, LegalPartitionGroup, LegalPartitionGroupView, LegalPartitionPlan,
    LegalPartitionPlanView, RuntimePartition, RuntimePartitionBoundarySignal,
    RuntimePartitionBoundarySignalView, RuntimePartitionCost, RuntimePartitionPlan,
    RuntimePartitionPlanView, RuntimePartitionSignalKind,
};
use crate::order::{lemma_ranked_sort_is_sorting, ranked_sort, sort_ranked};
use crate::regions::contains_text;
use crate::seqs::{
    last_index, lemma_last_index, lemma_last_index_is, lemma_sum_by_prefix, sum_by,
};
use crate::text::{join_text, joined};

verus! {

/// Registers and inputs keep their value for a whole cycle; nothing else is known
/// to.
pub open spec fn legality(kind: RuntimePartitionSignalKind) -> BoundaryLegality {
    match kind {
        RuntimePartitionSignalKind::Register => BoundaryLegality::RegisterStable,
        RuntimePartitionSignalKind::Input => BoundaryLegality::RegisterStable,
        _ => BoundaryLegality::CombinationalUnsafe,
    }
}

/// Whether a boundary carries a combinational value.
pub open spec fn is_combinational(boundary: RuntimePartitionBoundarySignalView) -> bool {
    legality(boundary.signal.kind) == BoundaryLegality::CombinationalUnsafe
}

/// Decides whether a boundary may be cut. Outputs, inouts, memories and wires
/// count as combinational: a register behind them does not show at the boundary,
/// and merging too much is never wrong.
pub fn classify_partition_boundary(boundary: &RuntimePartitionBoundarySignal) -> (r: BoundaryLegality)
    ensures
        r == legality(boundary.deep_view().signal.kind),
{
    match boundary.signal.kind {
        RuntimePartitionSignalKind::Register | RuntimePartitionSignalKind::Input =>
            BoundaryLegality::RegisterStable,
        RuntimePartitionSignalKind::Output | RuntimePartitionSignalKind::Inout
        | RuntimePartitionSignalKind::Memory | RuntimePartitionSignalKind::Wire =>
            BoundaryLegality::CombinationalUnsafe,
    }
}

// ---------------------------------------------------------------------------
// Partitions that belong together
// ---------------------------------------------------------------------------

/// The partition of an id.
pub open spec fn partition_index(plan: RuntimePartitionPlanView, id: Seq<char>) -> Option<int> {
    last_named::<RuntimePartition>(plan.partitions, id)
}

/// Whether boundary `i` carries a combinational value from partition `a` to its
/// consumer `j`, partition `b`.
pub open spec fn joins_at(plan: RuntimePartitionPlanView, i: int, j: int, a: int, b: int) -> bool {
    let boundary = plan.boundary_signals[i];
    &&& 0 <= i < plan.boundary_signals.len()
    &&& 0 <= j < boundary.consumer_partitions.len()
    &&& is_combinational(boundary)
    &&& boundary.producer_partition is Some
    &&& partition_index(plan, boundary.producer_partition->0) == Some(a)
    &&& partition_index(plan, boundary.consumer_partitions[j]) == Some(b)
}

/// Whether boundary `i` joins two partitions at its consumer `j`, either way.
pub open spec fn links_at(plan: RuntimePartitionPlanView, i: int, j: int, a: int, b: int) -> bool {
    joins_at(plan, i, j, a, b) || joins_at(plan, i, j, b, a)
}

/// Whether a combinational boundary joins two partitions.
pub open spec fn are_linked(plan: RuntimePartitionPlanView, a: int, b: int) -> bool {
    exists|i: int, j: int| #[trigger] links_at(plan, i, j, a, b)
}

/// Whether every two neighbours in a list of partitions are linked.
pub open spec fn is_walk(plan: RuntimePartitionPlanView, walk: Seq<int>) -> bool {
    walk.len() > 0 && forall|k: int|
        0 <= k < walk.len() - 1 ==> are_linked(plan, #[trigger] walk[k], walk[k + 1])
}

/// Whether a walk over combinational boundaries leads from one partition to
/// another.
pub open spec fn belong_together(plan: RuntimePartitionPlanView, a: int, b: int) -> bool {
    exists|walk: Seq<int>| #[trigger]
        is_walk(plan, walk) && walk.first() == a && walk.last() == b
}

/// Whether a labelling gives linked partitions the same label.
pub open spec fn respects_links(plan: RuntimePartitionPlanView, label: spec_fn(int) -> int) -> bool {
    forall|a: int, b: int| #[trigger] are_linked(plan, a, b) ==> label(a) == label(b)
}

/// Whether every such labelling gives two partitions the same label.
pub open spec fn share_labels(plan: RuntimePartitionPlanView, a: int, b: int) -> bool {
    forall|label: spec_fn(int) -> int| #[trigger]
        respects_links(plan, label) ==> label(a) == label(b)
}

proof fn lemma_walk_keeps_label(
    plan: RuntimePartitionPlanView,
    walk: Seq<int>,
    label: spec_fn(int) -> int,
)
    requires
        is_walk(plan, walk),
        respects_links(plan, label),
    ensures
        label(walk.first()) == label(walk.last()),
    decreases walk.len(),
{
    if walk.len() > 1 {
        let shorter = walk.drop_last();
        assert forall|k: int| 0 <= k < shorter.len() - 1 implies are_linked(
            plan,
            #[trigger] shorter[k],
            shorter[k + 1],
        ) by {
            assert(are_linked(plan, walk[k], walk[k + 1]));
        }
        lemma_walk_keeps_label(plan, shorter, label);
        let k = walk.len() - 2;
        assert(are_linked(plan, walk[k], walk[k + 1]));
    }
}

/// Partitions belong together exactly if no labelling tells them apart.
pub proof fn lemma_belong_together(plan: RuntimePartitionPlanView, a: int, b: int)
    ensures
        belong_together(plan, a, b) <==> share_labels(plan, a, b),
{
    if belong_together(plan, a, b) {
        let walk = choose|walk: Seq<int>| #[trigger]
            is_walk(plan, walk) && walk.first() == a && walk.last() == b;
        assert forall|label: spec_fn(int) -> int| #[trigger]
            respects_links(plan, label) implies label(a) == label(b) by {
            lemma_walk_keeps_label(plan, walk, label);
        }
    }
    if share_labels(plan, a, b) {
        let label = |x: int|
            if belong_together(plan, a, x) {
                1int
            } else {
                0int
            };
        assert forall|x: int, y: int| #[trigger] are_linked(plan, x, y) implies label(x) == label(
            y,
        ) by {
            if belong_together(plan, a, x) {
                lemma_walk_on(plan, a, x, y);
            }
            if belong_together(plan, a, y) {
                lemma_linked_back(plan, x, y);
                lemma_walk_on(plan, a, y, x);
            }
        }
        assert(respects_links(plan, label));
        let stay = seq![a];
        assert(is_walk(plan, stay));
        assert(belong_together(plan, a, a));
        assert(label(a) == label(b));
    }
}

proof fn lemma_linked_back(plan: RuntimePartitionPlanView, x: int, y: int)
    requires
        are_linked(plan, x, y),
    ensures
        are_linked(plan, y, x),
{
    let (i, j) = choose|i: int, j: int| #[trigger] links_at(plan, i, j, x, y);
    assert(links_at(plan, i, j, y, x));
}

proof fn lemma_walk_on(plan: RuntimePartitionPlanView, a: int, x: int, y: int)
    requires
        belong_together(plan, a, x),
        are_linked(plan, x, y),
    ensures
        belong_together(plan, a, y),
{
    let walk = choose|walk: Seq<int>| #[trigger]
        is_walk(plan, walk) && walk.first() == a && walk.last() == x;
    let longer = walk.push(y);
    assert forall|k: int| 0 <= k < longer.len() - 1 implies are_linked(
        plan,
        #[trigger] longer[k],
        longer[k + 1],
    ) by {
        if k < walk.len() - 1 {
            assert(are_linked(plan, walk[k], walk[k + 1]));
        }
    }
    assert(is_walk(plan, longer) && longer.first() == a && longer.last() == y);
}

// ---------------------------------------------------------------------------
// A forest of roots
// ---------------------------------------------------------------------------

/// Whether every entry of a forest points to itself or to an earlier one.
spec fn is_forest(parent: Seq<usize>) -> bool {
    forall|x: int| 0 <= x < parent.len() ==> #[trigger] parent[x] <= x
}

/// The root above an entry.
spec fn root_of(parent: Seq<usize>, x: int) -> int
    decreases x,
{
    if 0 <= x < parent.len() && parent[x] < x {
        root_of(parent, parent[x] as int)
    } else {
        x
    }
}

/// A root points to itself, and comes no later than what is below it.
proof fn lemma_root(parent: Seq<usize>, x: int)
    requires
        is_forest(parent),
        0 <= x < parent.len(),
    ensures
        0 <= root_of(parent, x) <= x,
        parent[root_of(parent, x)] == root_of(parent, x),
        root_of(parent, root_of(parent, x)) == root_of(parent, x),
    decreases x,
{
    assert(parent[x] <= x);
    if parent[x] < x {
        lemma_root(parent, parent[x] as int);
    }
}

/// Pointing an entry further up, below the same root, keeps all roots.
proof fn lemma_shortcut(parent: Seq<usize>, x: int, up: usize, y: int)
    requires
        is_forest(parent),
        0 <= x < parent.len(),
        parent[x] < x,
        up <= parent[x],
        root_of(parent, up as int) == root_of(parent, x),
        0 <= y < parent.len(),
    ensures
        root_of(parent.update(x, up), y) == root_of(parent, y),
    decreases y,
{
    let next = parent.update(x, up);
    if y == x {
        lemma_shortcut(parent, x, up, up as int);
    } else {
        assert(next[y] == parent[y]);
        assert(parent[y] <= y);
        if parent[y] < y {
            lemma_shortcut(parent, x, up, parent[y] as int);
        }
    }
}

/// Pointing a root to an earlier root gives all below it that root.
proof fn lemma_merge(parent: Seq<usize>, hi: int, lo: usize, y: int)
    requires
        is_forest(parent),
        0 <= lo < hi < parent.len(),
        parent[hi] == hi,
        parent[lo as int] == lo,
        0 <= y < parent.len(),
    ensures
        root_of(parent.update(hi, lo), y) == if root_of(parent, y) == hi {
            lo as int
        } else {
            root_of(parent, y)
        },
    decreases y,
{
    let next = parent.update(hi, lo);
    if y == hi {
        assert(next[lo as int] == lo);
        assert(root_of(next, lo as int) == lo);
        assert(root_of(next, hi) == root_of(next, next[hi] as int));
    } else {
        assert(next[y] == parent[y]);
        assert(parent[y] <= y);
        if parent[y] < y {
            lemma_merge(parent, hi, lo, parent[y] as int);
        }
    }
}

fn find_root(parent: &mut Vec<usize>, start: usize) -> (r: usize)
    requires
        is_forest(old(parent)@),
        start < old(parent)@.len(),
    ensures
        is_forest(final(parent)@),
        final(parent)@.len() == old(parent)@.len(),
        forall|y: int|
            0 <= y < old(parent)@.len() ==> #[trigger] root_of(final(parent)@, y) == root_of(
                old(parent)@,
                y,
            ),
        r == root_of(old(parent)@, start as int),
        r < old(parent)@.len(),
        final(parent)@[r as int] == r,
{
    let ghost before = parent@;
    let mut x: usize = start;
    proof {
        lemma_root(before, start as int);
    }
    while parent[x] != x
        invariant
            is_forest(parent@),
            parent@.len() == before.len(),
            x < parent@.len(),
            forall|y: int|
                0 <= y < before.len() ==> #[trigger] root_of(parent@, y) == root_of(before, y),
            root_of(before, x as int) == root_of(before, start as int),
        decreases x,
    {
        let ghost now = parent@;
        let p: usize = parent[x];
        proof {
            assert(now[x as int] <= x);
        }
        let up: usize = parent[p];
        proof {
            assert(now[p as int] <= p);
            assert(root_of(now, x as int) == root_of(now, p as int));
            assert(root_of(now, p as int) == root_of(now, up as int));
            assert forall|y: int| 0 <= y < before.len() implies #[trigger] root_of(
                now.update(x as int, up),
                y,
            ) == root_of(before, y) by {
                lemma_shortcut(now, x as int, up, y);
                assert(root_of(now, y) == root_of(before, y));
            }
        }
        parent.set(x, up);
        proof {
            assert(root_of(now, up as int) == root_of(before, up as int));
            assert(root_of(now, x as int) == root_of(before, x as int));
        }
        x = up;
    }
    proof {
        assert(root_of(parent@, x as int) == x);
    }
    x
}

fn join_roots(parent: &mut Vec<usize>, a: usize, b: usize)
    requires
        is_forest(old(parent)@),
        a < old(parent)@.len(),
        b < old(parent)@.len(),
    ensures
        is_forest(final(parent)@),
        final(parent)@.len() == old(parent)@.len(),
        forall|y: int|
            0 <= y < old(parent)@.len() ==> #[trigger] root_of(final(parent)@, y) == joined_root(
                old(parent)@,
                a as int,
                b as int,
                y,
            ),
{
    let ghost before = parent@;
    let ra: usize = find_root(parent, a);
    let rb: usize = find_root(parent, b);
    let ghost now = parent@;
    proof {
        lemma_root(before, a as int);
        lemma_root(before, b as int);
        assert(root_of(now, ra as int) == root_of(before, ra as int));
        assert(root_of(now, rb as int) == root_of(before, rb as int));
        lemma_root(now, ra as int);
        lemma_root(now, rb as int);
    }
    if ra != rb {
        let hi: usize = if ra > rb {
            ra
        } else {
            rb
        };
        let lo: usize = if ra > rb {
            rb
        } else {
            ra
        };
        proof {
            assert forall|y: int| 0 <= y < before.len() implies #[trigger] root_of(
                now.update(hi as int, lo),
                y,
            ) == joined_root(before, a as int, b as int, y) by {
                lemma_merge(now, hi as int, lo, y);
                assert(root_of(now, y) == root_of(before, y));
            }
        }
        parent.set(hi, lo);
    }
}

/// The root of an entry after two trees were joined: the earlier of their roots
/// for all in either tree.
spec fn joined_root(parent: Seq<usize>, a: int, b: int, y: int) -> int {
    let ra = root_of(parent, a);
    let rb = root_of(parent, b);
    if root_of(parent, y) == ra || root_of(parent, y) == rb {
        if ra <= rb {
            ra
        } else {
            rb
        }
    } else {
        root_of(parent, y)
    }
}

// ---------------------------------------------------------------------------
// Groups
// ---------------------------------------------------------------------------

/// Whether no partition before `r` belongs together with it.
pub open spec fn is_first_of_group(plan: RuntimePartitionPlanView, r: int) -> bool {
    forall|x: int| 0 <= x < r ==> !#[trigger] belong_together(plan, r, x)
}

/// The ids of the partitions that belong together with partition `r`, sorted.
pub open spec fn group_members(plan: RuntimePartitionPlanView, r: int) -> Seq<Seq<char>> {
    ranked_sort::<String>(
        gather(
            plan.partitions.len(),
            |x: int|
                if belong_together(plan, r, x) {
                    Some(plan.partitions[x].id)
                } else {
                    None
                },
        ),
    )
}

/// The groups of a plan, each with its members sorted, in sorted order.
pub open spec fn merged_groups(plan: RuntimePartitionPlanView) -> Seq<Seq<Seq<char>>> {
    ranked_sort::<Vec<String>>(
        gather(
            plan.partitions.len(),
            |r: int|
                if is_first_of_group(plan, r) {
                    Some(group_members(plan, r))
                } else {
                    None
                },
        ),
    )
}

/// Whether roots follow the links of a plan: an entry shares all labels with its
/// root.
spec fn roots_are_sound(plan: RuntimePartitionPlanView, parent: Seq<usize>) -> bool {
    forall|x: int| 0 <= x < parent.len() ==> share_labels(plan, x, #[trigger] root_of(parent, x))
}

/// Whether the partitions that the first `i` boundaries link have the same root,
/// and those that the first `j` consumers of boundary `i` link.
spec fn links_are_joined(
    plan: RuntimePartitionPlanView,
    parent: Seq<usize>,
    i: int,
    j: int,
) -> bool {
    forall|bi: int, cj: int, a: int, b: int|
        (bi < i || (bi == i && cj < j)) && #[trigger] joins_at(plan, bi, cj, a, b) ==> root_of(
            parent,
            a,
        ) == root_of(parent, b)
}

proof fn lemma_join_keeps(
    plan: RuntimePartitionPlanView,
    before: Seq<usize>,
    after: Seq<usize>,
    i: int,
    j: int,
    a: int,
    b: int,
)
    requires
        before.len() == after.len() == plan.partitions.len(),
        is_forest(before),
        is_forest(after),
        roots_are_sound(plan, before),
        links_are_joined(plan, before, i, j),
        joins_at(plan, i, j, a, b),
        0 <= a < before.len(),
        0 <= b < before.len(),
        forall|y: int|
            0 <= y < before.len() ==> #[trigger] root_of(after, y) == joined_root(before, a, b, y),
    ensures
        roots_are_sound(plan, after),
        links_are_joined(plan, after, i, j + 1),
{
    let ra = root_of(before, a);
    let rb = root_of(before, b);
    lemma_root(before, a);
    lemma_root(before, b);
    assert(links_at(plan, i, j, a, b));
    assert(are_linked(plan, a, b));
    assert forall|x: int| 0 <= x < after.len() implies share_labels(
        plan,
        x,
        #[trigger] root_of(after, x),
    ) by {
        assert(share_labels(plan, x, root_of(before, x)));
        assert(share_labels(plan, a, ra));
        assert(share_labels(plan, b, rb));
        assert forall|label: spec_fn(int) -> int| #[trigger]
            respects_links(plan, label) implies label(x) == label(root_of(after, x)) by {
            assert(label(a) == label(b));
            assert(label(x) == label(root_of(before, x)));
            assert(label(a) == label(ra));
            assert(label(b) == label(rb));
        }
    }
    assert forall|bi: int, cj: int, p: int, q: int|
        (bi < i || (bi == i && cj < j + 1)) && #[trigger] joins_at(
            plan,
            bi,
            cj,
            p,
            q,
        ) implies root_of(after, p) == root_of(after, q) by {
        lemma_last_named::<RuntimePartition>(
            plan.partitions,
            plan.boundary_signals[bi].producer_partition->0,
        );
        lemma_last_named::<RuntimePartition>(
            plan.partitions,
            plan.boundary_signals[bi].consumer_partitions[cj],
        );
        assert(0 <= p < before.len() && 0 <= q < before.len());
        if bi < i || cj < j {
            assert(root_of(before, p) == root_of(before, q));
        }
        assert(root_of(after, p) == joined_root(before, a, b, p));
        assert(root_of(after, q) == joined_root(before, a, b, q));
    }
}

/// Once all links are joined, two partitions have the same root exactly if they
/// belong together, and a root is the first of its group.
proof fn lemma_roots(plan: RuntimePartitionPlanView, parent: Seq<usize>, a: int, b: int)
    requires
        parent.len() == plan.partitions.len(),
        is_forest(parent),
        roots_are_sound(plan, parent),
        links_are_joined(plan, parent, plan.boundary_signals.len() as int, 0),
        0 <= a < parent.len(),
        0 <= b < parent.len(),
    ensures
        belong_together(plan, a, b) <==> root_of(parent, a) == root_of(parent, b),
{
    let label = |x: int| root_of(parent, x);
    assert forall|x: int, y: int| #[trigger] are_linked(plan, x, y) implies label(x) == label(y) by {
        let (i, j) = choose|i: int, j: int| #[trigger] links_at(plan, i, j, x, y);
        if joins_at(plan, i, j, x, y) {
            assert(root_of(parent, x) == root_of(parent, y));
        } else {
            assert(joins_at(plan, i, j, y, x));
        }
    }
    assert(respects_links(plan, label));
    lemma_belong_together(plan, a, b);
    if belong_together(plan, a, b) {
        assert(label(a) == label(b));
    }
    if root_of(parent, a) == root_of(parent, b) {
        assert(share_labels(plan, a, root_of(parent, a)));
        assert(share_labels(plan, b, root_of(parent, b)));
    }
}

proof fn lemma_first_is_root(plan: RuntimePartitionPlanView, parent: Seq<usize>, r: int)
    requires
        parent.len() == plan.partitions.len(),
        is_forest(parent),
        roots_are_sound(plan, parent),
        links_are_joined(plan, parent, plan.boundary_signals.len() as int, 0),
        0 <= r < parent.len(),
    ensures
        is_first_of_group(plan, r) <==> root_of(parent, r) == r,
{
    lemma_root(parent, r);
    let top = root_of(parent, r);
    lemma_roots(plan, parent, r, top);
    if top == r {
        assert forall|x: int| 0 <= x < r implies !#[trigger] belong_together(plan, r, x) by {
            lemma_roots(plan, parent, r, x);
            lemma_root(parent, x);
        }
    } else {
        assert(belong_together(plan, r, top));
    }
}

/// Joins the partitions of all combinational boundaries and returns the root of
/// every partition.
fn partition_roots(plan: &RuntimePartitionPlan) -> (roots: Vec<usize>)
    ensures
        roots@.len() == plan.partitions@.len(),
        forall|a: int, b: int|
            0 <= a < roots@.len() && 0 <= b < roots@.len() ==> (belong_together(
                plan.deep_view(),
                a,
                b,
            ) <==> #[trigger] roots@[a] == #[trigger] roots@[b]),
        forall|r: int|
            0 <= r < roots@.len() ==> (is_first_of_group(plan.deep_view(), r) <==> #[trigger] roots@[r]
                == r),
        forall|r: int| 0 <= r < roots@.len() ==> #[trigger] roots@[r] < roots@.len(),
{
    let ghost p = plan.deep_view();
    let n: usize = plan.partitions.len();
    let mut parent: Vec<usize> = Vec::new();
    while parent.len() < n
        invariant
            parent@.len() <= n,
            forall|x: int| 0 <= x < parent@.len() ==> #[trigger] parent@[x] == x,
        decreases n - parent@.len(),
    {
        let next: usize = parent.len();
        parent.push(next);
    }
    proof {
        assert(p.partitions.len() == n);
        assert(roots_are_sound(p, parent@));
    }
    let mut i: usize = 0;
    while i < plan.boundary_signals.len()
        invariant
            p == plan.deep_view(),
            n == plan.partitions@.len(),
            n == p.partitions.len(),
            i <= plan.boundary_signals@.len(),
            parent@.len() == n,
            is_forest(parent@),
            roots_are_sound(p, parent@),
            links_are_joined(p, parent@, i as int, 0),
        decreases plan.boundary_signals@.len() - i,
    {
        let boundary = &plan.boundary_signals[i];
        let ghost bv = boundary.deep_view();
        proof {
            assert(p.boundary_signals[i as int] == bv);
            assert(bv.consumer_partitions.len() == boundary.consumer_partitions@.len());
        }
        let producer: Option<usize> = match classify_partition_boundary(boundary) {
            BoundaryLegality::CombinationalUnsafe => match &boundary.producer_partition {
                Some(id) => find_last_named(&plan.partitions, id.as_str()),
                None => None,
            },
            BoundaryLegality::RegisterStable => None,
        };
        match producer {
            Some(a) => {
                let mut j: usize = 0;
                while j < boundary.consumer_partitions.len()
                    invariant
                        p == plan.deep_view(),
                        n == plan.partitions@.len(),
                        n == p.partitions.len(),
                        i < plan.boundary_signals@.len(),
                        *boundary == plan.boundary_signals@[i as int],
                        bv == boundary.deep_view(),
                        p.boundary_signals[i as int] == bv,
                        p.boundary_signals.len() == plan.boundary_signals@.len(),
                        bv.consumer_partitions.len() == boundary.consumer_partitions@.len(),
                        is_combinational(bv),
                        bv.producer_partition is Some,
                        partition_index(p, bv.producer_partition->0) == Some(a as int),
                        a < n,
                        j <= boundary.consumer_partitions@.len(),
                        parent@.len() == n,
                        is_forest(parent@),
                        roots_are_sound(p, parent@),
                        links_are_joined(p, parent@, i as int, j as int),
                    decreases boundary.consumer_partitions@.len() - j,
                {
                    proof {
                        assert(bv.consumer_partitions[j as int]
                            == boundary.consumer_partitions@[j as int]@);
                    }
                    match find_last_named(
                        &plan.partitions,
                        boundary.consumer_partitions[j].as_str(),
                    ) {
                        Some(b) => {
                            let ghost before = parent@;
                            join_roots(&mut parent, a, b);
                            proof {
                                lemma_join_keeps(
                                    p,
                                    before,
                                    parent@,
                                    i as int,
                                    j as int,
                                    a as int,
                                    b as int,
                                );
                            }
                        },
                        None => {},
                    }
                    j = j + 1;
                }
            },
            None => {},
        }
        i = i + 1;
    }
    let ghost forest = parent@;
    proof {
        assert(links_are_joined(p, forest, p.boundary_signals.len() as int, 0));
    }
    let mut roots: Vec<usize> = Vec::new();
    while roots.len() < n
        invariant
            n == forest.len(),
            parent@.len() == n,
            is_forest(parent@),
            forall|y: int|
                0 <= y < n ==> #[trigger] root_of(parent@, y) == root_of(forest, y),
            roots@.len() <= n,
            forall|x: int| 0 <= x < roots@.len() ==> #[trigger] roots@[x] == root_of(forest, x),
        decreases n - roots@.len(),
    {
        let x: usize = roots.len();
        let r: usize = find_root(&mut parent, x);
        proof {
            assert(root_of(forest, x as int) == r);
        }
        roots.push(r);
    }
    proof {
        assert forall|a: int, b: int| 0 <= a < n && 0 <= b < n implies (belong_together(p, a, b)
            <==> #[trigger] roots@[a] == #[trigger] roots@[b]) by {
            lemma_roots(p, forest, a, b);
        }
        assert forall|r: int| 0 <= r < n implies (is_first_of_group(p, r) <==> #[trigger] roots@[r]
            == r) by {
            lemma_first_is_root(p, forest, r);
        }
        assert forall|r: int| 0 <= r < n implies #[trigger] roots@[r] < n by {
            lemma_root(forest, r);
        }
    }
    roots
}

fn partition_merge_components(plan: &RuntimePartitionPlan) -> (groups: Vec<Vec<String>>)
    ensures
        groups.deep_view() == merged_groups(plan.deep_view()),
{
    let ghost p = plan.deep_view();
    let n: usize = plan.partitions.len();
    let roots = partition_roots(plan);
    proof {
        assert(p.partitions.len() == n);
    }
    let ghost g = |r: int|
        if is_first_of_group(p, r) {
            Some(group_members(p, r))
        } else {
            None
        };
    let groups = gather_items(
        n,
        |r: usize| -> (y: Option<Vec<String>>)
            requires
                r < n,
                n == plan.partitions@.len(),
                n == roots@.len(),
                p == plan.deep_view(),
                p.partitions.len() == n,
                forall|a: int, b: int|
                    0 <= a < roots@.len() && 0 <= b < roots@.len() ==> (belong_together(p, a, b)
                        <==> #[trigger] roots@[a] == #[trigger] roots@[b]),
                is_first_of_group(p, r as int) <==> roots@[r as int] == r,
            ensures y.deep_view() == g(r as int)
        {
            if roots[r] == r {
                let ghost h = |x: int|
                    if belong_together(p, r as int, x) {
                        Some(p.partitions[x].id)
                    } else {
                        None
                    };
                let members = gather_items(
                    n,
                    |x: usize| -> (z: Option<String>)
                        requires
                            x < n,
                            r < n,
                            n == plan.partitions@.len(),
                            n == roots@.len(),
                            p == plan.deep_view(),
                            roots@[r as int] == r,
                            belong_together(p, r as int, x as int) <==> roots@[r as int]
                                == roots@[x as int],
                        ensures z.deep_view() == h(x as int)
                    {
                        proof {
                            assert(p.partitions[x as int] == plan.partitions@[x as int].deep_view());
                        }
                        if roots[x] == r {
                            Some(plan.partitions[x].id.clone())
                        } else {
                            None
                        }
                    },
                    Ghost(h),
                );
                Some(sort_ranked(members))
            } else {
                None
            }
        },
        Ghost(g),
    );
    sort_ranked(groups)
}

/// The groups with more than one member.
pub open spec fn multiple_groups(plan: RuntimePartitionPlanView) -> Seq<Seq<Seq<char>>> {
    gather(
        merged_groups(plan).len(),
        |g: int|
            if merged_groups(plan)[g].len() > 1 {
                Some(merged_groups(plan)[g])
            } else {
                None
            },
    )
}

/// The groups of partitions that must be merged so that only stable values cross
/// between them. Partitions that stay alone are left out.
pub fn legal_partition_merge_groups(plan: &RuntimePartitionPlan) -> (r: Vec<Vec<String>>)
    ensures
        r.deep_view() == multiple_groups(plan.deep_view()),
{
    let groups = partition_merge_components(plan);
    let ghost gs = groups.deep_view();
    let ghost g = |k: int|
        if gs[k].len() > 1 {
            Some(gs[k])
        } else {
            None
        };
    proof {
        assert(gs.len() == groups@.len());
    }
    gather_items(
        groups.len(),
        |k: usize| -> (y: Option<Vec<String>>)
            requires k < groups@.len(), gs == groups.deep_view(),
            ensures y.deep_view() == g(k as int)
        {
            let group = &groups[k];
            proof {
                assert(gs[k as int] == group.deep_view());
                assert(group@.len() == group.deep_view().len());
            }
            if group.len() > 1 {
                let copy = group.clone();
                proof {
                    assert(copy.deep_view() =~= group.deep_view());
                }
                Some(copy)
            } else {
                None
            }
        },
        Ghost(g),
    )
}

// ---------------------------------------------------------------------------
// The legal plan
// ---------------------------------------------------------------------------

/// Whether a group has a member.
pub open spec fn has_member(groups: Seq<Seq<Seq<char>>>, id: Seq<char>) -> spec_fn(int) -> bool {
    |g: int| groups[g].contains(id)
}

/// The group of a partition.
pub open spec fn group_of(groups: Seq<Seq<Seq<char>>>, id: Seq<char>) -> Option<int> {
    last_index(groups.len(), has_member(groups, id))
}

/// The costs of the members of a group.
pub open spec fn group_costs(plan: RuntimePartitionPlanView, members: Seq<Seq<char>>) -> Seq<
    RuntimePartitionCost,
> {
    gather(
        members.len(),
        |m: int|
            match partition_index(plan, members[m]) {
                Some(k) => Some(plan.partitions[k].cost),
                None => None,
            },
    )
}

/// A group of a legal plan.
pub open spec fn legal_group(plan: RuntimePartitionPlanView, members: Seq<Seq<char>>) -> LegalPartitionGroupView {
    LegalPartitionGroupView {
        id: joined(members, "+"@),
        members,
        cost: costs_sum(group_costs(plan, members)),
    }
}

/// Whether a boundary leads from the group of its producer to another.
pub open spec fn leaves_group(
    groups: Seq<Seq<Seq<char>>>,
    boundary: RuntimePartitionBoundarySignalView,
) -> bool {
    &&& boundary.producer_partition is Some
    &&& group_of(groups, boundary.producer_partition->0) is Some
    &&& exists|j: int|
        0 <= j < boundary.consumer_partitions.len() && group_of(
            groups,
            #[trigger] boundary.consumer_partitions[j],
        ) != group_of(groups, boundary.producer_partition->0)
}

/// Boundary `i`, if its value is exchanged: it is stable and leaves its group.
pub open spec fn exchanged_boundary(plan: RuntimePartitionPlanView, i: int) -> Option<
    RuntimePartitionBoundarySignalView,
> {
    let boundary = plan.boundary_signals[i];
    if !is_combinational(boundary) && leaves_group(merged_groups(plan), boundary) {
        Some(boundary)
    } else {
        None
    }
}

/// The legal form of a plan.
pub open spec fn legal_plan(plan: RuntimePartitionPlanView) -> LegalPartitionPlanView {
    let groups = merged_groups(plan);
    LegalPartitionPlanView {
        module_name: plan.module_name,
        groups: Seq::new(groups.len(), |g: int| legal_group(plan, groups[g])),
        exchange_boundaries: gather(
            plan.boundary_signals.len(),
            |i: int| exchanged_boundary(plan, i),
        ),
    }
}

/// Whether the costs of every group can be added.
pub open spec fn legal_plan_fits(plan: RuntimePartitionPlanView) -> bool {
    forall|g: int|
        0 <= g < merged_groups(plan).len() ==> costs_fit(
            group_costs(plan, #[trigger] merged_groups(plan)[g]),
        )
}

fn find_group(groups: &Vec<Vec<String>>, id: &str) -> (r: Option<usize>)
    ensures
        match r {
            Some(g) => g < groups@.len() && group_of(groups.deep_view(), id@) == Some(g as int),
            None => group_of(groups.deep_view(), id@) is None,
        },
{
    let ghost gs = groups.deep_view();
    let ghost p = has_member(gs, id@);
    let mut g: usize = groups.len();
    proof {
        assert(gs.len() == groups@.len());
    }
    while g > 0
        invariant
            g <= groups@.len(),
            gs == groups.deep_view(),
            gs.len() == groups@.len(),
            p == has_member(gs, id@),
            forall|j: int| g <= j < gs.len() ==> !#[trigger] p(j),
        decreases g,
    {
        g = g - 1;
        proof {
            assert(gs[g as int] == groups@[g as int].deep_view());
        }
        if contains_text(&groups[g], id) {
            proof {
                assert(p(g as int));
                lemma_last_index_is(gs.len(), p, g as int);
            }
            return Some(g);
        }
    }
    proof {
        lemma_last_index(gs.len(), p);
    }
    None
}

fn legal_partition_group(plan: &RuntimePartitionPlan, members: &Vec<String>) -> (r: LegalPartitionGroup)
    requires
        costs_fit(group_costs(plan.deep_view(), members.deep_view())),
    ensures
        r.deep_view() == legal_group(plan.deep_view(), members.deep_view()),
{
    let ghost p = plan.deep_view();
    let ghost ms = members.deep_view();
    let ghost g = |m: int|
        match partition_index(p, ms[m]) {
            Some(k) => Some(p.partitions[k].cost),
            None => None,
        };
    let costs = gather_items(
        members.len(),
        |m: usize| -> (y: Option<RuntimePartitionCost>)
            requires m < members@.len(), ms == members.deep_view(), p == plan.deep_view(),
            ensures y.deep_view() == g(m as int)
        {
            proof {
                assert(ms[m as int] == members@[m as int]@);
            }
            match find_last_named(&plan.partitions, members[m].as_str()) {
                Some(k) => {
                    proof {
                        assert(p.partitions[k as int] == plan.partitions@[k as int].deep_view());
                    }
                    Some(plan.partitions[k].cost)
                },
                None => None,
            }
        },
        Ghost(g),
    );
    proof {
        assert(costs.deep_view() =~= costs@);
        assert(ms.len() == members@.len());
    }
    let copy = members.clone();
    proof {
        assert(copy.deep_view() =~= ms);
    }
    LegalPartitionGroup { id: join_text(members, "+"), members: copy, cost: total_of_costs(&costs) }
}

fn boundary_leaves_group(groups: &Vec<Vec<String>>, boundary: &RuntimePartitionBoundarySignal) -> (r:
    bool)
    ensures
        r == leaves_group(groups.deep_view(), boundary.deep_view()),
{
    let ghost gs = groups.deep_view();
    let ghost bv = boundary.deep_view();
    let home: usize = match &boundary.producer_partition {
        None => {
            return false;
        },
        Some(id) => match find_group(groups, id.as_str()) {
            None => {
                return false;
            },
            Some(g) => g,
        },
    };
    let mut j: usize = 0;
    while j < boundary.consumer_partitions.len()
        invariant
            j <= boundary.consumer_partitions@.len(),
            gs == groups.deep_view(),
            bv == boundary.deep_view(),
            bv.producer_partition is Some,
            group_of(gs, bv.producer_partition->0) == Some(home as int),
            forall|k: int|
                0 <= k < j ==> group_of(gs, #[trigger] bv.consumer_partitions[k]) == Some(
                    home as int,
                ),
        decreases boundary.consumer_partitions@.len() - j,
    {
        proof {
            assert(bv.consumer_partitions[j as int] == boundary.consumer_partitions@[j as int]@);
        }
        match find_group(groups, boundary.consumer_partitions[j].as_str()) {
            Some(g) => {
                if g != home {
                    return true;
                }
            },
            None => {
                return true;
            },
        }
        j = j + 1;
    }
    false
}

/// Merges the partitions that combinational boundaries join, and keeps of the
/// boundaries the stable ones that lead from one group to another: the values
/// that are exchanged once per cycle.
///
/// Boundaries within a group are evaluated there, and boundaries without a
/// producing partition are ports of the whole module.
pub fn legalize_partition_plan(plan: &RuntimePartitionPlan) -> (r: LegalPartitionPlan)
    requires
        legal_plan_fits(plan.deep_view()),
    ensures
        r.deep_view() == legal_plan(plan.deep_view()),
{
    let ghost p = plan.deep_view();
    let components = partition_merge_components(plan);
    let ghost gs = components.deep_view();
    proof {
        assert(gs.len() == components@.len());
    }
    let ghost g = |k: int| legal_group(p, gs[k]);
    let groups = build_items(
        components.len(),
        |k: usize| -> (y: LegalPartitionGroup)
            requires
                k < components@.len(),
                gs == components.deep_view(),
                p == plan.deep_view(),
                costs_fit(group_costs(p, gs[k as int])),
            ensures y.deep_view() == g(k as int)
        {
            proof {
                assert(gs[k as int] == components@[k as int].deep_view());
            }
            legal_partition_group(plan, &components[k])
        },
        Ghost(g),
    );
    let ghost x = |i: int| exchanged_boundary(p, i);
    let exchange_boundaries = gather_items(
        plan.boundary_signals.len(),
        |i: usize| -> (y: Option<RuntimePartitionBoundarySignal>)
            requires
                i < plan.boundary_signals@.len(),
                p == plan.deep_view(),
                components.deep_view() == merged_groups(p),
            ensures y.deep_view() == x(i as int)
        {
            let boundary = &plan.boundary_signals[i];
            proof {
                assert(p.boundary_signals[i as int] == boundary.deep_view());
            }
            match classify_partition_boundary(boundary) {
                BoundaryLegality::RegisterStable => if boundary_leaves_group(&components, boundary) {
                    Some(boundary.clone())
                } else {
                    None
                },
                BoundaryLegality::CombinationalUnsafe => None,
            }
        },
        Ghost(x),
    );
    LegalPartitionPlan { module_name: plan.module_name.clone(), groups, exchange_boundaries }
}

// ---------------------------------------------------------------------------
// Laws
// ---------------------------------------------------------------------------

/// Every exchanged value is stable for the whole cycle.
pub proof fn lemma_exchanges_are_stable(plan: RuntimePartitionPlanView, x: int)
    requires
        0 <= x < legal_plan(plan).exchange_boundaries.len(),
    ensures
        legality(legal_plan(plan).exchange_boundaries[x].signal.kind)
            == BoundaryLegality::RegisterStable,
{
    let all = legal_plan(plan).exchange_boundaries;
    let g = |i: int| exchanged_boundary(plan, i);
    lemma_gather_contains(plan.boundary_signals.len(), g, all[x]);
    assert(all.contains(all[x]));
}

proof fn lemma_together_reaches(plan: RuntimePartitionPlanView, a: int, b: int, c: int)
    requires
        belong_together(plan, a, b),
        belong_together(plan, a, c),
    ensures
        belong_together(plan, b, c),
        belong_together(plan, b, a),
        belong_together(plan, a, a),
{
    lemma_belong_together(plan, a, b);
    lemma_belong_together(plan, a, c);
    lemma_belong_together(plan, b, c);
    lemma_belong_together(plan, b, a);
    lemma_belong_together(plan, a, a);
}

proof fn lemma_group_has_first(plan: RuntimePartitionPlanView, x: int) -> (r: int)
    requires
        x >= 0,
    ensures
        0 <= r <= x,
        is_first_of_group(plan, r),
        belong_together(plan, r, x),
    decreases x,
{
    if is_first_of_group(plan, x) {
        assert(is_walk(plan, seq![x]));
        assert(belong_together(plan, x, x));
        x
    } else {
        let y = choose|y: int| 0 <= y < x && #[trigger] belong_together(plan, x, y);
        let r = lemma_group_has_first(plan, y);
        lemma_together_reaches(plan, x, y, y);
        lemma_together_reaches(plan, r, y, y);
        lemma_together_reaches(plan, y, r, x);
        r
    }
}

/// The members of a group are the ids of the partitions that belong together.
pub proof fn lemma_group_members(plan: RuntimePartitionPlanView, r: int, id: Seq<char>)
    ensures
        group_members(plan, r).contains(id) <==> exists|x: int|
            0 <= x < plan.partitions.len() && #[trigger] belong_together(plan, r, x)
                && plan.partitions[x].id == id,
{
    let g = |x: int|
        if belong_together(plan, r, x) {
            Some(plan.partitions[x].id)
        } else {
            None
        };
    let found = gather(plan.partitions.len(), g);
    lemma_ranked_sort_is_sorting::<String>(found);
    lemma_gather_contains(plan.partitions.len(), g, id);
    if exists|x: int|
        0 <= x < plan.partitions.len() && #[trigger] belong_together(plan, r, x)
            && plan.partitions[x].id == id {
        let x = choose|x: int|
            0 <= x < plan.partitions.len() && #[trigger] belong_together(plan, r, x)
                && plan.partitions[x].id == id;
        assert(g(x) == Some(id));
    }
    if found.contains(id) {
        let x = choose|x: int| 0 <= x < plan.partitions.len() && #[trigger] g(x) == Some(id);
        assert(belong_together(plan, r, x));
    }
}

/// Every group is that of a first partition, and every first partition has one.
pub proof fn lemma_merged_groups(plan: RuntimePartitionPlanView, group: Seq<Seq<char>>)
    ensures
        merged_groups(plan).contains(group) <==> exists|r: int|
            0 <= r < plan.partitions.len() && #[trigger] is_first_of_group(plan, r)
                && group_members(plan, r) == group,
{
    let g = |r: int|
        if is_first_of_group(plan, r) {
            Some(group_members(plan, r))
        } else {
            None
        };
    let found = gather(plan.partitions.len(), g);
    lemma_ranked_sort_is_sorting::<Vec<String>>(found);
    lemma_gather_contains(plan.partitions.len(), g, group);
    if exists|r: int|
        0 <= r < plan.partitions.len() && #[trigger] is_first_of_group(plan, r) && group_members(
            plan,
            r,
        ) == group {
        let r = choose|r: int|
            0 <= r < plan.partitions.len() && #[trigger] is_first_of_group(plan, r)
                && group_members(plan, r) == group;
        assert(g(r) == Some(group));
    }
    if found.contains(group) {
        let r = choose|r: int| 0 <= r < plan.partitions.len() && #[trigger] g(r) == Some(group);
        assert(is_first_of_group(plan, r));
    }
}

/// Every partition is in a group, and two partitions of a plan with distinct ids
/// are in the same groups exactly if they belong together.
pub proof fn lemma_groups_follow_links(plan: RuntimePartitionPlanView, a: int, b: int)
    requires
        distinct_names::<RuntimePartition>(plan.partitions),
        0 <= a < plan.partitions.len(),
        0 <= b < plan.partitions.len(),
    ensures
        group_of(merged_groups(plan), plan.partitions[a].id) is Some,
        belong_together(plan, a, b) <==> group_of(merged_groups(plan), plan.partitions[a].id)
            == group_of(merged_groups(plan), plan.partitions[b].id),
{
    let groups = merged_groups(plan);
    let ida = plan.partitions[a].id;
    let idb = plan.partitions[b].id;
    lemma_last_index(groups.len(), has_member(groups, ida));
    lemma_last_index(groups.len(), has_member(groups, idb));
    lemma_member_of_groups(plan, a);
    lemma_member_of_groups(plan, b);
    let r = lemma_group_has_first(plan, a);
    let group = group_members(plan, r);
    lemma_merged_groups(plan, group);
    assert(is_first_of_group(plan, r));
    lemma_group_members(plan, r, ida);
    assert(groups.contains(group));
    let g = choose|g: int| 0 <= g < groups.len() && groups[g] == group;
    assert(has_member(groups, ida)(g));
    if belong_together(plan, a, b) {
        assert forall|k: int| 0 <= k < groups.len() implies #[trigger] has_member(groups, ida)(k)
            == has_member(groups, idb)(k) by {
            lemma_same_groups(plan, a, b, k);
        }
        lemma_last_index_same(groups.len(), has_member(groups, ida), has_member(groups, idb));
    } else {
        let k = group_of(groups, ida)->0;
        if group_of(groups, ida) == group_of(groups, idb) {
            assert(has_member(groups, ida)(k));
            assert(has_member(groups, idb)(k));
            lemma_group_joins(plan, a, b, k);
        }
    }
}

proof fn lemma_last_index_same(n: nat, p: spec_fn(int) -> bool, q: spec_fn(int) -> bool)
    requires
        forall|k: int| 0 <= k < n ==> #[trigger] p(k) == q(k),
    ensures
        last_index(n, p) == last_index(n, q),
    decreases n,
{
    if n > 0 {
        assert(p(n - 1) == q(n - 1));
        lemma_last_index_same((n - 1) as nat, p, q);
    }
}

/// What a group holds of partition `a`, as a fact about its first partition.
proof fn lemma_member_of_groups(plan: RuntimePartitionPlanView, a: int)
    requires
        distinct_names::<RuntimePartition>(plan.partitions),
        0 <= a < plan.partitions.len(),
    ensures
        forall|k: int|
            0 <= k < merged_groups(plan).len() && (#[trigger] merged_groups(plan)[k]).contains(
                plan.partitions[a].id,
            ) ==> exists|r: int|
                0 <= r < plan.partitions.len() && #[trigger] is_first_of_group(plan, r)
                    && group_members(plan, r) == merged_groups(plan)[k] && belong_together(
                    plan,
                    r,
                    a,
                ),
{
    let groups = merged_groups(plan);
    let id = plan.partitions[a].id;
    assert forall|k: int|
        0 <= k < groups.len() && (#[trigger] groups[k]).contains(id) implies exists|r: int|
        0 <= r < plan.partitions.len() && #[trigger] is_first_of_group(plan, r) && group_members(
            plan,
            r,
        ) == groups[k] && belong_together(plan, r, a) by {
        assert(groups.contains(groups[k]));
        lemma_merged_groups(plan, groups[k]);
        let r = choose|r: int|
            0 <= r < plan.partitions.len() && #[trigger] is_first_of_group(plan, r)
                && group_members(plan, r) == groups[k];
        lemma_group_members(plan, r, id);
        let x = choose|x: int|
            0 <= x < plan.partitions.len() && #[trigger] belong_together(plan, r, x)
                && plan.partitions[x].id == id;
        if x < a {
            assert(RuntimePartition::name_of(plan.partitions[x]) != RuntimePartition::name_of(
                plan.partitions[a],
            ));
        } else if a < x {
            assert(RuntimePartition::name_of(plan.partitions[a]) != RuntimePartition::name_of(
                plan.partitions[x],
            ));
        }
        assert(is_first_of_group(plan, r));
    }
}

proof fn lemma_same_groups(plan: RuntimePartitionPlanView, a: int, b: int, k: int)
    requires
        distinct_names::<RuntimePartition>(plan.partitions),
        0 <= a < plan.partitions.len(),
        0 <= b < plan.partitions.len(),
        belong_together(plan, a, b),
        0 <= k < merged_groups(plan).len(),
    ensures
        merged_groups(plan)[k].contains(plan.partitions[a].id) <==> merged_groups(
            plan,
        )[k].contains(plan.partitions[b].id),
{
    let group = merged_groups(plan)[k];
    lemma_member_of_groups(plan, a);
    lemma_member_of_groups(plan, b);
    lemma_together_reaches(plan, a, b, b);
    if group.contains(plan.partitions[a].id) {
        let r = choose|r: int|
            0 <= r < plan.partitions.len() && #[trigger] is_first_of_group(plan, r)
                && group_members(plan, r) == group && belong_together(plan, r, a);
        lemma_together_reaches(plan, r, a, a);
        lemma_together_reaches(plan, a, r, b);
        lemma_group_members(plan, r, plan.partitions[b].id);
    }
    if group.contains(plan.partitions[b].id) {
        let r = choose|r: int|
            0 <= r < plan.partitions.len() && #[trigger] is_first_of_group(plan, r)
                && group_members(plan, r) == group && belong_together(plan, r, b);
        lemma_together_reaches(plan, r, b, b);
        lemma_together_reaches(plan, b, r, a);
        lemma_group_members(plan, r, plan.partitions[a].id);
    }
}

proof fn lemma_group_joins(plan: RuntimePartitionPlanView, a: int, b: int, k: int)
    requires
        distinct_names::<RuntimePartition>(plan.partitions),
        0 <= a < plan.partitions.len(),
        0 <= b < plan.partitions.len(),
        0 <= k < merged_groups(plan).len(),
        merged_groups(plan)[k].contains(plan.partitions[a].id),
        merged_groups(plan)[k].contains(plan.partitions[b].id),
    ensures
        belong_together(plan, a, b),
{
    let group = merged_groups(plan)[k];
    lemma_member_of_groups(plan, a);
    let r = choose|r: int|
        0 <= r < plan.partitions.len() && #[trigger] is_first_of_group(plan, r) && group_members(
            plan,
            r,
        ) == group && belong_together(plan, r, a);
    lemma_group_members(plan, r, plan.partitions[b].id);
    let x = choose|x: int|
        0 <= x < plan.partitions.len() && #[trigger] belong_together(plan, r, x)
            && plan.partitions[x].id == plan.partitions[b].id;
    if x < b {
        assert(RuntimePartition::name_of(plan.partitions[x]) != RuntimePartition::name_of(
            plan.partitions[b],
        ));
    } else if b < x {
        assert(RuntimePartition::name_of(plan.partitions[b]) != RuntimePartition::name_of(
            plan.partitions[x],
        ));
    }
    lemma_together_reaches(plan, r, a, b);
}

/// In a plan with distinct ids a combinational boundary between partitions of the
/// plan stays within one group.
pub proof fn lemma_combinational_stays_inside(plan: RuntimePartitionPlanView, i: int, j: int)
    requires
        distinct_names::<RuntimePartition>(plan.partitions),
        0 <= i < plan.boundary_signals.len(),
        0 <= j < plan.boundary_signals[i].consumer_partitions.len(),
        is_combinational(plan.boundary_signals[i]),
        plan.boundary_signals[i].producer_partition is Some,
        partition_index(plan, plan.boundary_signals[i].producer_partition->0) is Some,
        partition_index(plan, plan.boundary_signals[i].consumer_partitions[j]) is Some,
    ensures
        group_of(merged_groups(plan), plan.boundary_signals[i].producer_partition->0) is Some,
        group_of(merged_groups(plan), plan.boundary_signals[i].producer_partition->0) == group_of(
            merged_groups(plan),
            plan.boundary_signals[i].consumer_partitions[j],
        ),
{
    let boundary = plan.boundary_signals[i];
    let from = boundary.producer_partition->0;
    let to = boundary.consumer_partitions[j];
    lemma_last_named::<RuntimePartition>(plan.partitions, from);
    lemma_last_named::<RuntimePartition>(plan.partitions, to);
    let a = partition_index(plan, from)->0;
    let b = partition_index(plan, to)->0;
    assert(joins_at(plan, i, j, a, b));
    assert(links_at(plan, i, j, a, b));
    let walk = seq![a, b];
    assert(is_walk(plan, walk));
    assert(walk.first() == a && walk.last() == b);
    assert(belong_together(plan, a, b));
    lemma_groups_follow_links(plan, a, b);
}

/// The cost of the partition with an id, by one of its measures.
spec fn measured(
    plan: RuntimePartitionPlanView,
    f: spec_fn(RuntimePartitionCost) -> int,
) -> spec_fn(Seq<char>) -> int {
    |id: Seq<char>|
        match partition_index(plan, id) {
            Some(k) => f(plan.partitions[k].cost),
            None => 0,
        }
}

proof fn lemma_group_costs_measure(
    plan: RuntimePartitionPlanView,
    members: Seq<Seq<char>>,
    f: spec_fn(RuntimePartitionCost) -> int,
)
    ensures
        sum_by(group_costs(plan, members), f) == sum_by(members, measured(plan, f)),
{
    let n = members.len();
    let cost = |m: int|
        match partition_index(plan, members[m]) {
            Some(k) => Some(plan.partitions[k].cost),
            None => None,
        };
    let member = |m: int| Some(members[m]);
    lemma_sum_by_gather(n, cost, f);
    lemma_sum_by_gather(n, member, measured(plan, f));
    lemma_gather_all(n, member, members);
    lemma_sum_below_same(n, gathered(cost, f), gathered(member, measured(plan, f)));
}

/// The cost of a group is that of the partitions that belong to it.
proof fn lemma_group_measure(
    plan: RuntimePartitionPlanView,
    r: int,
    f: spec_fn(RuntimePartitionCost) -> int,
)
    requires
        distinct_names::<RuntimePartition>(plan.partitions),
    ensures
        sum_by(group_costs(plan, group_members(plan, r)), f) == sum_below(
            plan.partitions.len(),
            |x: int|
                if belong_together(plan, r, x) {
                    f(plan.partitions[x].cost)
                } else {
                    0
                },
        ),
{
    let n = plan.partitions.len();
    let id = |x: int|
        if belong_together(plan, r, x) {
            Some(plan.partitions[x].id)
        } else {
            None
        };
    let mine = |x: int|
        if belong_together(plan, r, x) {
            f(plan.partitions[x].cost)
        } else {
            0
        };
    lemma_group_costs_measure(plan, group_members(plan, r), f);
    lemma_ranked_sort_is_sorting::<String>(gather(n, id));
    lemma_sum_by_permutation(group_members(plan, r), gather(n, id), measured(plan, f));
    lemma_sum_by_gather(n, id, measured(plan, f));
    assert forall|x: int| 0 <= x < n implies #[trigger] gathered(id, measured(plan, f))(x) == mine(
        x,
    ) by {
        lemma_last_named::<RuntimePartition>(plan.partitions, plan.partitions[x].id);
        let k = partition_index(plan, plan.partitions[x].id);
        if k != Some(x) {
            assert(RuntimePartition::name_of(plan.partitions[x]) == plan.partitions[x].id);
            assert(k is Some);
            assert(RuntimePartition::name_of(plan.partitions[k->0])
                == RuntimePartition::name_of(plan.partitions[x]));
        }
    }
    lemma_sum_below_same(n, gathered(id, measured(plan, f)), mine);
}

/// By every measure, the groups of a plan cost together what its partitions cost.
proof fn lemma_groups_measure(
    plan: RuntimePartitionPlanView,
    f: spec_fn(RuntimePartitionCost) -> int,
)
    requires
        distinct_names::<RuntimePartition>(plan.partitions),
    ensures
        sum_by(
            merged_groups(plan),
            |members: Seq<Seq<char>>| sum_by(group_costs(plan, members), f),
        ) == sum_below(plan.partitions.len(), |x: int| f(plan.partitions[x].cost)),
{
    let n = plan.partitions.len();
    let first = |r: int|
        if is_first_of_group(plan, r) {
            Some(group_members(plan, r))
        } else {
            None
        };
    let cost = |members: Seq<Seq<char>>| sum_by(group_costs(plan, members), f);
    let share = |r: int, x: int|
        if is_first_of_group(plan, r) && belong_together(plan, r, x) {
            f(plan.partitions[x].cost)
        } else {
            0
        };
    let all = |x: int| f(plan.partitions[x].cost);
    lemma_ranked_sort_is_sorting::<Vec<String>>(gather(n, first));
    lemma_sum_by_permutation(merged_groups(plan), gather(n, first), cost);
    lemma_sum_by_gather(n, first, cost);
    let rows = |r: int| sum_below(n, |x: int| share(r, x));
    assert forall|r: int| 0 <= r < n implies #[trigger] gathered(first, cost)(r) == rows(r) by {
        let row = |x: int| share(r, x);
        if is_first_of_group(plan, r) {
            lemma_group_measure(plan, r, f);
            lemma_sum_below_same(
                n,
                row,
                |x: int|
                    if belong_together(plan, r, x) {
                        f(plan.partitions[x].cost)
                    } else {
                        0
                    },
            );
        } else {
            lemma_sum_below_one(n, row, -1);
        }
    }
    lemma_sum_below_same(n, gathered(first, cost), rows);
    lemma_sum_below_swap(n, n, share);
    let columns = |x: int| sum_below(n, |r: int| share(r, x));
    assert forall|x: int| 0 <= x < n implies #[trigger] columns(x) == all(x) by {
        let column = |r: int| share(r, x);
        let top = lemma_group_has_first(plan, x);
        assert forall|r: int| 0 <= r < n && r != top implies #[trigger] column(r) == 0 by {
            if is_first_of_group(plan, r) && belong_together(plan, r, x) {
                lemma_together_reaches(plan, r, x, x);
                lemma_together_reaches(plan, top, x, x);
                lemma_together_reaches(plan, x, r, top);
                lemma_together_reaches(plan, x, top, r);
                if r < top {
                    assert(belong_together(plan, top, r));
                } else {
                    assert(belong_together(plan, r, top));
                }
            }
        }
        lemma_sum_below_one(n, column, top);
    }
    lemma_sum_below_same(n, columns, all);
}

proof fn lemma_group_cost_measure(
    plan: RuntimePartitionPlanView,
    f: spec_fn(RuntimePartitionCost) -> int,
)
    requires
        distinct_names::<RuntimePartition>(plan.partitions),
        forall|g: int|
            0 <= g < merged_groups(plan).len() ==> f(
                (#[trigger] legal_plan(plan).groups[g]).cost,
            ) == sum_by(group_costs(plan, merged_groups(plan)[g]), f),
    ensures
        sum_by(group_prices(plan), f) == sum_by(partition_prices(plan), f),
{
    let n = plan.partitions.len();
    let prices = partition_prices(plan);
    let price = |x: int| Some(plan.partitions[x].cost);
    let all = |x: int| f(plan.partitions[x].cost);
    lemma_groups_measure(plan, f);
    lemma_sum_by_mapped(
        group_prices(plan),
        merged_groups(plan),
        f,
        |members: Seq<Seq<char>>| sum_by(group_costs(plan, members), f),
    );
    lemma_gather_all(n, price, prices);
    lemma_sum_by_gather(n, price, f);
    lemma_sum_below_same(n, gathered(price, f), all);
}

/// The costs of the partitions of a plan.
pub open spec fn partition_prices(plan: RuntimePartitionPlanView) -> Seq<RuntimePartitionCost> {
    Seq::new(plan.partitions.len(), |x: int| plan.partitions[x].cost)
}

/// The costs of the groups of a legal plan.
pub open spec fn group_prices(plan: RuntimePartitionPlanView) -> Seq<RuntimePartitionCost> {
    Seq::new(legal_plan(plan).groups.len(), |g: int| legal_plan(plan).groups[g].cost)
}

/// Merging loses no cost: field by field, the groups of a legal plan cost together what the
/// partitions of the plan cost.
pub proof fn lemma_groups_keep_costs(plan: RuntimePartitionPlanView)
    requires
        distinct_names::<RuntimePartition>(plan.partitions),
        legal_plan_fits(plan),
    ensures
        sum_by(group_prices(plan), compute_of()) == sum_by(partition_prices(plan), compute_of()),
        sum_by(group_prices(plan), state_of()) == sum_by(partition_prices(plan), state_of()),
        sum_by(group_prices(plan), memory_of()) == sum_by(partition_prices(plan), memory_of()),
        sum_by(group_prices(plan), boundary_of()) == sum_by(partition_prices(plan), boundary_of()),
        costs_sum(group_prices(plan)) == costs_sum(partition_prices(plan)),
{
    assert forall|g: int| 0 <= g < merged_groups(plan).len() implies ({
        let costs = group_costs(plan, merged_groups(plan)[g]);
        let cost = (#[trigger] legal_plan(plan).groups[g]).cost;
        &&& cost.compute_ops == sum_by(costs, compute_of())
        &&& cost.state_bits == sum_by(costs, state_of())
        &&& cost.memory_bits == sum_by(costs, memory_of())
        &&& cost.boundary_bits == sum_by(costs, boundary_of())
    }) by {
        let costs = group_costs(plan, merged_groups(plan)[g]);
        assert(costs_fit(costs));
        lemma_sum_by_prefix(costs, 0, costs.len() as int, compute_of());
        lemma_sum_by_prefix(costs, 0, costs.len() as int, state_of());
        lemma_sum_by_prefix(costs, 0, costs.len() as int, memory_of());
        lemma_sum_by_prefix(costs, 0, costs.len() as int, boundary_of());
        assert(costs.take(costs.len() as int) =~= costs);
    }
    lemma_group_cost_measure(plan, compute_of());
    lemma_group_cost_measure(plan, state_of());
    lemma_group_cost_measure(plan, memory_of());
    lemma_group_cost_measure(plan, boundary_of());
}

/// Whether the boundaries of a plan name partitions of the plan alone.
pub open spec fn boundaries_are_known(plan: RuntimePartitionPlanView) -> bool {
    forall|i: int|
        0 <= i < plan.boundary_signals.len() ==> {
            let boundary = #[trigger] plan.boundary_signals[i];
            &&& boundary.producer_partition is Some ==> partition_index(
                plan,
                boundary.producer_partition->0,
            ) is Some
            &&& forall|j: int|
                0 <= j < boundary.consumer_partitions.len() ==> partition_index(
                    plan,
                    #[trigger] boundary.consumer_partitions[j],
                ) is Some
        }
}

/// A legal plan has the groups that must be merged, and beside them only partitions that stay
/// alone. Where boundaries name partitions of the plan it exchanges, in the order of the plan,
/// exactly the boundaries that lead out of the group of their producer.
pub proof fn lemma_legal_plan_is_whole(plan: RuntimePartitionPlanView)
    requires
        distinct_names::<RuntimePartition>(plan.partitions),
        boundaries_are_known(plan),
    ensures
        multiple_groups(plan) == gather(
            legal_plan(plan).groups.len(),
            |g: int|
                if legal_plan(plan).groups[g].members.len() > 1 {
                    Some(legal_plan(plan).groups[g].members)
                } else {
                    None
                },
        ),
        legal_plan(plan).exchange_boundaries == gather(
            plan.boundary_signals.len(),
            |i: int|
                if leaves_group(merged_groups(plan), plan.boundary_signals[i]) {
                    Some(plan.boundary_signals[i])
                } else {
                    None
                },
        ),
{
    let groups = merged_groups(plan);
    lemma_gather_same(
        groups.len(),
        |g: int|
            if groups[g].len() > 1 {
                Some(groups[g])
            } else {
                None
            },
        |g: int|
            if legal_plan(plan).groups[g].members.len() > 1 {
                Some(legal_plan(plan).groups[g].members)
            } else {
                None
            },
    );
    let exchanged = |i: int| exchanged_boundary(plan, i);
    let leaving = |i: int|
        if leaves_group(groups, plan.boundary_signals[i]) {
            Some(plan.boundary_signals[i])
        } else {
            None
        };
    assert forall|i: int| 0 <= i < plan.boundary_signals.len() implies #[trigger] exchanged(i)
        == leaving(i) by {
        let boundary = plan.boundary_signals[i];
        if is_combinational(boundary) && leaves_group(groups, boundary) {
            let j = choose|j: int|
                0 <= j < boundary.consumer_partitions.len() && group_of(
                    groups,
                    #[trigger] boundary.consumer_partitions[j],
                ) != group_of(groups, boundary.producer_partition->0);
            lemma_combinational_stays_inside(plan, i, j);
        }
    }
    lemma_gather_same(plan.boundary_signals.len(), exchanged, leaving);
}

} // verus!

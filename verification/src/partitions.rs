//! Planning the partitions of a module.

use vstd::prelude::*;

use crate::collect::{
    append_items, build_items, concat_below, concat_items, gather, gather_items,
    lemma_concat_contains, lemma_gather_contains, lemma_sum_below_grows, sum_below, sum_items,
};
use crate::conservation::{
    compute_part, lemma_regions_share_work, lemma_sum_by_concat, lemma_sum_by_mapped, memory_part,
    region_part, state_part,
};
use crate::cost::{
    boundary_of, compute_of, costs_fit, costs_sum, memory_of, no_cost, saturated,
    saturating_product, state_of, total_of_costs,
};
use crate::error::{error, fails_with, report, ErrorReport, ErrorReportView};
use crate::hierarchy::{
    child_of, cost_of, full_work, hierarchy_ends, is_work, lemma_module_named, module_named,
    signal_at, work_fits,
};
use crate::ids::{distinct_names, Named};
use crate::model::design::{
    CompiledDesign, CompiledModule, PortDirection, SignalInfo, SignalKind,
};
use crate::model::partition::{
    RuntimePartition, RuntimePartitionBoundarySignal, RuntimePartitionBoundarySignalView,
    RuntimePartitionConfig, RuntimePartitionCost, RuntimePartitionDiagnostic,
    RuntimePartitionDiagnosticCode, RuntimePartitionDiagnosticSeverity,
    RuntimePartitionDiagnosticView, RuntimePartitionPlan, RuntimePartitionPlanView,
    RuntimePartitionRecommendation, RuntimePartitionRecommendationCode,
    RuntimePartitionRecommendationView, RuntimePartitionSignalKind, RuntimePartitionSignalRef,
    RuntimePartitionSignalRefView, RuntimePartitionView, RUNTIME_PARTITION_PLAN_FORMAT_VERSION,
};
use crate::order::{
    lemma_pair_ranked, lemma_ranked_same, lemma_sorted_by_key_contains, sort_by_key, sorted_by_key,
    SortKey, Ranked,
};
use crate::regions::{
    find_instance, instance_named, lemma_planned_regions_sound, partition_regions, planned_regions,
    region_id, region_partition_cost, region_work, regions_problem, stays_whole, PartitionRegion,
    PartitionRegionView,
};
use crate::seqs::{
    last_index, lemma_last_index, lemma_last_index_is, lemma_sum_by_prefix, lemma_sum_by_zero,
    no_items, push_item, sum_by,
};
use crate::text::{
    append_decimal, decimal, join_text, joined, lemma_decimal_injective, same_text,
};

verus! {

// ---------------------------------------------------------------------------
// Partitions
// ---------------------------------------------------------------------------

/// The kind of a signal in a plan.
pub open spec fn signal_kind(kind: SignalKind) -> RuntimePartitionSignalKind {
    match kind {
        SignalKind::Input => RuntimePartitionSignalKind::Input,
        SignalKind::Output => RuntimePartitionSignalKind::Output,
        SignalKind::Inout => RuntimePartitionSignalKind::Inout,
        SignalKind::Wire => RuntimePartitionSignalKind::Wire,
        SignalKind::Reg => RuntimePartitionSignalKind::Register,
        SignalKind::Mem { .. } => RuntimePartitionSignalKind::Memory,
    }
}

fn partition_signal_kind(kind: &SignalKind) -> (r: RuntimePartitionSignalKind)
    ensures
        r == signal_kind(*kind),
{
    match kind {
        SignalKind::Input => RuntimePartitionSignalKind::Input,
        SignalKind::Output => RuntimePartitionSignalKind::Output,
        SignalKind::Inout => RuntimePartitionSignalKind::Inout,
        SignalKind::Wire => RuntimePartitionSignalKind::Wire,
        SignalKind::Reg => RuntimePartitionSignalKind::Register,
        SignalKind::Mem { .. } => RuntimePartitionSignalKind::Memory,
    }
}

/// A signal of a module, as plans refer to it.
pub open spec fn signal_ref(module: CompiledModule, signal: SignalInfo) -> RuntimePartitionSignalRefView {
    RuntimePartitionSignalRefView {
        module_name: module.name@,
        signal_name: signal.name@,
        signal: signal.handle,
        width: signal.width,
        kind: signal_kind(signal.kind),
    }
}

fn partition_signal_ref(module: &CompiledModule, signal: &SignalInfo) -> (r: RuntimePartitionSignalRef)
    ensures
        r.deep_view() == signal_ref(*module, *signal),
{
    RuntimePartitionSignalRef {
        module_name: module.name.clone(),
        signal_name: signal.name.clone(),
        signal: signal.handle,
        width: signal.width,
        kind: partition_signal_kind(&signal.kind),
    }
}

/// Signals are listed by module and id.
pub struct BySignal {}

impl SortKey<RuntimePartitionSignalRef> for BySignal {
    type Key = (String, u32);

    open spec fn key(v: RuntimePartitionSignalRefView) -> (Seq<char>, u32) {
        (v.module_name, v.signal.id.0)
    }

    fn is_key_le(a: &RuntimePartitionSignalRef, b: &RuntimePartitionSignalRef) -> bool {
        proof {
            lemma_pair_ranked::<String, u32>(Self::key(a.deep_view()), Self::key(b.deep_view()));
        }
        if same_text(a.module_name.as_str(), b.module_name.as_str()) {
            a.signal.id.0 <= b.signal.id.0
        } else {
            a.module_name.is_ranked_le(&b.module_name)
        }
    }
}

/// The signals of a module, in the order in which they are listed.
pub open spec fn listed_signals(module: CompiledModule) -> Seq<RuntimePartitionSignalRefView> {
    sorted_by_key::<RuntimePartitionSignalRef, BySignal>(
        Seq::new(module.signals@.len(), |s: int| signal_ref(module, module.signals@[s])),
    )
}

/// The partition of a region.
pub open spec fn partition_of(design: CompiledDesign, region: PartitionRegionView) -> RuntimePartitionView {
    let module = design.modules@[module_named(design, region.module_name)->0];
    RuntimePartitionView {
        id: region.id,
        module_name: region.module_name,
        instance_path: region.instance_path,
        external: module.is_external,
        signals: listed_signals(module),
        cost: cost_of(region_work(design, region)),
    }
}

fn build_partition(design: &CompiledDesign, i: usize, region: &PartitionRegion) -> (r: RuntimePartition)
    requires
        i < design.modules@.len(),
        module_named(*design, region.module_name@) == Some(i as int),
        hierarchy_ends(*design, i as int),
        work_fits(full_work(*design, i as int)),
    ensures
        r.deep_view() == partition_of(*design, region.deep_view()),
{
    let module = &design.modules[i];
    let ghost g = |s: int| signal_ref(*module, module.signals@[s]);
    let signals = build_items(
        module.signals.len(),
        |s: usize| -> (y: RuntimePartitionSignalRef)
            requires s < module.signals@.len(),
            ensures y.deep_view() == g(s as int)
        {
            partition_signal_ref(module, &module.signals[s])
        },
        Ghost(g),
    );
    let instance_path = region.instance_path.clone();
    proof {
        assert(instance_path.deep_view() =~= region.instance_path.deep_view());
    }
    RuntimePartition {
        id: region.id.clone(),
        module_name: region.module_name.clone(),
        instance_path,
        external: module.is_external,
        signals: sort_by_key::<RuntimePartitionSignalRef, BySignal>(signals),
        cost: region_partition_cost(design, region),
    }
}

// ---------------------------------------------------------------------------
// Boundaries
// ---------------------------------------------------------------------------

/// The module at the first `n` names of a path from module `top` down.
pub open spec fn module_at(
    design: CompiledDesign,
    top: int,
    path: Seq<Seq<char>>,
    n: nat,
) -> Option<int>
    decreases n,
{
    if n == 0 {
        None
    } else if n == 1 {
        if path[0] == design.modules@[top].name@ {
            Some(top)
        } else {
            None
        }
    } else {
        match module_at(design, top, path, (n - 1) as nat) {
            None => None,
            Some(m) => match instance_named(design, m, path[n - 1]) {
                None => None,
                Some(k) => child_of(design, m, k),
            },
        }
    }
}

fn module_at_instance_path(design: &CompiledDesign, top: usize, path: &Vec<String>, n: usize) -> (r:
    Option<usize>)
    requires
        top < design.modules@.len(),
        n <= path@.len(),
    ensures
        match r {
            Some(m) => m < design.modules@.len() && module_at(
                *design,
                top as int,
                path.deep_view(),
                n as nat,
            ) == Some(m as int),
            None => module_at(*design, top as int, path.deep_view(), n as nat) is None,
        },
    decreases n,
{
    let ghost p = path.deep_view();
    if n == 0 {
        return None;
    }
    proof {
        assert(p[n - 1] == path@[n - 1]@);
        assert(p[0] == path@[0]@);
    }
    if n == 1 {
        if same_text(path[0].as_str(), design.modules[top].name.as_str()) {
            return Some(top);
        }
        return None;
    }
    match module_at_instance_path(design, top, path, n - 1) {
        None => None,
        Some(m) => match find_instance(design, m, path[n - 1].as_str()) {
            None => None,
            Some(k) => design.find_module(design.modules[m].instances[k].module.as_str()),
        },
    }
}

/// Whether a region is at a path.
pub open spec fn is_at_path(regions: Seq<PartitionRegionView>, path: Seq<Seq<char>>) -> spec_fn(
    int,
) -> bool {
    |k: int| regions[k].instance_path == path
}

/// The partition at a path.
pub open spec fn partition_at_path(
    regions: Seq<PartitionRegionView>,
    path: Seq<Seq<char>>,
) -> Option<Seq<char>> {
    match last_index(regions.len(), is_at_path(regions, path)) {
        Some(k) => Some(regions[k].id),
        None => None,
    }
}

/// The partitions that read a boundary, by id.
pub open spec fn boundary_consumers(
    direction: PortDirection,
    parent: Option<Seq<char>>,
    child: Seq<char>,
) -> Seq<Seq<char>> {
    match direction {
        PortDirection::Input => seq![child],
        PortDirection::Output => match parent {
            Some(p) => seq![p],
            None => seq![],
        },
        PortDirection::Inout => match parent {
            Some(p) => if p == child {
                seq![child]
            } else if String::ranked_le(child, p) {
                seq![child, p]
            } else {
                seq![p, child]
            },
            None => seq![child],
        },
    }
}

/// The partition that drives a boundary.
pub open spec fn boundary_producer(
    direction: PortDirection,
    parent: Option<Seq<char>>,
    child: Seq<char>,
) -> Option<Seq<char>> {
    match direction {
        PortDirection::Input => parent,
        PortDirection::Output => Some(child),
        PortDirection::Inout => None,
    }
}

/// The cost of a boundary: its width for every consumer, and at least once.
pub open spec fn boundary_cost(width: u32, consumers: nat) -> RuntimePartitionCost {
    RuntimePartitionCost {
        boundary_bits: (width * if consumers == 0 {
            1
        } else {
            consumers
        }) as u64,
        ..no_cost()
    }
}

/// The boundary of connection `c` of instance `k` of module `m`, if the parent
/// has the connected signal.
pub open spec fn connection_boundary(
    design: CompiledDesign,
    m: int,
    k: int,
    path: Seq<Seq<char>>,
    parent: Option<Seq<char>>,
    child: Seq<char>,
    c: int,
) -> Option<RuntimePartitionBoundarySignalView> {
    let module = design.modules@[m];
    let connection = module.instances@[k].connections@[c];
    match signal_at(module, connection.signal) {
        None => None,
        Some(s) => {
            let consumers = boundary_consumers(connection.direction, parent, child);
            Some(
                RuntimePartitionBoundarySignalView {
                    signal: signal_ref(module, module.signals@[s]),
                    instance_path: path,
                    port_name: connection.port@,
                    producer_partition: boundary_producer(connection.direction, parent, child),
                    consumer_partitions: consumers,
                    width: connection.width,
                    cost: boundary_cost(connection.width, consumers.len()),
                },
            )
        },
    }
}

/// The boundaries between region `r` and the one around it.
pub open spec fn region_boundaries(
    design: CompiledDesign,
    top: int,
    regions: Seq<PartitionRegionView>,
    r: int,
) -> Seq<RuntimePartitionBoundarySignalView> {
    let path = regions[r].instance_path;
    if path.len() <= 1 {
        seq![]
    } else {
        match module_at(design, top, path, (path.len() - 1) as nat) {
            None => seq![],
            Some(m) => match instance_named(design, m, path.last()) {
                None => seq![],
                Some(k) => gather(
                    design.modules@[m].instances@[k].connections@.len(),
                    |c: int|
                        connection_boundary(
                            design,
                            m,
                            k,
                            path,
                            partition_at_path(regions, path.drop_last()),
                            regions[r].id,
                            c,
                        ),
                ),
            },
        }
    }
}

/// Boundaries are listed by path, port and signal.
pub struct ByPort {}

impl SortKey<RuntimePartitionBoundarySignal> for ByPort {
    type Key = (Vec<String>, (String, String));

    open spec fn key(v: RuntimePartitionBoundarySignalView) -> (
        Seq<Seq<char>>,
        (Seq<char>, Seq<char>),
    ) {
        (v.instance_path, (v.port_name, v.signal.signal_name))
    }

    fn is_key_le(a: &RuntimePartitionBoundarySignal, b: &RuntimePartitionBoundarySignal) -> bool {
        proof {
            let x = Self::key(a.deep_view());
            let y = Self::key(b.deep_view());
            lemma_pair_ranked::<Vec<String>, (String, String)>(x, y);
            lemma_pair_ranked::<String, String>(x.1, y.1);
            lemma_ranked_same::<Vec<String>>(x.0, y.0);
        }
        let le: bool = a.instance_path.is_ranked_le(&b.instance_path);
        let ge: bool = b.instance_path.is_ranked_le(&a.instance_path);
        if le && ge {
            if same_text(a.port_name.as_str(), b.port_name.as_str()) {
                a.signal.signal_name.is_ranked_le(&b.signal.signal_name)
            } else {
                a.port_name.is_ranked_le(&b.port_name)
            }
        } else {
            le
        }
    }
}

/// All boundaries between regions.
pub open spec fn planned_boundaries(
    design: CompiledDesign,
    top: int,
    regions: Seq<PartitionRegionView>,
) -> Seq<RuntimePartitionBoundarySignalView> {
    sorted_by_key::<RuntimePartitionBoundarySignal, ByPort>(
        concat_below(regions.len(), |r: int| region_boundaries(design, top, regions, r)),
    )
}

fn same_path(a: &Vec<String>, b: &Vec<String>, n: usize) -> (r: bool)
    requires
        n <= b@.len(),
    ensures
        r == (a.deep_view() == b.deep_view().take(n as int)),
{
    let ghost x = a.deep_view();
    let ghost y = b.deep_view();
    proof {
        assert(x.len() == a@.len());
    }
    if a.len() != n {
        return false;
    }
    let mut k: usize = 0;
    while k < n
        invariant
            k <= n,
            n == a@.len(),
            n <= b@.len(),
            x == a.deep_view(),
            y == b.deep_view(),
            forall|j: int| 0 <= j < k ==> #[trigger] x[j] == y[j],
        decreases n - k,
    {
        proof {
            assert(x[k as int] == a@[k as int]@);
            assert(y[k as int] == b@[k as int]@);
            assert(y.take(n as int)[k as int] == y[k as int]);
        }
        if !same_text(a[k].as_str(), b[k].as_str()) {
            return false;
        }
        k = k + 1;
    }
    proof {
        assert(x =~= y.take(n as int));
    }
    true
}

fn parent_partition(regions: &Vec<PartitionRegion>, path: &Vec<String>) -> (r: Option<String>)
    requires
        path@.len() > 0,
    ensures
        r.deep_view() == partition_at_path(regions.deep_view(), path.deep_view().drop_last()),
{
    let ghost rs = regions.deep_view();
    let ghost parent = path.deep_view().drop_last();
    let ghost p = is_at_path(rs, parent);
    let mut k: usize = regions.len();
    proof {
        assert(rs.len() == regions@.len());
        assert(path.deep_view().len() == path@.len());
        assert(parent =~= path.deep_view().take(path@.len() - 1));
    }
    while k > 0
        invariant
            k <= regions@.len(),
            path@.len() > 0,
            rs == regions.deep_view(),
            rs.len() == regions@.len(),
            p == is_at_path(rs, parent),
            parent == path.deep_view().take(path@.len() - 1),
            forall|j: int| k <= j < rs.len() ==> !#[trigger] p(j),
        decreases k,
    {
        k = k - 1;
        proof {
            assert(rs[k as int] == regions@[k as int].deep_view());
        }
        if same_path(&regions[k].instance_path, path, path.len() - 1) {
            proof {
                assert(p(k as int));
                lemma_last_index_is(rs.len(), p, k as int);
            }
            return Some(regions[k].id.clone());
        }
    }
    proof {
        lemma_last_index(rs.len(), p);
    }
    None
}

fn consumers_of(direction: PortDirection, parent: &Option<String>, child: &String) -> (r: Vec<String>)
    ensures
        r.deep_view() == boundary_consumers(direction, parent.deep_view(), child@),
{
    let mut r: Vec<String> = no_items();
    match direction {
        PortDirection::Input => {
            push_item(&mut r, child.clone());
        },
        PortDirection::Output => {
            match parent {
                Some(p) => {
                    push_item(&mut r, p.clone());
                },
                None => {},
            }
        },
        PortDirection::Inout => {
            match parent {
                Some(p) => {
                    if same_text(p.as_str(), child.as_str()) {
                        push_item(&mut r, child.clone());
                    } else if child.is_ranked_le(p) {
                        push_item(&mut r, child.clone());
                        push_item(&mut r, p.clone());
                    } else {
                        push_item(&mut r, p.clone());
                        push_item(&mut r, child.clone());
                    }
                },
                None => {
                    push_item(&mut r, child.clone());
                },
            }
        },
    }
    proof {
        assert(r.deep_view() =~= boundary_consumers(direction, parent.deep_view(), child@));
    }
    r
}

fn emit_partition_boundaries_for_instance(
    design: &CompiledDesign,
    m: usize,
    k: usize,
    instance_path: &Vec<String>,
    parent: &Option<String>,
    child: &String,
) -> (r: Vec<RuntimePartitionBoundarySignal>)
    requires
        m < design.modules@.len(),
        k < design.modules@[m as int].instances@.len(),
    ensures
        r.deep_view() == gather(
            design.modules@[m as int].instances@[k as int].connections@.len(),
            |c: int|
                connection_boundary(
                    *design,
                    m as int,
                    k as int,
                    instance_path.deep_view(),
                    parent.deep_view(),
                    child@,
                    c,
                ),
        ),
{
    let module = &design.modules[m];
    let instance = &module.instances[k];
    let ghost path = instance_path.deep_view();
    let ghost pv = parent.deep_view();
    let ghost g = |c: int|
        connection_boundary(*design, m as int, k as int, path, pv, child@, c);
    gather_items(
        instance.connections.len(),
        |c: usize| -> (y: Option<RuntimePartitionBoundarySignal>)
            requires
                c < instance.connections@.len(),
                *module == design.modules@[m as int],
                *instance == module.instances@[k as int],
                path == instance_path.deep_view(),
                pv == parent.deep_view(),
            ensures y.deep_view() == g(c as int)
        {
            let connection = &instance.connections[c];
            match module.signal(connection.signal) {
                None => None,
                Some(signal) => {
                    let consumers = consumers_of(connection.direction, parent, child);
                    let producer = match connection.direction {
                        PortDirection::Input => parent.clone(),
                        PortDirection::Output => Some(child.clone()),
                        PortDirection::Inout => None,
                    };
                    let count: u64 = if consumers.len() == 0 {
                        1
                    } else {
                        consumers.len() as u64
                    };
                    proof {
                        assert(consumers@.len() == consumers.deep_view().len());
                        assert(count <= 2);
                        assert(connection.width * count <= u64::MAX) by (nonlinear_arith)
                            requires
                                connection.width <= u32::MAX,
                                count <= 2,
                        ;
                    }
                    let path_copy = instance_path.clone();
                    proof {
                        assert(path_copy.deep_view() =~= path);
                    }
                    Some(
                        RuntimePartitionBoundarySignal {
                            signal: partition_signal_ref(module, signal),
                            instance_path: path_copy,
                            port_name: connection.port.clone(),
                            producer_partition: producer,
                            consumer_partitions: consumers,
                            width: connection.width,
                            cost: RuntimePartitionCost {
                                compute_ops: 0,
                                state_bits: 0,
                                memory_bits: 0,
                                boundary_bits: connection.width as u64 * count,
                            },
                        },
                    )
                },
            }
        },
        Ghost(g),
    )
}

fn boundaries_of_region(
    design: &CompiledDesign,
    top: usize,
    regions: &Vec<PartitionRegion>,
    r: usize,
) -> (b: Vec<RuntimePartitionBoundarySignal>)
    requires
        top < design.modules@.len(),
        r < regions@.len(),
    ensures
        b.deep_view() == region_boundaries(*design, top as int, regions.deep_view(), r as int),
{
    let region = &regions[r];
    let path = &region.instance_path;
    proof {
        assert(regions.deep_view()[r as int] == region.deep_view());
        assert(path.deep_view().len() == path@.len());
    }
    if path.len() <= 1 {
        return no_items();
    }
    proof {
        assert(path.deep_view().last() == path@[path@.len() - 1]@);
    }
    match module_at_instance_path(design, top, path, path.len() - 1) {
        None => no_items(),
        Some(m) => match find_instance(design, m, path[path.len() - 1].as_str()) {
            None => no_items(),
            Some(k) => {
                let parent = parent_partition(regions, path);
                emit_partition_boundaries_for_instance(design, m, k, path, &parent, &region.id)
            },
        },
    }
}

fn partition_boundaries(design: &CompiledDesign, top: usize, regions: &Vec<PartitionRegion>) -> (b: Vec<
    RuntimePartitionBoundarySignal,
>)
    requires
        top < design.modules@.len(),
    ensures
        b.deep_view() == planned_boundaries(*design, top as int, regions.deep_view()),
{
    let ghost rs = regions.deep_view();
    let ghost g = |r: int| region_boundaries(*design, top as int, rs, r);
    let boundaries = concat_items(
        regions.len(),
        |r: usize| -> (b: Vec<RuntimePartitionBoundarySignal>)
            requires r < regions@.len(), top < design.modules@.len(), rs == regions.deep_view(),
            ensures b.deep_view() == g(r as int)
        {
            boundaries_of_region(design, top, regions, r)
        },
        Ghost(g),
    );
    sort_by_key::<RuntimePartitionBoundarySignal, ByPort>(boundaries)
}

// ---------------------------------------------------------------------------
// Findings
// ---------------------------------------------------------------------------

/// The compute of all partitions.
pub open spec fn total_compute(partitions: Seq<RuntimePartitionView>) -> int {
    sum_below(partitions.len(), |k: int| partitions[k].cost.compute_ops as int)
}

/// Whether no partition computes more.
pub open spec fn computes_most(partitions: Seq<RuntimePartitionView>) -> spec_fn(int) -> bool {
    |k: int|
        forall|j: int|
            0 <= j < partitions.len() ==> (#[trigger] partitions[j]).cost.compute_ops
                <= partitions[k].cost.compute_ops
}

/// The partition that computes more than twice the average, if there is one: the
/// last of those that compute most.
pub open spec fn heavy_partition(partitions: Seq<RuntimePartitionView>) -> Option<int> {
    if partitions.len() < 2 || total_compute(partitions) == 0 {
        None
    } else {
        match last_index(partitions.len(), computes_most(partitions)) {
            None => None,
            Some(k) => if saturated(partitions[k].cost.compute_ops * partitions.len())
                <= saturated(total_compute(partitions) * 2) {
                None
            } else {
                Some(k)
            },
        }
    }
}

pub open spec fn underfill_diagnostic(count: nat, target: nat) -> RuntimePartitionDiagnosticView {
    RuntimePartitionDiagnosticView {
        code: RuntimePartitionDiagnosticCode::TargetUnderfilled,
        severity: RuntimePartitionDiagnosticSeverity::Info,
        message: "runtime partition planner emitted "@ + decimal(count) + " partitions for target "@
            + decimal(target),
        partition_id: None,
        boundary_index: None,
    }
}

pub open spec fn underfill_recommendation() -> RuntimePartitionRecommendationView {
    RuntimePartitionRecommendationView {
        code: RuntimePartitionRecommendationCode::IncreaseHierarchy,
        message: "add deeper hierarchy cuts or enable recursive partition planning before scaling this design across more workers"@,
        partition_id: None,
        boundary_index: None,
    }
}

pub open spec fn imbalance_diagnostic(heavy: RuntimePartitionView) -> RuntimePartitionDiagnosticView {
    RuntimePartitionDiagnosticView {
        code: RuntimePartitionDiagnosticCode::PartitionImbalance,
        severity: RuntimePartitionDiagnosticSeverity::Warning,
        message: "partition `"@ + heavy.id + "` has "@ + decimal(heavy.cost.compute_ops as nat)
            + " compute ops, more than 2x the average"@,
        partition_id: Some(heavy.id),
        boundary_index: None,
    }
}

pub open spec fn imbalance_recommendation(heavy: RuntimePartitionView) -> RuntimePartitionRecommendationView {
    RuntimePartitionRecommendationView {
        code: RuntimePartitionRecommendationCode::SplitHeavyPartition,
        message: "split partition `"@ + heavy.id
            + "` with deeper hierarchy or a finer structural cut"@,
        partition_id: Some(heavy.id),
        boundary_index: None,
    }
}

/// Whether more bits cross boundaries than partitions hold.
pub open spec fn boundaries_are_high(total: RuntimePartitionCost) -> bool {
    let local = saturated(total.state_bits + total.memory_bits);
    local > 0 && total.boundary_bits > local
}

/// Whether a boundary is reported: it is wide, or all boundaries together are
/// high.
pub open spec fn boundary_is_reported(
    boundary: RuntimePartitionBoundarySignalView,
    high: bool,
) -> bool {
    boundary.width >= 1024 || high
}

pub open spec fn boundary_diagnostic(
    boundaries: Seq<RuntimePartitionBoundarySignalView>,
    high: bool,
    i: int,
) -> Option<RuntimePartitionDiagnosticView> {
    let boundary = boundaries[i];
    if boundary_is_reported(boundary, high) {
        Some(
            RuntimePartitionDiagnosticView {
                code: RuntimePartitionDiagnosticCode::HighBoundaryCost,
                severity: RuntimePartitionDiagnosticSeverity::Warning,
                message: "boundary `"@ + boundary.port_name + "` on instance `"@ + joined(
                    boundary.instance_path,
                    "."@,
                ) + "` moves "@ + decimal(boundary.cost.boundary_bits as nat) + " bits"@,
                partition_id: boundary.producer_partition,
                boundary_index: Some(i as usize),
            },
        )
    } else {
        None
    }
}

pub open spec fn boundary_recommendation(
    boundaries: Seq<RuntimePartitionBoundarySignalView>,
    high: bool,
    i: int,
) -> Option<RuntimePartitionRecommendationView> {
    let boundary = boundaries[i];
    if boundary_is_reported(boundary, high) {
        Some(
            RuntimePartitionRecommendationView {
                code: RuntimePartitionRecommendationCode::CoLocateBoundary,
                message: "consider co-locating `"@ + joined(boundary.instance_path, "."@)
                    + "` with adjacent logic or cutting on a narrower interface"@,
                partition_id: boundary.producer_partition,
                boundary_index: Some(i as usize),
            },
        )
    } else {
        None
    }
}

pub open spec fn external_diagnostic(partition: RuntimePartitionView) -> Option<
    RuntimePartitionDiagnosticView,
> {
    if partition.external {
        Some(
            RuntimePartitionDiagnosticView {
                code: RuntimePartitionDiagnosticCode::ExternalModuleOpaque,
                severity: RuntimePartitionDiagnosticSeverity::Info,
                message: "partition `"@ + partition.id + "` targets external module `"@
                    + partition.module_name + "`; internal compute cost is opaque"@,
                partition_id: Some(partition.id),
                boundary_index: None,
            },
        )
    } else {
        None
    }
}

pub open spec fn external_recommendation(partition: RuntimePartitionView) -> Option<
    RuntimePartitionRecommendationView,
> {
    if partition.external {
        Some(
            RuntimePartitionRecommendationView {
                code: RuntimePartitionRecommendationCode::InspectExternalModule,
                message: "provide a cost model or implementation metadata for external module `"@
                    + partition.module_name + "`"@,
                partition_id: Some(partition.id),
                boundary_index: None,
            },
        )
    } else {
        None
    }
}

/// Whether a partition has nothing to do.
pub open spec fn is_empty_partition(partition: RuntimePartitionView) -> bool {
    !partition.external && partition.cost.compute_ops == 0 && partition.cost.state_bits == 0
        && partition.cost.memory_bits == 0
}

pub open spec fn empty_diagnostic(partition: RuntimePartitionView) -> Option<
    RuntimePartitionDiagnosticView,
> {
    if is_empty_partition(partition) {
        Some(
            RuntimePartitionDiagnosticView {
                code: RuntimePartitionDiagnosticCode::EmptyPartition,
                severity: RuntimePartitionDiagnosticSeverity::Warning,
                message: "partition `"@ + partition.id
                    + "` has no local compute, register state, or memory state"@,
                partition_id: Some(partition.id),
                boundary_index: None,
            },
        )
    } else {
        None
    }
}

pub open spec fn empty_recommendation(partition: RuntimePartitionView) -> Option<
    RuntimePartitionRecommendationView,
> {
    if is_empty_partition(partition) {
        Some(
            RuntimePartitionRecommendationView {
                code: RuntimePartitionRecommendationCode::ReduceTargetPartitions,
                message: "merge partition `"@ + partition.id
                    + "` or reduce the requested partition count"@,
                partition_id: Some(partition.id),
                boundary_index: None,
            },
        )
    } else {
        None
    }
}

/// All diagnostics of a plan.
pub open spec fn plan_diagnostics(
    partitions: Seq<RuntimePartitionView>,
    boundaries: Seq<RuntimePartitionBoundarySignalView>,
    total: RuntimePartitionCost,
    target: nat,
) -> Seq<RuntimePartitionDiagnosticView> {
    (if partitions.len() < target {
        seq![underfill_diagnostic(partitions.len(), target)]
    } else {
        seq![]
    }) + (match heavy_partition(partitions) {
        Some(k) => seq![imbalance_diagnostic(partitions[k])],
        None => seq![],
    }) + gather(
        boundaries.len(),
        |i: int| boundary_diagnostic(boundaries, boundaries_are_high(total), i),
    ) + gather(partitions.len(), |k: int| external_diagnostic(partitions[k])) + gather(
        partitions.len(),
        |k: int| empty_diagnostic(partitions[k]),
    )
}

/// All recommendations of a plan.
pub open spec fn plan_recommendations(
    partitions: Seq<RuntimePartitionView>,
    boundaries: Seq<RuntimePartitionBoundarySignalView>,
    total: RuntimePartitionCost,
    target: nat,
) -> Seq<RuntimePartitionRecommendationView> {
    (if partitions.len() < target {
        seq![underfill_recommendation()]
    } else {
        seq![]
    }) + (match heavy_partition(partitions) {
        Some(k) => seq![imbalance_recommendation(partitions[k])],
        None => seq![],
    }) + gather(
        boundaries.len(),
        |i: int| boundary_recommendation(boundaries, boundaries_are_high(total), i),
    ) + gather(partitions.len(), |k: int| external_recommendation(partitions[k])) + gather(
        partitions.len(),
        |k: int| empty_recommendation(partitions[k]),
    )
}

fn find_heavy_partition(partitions: &Vec<RuntimePartition>) -> (r: Option<usize>)
    requires
        total_compute(partitions.deep_view()) <= u64::MAX,
    ensures
        match r {
            Some(k) => k < partitions@.len() && heavy_partition(partitions.deep_view()) == Some(
                k as int,
            ),
            None => heavy_partition(partitions.deep_view()) is None,
        },
{
    let ghost ps = partitions.deep_view();
    proof {
        assert(ps.len() == partitions@.len());
    }
    if partitions.len() < 2 {
        return None;
    }
    let ghost g = |k: int| ps[k].cost.compute_ops as int;
    let total: u64 = sum_items(
        partitions.len(),
        |k: usize| -> (y: u64)
            requires k < partitions@.len(), ps == partitions.deep_view(),
            ensures y == g(k as int)
        {
            proof {
                assert(ps[k as int] == partitions@[k as int].deep_view());
            }
            partitions[k].cost.compute_ops
        },
        Ghost(g),
    );
    if total == 0 {
        return None;
    }
    let mut heavy: usize = 0;
    let mut i: usize = 1;
    while i < partitions.len()
        invariant
            1 <= i <= partitions@.len(),
            heavy < i,
            ps == partitions.deep_view(),
            forall|j: int|
                0 <= j < i ==> (#[trigger] ps[j]).cost.compute_ops
                    <= ps[heavy as int].cost.compute_ops,
            forall|j: int|
                heavy < j < i ==> (#[trigger] ps[j]).cost.compute_ops
                    < ps[heavy as int].cost.compute_ops,
        decreases partitions@.len() - i,
    {
        proof {
            assert(ps[i as int] == partitions@[i as int].deep_view());
            assert(ps[heavy as int] == partitions@[heavy as int].deep_view());
        }
        if partitions[i].cost.compute_ops >= partitions[heavy].cost.compute_ops {
            heavy = i;
        }
        i = i + 1;
    }
    proof {
        let p = computes_most(ps);
        assert(p(heavy as int));
        assert forall|j: int| heavy < j < ps.len() implies !#[trigger] p(j) by {
            assert(ps[j].cost.compute_ops < ps[heavy as int].cost.compute_ops);
        }
        lemma_last_index_is(ps.len(), p, heavy as int);
        assert(ps[heavy as int] == partitions@[heavy as int].deep_view());
    }
    if saturating_product(partitions[heavy].cost.compute_ops, partitions.len() as u64)
        <= saturating_product(total, 2) {
        return None;
    }
    Some(heavy)
}

/// The diagnostics and recommendations of a plan.
pub struct RuntimePartitionAnalysis {
    pub diagnostics: Vec<RuntimePartitionDiagnostic>,
    pub recommendations: Vec<RuntimePartitionRecommendation>,
}

fn analyze_target_underfill(count: usize, target: usize, analysis: &mut RuntimePartitionAnalysis)
    ensures
        final(analysis).diagnostics.deep_view() == old(analysis).diagnostics.deep_view() + (if count
            < target {
            seq![underfill_diagnostic(count as nat, target as nat)]
        } else {
            seq![]
        }),
        final(analysis).recommendations.deep_view() == old(analysis).recommendations.deep_view() + (
        if count < target {
            seq![underfill_recommendation()]
        } else {
            seq![]
        }),
{
    if count >= target {
        return;
    }
    let mut message = "runtime partition planner emitted ".to_owned();
    append_decimal(&mut message, count as u64);
    message.append(" partitions for target ");
    append_decimal(&mut message, target as u64);
    push_item(
        &mut analysis.diagnostics,
        RuntimePartitionDiagnostic {
            code: RuntimePartitionDiagnosticCode::TargetUnderfilled,
            severity: RuntimePartitionDiagnosticSeverity::Info,
            message,
            partition_id: None,
            boundary_index: None,
        },
    );
    push_item(
        &mut analysis.recommendations,
        RuntimePartitionRecommendation {
            code: RuntimePartitionRecommendationCode::IncreaseHierarchy,
            message: "add deeper hierarchy cuts or enable recursive partition planning before scaling this design across more workers".to_owned(),
            partition_id: None,
            boundary_index: None,
        },
    );
}

fn analyze_partition_imbalance(
    partitions: &Vec<RuntimePartition>,
    analysis: &mut RuntimePartitionAnalysis,
)
    requires
        total_compute(partitions.deep_view()) <= u64::MAX,
    ensures
        final(analysis).diagnostics.deep_view() == old(analysis).diagnostics.deep_view() + (
        match heavy_partition(partitions.deep_view()) {
            Some(k) => seq![imbalance_diagnostic(partitions.deep_view()[k])],
            None => seq![],
        }),
        final(analysis).recommendations.deep_view() == old(analysis).recommendations.deep_view() + (
        match heavy_partition(partitions.deep_view()) {
            Some(k) => seq![imbalance_recommendation(partitions.deep_view()[k])],
            None => seq![],
        }),
{
    let heavy = match find_heavy_partition(partitions) {
        Some(k) => k,
        None => {
            return;
        },
    };
    let partition = &partitions[heavy];
    proof {
        assert(partitions.deep_view()[heavy as int] == partition.deep_view());
    }
    let mut message = "partition `".to_owned();
    message.append(partition.id.as_str());
    message.append("` has ");
    append_decimal(&mut message, partition.cost.compute_ops);
    message.append(" compute ops, more than 2x the average");
    push_item(
        &mut analysis.diagnostics,
        RuntimePartitionDiagnostic {
            code: RuntimePartitionDiagnosticCode::PartitionImbalance,
            severity: RuntimePartitionDiagnosticSeverity::Warning,
            message,
            partition_id: Some(partition.id.clone()),
            boundary_index: None,
        },
    );
    let mut advice = "split partition `".to_owned();
    advice.append(partition.id.as_str());
    advice.append("` with deeper hierarchy or a finer structural cut");
    push_item(
        &mut analysis.recommendations,
        RuntimePartitionRecommendation {
            code: RuntimePartitionRecommendationCode::SplitHeavyPartition,
            message: advice,
            partition_id: Some(partition.id.clone()),
            boundary_index: None,
        },
    );
}

fn analyze_boundary_cost(
    boundaries: &Vec<RuntimePartitionBoundarySignal>,
    total_cost: &RuntimePartitionCost,
    analysis: &mut RuntimePartitionAnalysis,
)
    ensures
        final(analysis).diagnostics.deep_view() == old(analysis).diagnostics.deep_view() + gather(
            boundaries.deep_view().len(),
            |i: int|
                boundary_diagnostic(boundaries.deep_view(), boundaries_are_high(*total_cost), i),
        ),
        final(analysis).recommendations.deep_view() == old(analysis).recommendations.deep_view()
            + gather(
            boundaries.deep_view().len(),
            |i: int|
                boundary_recommendation(
                    boundaries.deep_view(),
                    boundaries_are_high(*total_cost),
                    i,
                ),
        ),
{
    let ghost bs = boundaries.deep_view();
    let local_bits: u64 = total_cost.state_bits.saturating_add(total_cost.memory_bits);
    let high: bool = local_bits > 0 && total_cost.boundary_bits > local_bits;
    let ghost diagnose = |i: int| boundary_diagnostic(bs, high, i);
    let ghost recommend = |i: int| boundary_recommendation(bs, high, i);
    proof {
        assert(high == boundaries_are_high(*total_cost));
        assert(bs.len() == boundaries@.len());
    }
    let diagnostics = gather_items(
        boundaries.len(),
        |i: usize| -> (y: Option<RuntimePartitionDiagnostic>)
            requires i < boundaries@.len(), bs == boundaries.deep_view(),
            ensures y.deep_view() == diagnose(i as int)
        {
            let boundary = &boundaries[i];
            proof {
                assert(bs[i as int] == boundary.deep_view());
            }
            if boundary.width < 1024 && !high {
                None
            } else {
                let mut message = "boundary `".to_owned();
                message.append(boundary.port_name.as_str());
                message.append("` on instance `");
                let path = join_text(&boundary.instance_path, ".");
                message.append(path.as_str());
                message.append("` moves ");
                append_decimal(&mut message, boundary.cost.boundary_bits);
                message.append(" bits");
                Some(
                    RuntimePartitionDiagnostic {
                        code: RuntimePartitionDiagnosticCode::HighBoundaryCost,
                        severity: RuntimePartitionDiagnosticSeverity::Warning,
                        message,
                        partition_id: boundary.producer_partition.clone(),
                        boundary_index: Some(i),
                    },
                )
            }
        },
        Ghost(diagnose),
    );
    let recommendations = gather_items(
        boundaries.len(),
        |i: usize| -> (y: Option<RuntimePartitionRecommendation>)
            requires i < boundaries@.len(), bs == boundaries.deep_view(),
            ensures y.deep_view() == recommend(i as int)
        {
            let boundary = &boundaries[i];
            proof {
                assert(bs[i as int] == boundary.deep_view());
            }
            if boundary.width < 1024 && !high {
                None
            } else {
                let mut message = "consider co-locating `".to_owned();
                let path = join_text(&boundary.instance_path, ".");
                message.append(path.as_str());
                message.append("` with adjacent logic or cutting on a narrower interface");
                Some(
                    RuntimePartitionRecommendation {
                        code: RuntimePartitionRecommendationCode::CoLocateBoundary,
                        message,
                        partition_id: boundary.producer_partition.clone(),
                        boundary_index: Some(i),
                    },
                )
            }
        },
        Ghost(recommend),
    );
    append_items(&mut analysis.diagnostics, diagnostics);
    append_items(&mut analysis.recommendations, recommendations);
}

fn analyze_external_partitions(
    partitions: &Vec<RuntimePartition>,
    analysis: &mut RuntimePartitionAnalysis,
)
    ensures
        final(analysis).diagnostics.deep_view() == old(analysis).diagnostics.deep_view() + gather(
            partitions.deep_view().len(),
            |k: int| external_diagnostic(partitions.deep_view()[k]),
        ),
        final(analysis).recommendations.deep_view() == old(analysis).recommendations.deep_view()
            + gather(
            partitions.deep_view().len(),
            |k: int| external_recommendation(partitions.deep_view()[k]),
        ),
{
    let ghost ps = partitions.deep_view();
    let ghost diagnose = |k: int| external_diagnostic(ps[k]);
    let ghost recommend = |k: int| external_recommendation(ps[k]);
    proof {
        assert(ps.len() == partitions@.len());
    }
    let diagnostics = gather_items(
        partitions.len(),
        |k: usize| -> (y: Option<RuntimePartitionDiagnostic>)
            requires k < partitions@.len(), ps == partitions.deep_view(),
            ensures y.deep_view() == diagnose(k as int)
        {
            let partition = &partitions[k];
            proof {
                assert(ps[k as int] == partition.deep_view());
            }
            if partition.external {
                let mut message = "partition `".to_owned();
                message.append(partition.id.as_str());
                message.append("` targets external module `");
                message.append(partition.module_name.as_str());
                message.append("`; internal compute cost is opaque");
                Some(
                    RuntimePartitionDiagnostic {
                        code: RuntimePartitionDiagnosticCode::ExternalModuleOpaque,
                        severity: RuntimePartitionDiagnosticSeverity::Info,
                        message,
                        partition_id: Some(partition.id.clone()),
                        boundary_index: None,
                    },
                )
            } else {
                None
            }
        },
        Ghost(diagnose),
    );
    let recommendations = gather_items(
        partitions.len(),
        |k: usize| -> (y: Option<RuntimePartitionRecommendation>)
            requires k < partitions@.len(), ps == partitions.deep_view(),
            ensures y.deep_view() == recommend(k as int)
        {
            let partition = &partitions[k];
            proof {
                assert(ps[k as int] == partition.deep_view());
            }
            if partition.external {
                let mut message = "provide a cost model or implementation metadata for external module `".to_owned();
                message.append(partition.module_name.as_str());
                message.append("`");
                Some(
                    RuntimePartitionRecommendation {
                        code: RuntimePartitionRecommendationCode::InspectExternalModule,
                        message,
                        partition_id: Some(partition.id.clone()),
                        boundary_index: None,
                    },
                )
            } else {
                None
            }
        },
        Ghost(recommend),
    );
    append_items(&mut analysis.diagnostics, diagnostics);
    append_items(&mut analysis.recommendations, recommendations);
}

fn is_empty_of_work(partition: &RuntimePartition) -> (r: bool)
    ensures
        r == is_empty_partition(partition.deep_view()),
{
    !partition.external && partition.cost.compute_ops == 0 && partition.cost.state_bits == 0
        && partition.cost.memory_bits == 0
}

fn analyze_empty_partitions(
    partitions: &Vec<RuntimePartition>,
    analysis: &mut RuntimePartitionAnalysis,
)
    ensures
        final(analysis).diagnostics.deep_view() == old(analysis).diagnostics.deep_view() + gather(
            partitions.deep_view().len(),
            |k: int| empty_diagnostic(partitions.deep_view()[k]),
        ),
        final(analysis).recommendations.deep_view() == old(analysis).recommendations.deep_view()
            + gather(
            partitions.deep_view().len(),
            |k: int| empty_recommendation(partitions.deep_view()[k]),
        ),
{
    let ghost ps = partitions.deep_view();
    let ghost diagnose = |k: int| empty_diagnostic(ps[k]);
    let ghost recommend = |k: int| empty_recommendation(ps[k]);
    proof {
        assert(ps.len() == partitions@.len());
    }
    let diagnostics = gather_items(
        partitions.len(),
        |k: usize| -> (y: Option<RuntimePartitionDiagnostic>)
            requires k < partitions@.len(), ps == partitions.deep_view(),
            ensures y.deep_view() == diagnose(k as int)
        {
            let partition = &partitions[k];
            proof {
                assert(ps[k as int] == partition.deep_view());
            }
            if is_empty_of_work(partition) {
                let mut message = "partition `".to_owned();
                message.append(partition.id.as_str());
                message.append("` has no local compute, register state, or memory state");
                Some(
                    RuntimePartitionDiagnostic {
                        code: RuntimePartitionDiagnosticCode::EmptyPartition,
                        severity: RuntimePartitionDiagnosticSeverity::Warning,
                        message,
                        partition_id: Some(partition.id.clone()),
                        boundary_index: None,
                    },
                )
            } else {
                None
            }
        },
        Ghost(diagnose),
    );
    let recommendations = gather_items(
        partitions.len(),
        |k: usize| -> (y: Option<RuntimePartitionRecommendation>)
            requires k < partitions@.len(), ps == partitions.deep_view(),
            ensures y.deep_view() == recommend(k as int)
        {
            let partition = &partitions[k];
            proof {
                assert(ps[k as int] == partition.deep_view());
            }
            if is_empty_of_work(partition) {
                let mut message = "merge partition `".to_owned();
                message.append(partition.id.as_str());
                message.append("` or reduce the requested partition count");
                Some(
                    RuntimePartitionRecommendation {
                        code: RuntimePartitionRecommendationCode::ReduceTargetPartitions,
                        message,
                        partition_id: Some(partition.id.clone()),
                        boundary_index: None,
                    },
                )
            } else {
                None
            }
        },
        Ghost(recommend),
    );
    append_items(&mut analysis.diagnostics, diagnostics);
    append_items(&mut analysis.recommendations, recommendations);
}

fn analyze_partition_plan(
    partitions: &Vec<RuntimePartition>,
    boundaries: &Vec<RuntimePartitionBoundarySignal>,
    total_cost: &RuntimePartitionCost,
    config: &RuntimePartitionConfig,
) -> (r: RuntimePartitionAnalysis)
    requires
        total_compute(partitions.deep_view()) <= u64::MAX,
    ensures
        r.diagnostics.deep_view() == plan_diagnostics(
            partitions.deep_view(),
            boundaries.deep_view(),
            *total_cost,
            config.target_partitions as nat,
        ),
        r.recommendations.deep_view() == plan_recommendations(
            partitions.deep_view(),
            boundaries.deep_view(),
            *total_cost,
            config.target_partitions as nat,
        ),
{
    let mut analysis = RuntimePartitionAnalysis {
        diagnostics: no_items(),
        recommendations: no_items(),
    };
    proof {
        assert(partitions.deep_view().len() == partitions@.len());
    }
    analyze_target_underfill(partitions.len(), config.target_partitions, &mut analysis);
    analyze_partition_imbalance(partitions, &mut analysis);
    analyze_boundary_cost(boundaries, total_cost, &mut analysis);
    analyze_external_partitions(partitions, &mut analysis);
    analyze_empty_partitions(partitions, &mut analysis);
    proof {
        assert(analysis.diagnostics.deep_view() =~= plan_diagnostics(
            partitions.deep_view(),
            boundaries.deep_view(),
            *total_cost,
            config.target_partitions as nat,
        ));
        assert(analysis.recommendations.deep_view() =~= plan_recommendations(
            partitions.deep_view(),
            boundaries.deep_view(),
            *total_cost,
            config.target_partitions as nat,
        ));
    }
    analysis
}

// ---------------------------------------------------------------------------
// Planning
// ---------------------------------------------------------------------------

/// The partitions of regions.
pub open spec fn planned_partitions(
    design: CompiledDesign,
    regions: Seq<PartitionRegionView>,
) -> Seq<RuntimePartitionView> {
    Seq::new(regions.len(), |k: int| partition_of(design, regions[k]))
}

/// The costs of partitions and boundaries.
pub open spec fn plan_costs(
    partitions: Seq<RuntimePartitionView>,
    boundaries: Seq<RuntimePartitionBoundarySignalView>,
) -> Seq<RuntimePartitionCost> {
    Seq::new(partitions.len(), |k: int| partitions[k].cost) + Seq::new(
        boundaries.len(),
        |i: int| boundaries[i].cost,
    )
}

/// The bits of all boundaries.
pub open spec fn total_boundary_bits(
    boundaries: Seq<RuntimePartitionBoundarySignalView>,
) -> int {
    sum_below(boundaries.len(), |i: int| boundaries[i].cost.boundary_bits as int)
}

/// What keeps a module from being planned.
pub open spec fn partition_plan_problem(
    design: CompiledDesign,
    module_name: Seq<char>,
    target: int,
) -> Option<ErrorReportView> {
    if target == 0 {
        Some(
            report(
                "E_RUNTIME_PARTITION_CONFIG"@,
                "runtime partition planner target_partitions must be greater than zero"@,
            ),
        )
    } else {
        match module_named(design, module_name) {
            None => Some(
                report(
                    "E_RUNTIME_PARTITION_MODULE"@,
                    "module `"@ + module_name + "` does not exist"@,
                ),
            ),
            Some(top) => regions_problem(design, top, target),
        }
    }
}

/// The plan of a module.
pub open spec fn partition_plan(
    design: CompiledDesign,
    module_name: Seq<char>,
    target: int,
) -> RuntimePartitionPlanView {
    let top = module_named(design, module_name)->0;
    let regions = planned_regions(design, top, target);
    let partitions = planned_partitions(design, regions);
    let boundaries = planned_boundaries(design, top, regions);
    let total = costs_sum(plan_costs(partitions, boundaries));
    RuntimePartitionPlanView {
        format_version: RUNTIME_PARTITION_PLAN_FORMAT_VERSION,
        module_name,
        partitions,
        boundary_signals: boundaries,
        total_cost: total,
        diagnostics: plan_diagnostics(partitions, boundaries, total, target as nat),
        recommendations: plan_recommendations(partitions, boundaries, total, target as nat),
    }
}

/// Whether a module can be planned in 64-bit numbers: its work and the boundaries
/// of its plan fit.
pub open spec fn partition_plan_fits(
    design: CompiledDesign,
    module_name: Seq<char>,
    target: int,
) -> bool {
    let top = module_named(design, module_name)->0;
    &&& work_fits(full_work(design, top))
    &&& total_boundary_bits(
        planned_boundaries(design, top, planned_regions(design, top, target)),
    ) <= u64::MAX
}

proof fn lemma_sum_by_below<A>(s: Seq<A>, f: spec_fn(A) -> int, g: spec_fn(int) -> int)
    requires
        forall|i: int| 0 <= i < s.len() ==> f(#[trigger] s[i]) == g(i),
    ensures
        sum_by(s, f) == sum_below(s.len(), g),
    decreases s.len(),
{
    if s.len() > 0 {
        let t = s.drop_last();
        assert forall|i: int| 0 <= i < t.len() implies f(#[trigger] t[i]) == g(i) by {
            assert(f(s[i]) == g(i));
        }
        lemma_sum_by_below(t, f, g);
        assert(f(s[s.len() - 1]) == g(s.len() - 1));
    }
}

/// Boundaries cost nothing but their bits.
proof fn lemma_boundary_costs(
    design: CompiledDesign,
    top: int,
    regions: Seq<PartitionRegionView>,
    i: int,
)
    requires
        0 <= i < planned_boundaries(design, top, regions).len(),
    ensures
        ({
            let c = planned_boundaries(design, top, regions)[i].cost;
            c.compute_ops == 0 && c.state_bits == 0 && c.memory_bits == 0
        }),
{
    let g = |r: int| region_boundaries(design, top, regions, r);
    let all = concat_below(regions.len(), g);
    let sorted = planned_boundaries(design, top, regions);
    lemma_sorted_by_key_contains::<RuntimePartitionBoundarySignal, ByPort>(all, sorted[i]);
    assert(sorted.contains(sorted[i]));
    lemma_concat_contains(regions.len(), g, sorted[i]);
    let r = choose|r: int| 0 <= r < regions.len() && (#[trigger] g(r)).contains(sorted[i]);
    let path = regions[r].instance_path;
    let m = module_at(design, top, path, (path.len() - 1) as nat)->0;
    let k = instance_named(design, m, path.last())->0;
    let parent = partition_at_path(regions, path.drop_last());
    let h = |c: int| connection_boundary(design, m, k, path, parent, regions[r].id, c);
    assert(region_boundaries(design, top, regions, r) == gather(
        design.modules@[m].instances@[k].connections@.len(),
        h,
    ));
    lemma_gather_contains(
        design.modules@[m].instances@[k].connections@.len(),
        h,
        sorted[i],
    );
}

/// Where the work and the boundaries fit, so do all sums of a plan.
pub proof fn lemma_plan_costs_fit(design: CompiledDesign, module_name: Seq<char>, target: int)
    requires
        partition_plan_problem(design, module_name, target) is None,
        hierarchy_ends(design, module_named(design, module_name)->0),
        partition_plan_fits(design, module_name, target),
    ensures
        ({
            let plan = partition_plan(design, module_name, target);
            let top = module_named(design, module_name)->0;
            &&& costs_fit(plan_costs(plan.partitions, plan.boundary_signals))
            &&& total_compute(plan.partitions) == full_work(design, top).compute
            &&& plan.total_cost.compute_ops == full_work(design, top).compute
            &&& plan.total_cost.state_bits == full_work(design, top).state
            &&& plan.total_cost.memory_bits <= full_work(design, top).memory
            &&& plan.total_cost.boundary_bits == total_boundary_bits(plan.boundary_signals)
        }),
{
    let top = module_named(design, module_name)->0;
    lemma_module_named(design, module_name);
    let regions = planned_regions(design, top, target);
    let partitions = planned_partitions(design, regions);
    let boundaries = planned_boundaries(design, top, regions);
    let inner = Seq::new(partitions.len(), |k: int| partitions[k].cost);
    let outer = Seq::new(boundaries.len(), |i: int| boundaries[i].cost);
    assert(plan_costs(partitions, boundaries) == inner + outer);
    lemma_sum_by_concat(inner, outer, compute_of());
    lemma_sum_by_concat(inner, outer, state_of());
    lemma_sum_by_concat(inner, outer, memory_of());
    lemma_sum_by_concat(inner, outer, boundary_of());
    lemma_regions_share_work(design, top, target);
    assert forall|k: int| 0 <= k < regions.len() implies {
        let w = region_work(design, #[trigger] regions[k]);
        is_work(w) && work_fits(w)
    } by {
        lemma_planned_regions_sound(design, top, target, k);
    }
    let c = region_part(design, compute_part());
    assert forall|k: int| 0 <= k < inner.len() implies compute_of()(#[trigger] inner[k]) == c(
        regions[k],
    ) by {
        assert(work_fits(region_work(design, regions[k])));
    }
    lemma_sum_by_mapped(inner, regions, compute_of(), c);
    let s = region_part(design, state_part());
    assert forall|k: int| 0 <= k < inner.len() implies state_of()(#[trigger] inner[k]) == s(
        regions[k],
    ) by {
        assert(work_fits(region_work(design, regions[k])));
    }
    lemma_sum_by_mapped(inner, regions, state_of(), s);
    let m = region_part(design, memory_part());
    assert forall|k: int| 0 <= k < inner.len() implies memory_of()(#[trigger] inner[k]) == m(
        regions[k],
    ) by {
        assert(work_fits(region_work(design, regions[k])));
    }
    lemma_sum_by_mapped(inner, regions, memory_of(), m);
    lemma_sum_by_zero(inner, boundary_of());
    assert forall|i: int| 0 <= i < outer.len() implies {
        let b = #[trigger] outer[i];
        b.compute_ops == 0 && b.state_bits == 0 && b.memory_bits == 0
    } by {
        lemma_boundary_costs(design, top, regions, i);
    }
    lemma_sum_by_zero(outer, compute_of());
    lemma_sum_by_zero(outer, state_of());
    lemma_sum_by_zero(outer, memory_of());
    let b = |i: int| boundaries[i].cost.boundary_bits as int;
    lemma_sum_by_below(outer, boundary_of(), b);
    let p = |k: int| partitions[k].cost.compute_ops as int;
    lemma_sum_by_below(inner, compute_of(), p);
    lemma_sum_below_grows(0, boundaries.len(), b);
    // No sum is negative.
    lemma_sum_by_prefix(inner, 0, inner.len() as int, compute_of());
    lemma_sum_by_prefix(inner, 0, inner.len() as int, state_of());
    lemma_sum_by_prefix(inner, 0, inner.len() as int, memory_of());
    assert(inner.take(inner.len() as int) =~= inner);
    assert(total_compute(partitions) == sum_below(partitions.len(), p));
    assert(total_boundary_bits(boundaries) == sum_below(boundaries.len(), b));
}

fn total_partition_cost(
    partitions: &Vec<RuntimePartition>,
    boundaries: &Vec<RuntimePartitionBoundarySignal>,
) -> (r: RuntimePartitionCost)
    requires
        costs_fit(plan_costs(partitions.deep_view(), boundaries.deep_view())),
    ensures
        r == costs_sum(plan_costs(partitions.deep_view(), boundaries.deep_view())),
{
    let ghost ps = partitions.deep_view();
    let ghost bs = boundaries.deep_view();
    let mut costs: Vec<RuntimePartitionCost> = Vec::new();
    let mut k: usize = 0;
    while k < partitions.len()
        invariant
            k <= partitions@.len(),
            ps == partitions.deep_view(),
            costs@ == Seq::new(k as nat, |j: int| ps[j].cost),
        decreases partitions@.len() - k,
    {
        proof {
            assert(ps[k as int] == partitions@[k as int].deep_view());
        }
        costs.push(partitions[k].cost);
        k = k + 1;
    }
    let ghost inner = costs@;
    let mut i: usize = 0;
    while i < boundaries.len()
        invariant
            i <= boundaries@.len(),
            bs == boundaries.deep_view(),
            costs@ == inner + Seq::new(i as nat, |j: int| bs[j].cost),
        decreases boundaries@.len() - i,
    {
        proof {
            assert(bs[i as int] == boundaries@[i as int].deep_view());
        }
        costs.push(boundaries[i].cost);
        i = i + 1;
    }
    proof {
        assert(costs@ =~= plan_costs(ps, bs));
    }
    total_of_costs(&costs)
}

/// Plans the partitions of a module of a compiled design.
pub fn plan_runtime_partitions(
    design: &CompiledDesign,
    module_name: &str,
    config: RuntimePartitionConfig,
) -> (r: Result<RuntimePartitionPlan, ErrorReport>)
    requires
        match module_named(*design, module_name@) {
            Some(top) => hierarchy_ends(*design, top),
            None => true,
        },
        partition_plan_problem(*design, module_name@, config.target_partitions as int) is None
            ==> partition_plan_fits(*design, module_name@, config.target_partitions as int),
    ensures
        fails_with(
            r,
            partition_plan_problem(*design, module_name@, config.target_partitions as int),
        ),
        r matches Ok(plan) ==> plan.deep_view() == partition_plan(
            *design,
            module_name@,
            config.target_partitions as int,
        ),
{
    let target: usize = config.target_partitions;
    if target == 0 {
        return Err(
            error(
                "E_RUNTIME_PARTITION_CONFIG",
                "runtime partition planner target_partitions must be greater than zero",
            ),
        );
    }
    let top = match design.find_module(module_name) {
        Some(top) => top,
        None => {
            let mut message = "module `".to_owned();
            message.append(module_name);
            message.append("` does not exist");
            return Err(error("E_RUNTIME_PARTITION_MODULE", message.as_str()));
        },
    };
    proof {
        lemma_module_named(*design, module_name@);
    }
    let regions = partition_regions(design, top, &config)?;
    let ghost rs = regions.deep_view();
    proof {
        lemma_plan_costs_fit(*design, module_name@, target as int);
        assert(rs.len() == regions@.len());
        assert forall|k: int| 0 <= k < rs.len() implies {
            let i = module_named(*design, (#[trigger] rs[k]).module_name);
            i is Some && 0 <= i->0 < design.modules@.len() && hierarchy_ends(*design, i->0)
                && work_fits(full_work(*design, i->0))
        } by {
            lemma_planned_regions_sound(*design, top as int, target as int, k);
        }
    }
    let ghost g = |k: int| partition_of(*design, rs[k]);
    let partitions = build_items(
        regions.len(),
        |k: usize| -> (y: RuntimePartition)
            requires
                k < regions@.len(),
                rs == regions.deep_view(),
                ({
                    let i = module_named(*design, rs[k as int].module_name);
                    i is Some && 0 <= i->0 < design.modules@.len() && hierarchy_ends(
                        *design,
                        i->0,
                    ) && work_fits(full_work(*design, i->0))
                }),
            ensures y.deep_view() == g(k as int)
        {
            let region = &regions[k];
            proof {
                assert(rs[k as int] == region.deep_view());
            }
            let i: usize = match design.find_module(region.module_name.as_str()) {
                Some(i) => i,
                None => 0,
            };
            build_partition(design, i, region)
        },
        Ghost(g),
    );
    let boundary_signals = partition_boundaries(design, top, &regions);
    proof {
        assert(partitions.deep_view() == planned_partitions(*design, rs));
    }
    let total_cost = total_partition_cost(&partitions, &boundary_signals);
    let analysis = analyze_partition_plan(&partitions, &boundary_signals, &total_cost, &config);
    Ok(
        RuntimePartitionPlan {
            format_version: RUNTIME_PARTITION_PLAN_FORMAT_VERSION,
            module_name: module_name.to_owned(),
            partitions,
            boundary_signals,
            total_cost,
            diagnostics: analysis.diagnostics,
            recommendations: analysis.recommendations,
        },
    )
}

/// The partitions of a plan are named by their position, so no two share an id.
pub proof fn lemma_partition_ids(design: CompiledDesign, module_name: Seq<char>, target: int)
    ensures
        ({
            let partitions = partition_plan(design, module_name, target).partitions;
            &&& forall|k: int|
                0 <= k < partitions.len() ==> (#[trigger] partitions[k]).id == region_id(k)
            &&& distinct_names::<RuntimePartition>(partitions)
        }),
{
    let partitions = partition_plan(design, module_name, target).partitions;
    let top = module_named(design, module_name)->0;
    let regions = planned_regions(design, top, target);
    assert forall|k: int| 0 <= k < partitions.len() implies (#[trigger] partitions[k]).id
        == region_id(k) by {
        assert(partitions[k].id == regions[k].id);
        if stays_whole(design.modules@[top], target) {
            reveal_strlit("p0");
            reveal_strlit("p");
            assert("p0"@ =~= region_id(0));
        }
    }
    assert forall|j: int, k: int| 0 <= j < k < partitions.len() implies RuntimePartition::name_of(
        #[trigger] partitions[j],
    ) != RuntimePartition::name_of(#[trigger] partitions[k]) by {
        if region_id(j) == region_id(k) {
            let p = "p"@;
            let a = decimal(j as nat);
            let b = decimal(k as nat);
            assert((p + a).skip(p.len() as int) =~= a);
            assert((p + b).skip(p.len() as int) =~= b);
            lemma_decimal_injective(j as nat, k as nat);
        }
    }
}

// ---------------------------------------------------------------------------
// Laws
// ---------------------------------------------------------------------------

/// However a hierarchy is cut, the work of each instance is counted once: plans of a module for
/// different numbers of partitions compute and store the same.
pub proof fn lemma_cuts_share_costs(
    design: CompiledDesign,
    module_name: Seq<char>,
    target: int,
    other: int,
)
    requires
        hierarchy_ends(design, module_named(design, module_name)->0),
        partition_plan_problem(design, module_name, target) is None,
        partition_plan_fits(design, module_name, target),
        partition_plan_problem(design, module_name, other) is None,
        partition_plan_fits(design, module_name, other),
    ensures
        partition_plan(design, module_name, target).total_cost.compute_ops == partition_plan(
            design,
            module_name,
            other,
        ).total_cost.compute_ops,
        partition_plan(design, module_name, target).total_cost.state_bits == partition_plan(
            design,
            module_name,
            other,
        ).total_cost.state_bits,
{
    lemma_plan_costs_fit(design, module_name, target);
    lemma_plan_costs_fit(design, module_name, other);
}

} // verus!

use rrtl_runtime::legality::{
    classify_partition_boundary, legal_partition_merge_groups, legalize_partition_plan,
};
use rrtl_runtime::model::design::{ModuleId, Signal, SignalId};
use rrtl_runtime::model::partition::{
    BoundaryLegality, RUNTIME_PARTITION_PLAN_FORMAT_VERSION, RuntimePartition,
    RuntimePartitionBoundarySignal, RuntimePartitionCost, RuntimePartitionPlan,
    RuntimePartitionSignalKind, RuntimePartitionSignalRef,
};

fn test_partition(id: &str) -> RuntimePartition {
    RuntimePartition {
        id: id.to_string(),
        module_name: "Top".to_string(),
        instance_path: vec![id.to_string()],
        external: false,
        signals: Vec::new(),
        cost: RuntimePartitionCost::default(),
    }
}

fn test_boundary(
    kind: RuntimePartitionSignalKind,
    producer: Option<&str>,
    consumers: &[&str],
) -> RuntimePartitionBoundarySignal {
    RuntimePartitionBoundarySignal {
        signal: RuntimePartitionSignalRef {
            module_name: "Top".to_string(),
            signal_name: "sig".to_string(),
            signal: Signal {
                module: ModuleId(0),
                id: SignalId(0),
            },
            width: 8,
            kind,
        },
        instance_path: vec!["Top".to_string()],
        port_name: "p".to_string(),
        producer_partition: producer.map(|p| p.to_string()),
        consumer_partitions: consumers.iter().map(|c| c.to_string()).collect(),
        width: 8,
        cost: RuntimePartitionCost::default(),
    }
}

fn test_plan(
    partitions: &[&str],
    boundaries: Vec<RuntimePartitionBoundarySignal>,
) -> RuntimePartitionPlan {
    RuntimePartitionPlan {
        format_version: RUNTIME_PARTITION_PLAN_FORMAT_VERSION,
        module_name: "Top".to_string(),
        partitions: partitions.iter().map(|id| test_partition(id)).collect(),
        boundary_signals: boundaries,
        total_cost: RuntimePartitionCost::default(),
        diagnostics: Vec::new(),
        recommendations: Vec::new(),
    }
}

#[test]
fn register_and_input_boundaries_are_legal_to_cut() {
    assert_eq!(
        classify_partition_boundary(&test_boundary(
            RuntimePartitionSignalKind::Register,
            Some("a"),
            &["b"],
        )),
        BoundaryLegality::RegisterStable,
    );
    assert_eq!(
        classify_partition_boundary(&test_boundary(
            RuntimePartitionSignalKind::Input,
            Some("a"),
            &["b"],
        )),
        BoundaryLegality::RegisterStable,
    );
    for kind in [
        RuntimePartitionSignalKind::Wire,
        RuntimePartitionSignalKind::Output,
        RuntimePartitionSignalKind::Inout,
        RuntimePartitionSignalKind::Memory,
    ] {
        assert_eq!(
            classify_partition_boundary(&test_boundary(kind, Some("a"), &["b"])),
            BoundaryLegality::CombinationalUnsafe,
            "{kind:?} must be unsafe in v0",
        );
    }
}

#[test]
fn register_boundaries_require_no_merges() {
    let plan = test_plan(
        &["a", "b", "c"],
        vec![
            test_boundary(RuntimePartitionSignalKind::Register, Some("a"), &["b"]),
            test_boundary(RuntimePartitionSignalKind::Input, Some("b"), &["c"]),
        ],
    );
    assert!(legal_partition_merge_groups(&plan).is_empty());
}

#[test]
fn combinational_boundary_merges_producer_and_consumer() {
    let plan = test_plan(
        &["a", "b", "c"],
        vec![test_boundary(
            RuntimePartitionSignalKind::Wire,
            Some("a"),
            &["b"],
        )],
    );
    // a and b merge; c stays independent (singletons omitted).
    assert_eq!(
        legal_partition_merge_groups(&plan),
        vec![vec!["a".to_string(), "b".to_string()]],
    );
}

#[test]
fn combinational_boundaries_merge_transitively() {
    // a->b (wire) and b->c (wire) must collapse {a,b,c} into one group,
    // while d, reached only by a register edge, stays separate.
    let plan = test_plan(
        &["a", "b", "c", "d"],
        vec![
            test_boundary(RuntimePartitionSignalKind::Wire, Some("a"), &["b"]),
            test_boundary(RuntimePartitionSignalKind::Output, Some("b"), &["c"]),
            test_boundary(RuntimePartitionSignalKind::Register, Some("c"), &["d"]),
        ],
    );
    assert_eq!(
        legal_partition_merge_groups(&plan),
        vec![vec!["a".to_string(), "b".to_string(), "c".to_string()]],
    );
}

#[test]
fn top_level_combinational_boundary_imposes_no_merge() {
    // No in-partition producer (top-level port) → no internal cross-partition
    // edge to resolve, even though the kind is combinational.
    let plan = test_plan(
        &["a", "b"],
        vec![test_boundary(
            RuntimePartitionSignalKind::Wire,
            None,
            &["a", "b"],
        )],
    );
    assert!(legal_partition_merge_groups(&plan).is_empty());
}

fn test_partition_cost(id: &str, compute_ops: u64) -> RuntimePartition {
    let mut partition = test_partition(id);
    partition.cost = RuntimePartitionCost {
        compute_ops,
        state_bits: compute_ops, // arbitrary but distinct so sums are checkable
        memory_bits: 0,
        boundary_bits: 0,
    };
    partition
}

#[test]
fn legalize_keeps_independent_register_partitions_separate() {
    let mut plan = test_plan(
        &[],
        vec![test_boundary(
            RuntimePartitionSignalKind::Register,
            Some("a"),
            &["b"],
        )],
    );
    plan.partitions = vec![test_partition_cost("a", 10), test_partition_cost("b", 20)];

    let legal = legalize_partition_plan(&plan);
    assert_eq!(legal.groups.len(), 2);
    assert_eq!(legal.groups[0].members, vec!["a".to_string()]);
    assert_eq!(legal.groups[1].members, vec!["b".to_string()]);
    // The register boundary crosses a group edge → it is in the exchange set.
    assert_eq!(legal.exchange_boundaries.len(), 1);
}

#[test]
fn legalize_merges_combinational_partitions_and_sums_cost() {
    let mut plan = test_plan(
        &[],
        vec![test_boundary(
            RuntimePartitionSignalKind::Wire,
            Some("a"),
            &["b"],
        )],
    );
    plan.partitions = vec![test_partition_cost("a", 10), test_partition_cost("b", 20)];

    let legal = legalize_partition_plan(&plan);
    assert_eq!(legal.groups.len(), 1);
    assert_eq!(
        legal.groups[0].members,
        vec!["a".to_string(), "b".to_string()]
    );
    assert_eq!(legal.groups[0].id, "a+b");
    assert_eq!(legal.groups[0].cost.compute_ops, 30);
    assert_eq!(legal.groups[0].cost.state_bits, 30);
    // The only boundary is now internal to the merged group → not exchanged.
    assert!(legal.exchange_boundaries.is_empty());
}

#[test]
fn legalize_drops_internal_but_keeps_cross_group_boundaries() {
    // a~b merge (wire); a->c is a register edge that survives as exchange.
    let mut plan = test_plan(
        &[],
        vec![
            test_boundary(RuntimePartitionSignalKind::Wire, Some("a"), &["b"]),
            test_boundary(RuntimePartitionSignalKind::Register, Some("b"), &["c"]),
        ],
    );
    plan.partitions = vec![
        test_partition_cost("a", 1),
        test_partition_cost("b", 2),
        test_partition_cost("c", 4),
    ];

    let legal = legalize_partition_plan(&plan);
    assert_eq!(legal.groups.len(), 2);
    // Group {a,b} and group {c}.
    assert!(legal.groups.iter().any(|g| g.members == vec!["a", "b"]));
    assert!(legal.groups.iter().any(|g| g.members == vec!["c"]));
    // b->c register boundary crosses the {a,b}|{c} edge → exchanged.
    assert_eq!(legal.exchange_boundaries.len(), 1);
    assert_eq!(
        legal.exchange_boundaries[0].signal.kind,
        RuntimePartitionSignalKind::Register
    );
}

#[test]
fn stable_boundary_is_exchanged_and_combinational_stays_inside() {
    let plan = test_plan(
        &["a", "b", "c"],
        vec![
            test_boundary(RuntimePartitionSignalKind::Wire, Some("c"), &["a"]),
            test_boundary(RuntimePartitionSignalKind::Register, Some("a"), &["b", "c"]),
        ],
    );
    let legal = legalize_partition_plan(&plan);
    assert_eq!(legal.groups.len(), 2);
    assert_eq!(legal.groups[0].members, vec!["a".to_string(), "c".to_string()]);
    for boundary in &legal.exchange_boundaries {
        assert_eq!(classify_partition_boundary(boundary), BoundaryLegality::RegisterStable);
    }
    assert_eq!(legal.exchange_boundaries.len(), 1);
}

#[test]
fn boundary_without_a_consumer_group_is_not_exchanged_when_combinational() {
    let plan = test_plan(
        &["a"],
        vec![test_boundary(RuntimePartitionSignalKind::Wire, Some("a"), &["elsewhere"])],
    );
    let legal = legalize_partition_plan(&plan);
    assert_eq!(legal.groups.len(), 1);
    assert!(legal.exchange_boundaries.is_empty());
}

#[test]
fn merging_keeps_costs_and_groups() {
    let cost = |n: u64| RuntimePartitionCost {
        compute_ops: n,
        state_bits: 10 * n,
        memory_bits: 100 * n,
        boundary_bits: 1000 * n,
    };
    let mut plan = test_plan(
        &["c", "a", "d", "b"],
        vec![
            test_boundary(RuntimePartitionSignalKind::Wire, Some("b"), &["d"]),
            test_boundary(RuntimePartitionSignalKind::Register, Some("a"), &["b"]),
            test_boundary(RuntimePartitionSignalKind::Register, Some("b"), &["d"]),
            test_boundary(RuntimePartitionSignalKind::Input, None, &["a", "c"]),
        ],
    );
    for (n, partition) in plan.partitions.iter_mut().enumerate() {
        partition.cost = cost(1 << n);
    }
    let legal = legalize_partition_plan(&plan);
    let costs: Vec<_> = legal.groups.iter().map(|group| (group.id.as_str(), group.cost)).collect();
    assert_eq!(costs, vec![("a", cost(2)), ("b+d", cost(12)), ("c", cost(1))]);
    let total: u64 = legal.groups.iter().map(|group| group.cost.compute_ops).sum();
    assert_eq!(total, 15);

    let multiple: Vec<_> = legal
        .groups
        .iter()
        .filter(|group| group.members.len() > 1)
        .map(|group| group.members.clone())
        .collect();
    assert_eq!(multiple, legal_partition_merge_groups(&plan));
    // Only the register from `a` to `b` leads out of the group of its producer.
    assert_eq!(legal.exchange_boundaries, vec![plan.boundary_signals[1].clone()]);
}

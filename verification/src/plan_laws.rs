//! What a plan of partitions owes its design: the operations of expressions, the costs of modules
//! and the signals between partitions.

use vstd::prelude::*;

use crate::collect::{
    concat_below, gather, lemma_concat_contains, lemma_gather_contains, lemma_sum_below_same,
};
use crate::conservation::lemma_sum_by_index;
use crate::hierarchy::{
    assignment_work, check_ops, checks_work, child_of, expr_ops, exprs_ops, has_name,
    hierarchy_ends, local_work, memory_bits, memory_state, memory_write_work, module_named, register_bits, register_state,
    register_work, signal_at,
};
use crate::model::design::{
    CompiledCheck, CompiledDesign, CompiledModule, Expr, PortDirection, Signal, SignalKind,
};
use crate::model::partition::{
    RuntimePartitionBoundarySignal, RuntimePartitionBoundarySignalView, RuntimePartitionView,
};
use crate::order::lemma_sorted_by_key_contains;
use crate::partitions::{
    boundary_consumers, boundary_cost, connection_boundary, is_at_path, lemma_plan_costs_fit, module_at,
    partition_at_path, partition_plan, partition_plan_fits, partition_plan_problem, planned_partitions, region_boundaries, ByPort,
};
use crate::regions::{has_instance_name, instance_named, planned_regions, PartitionRegionView};
use crate::seqs::{
    lemma_first_index, lemma_first_index_is, lemma_last_index, lemma_last_index_is,
    lemma_sum_by_push, sum_by,
};

verus! {

// ---------------------------------------------------------------------------
// Expressions
// ---------------------------------------------------------------------------

/// The direct subexpressions of an expression.
pub open spec fn subexpressions(e: Expr) -> Seq<Expr> {
    match e {
        Expr::Lit { .. } => seq![],
        Expr::Signal(_) => seq![],
        Expr::Not(x) => seq![*x],
        Expr::Slice { expr, .. } => seq![*expr],
        Expr::Zext { expr, .. } => seq![*expr],
        Expr::Sext { expr, .. } => seq![*expr],
        Expr::Trunc { expr, .. } => seq![*expr],
        Expr::Cast { expr, .. } => seq![*expr],
        Expr::And(a, b) => seq![*a, *b],
        Expr::Or(a, b) => seq![*a, *b],
        Expr::Xor(a, b) => seq![*a, *b],
        Expr::Add(a, b) => seq![*a, *b],
        Expr::Sub(a, b) => seq![*a, *b],
        Expr::Mul(a, b) => seq![*a, *b],
        Expr::Eq(a, b) => seq![*a, *b],
        Expr::Ne(a, b) => seq![*a, *b],
        Expr::Lt(a, b) => seq![*a, *b],
        Expr::Mux { cond, then_expr, else_expr } => seq![*cond, *then_expr, *else_expr],
        Expr::Concat(es) => es@,
        Expr::MemRead { addr, .. } => seq![*addr],
    }
}

/// The nodes of the tree that an expression is.
pub open spec fn expression_nodes(e: Expr) -> nat
    decreases e,
{
    match e {
        Expr::Lit { .. } => 1,
        Expr::Signal(_) => 1,
        Expr::Not(x) => 1 + expression_nodes(*x),
        Expr::Slice { expr, .. } => 1 + expression_nodes(*expr),
        Expr::Zext { expr, .. } => 1 + expression_nodes(*expr),
        Expr::Sext { expr, .. } => 1 + expression_nodes(*expr),
        Expr::Trunc { expr, .. } => 1 + expression_nodes(*expr),
        Expr::Cast { expr, .. } => 1 + expression_nodes(*expr),
        Expr::And(a, b) => 1 + expression_nodes(*a) + expression_nodes(*b),
        Expr::Or(a, b) => 1 + expression_nodes(*a) + expression_nodes(*b),
        Expr::Xor(a, b) => 1 + expression_nodes(*a) + expression_nodes(*b),
        Expr::Add(a, b) => 1 + expression_nodes(*a) + expression_nodes(*b),
        Expr::Sub(a, b) => 1 + expression_nodes(*a) + expression_nodes(*b),
        Expr::Mul(a, b) => 1 + expression_nodes(*a) + expression_nodes(*b),
        Expr::Eq(a, b) => 1 + expression_nodes(*a) + expression_nodes(*b),
        Expr::Ne(a, b) => 1 + expression_nodes(*a) + expression_nodes(*b),
        Expr::Lt(a, b) => 1 + expression_nodes(*a) + expression_nodes(*b),
        Expr::Mux { cond, then_expr, else_expr } => 1 + expression_nodes(*cond)
            + expression_nodes(*then_expr) + expression_nodes(*else_expr),
        Expr::Concat(es) => 1 + list_nodes(es@),
        Expr::MemRead { addr, .. } => 1 + expression_nodes(*addr),
    }
}

/// The nodes of a list of expressions.
pub open spec fn list_nodes(es: Seq<Expr>) -> nat
    decreases es,
{
    if es.len() == 0 {
        0
    } else {
        list_nodes(es.drop_last()) + expression_nodes(es.last())
    }
}

proof fn lemma_sum_of_two<A>(a: A, b: A, f: spec_fn(A) -> int)
    ensures
        sum_by(seq![a], f) == f(a),
        sum_by(seq![a, b], f) == f(a) + f(b),
{
    assert(seq![a] =~= Seq::<A>::empty().push(a));
    lemma_sum_by_push(Seq::<A>::empty(), a, f);
    assert(seq![a, b] =~= seq![a].push(b));
    lemma_sum_by_push(seq![a], b, f);
}

proof fn lemma_sum_of_three<A>(a: A, b: A, c: A, f: spec_fn(A) -> int)
    ensures
        sum_by(seq![a, b, c], f) == f(a) + f(b) + f(c),
{
    lemma_sum_of_two(a, b, f);
    assert(seq![a, b, c] =~= seq![a, b].push(c));
    lemma_sum_by_push(seq![a, b], c, f);
}

proof fn lemma_list_ops(es: Seq<Expr>)
    ensures
        exprs_ops(es) == sum_by(es, |x: Expr| expr_ops(x)),
    decreases es.len(),
{
    if es.len() > 0 {
        lemma_list_ops(es.drop_last());
    }
}

/// An expression takes the operations of all its direct subexpressions together and one of its
/// own, or two where it reads a memory.
pub proof fn lemma_expression_adds_its_parts(e: Expr)
    ensures
        expr_ops(e) >= 1 + sum_by(subexpressions(e), |x: Expr| expr_ops(x)),
        expr_ops(e) - sum_by(subexpressions(e), |x: Expr| expr_ops(x)) == (if e is MemRead {
            2int
        } else {
            1int
        }),
{
    let f = |x: Expr| expr_ops(x);
    match e {
        Expr::Lit { .. } => {},
        Expr::Signal(_) => {},
        Expr::Not(x) => lemma_sum_of_two(*x, *x, f),
        Expr::Slice { expr, .. } => lemma_sum_of_two(*expr, *expr, f),
        Expr::Zext { expr, .. } => lemma_sum_of_two(*expr, *expr, f),
        Expr::Sext { expr, .. } => lemma_sum_of_two(*expr, *expr, f),
        Expr::Trunc { expr, .. } => lemma_sum_of_two(*expr, *expr, f),
        Expr::Cast { expr, .. } => lemma_sum_of_two(*expr, *expr, f),
        Expr::And(a, b) => lemma_sum_of_two(*a, *b, f),
        Expr::Or(a, b) => lemma_sum_of_two(*a, *b, f),
        Expr::Xor(a, b) => lemma_sum_of_two(*a, *b, f),
        Expr::Add(a, b) => lemma_sum_of_two(*a, *b, f),
        Expr::Sub(a, b) => lemma_sum_of_two(*a, *b, f),
        Expr::Mul(a, b) => lemma_sum_of_two(*a, *b, f),
        Expr::Eq(a, b) => lemma_sum_of_two(*a, *b, f),
        Expr::Ne(a, b) => lemma_sum_of_two(*a, *b, f),
        Expr::Lt(a, b) => lemma_sum_of_two(*a, *b, f),
        Expr::Mux { cond, then_expr, else_expr } => lemma_sum_of_three(
            *cond,
            *then_expr,
            *else_expr,
            f,
        ),
        Expr::Concat(es) => lemma_list_ops(es@),
        Expr::MemRead { addr, .. } => lemma_sum_of_two(*addr, *addr, f),
    }
}

proof fn lemma_list_has_nodes(es: Seq<Expr>)
    ensures
        list_nodes(es) <= exprs_ops(es) <= 2 * list_nodes(es),
    decreases es,
{
    if es.len() > 0 {
        lemma_list_has_nodes(es.drop_last());
        lemma_every_node_is_an_operation(es.last());
    }
}

/// An expression takes an operation for every node, and at most two.
pub proof fn lemma_every_node_is_an_operation(e: Expr)
    ensures
        expression_nodes(e) <= expr_ops(e) <= 2 * expression_nodes(e),
    decreases e,
{
    match e {
        Expr::Lit { .. } => {},
        Expr::Signal(_) => {},
        Expr::Not(x) => lemma_every_node_is_an_operation(*x),
        Expr::Slice { expr, .. } => lemma_every_node_is_an_operation(*expr),
        Expr::Zext { expr, .. } => lemma_every_node_is_an_operation(*expr),
        Expr::Sext { expr, .. } => lemma_every_node_is_an_operation(*expr),
        Expr::Trunc { expr, .. } => lemma_every_node_is_an_operation(*expr),
        Expr::Cast { expr, .. } => lemma_every_node_is_an_operation(*expr),
        Expr::And(a, b) => {
            lemma_every_node_is_an_operation(*a);
            lemma_every_node_is_an_operation(*b);
        },
        Expr::Or(a, b) => {
            lemma_every_node_is_an_operation(*a);
            lemma_every_node_is_an_operation(*b);
        },
        Expr::Xor(a, b) => {
            lemma_every_node_is_an_operation(*a);
            lemma_every_node_is_an_operation(*b);
        },
        Expr::Add(a, b) => {
            lemma_every_node_is_an_operation(*a);
            lemma_every_node_is_an_operation(*b);
        },
        Expr::Sub(a, b) => {
            lemma_every_node_is_an_operation(*a);
            lemma_every_node_is_an_operation(*b);
        },
        Expr::Mul(a, b) => {
            lemma_every_node_is_an_operation(*a);
            lemma_every_node_is_an_operation(*b);
        },
        Expr::Eq(a, b) => {
            lemma_every_node_is_an_operation(*a);
            lemma_every_node_is_an_operation(*b);
        },
        Expr::Ne(a, b) => {
            lemma_every_node_is_an_operation(*a);
            lemma_every_node_is_an_operation(*b);
        },
        Expr::Lt(a, b) => {
            lemma_every_node_is_an_operation(*a);
            lemma_every_node_is_an_operation(*b);
        },
        Expr::Mux { cond, then_expr, else_expr } => {
            lemma_every_node_is_an_operation(*cond);
            lemma_every_node_is_an_operation(*then_expr);
            lemma_every_node_is_an_operation(*else_expr);
        },
        Expr::Concat(es) => lemma_list_has_nodes(es@),
        Expr::MemRead { addr, .. } => lemma_every_node_is_an_operation(*addr),
    }
}

// ---------------------------------------------------------------------------
// Costs of modules
// ---------------------------------------------------------------------------

proof fn lemma_same_assignments(a: CompiledModule, b: CompiledModule)
    requires
        a.assignments == b.assignments,
    ensures
        assignment_work(a) == assignment_work(b),
{
    lemma_sum_below_same(
        a.assignments@.len(),
        |i: int| expr_ops(a.assignments@[i].expr),
        |i: int| expr_ops(b.assignments@[i].expr),
    );
}

proof fn lemma_same_registers(a: CompiledModule, b: CompiledModule)
    requires
        a.registers == b.registers,
    ensures
        register_work(a) == register_work(b),
        a.signals == b.signals ==> register_state(a) == register_state(b),
{
    lemma_sum_below_same(
        a.registers@.len(),
        |i: int| 1 + expr_ops(a.registers@[i].next),
        |i: int| 1 + expr_ops(b.registers@[i].next),
    );
    if a.signals == b.signals {
        let f = |i: int| register_bits(a, a.registers@[i].signal);
        let g = |i: int| register_bits(b, b.registers@[i].signal);
        assert forall|i: int| 0 <= i < a.registers@.len() implies #[trigger] f(i) == g(i) by {
            lemma_same_signal(a, b, a.registers@[i].signal);
        }
        lemma_sum_below_same(a.registers@.len(), f, g);
    }
}

proof fn lemma_same_signal(a: CompiledModule, b: CompiledModule, signal: Signal)
    requires
        a.signals == b.signals,
    ensures
        signal_at(a, signal) == signal_at(b, signal),
{
    let p = |i: int| a.signals@[i].handle == signal;
    let q = |i: int| b.signals@[i].handle == signal;
    lemma_first_index(a.signals@.len(), p);
    lemma_first_index(b.signals@.len(), q);
    assert(forall|i: int| #[trigger] p(i) == q(i));
}

proof fn lemma_same_writes(a: CompiledModule, b: CompiledModule)
    requires
        a.memory_writes == b.memory_writes,
    ensures
        memory_write_work(a) == memory_write_work(b),
{
    lemma_sum_below_same(
        a.memory_writes@.len(),
        |i: int|
            1 + expr_ops(a.memory_writes@[i].enable) + expr_ops(a.memory_writes@[i].addr)
                + expr_ops(a.memory_writes@[i].data),
        |i: int|
            1 + expr_ops(b.memory_writes@[i].enable) + expr_ops(b.memory_writes@[i].addr)
                + expr_ops(b.memory_writes@[i].data),
    );
}

proof fn lemma_same_memories(a: CompiledModule, b: CompiledModule)
    requires
        a.signals == b.signals,
    ensures
        memory_state(a) == memory_state(b),
{
    lemma_sum_below_same(
        a.signals@.len(),
        |i: int| memory_bits(a.signals@[i].kind),
        |i: int| memory_bits(b.signals@[i].kind),
    );
}

/// An assignment costs the operations of its expression: a module with one more computes that
/// much more, and stores the same.
pub proof fn lemma_assignment_costs(a: CompiledModule, b: CompiledModule)
    requires
        b.assignments@.len() == a.assignments@.len() + 1,
        b.assignments@.drop_last() == a.assignments@,
        b.registers == a.registers,
        b.memory_writes == a.memory_writes,
        b.assertions == a.assertions,
        b.cover_points == a.cover_points,
        b.signals == a.signals,
    ensures
        local_work(b).compute == local_work(a).compute + expr_ops(b.assignments@.last().expr),
        local_work(b).state == local_work(a).state,
        local_work(b).memory == local_work(a).memory,
{
    let f = |i: int| expr_ops(a.assignments@[i].expr);
    let g = |i: int| expr_ops(b.assignments@[i].expr);
    assert forall|i: int| 0 <= i < a.assignments@.len() implies #[trigger] f(i) == g(i) by {
        assert(b.assignments@.drop_last()[i] == b.assignments@[i]);
    }
    lemma_sum_below_same(a.assignments@.len(), f, g);
    lemma_same_registers(a, b);
    lemma_same_writes(a, b);
    lemma_same_memories(a, b);
}

/// A register costs one operation more than the expression of its next value takes, and stores
/// the width of the signal that holds it.
pub proof fn lemma_register_costs(a: CompiledModule, b: CompiledModule, s: int)
    requires
        b.registers@.len() == a.registers@.len() + 1,
        b.registers@.drop_last() == a.registers@,
        b.assignments == a.assignments,
        b.memory_writes == a.memory_writes,
        b.assertions == a.assertions,
        b.cover_points == a.cover_points,
        b.signals == a.signals,
        0 <= s < b.signals@.len(),
        b.signals@[s].handle == b.registers@.last().signal,
        forall|j: int|
            0 <= j < s ==> (#[trigger] b.signals@[j]).handle != b.registers@.last().signal,
    ensures
        local_work(b).compute == local_work(a).compute + 1 + expr_ops(b.registers@.last().next),
        local_work(b).state == local_work(a).state + b.signals@[s].width,
        local_work(b).memory == local_work(a).memory,
{
    let f = |i: int| 1 + expr_ops(a.registers@[i].next);
    let g = |i: int| 1 + expr_ops(b.registers@[i].next);
    assert forall|i: int| 0 <= i < a.registers@.len() implies #[trigger] f(i) == g(i) by {
        assert(b.registers@.drop_last()[i] == b.registers@[i]);
    }
    lemma_sum_below_same(a.registers@.len(), f, g);
    let f2 = |i: int| register_bits(a, a.registers@[i].signal);
    let g2 = |i: int| register_bits(b, b.registers@[i].signal);
    assert forall|i: int| 0 <= i < a.registers@.len() implies #[trigger] f2(i) == g2(i) by {
        assert(b.registers@.drop_last()[i] == b.registers@[i]);
        lemma_same_signal(a, b, a.registers@[i].signal);
    }
    lemma_sum_below_same(a.registers@.len(), f2, g2);
    let p = |i: int| b.signals@[i].handle == b.registers@.last().signal;
    assert(forall|j: int| 0 <= j < s ==> !#[trigger] p(j));
    lemma_first_index_is(b.signals@.len(), p, s);
    lemma_same_assignments(a, b);
    lemma_same_writes(a, b);
    lemma_same_memories(a, b);
}

/// A memory write costs one operation more than its enable, address and data take.
pub proof fn lemma_memory_write_costs(a: CompiledModule, b: CompiledModule)
    requires
        b.memory_writes@.len() == a.memory_writes@.len() + 1,
        b.memory_writes@.drop_last() == a.memory_writes@,
        b.assignments == a.assignments,
        b.registers == a.registers,
        b.assertions == a.assertions,
        b.cover_points == a.cover_points,
        b.signals == a.signals,
    ensures
        local_work(b).compute == local_work(a).compute + 1 + expr_ops(
            b.memory_writes@.last().enable,
        ) + expr_ops(b.memory_writes@.last().addr) + expr_ops(b.memory_writes@.last().data),
        local_work(b).state == local_work(a).state,
        local_work(b).memory == local_work(a).memory,
{
    let f = |i: int|
        1 + expr_ops(a.memory_writes@[i].enable) + expr_ops(a.memory_writes@[i].addr) + expr_ops(
            a.memory_writes@[i].data,
        );
    let g = |i: int|
        1 + expr_ops(b.memory_writes@[i].enable) + expr_ops(b.memory_writes@[i].addr) + expr_ops(
            b.memory_writes@[i].data,
        );
    assert forall|i: int| 0 <= i < a.memory_writes@.len() implies #[trigger] f(i) == g(i) by {
        assert(b.memory_writes@.drop_last()[i] == b.memory_writes@[i]);
    }
    lemma_sum_below_same(a.memory_writes@.len(), f, g);
    lemma_same_assignments(a, b);
    lemma_same_registers(a, b);
    lemma_same_memories(a, b);
}

proof fn lemma_one_more_check(checks: Seq<CompiledCheck>)
    requires
        checks.len() > 0,
    ensures
        checks_work(checks) == checks_work(checks.drop_last()) + expr_ops(checks.last().condition)
            + match checks.last().enable {
            Some(enable) => expr_ops(enable),
            None => 0,
        },
{
    let shorter = checks.drop_last();
    let f = |i: int| check_ops(shorter[i]);
    let g = |i: int| check_ops(checks[i]);
    lemma_sum_below_same(shorter.len(), f, g);
}

/// An assertion and a cover point cost the operations of their condition, and of their enable
/// where they have one.
pub proof fn lemma_check_costs(a: CompiledModule, b: CompiledModule, check: CompiledCheck)
    requires
        ({
            ||| b.assertions@ == a.assertions@.push(check) && b.cover_points == a.cover_points
            ||| b.cover_points@ == a.cover_points@.push(check) && b.assertions == a.assertions
        }),
        b.assignments == a.assignments,
        b.registers == a.registers,
        b.memory_writes == a.memory_writes,
        b.signals == a.signals,
    ensures
        local_work(b).compute == local_work(a).compute + expr_ops(check.condition)
            + match check.enable {
            Some(enable) => expr_ops(enable),
            None => 0,
        },
        local_work(b).state == local_work(a).state,
        local_work(b).memory == local_work(a).memory,
{
    if b.assertions@ == a.assertions@.push(check) && b.cover_points == a.cover_points {
        lemma_one_more_check(b.assertions@);
        assert(b.assertions@.drop_last() =~= a.assertions@);
    } else {
        lemma_one_more_check(b.cover_points@);
        assert(b.cover_points@.drop_last() =~= a.cover_points@);
    }
    lemma_same_assignments(a, b);
    lemma_same_registers(a, b);
    lemma_same_writes(a, b);
    lemma_same_memories(a, b);
}

/// A memory stores all bits of all its words; no other signal stores any by itself.
pub proof fn lemma_memory_costs(a: CompiledModule, b: CompiledModule)
    requires
        b.signals@.len() == a.signals@.len() + 1,
        b.signals@.drop_last() == a.signals@,
    ensures
        local_work(b).memory == local_work(a).memory + match b.signals@.last().kind {
            SignalKind::Mem { data_width, depth, .. } => data_width * depth,
            _ => 0,
        },
{
    let f = |i: int| memory_bits(a.signals@[i].kind);
    let g = |i: int| memory_bits(b.signals@[i].kind);
    assert forall|i: int| 0 <= i < a.signals@.len() implies #[trigger] f(i) == g(i) by {
        assert(b.signals@.drop_last()[i] == b.signals@[i]);
    }
    lemma_sum_below_same(a.signals@.len(), f, g);
}

/// A module without anything in it costs nothing.
pub proof fn lemma_empty_module_costs(module: CompiledModule)
    requires
        module.assignments@.len() == 0,
        module.registers@.len() == 0,
        module.memory_writes@.len() == 0,
        module.assertions@.len() == 0,
        module.cover_points@.len() == 0,
        module.signals@.len() == 0,
    ensures
        local_work(module).compute == 0,
        local_work(module).state == 0,
        local_work(module).memory == 0,
{
}

// ---------------------------------------------------------------------------
// Signals between partitions
// ---------------------------------------------------------------------------

/// Whether instance `k` of module `m`, the first of its name, holds module `child`.
pub open spec fn is_step(design: CompiledDesign, m: int, k: int, name: Seq<char>, child: int) -> bool {
    let instances = design.modules@[m].instances@;
    &&& 0 <= k < instances.len()
    &&& instances[k].name@ == name
    &&& forall|j: int| 0 <= j < k ==> (#[trigger] instances[j]).name@ != name
    &&& 0 <= child < design.modules@.len()
    &&& design.modules@[child].name@ == instances[k].module@
    &&& forall|j: int|
        0 <= j < child ==> (#[trigger] design.modules@[j]).name@ != instances[k].module@
}

/// Whether a path leads from module `top` through instances `steps` to the modules listed.
pub open spec fn leads_through(
    design: CompiledDesign,
    top: int,
    path: Seq<Seq<char>>,
    modules: Seq<int>,
    steps: Seq<int>,
) -> bool {
    &&& path.len() == modules.len() == steps.len() + 1
    &&& modules[0] == top
    &&& path[0] == design.modules@[top].name@
    &&& forall|j: int|
        0 <= j < steps.len() ==> is_step(
            design,
            modules[j],
            #[trigger] steps[j],
            path[j + 1],
            modules[j + 1],
        )
}

proof fn lemma_step_is_found(design: CompiledDesign, m: int, k: int, name: Seq<char>, child: int)
    requires
        is_step(design, m, k, name, child),
    ensures
        instance_named(design, m, name) == Some(k),
        child_of(design, m, k) == Some(child),
{
    let instances = design.modules@[m].instances@;
    assert forall|j: int| 0 <= j < k implies !#[trigger] has_instance_name(design, m, name)(j) by {
        assert(instances[j].name@ != name);
    }
    lemma_first_index_is(instances.len(), has_instance_name(design, m, name), k);
    let sought = instances[k].module@;
    assert forall|j: int| 0 <= j < child implies !#[trigger] has_name(design, sought)(j) by {
        assert(design.modules@[j].name@ != sought);
    }
    lemma_first_index_is(design.modules@.len(), has_name(design, sought), child);
}

proof fn lemma_path_is_followed(
    design: CompiledDesign,
    top: int,
    path: Seq<Seq<char>>,
    modules: Seq<int>,
    steps: Seq<int>,
    n: nat,
)
    requires
        leads_through(design, top, path, modules, steps),
        1 <= n <= path.len(),
    ensures
        module_at(design, top, path, n) == Some(modules[n - 1]),
    decreases n,
{
    if n > 1 {
        lemma_path_is_followed(design, top, path, modules, steps, (n - 1) as nat);
        lemma_step_is_found(design, modules[n - 2], steps[n - 2], path[n - 1], modules[n - 1]);
    }
}

/// Whether a boundary joins a partition and the one around it, where there is one, in the
/// direction of a port.
pub open spec fn joins(
    boundary: RuntimePartitionBoundarySignalView,
    direction: PortDirection,
    around: Option<Seq<char>>,
    inside: Seq<char>,
) -> bool {
    match direction {
        PortDirection::Input => {
            &&& boundary.producer_partition == around
            &&& boundary.consumer_partitions == seq![inside]
        },
        PortDirection::Output => {
            &&& boundary.producer_partition == Some(inside)
            &&& forall|id: Seq<char>| #[trigger]
                boundary.consumer_partitions.contains(id) <==> around == Some(id)
        },
        PortDirection::Inout => {
            &&& boundary.producer_partition is None
            &&& forall|id: Seq<char>| #[trigger]
                boundary.consumer_partitions.contains(id) <==> id == inside || around == Some(id)
        },
    }
}

/// The id of the last of the partitions that lie at a path.
pub open spec fn lies_at(
    partitions: Seq<RuntimePartitionView>,
    path: Seq<Seq<char>>,
    around: Option<Seq<char>>,
) -> bool {
    match around {
        Some(id) => exists|e: int|
            0 <= e < partitions.len() && (#[trigger] partitions[e]).instance_path == path
                && partitions[e].id == id && forall|j: int|
                e < j < partitions.len() ==> (#[trigger] partitions[j]).instance_path != path,
        None => forall|j: int|
            0 <= j < partitions.len() ==> (#[trigger] partitions[j]).instance_path != path,
    }
}

proof fn lemma_around(
    design: CompiledDesign,
    regions: Seq<PartitionRegionView>,
    path: Seq<Seq<char>>,
    around: Option<Seq<char>>,
)
    requires
        lies_at(planned_partitions(design, regions), path, around),
    ensures
        partition_at_path(regions, path) == around,
{
    let partitions = planned_partitions(design, regions);
    let p = is_at_path(regions, path);
    assert forall|j: int| 0 <= j < regions.len() implies (partitions[j].instance_path == path)
        == #[trigger] p(j) by {}
    lemma_last_index(regions.len(), p);
    match around {
        Some(id) => {
            let e = choose|e: int|
                0 <= e < partitions.len() && (#[trigger] partitions[e]).instance_path == path
                    && partitions[e].id == id && forall|j: int|
                    e < j < partitions.len() ==> (#[trigger] partitions[j]).instance_path != path;
            assert(p(e));
            assert forall|j: int| e < j < regions.len() implies !#[trigger] p(j) by {
                assert(partitions[j].instance_path != path);
            }
            lemma_last_index_is(regions.len(), p, e);
        },
        None => {
            assert forall|j: int| 0 <= j < regions.len() implies !#[trigger] p(j) by {
                assert(partitions[j].instance_path != path);
            }
        },
    }
}

/// The signals of every partition below the top are listed, however deep it lies: for each
/// connection of its instance to a signal of the module around it, the plan has a boundary with
/// the path of the partition and the port, between the partition and the one around it, and as
/// wide as the connection.
#[verifier::spinoff_prover]
pub proof fn lemma_every_connection_is_a_boundary(
    design: CompiledDesign,
    module_name: Seq<char>,
    target: int,
    r: int,
    modules: Seq<int>,
    steps: Seq<int>,
    around: Option<Seq<char>>,
    c: int,
    s: int,
) -> (b: int)
    requires
        ({
            let plan = partition_plan(design, module_name, target);
            let path = plan.partitions[r].instance_path;
            let parent = design.modules@[modules[path.len() - 2]];
            let connections = parent.instances@[steps.last()].connections@;
            &&& module_named(design, module_name) is Some
            &&& 0 <= r < plan.partitions.len()
            &&& path.len() >= 2
            &&& leads_through(
                design,
                module_named(design, module_name)->0,
                path,
                modules,
                steps,
            )
            &&& lies_at(plan.partitions, path.drop_last(), around)
            &&& 0 <= c < connections.len()
            &&& 0 <= s < parent.signals@.len()
            &&& parent.signals@[s].handle == connections[c].signal
            &&& forall|j: int|
                0 <= j < s ==> (#[trigger] parent.signals@[j]).handle != connections[c].signal
        }),
    ensures
        ({
            let plan = partition_plan(design, module_name, target);
            let path = plan.partitions[r].instance_path;
            let parent = design.modules@[modules[path.len() - 2]];
            let connection = parent.instances@[steps.last()].connections@[c];
            let boundary = plan.boundary_signals[b];
            &&& 0 <= b < plan.boundary_signals.len()
            &&& boundary.instance_path == path
            &&& boundary.port_name == connection.port@
            &&& boundary.signal.module_name == parent.name@
            &&& boundary.signal.signal_name == parent.signals@[s].name@
            &&& boundary.signal.signal == connection.signal
            &&& boundary.signal.width == parent.signals@[s].width
            &&& boundary.width == connection.width
            &&& joins(boundary, connection.direction, around, plan.partitions[r].id)
        }),
{
    let plan = partition_plan(design, module_name, target);
    let top = module_named(design, module_name)->0;
    let regions = planned_regions(design, top, target);
    let path = regions[r].instance_path;
    assert(plan.partitions == planned_partitions(design, regions));
    let m = modules[path.len() - 2];
    let k = steps.last();
    let parent = design.modules@[m];
    lemma_path_is_followed(design, top, path, modules, steps, (path.len() - 1) as nat);
    assert(steps[steps.len() - 1] == k);
    lemma_step_is_found(design, m, k, path.last(), modules[path.len() - 1]);
    lemma_around(design, regions, path.drop_last(), around);
    let connection = parent.instances@[k].connections@[c];
    let p = |i: int| parent.signals@[i].handle == connection.signal;
    assert(forall|j: int| 0 <= j < s ==> !#[trigger] p(j));
    lemma_first_index_is(parent.signals@.len(), p, s);
    let g = |c: int|
        connection_boundary(
            design,
            m,
            k,
            path,
            partition_at_path(regions, path.drop_last()),
            regions[r].id,
            c,
        );
    let boundary = connection_boundary(design, m, k, path, around, regions[r].id, c)->0;
    assert(g(c) == Some(boundary));
    lemma_gather_contains(parent.instances@[k].connections@.len(), g, boundary);
    let all = |x: int| region_boundaries(design, top, regions, x);
    assert(region_boundaries(design, top, regions, r) == gather(
        parent.instances@[k].connections@.len(),
        g,
    ));
    assert(all(r).contains(boundary));
    lemma_concat_contains(regions.len(), all, boundary);
    lemma_sorted_by_key_contains::<RuntimePartitionBoundarySignal, ByPort>(
        concat_below(regions.len(), all),
        boundary,
    );
    assert(plan.boundary_signals.contains(boundary));
    let b = choose|b: int|
        0 <= b < plan.boundary_signals.len() && plan.boundary_signals[b] == boundary;
    lemma_consumers(connection.direction, around, regions[r].id);
    b
}

proof fn lemma_consumers(direction: PortDirection, around: Option<Seq<char>>, inside: Seq<char>)
    ensures
        ({
            let ids = boundary_consumers(direction, around, inside);
            match direction {
                PortDirection::Input => ids == seq![inside],
                PortDirection::Output => forall|id: Seq<char>| #[trigger]
                    ids.contains(id) <==> around == Some(id),
                PortDirection::Inout => forall|id: Seq<char>| #[trigger]
                    ids.contains(id) <==> id == inside || around == Some(id),
            }
        }),
{
    let ids = boundary_consumers(direction, around, inside);
    match around {
        Some(p) => {
            match direction {
                PortDirection::Input => {},
                PortDirection::Output => {
                    assert(ids[0] == p);
                },
                PortDirection::Inout => {
                    assert(ids[0] == p || ids[0] == inside);
                    if p != inside {
                        assert(ids[1] == p || ids[1] == inside);
                    }
                },
            }
        },
        None => {
            match direction {
                PortDirection::Input => {},
                PortDirection::Output => {},
                PortDirection::Inout => {
                    assert(ids[0] == inside);
                },
            }
        },
    }
}

/// What a boundary costs: its width for every partition that reads it, and at least once.
pub open spec fn bits_moved(boundary: RuntimePartitionBoundarySignalView) -> int {
    boundary.width * (if boundary.consumer_partitions.len() <= 1 {
        1int
    } else {
        boundary.consumer_partitions.len() as int
    })
}

proof fn lemma_cost_of_a_boundary(width: u32, consumers: nat)
    requires
        consumers <= 2,
    ensures
        ({
            let cost = boundary_cost(width, consumers);
            &&& cost.boundary_bits == width * (if consumers <= 1 {
                1int
            } else {
                consumers as int
            })
            &&& cost.compute_ops == 0
            &&& cost.state_bits == 0
            &&& cost.memory_bits == 0
        }),
{
    if consumers == 0 {
        assert(width * 1 <= u64::MAX);
    } else if consumers == 1 {
        assert(width * consumers == width * 1);
    } else {
        assert(consumers == 2);
        assert(width * consumers == width * 2);
        assert(width * 2 <= u64::MAX);
    }
}

/// Every boundary of a plan belongs to a partition below the top, which drives it or reads it,
/// and costs nothing but the bits that it moves.
#[verifier::spinoff_prover]
pub proof fn lemma_every_boundary_has_a_partition(
    design: CompiledDesign,
    module_name: Seq<char>,
    target: int,
    b: int,
) -> (r: int)
    requires
        0 <= b < partition_plan(design, module_name, target).boundary_signals.len(),
    ensures
        ({
            let plan = partition_plan(design, module_name, target);
            let boundary = plan.boundary_signals[b];
            let inside = plan.partitions[r].id;
            &&& 0 <= r < plan.partitions.len()
            &&& boundary.instance_path == plan.partitions[r].instance_path
            &&& boundary.instance_path.len() >= 2
            &&& boundary.producer_partition == Some(inside)
                || boundary.consumer_partitions.contains(inside)
            &&& boundary.cost.boundary_bits == bits_moved(boundary)
            &&& boundary.cost.compute_ops == 0
            &&& boundary.cost.state_bits == 0
            &&& boundary.cost.memory_bits == 0
        }),
{
    let plan = partition_plan(design, module_name, target);
    let boundary = plan.boundary_signals[b];
    let top = module_named(design, module_name)->0;
    let regions = planned_regions(design, top, target);
    let g = |r: int| region_boundaries(design, top, regions, r);
    let all = concat_below(regions.len(), g);
    lemma_sorted_by_key_contains::<RuntimePartitionBoundarySignal, ByPort>(all, boundary);
    assert(plan.boundary_signals.contains(boundary));
    lemma_concat_contains(regions.len(), g, boundary);
    let r = choose|r: int| 0 <= r < regions.len() && (#[trigger] g(r)).contains(boundary);
    let path = regions[r].instance_path;
    let m = module_at(design, top, path, (path.len() - 1) as nat)->0;
    let k = instance_named(design, m, path.last())->0;
    let around = partition_at_path(regions, path.drop_last());
    let h = |c: int| connection_boundary(design, m, k, path, around, regions[r].id, c);
    let connections = design.modules@[m].instances@[k].connections@;
    assert(region_boundaries(design, top, regions, r) == gather(connections.len(), h));
    lemma_gather_contains(connections.len(), h, boundary);
    let c = choose|c: int| 0 <= c < connections.len() && #[trigger] h(c) == Some(boundary);
    lemma_consumers(connections[c].direction, around, regions[r].id);
    assert(seq![regions[r].id][0] == regions[r].id);
    let n = boundary.consumer_partitions.len();
    assert(n <= 2);
    assert(boundary.consumer_partitions.contains(regions[r].id)
        || boundary.producer_partition == Some(regions[r].id));
    lemma_cost_of_a_boundary(boundary.width, n);
    assert(boundary.cost == boundary_cost(boundary.width, n));
    assert(plan.partitions[r].id == regions[r].id);
    assert(plan.partitions[r].instance_path == path);
    r
}

/// The boundary bits of a plan are those that all its boundaries move.
pub proof fn lemma_plan_counts_every_boundary(
    design: CompiledDesign,
    module_name: Seq<char>,
    target: int,
)
    requires
        partition_plan_problem(design, module_name, target) is None,
        hierarchy_ends(design, module_named(design, module_name)->0),
        partition_plan_fits(design, module_name, target),
    ensures
        ({
            let plan = partition_plan(design, module_name, target);
            plan.total_cost.boundary_bits == sum_by(
                plan.boundary_signals,
                |b: RuntimePartitionBoundarySignalView| bits_moved(b),
            )
        }),
{
    let boundaries = partition_plan(design, module_name, target).boundary_signals;
    lemma_plan_costs_fit(design, module_name, target);
    assert forall|b: int| 0 <= b < boundaries.len() implies (
    #[trigger] boundaries[b]).cost.boundary_bits == bits_moved(boundaries[b]) by {
        lemma_every_boundary_has_a_partition(design, module_name, target, b);
    }
    let f = |b: RuntimePartitionBoundarySignalView| bits_moved(b);
    let g = |i: int| boundaries[i].cost.boundary_bits as int;
    lemma_sum_by_index(boundaries, f, g);
}

} // verus!

//! The module hierarchy of a compiled design, and what its modules cost.

use vstd::prelude::*;

use crate::collect::{lemma_sum_below_grows, sum_below, sum_items};
use crate::error::{error, fails_with, report, ErrorReport, ErrorReportView};
use crate::model::design::{
    CompiledCheck, CompiledDesign, CompiledModule, Expr, Signal, SignalInfo, SignalKind,
};
use crate::model::partition::RuntimePartitionCost;
use crate::seqs::{first_index, lemma_first_index, lemma_first_index_is, or_problem};
use crate::text::same_text;

verus! {

// ---------------------------------------------------------------------------
// Modules and their instances
// ---------------------------------------------------------------------------

/// Whether a module has a name.
pub open spec fn has_name(design: CompiledDesign, name: Seq<char>) -> spec_fn(int) -> bool {
    |i: int| design.modules@[i].name@ == name
}

/// The module of a name.
pub open spec fn module_named(design: CompiledDesign, name: Seq<char>) -> Option<int> {
    first_index(design.modules@.len(), has_name(design, name))
}

/// The module of instance `k` of module `i`, if the design has it.
pub open spec fn child_of(design: CompiledDesign, i: int, k: int) -> Option<int> {
    module_named(design, design.modules@[i].instances@[k].module@)
}

/// A module that is found has the name that was looked for.
pub proof fn lemma_module_named(design: CompiledDesign, name: Seq<char>)
    ensures
        match module_named(design, name) {
            Some(i) => 0 <= i < design.modules@.len() && design.modules@[i].name@ == name,
            None => true,
        },
{
    lemma_first_index(design.modules@.len(), has_name(design, name));
}

impl CompiledDesign {
    /// Looks up a module by its name.
    pub fn find_module(&self, name: &str) -> (r: Option<usize>)
        ensures
            match r {
                Some(i) => i < self.modules@.len() && module_named(*self, name@) == Some(i as int),
                None => module_named(*self, name@) is None,
            },
    {
        let ghost p = has_name(*self, name@);
        let mut i: usize = 0;
        while i < self.modules.len()
            invariant
                i <= self.modules@.len(),
                p == has_name(*self, name@),
                forall|j: int| 0 <= j < i ==> !#[trigger] p(j),
            decreases self.modules@.len() - i,
        {
            if same_text(self.modules[i].name.as_str(), name) {
                proof {
                    assert(p(i as int));
                    lemma_first_index_is(self.modules@.len(), p, i as int);
                }
                return Some(i);
            }
            i = i + 1;
        }
        proof {
            lemma_first_index(self.modules@.len(), p);
            assert(module_named(*self, name@) is None);
        }
        None
    }
}

/// The signal of a handle in a module.
pub open spec fn signal_at(module: CompiledModule, signal: Signal) -> Option<int> {
    first_index(module.signals@.len(), |i: int| module.signals@[i].handle == signal)
}

impl CompiledModule {
    /// Looks up a signal by its handle.
    pub fn signal(&self, signal: Signal) -> (r: Option<&SignalInfo>)
        ensures
            match r {
                Some(info) => signal_at(*self, signal) is Some && 0 <= signal_at(*self, signal)->0
                    < self.signals@.len() && *info == self.signals@[signal_at(*self, signal)->0],
                None => signal_at(*self, signal) is None,
            },
    {
        let ghost p = |i: int| self.signals@[i].handle == signal;
        let mut i: usize = 0;
        while i < self.signals.len()
            invariant
                i <= self.signals@.len(),
                p == (|i: int| self.signals@[i].handle == signal),
                forall|j: int| 0 <= j < i ==> !#[trigger] p(j),
            decreases self.signals@.len() - i,
        {
            if self.signals[i].handle == signal {
                proof {
                    assert(p(i as int));
                    lemma_first_index_is(self.signals@.len(), p, i as int);
                }
                return Some(&self.signals[i]);
            }
            i = i + 1;
        }
        proof {
            lemma_first_index(self.signals@.len(), p);
        }
        None
    }
}

// ---------------------------------------------------------------------------
// Hierarchies that end
// ---------------------------------------------------------------------------

/// Whether the hierarchy below module `i` has fewer than `h` levels.
pub open spec fn ends_within(design: CompiledDesign, i: int, h: nat) -> bool
    decreases h,
{
    h > 0 && forall|k: int|
        0 <= k < design.modules@[i].instances@.len() ==> match #[trigger] child_of(design, i, k) {
            Some(j) => ends_within(design, j, (h - 1) as nat),
            None => true,
        }
}

/// Whether the hierarchy below module `i` ends: no module contains itself.
pub open spec fn hierarchy_ends(design: CompiledDesign, i: int) -> bool {
    exists|h: nat| ends_within(design, i, h)
}

/// Whether `h` is the least number of levels.
pub open spec fn is_height(design: CompiledDesign, i: int, h: nat) -> bool {
    ends_within(design, i, h) && forall|g: nat| g < h ==> !#[trigger] ends_within(design, i, g)
}

/// The number of levels below module `i`.
pub open spec fn height(design: CompiledDesign, i: int) -> nat {
    choose|h: nat| is_height(design, i, h)
}

proof fn lemma_least_height(design: CompiledDesign, i: int, h: nat) -> (g: nat)
    requires
        ends_within(design, i, h),
    ensures
        g <= h,
        is_height(design, i, g),
    decreases h,
{
    if forall|g: nat| g < h ==> !#[trigger] ends_within(design, i, g) {
        h
    } else {
        let g = choose|g: nat| g < h && #[trigger] ends_within(design, i, g);
        lemma_least_height(design, i, g)
    }
}

/// The hierarchy below an instance ends sooner than the one around it.
pub proof fn lemma_child_ends(design: CompiledDesign, i: int, k: int)
    requires
        hierarchy_ends(design, i),
        0 <= k < design.modules@[i].instances@.len(),
        child_of(design, i, k) is Some,
    ensures
        hierarchy_ends(design, child_of(design, i, k)->0),
        height(design, child_of(design, i, k)->0) < height(design, i),
{
    let any = choose|h: nat| ends_within(design, i, h);
    let least = lemma_least_height(design, i, any);
    let h = height(design, i);
    assert(is_height(design, i, h));
    let j = child_of(design, i, k)->0;
    assert(ends_within(design, j, (h - 1) as nat));
    let g = lemma_least_height(design, j, (h - 1) as nat);
    let c = height(design, j);
    assert(is_height(design, j, c));
    if c > g {
        assert(!ends_within(design, j, g));
    }
}

/// What is wrong below an instance: its module, or one below it, is missing.
pub open spec fn missing_module_report(design: CompiledDesign, i: int, k: int) -> ErrorReportView {
    let instance = design.modules@[i].instances@[k];
    report(
        "E_RUNTIME_PARTITION_MODULE"@,
        "instance `"@ + instance.name@ + "` references missing module `"@ + instance.module@ + "`"@,
    )
}

/// The first missing module below module `i`, in the order of a depth-first
/// walk.
pub open spec fn instances_problem(design: CompiledDesign, i: int) -> Option<ErrorReportView>
    decreases height(design, i), design.modules@[i].instances@.len() + 1,
    when hierarchy_ends(design, i)
{
    instances_problem_below(design, i, design.modules@[i].instances@.len())
}

/// The first missing module below the first `k` instances of module `i`.
pub open spec fn instances_problem_below(design: CompiledDesign, i: int, k: nat) -> Option<
    ErrorReportView,
>
    decreases height(design, i), k,
    when hierarchy_ends(design, i) && k <= design.modules@[i].instances@.len()
{
    if k == 0 {
        None
    } else {
        or_problem(
            instances_problem_below(design, i, (k - 1) as nat),
            match child_of(design, i, k - 1) {
                Some(j) => {
                    proof {
                        lemma_child_ends(design, i, k - 1);
                    }
                    instances_problem(design, j)
                },
                None => Some(missing_module_report(design, i, k - 1)),
            },
        )
    }
}

/// In a hierarchy without missing modules every instance has a module, and
/// nothing is missing below it.
pub proof fn lemma_no_missing_module(design: CompiledDesign, i: int, n: nat, k: int)
    requires
        hierarchy_ends(design, i),
        n <= design.modules@[i].instances@.len(),
        instances_problem_below(design, i, n) is None,
        0 <= k < n,
    ensures
        child_of(design, i, k) is Some,
        hierarchy_ends(design, child_of(design, i, k)->0),
        instances_problem(design, child_of(design, i, k)->0) is None,
    decreases n,
{
    if k < n - 1 {
        lemma_no_missing_module(design, i, (n - 1) as nat, k);
    } else {
        lemma_child_ends(design, i, k);
    }
}

proof fn lemma_problem_stays(design: CompiledDesign, i: int, k: nat, n: nat)
    requires
        hierarchy_ends(design, i),
        k <= n <= design.modules@[i].instances@.len(),
        instances_problem_below(design, i, k) is Some,
    ensures
        instances_problem_below(design, i, n) == instances_problem_below(design, i, k),
    decreases n,
{
    if k < n {
        lemma_problem_stays(design, i, k, (n - 1) as nat);
    }
}

/// Checks that every instance below module `i` has a module.
pub fn validate_partition_instance_modules(design: &CompiledDesign, i: usize) -> (r: Result<
    (),
    ErrorReport,
>)
    requires
        i < design.modules@.len(),
        hierarchy_ends(*design, i as int),
    ensures
        fails_with(r, instances_problem(*design, i as int)),
    decreases height(*design, i as int),
{
    let module = &design.modules[i];
    let ghost n = module.instances@.len();
    let mut k: usize = 0;
    while k < module.instances.len()
        invariant
            i < design.modules@.len(),
            hierarchy_ends(*design, i as int),
            *module == design.modules@[i as int],
            n == module.instances@.len(),
            k <= n,
            instances_problem_below(*design, i as int, k as nat) is None,
        decreases n - k,
    {
        let instance = &module.instances[k];
        proof {
            lemma_module_named(*design, instance.module@);
        }
        match design.find_module(instance.module.as_str()) {
            Some(j) => {
                proof {
                    lemma_child_ends(*design, i as int, k as int);
                }
                match validate_partition_instance_modules(design, j) {
                    Ok(()) => {},
                    Err(e) => {
                        proof {
                            lemma_problem_stays(*design, i as int, (k + 1) as nat, n);
                        }
                        return Err(e);
                    },
                }
            },
            None => {
                let mut message = "instance `".to_owned();
                message.append(instance.name.as_str());
                message.append("` references missing module `");
                message.append(instance.module.as_str());
                message.append("`");
                proof {
                    lemma_problem_stays(*design, i as int, (k + 1) as nat, n);
                }
                return Err(error("E_RUNTIME_PARTITION_MODULE", message.as_str()));
            },
        }
        k = k + 1;
    }
    Ok(())
}

// ---------------------------------------------------------------------------
// Work
// ---------------------------------------------------------------------------

/// The operations that an expression takes.
pub open spec fn expr_ops(e: Expr) -> int
    decreases e,
{
    match e {
        Expr::Lit { .. } => 1,
        Expr::Signal(_) => 1,
        Expr::Not(x) => 1 + expr_ops(*x),
        Expr::Slice { expr, .. } => 1 + expr_ops(*expr),
        Expr::Zext { expr, .. } => 1 + expr_ops(*expr),
        Expr::Sext { expr, .. } => 1 + expr_ops(*expr),
        Expr::Trunc { expr, .. } => 1 + expr_ops(*expr),
        Expr::Cast { expr, .. } => 1 + expr_ops(*expr),
        Expr::And(a, b) => 1 + expr_ops(*a) + expr_ops(*b),
        Expr::Or(a, b) => 1 + expr_ops(*a) + expr_ops(*b),
        Expr::Xor(a, b) => 1 + expr_ops(*a) + expr_ops(*b),
        Expr::Add(a, b) => 1 + expr_ops(*a) + expr_ops(*b),
        Expr::Sub(a, b) => 1 + expr_ops(*a) + expr_ops(*b),
        Expr::Mul(a, b) => 1 + expr_ops(*a) + expr_ops(*b),
        Expr::Eq(a, b) => 1 + expr_ops(*a) + expr_ops(*b),
        Expr::Ne(a, b) => 1 + expr_ops(*a) + expr_ops(*b),
        Expr::Lt(a, b) => 1 + expr_ops(*a) + expr_ops(*b),
        Expr::Mux { cond, then_expr, else_expr } => 1 + expr_ops(*cond) + expr_ops(*then_expr)
            + expr_ops(*else_expr),
        Expr::Concat(es) => 1 + exprs_ops(es@),
        Expr::MemRead { addr, .. } => 2 + expr_ops(*addr),
    }
}

/// The operations that a list of expressions takes.
pub open spec fn exprs_ops(es: Seq<Expr>) -> int
    decreases es,
{
    if es.len() == 0 {
        0
    } else {
        exprs_ops(es.drop_last()) + expr_ops(es.last())
    }
}

/// Every expression takes an operation.
pub proof fn lemma_expr_ops(e: Expr)
    ensures
        expr_ops(e) >= 1,
    decreases e,
{
    match e {
        Expr::Lit { .. } => {},
        Expr::Signal(_) => {},
        Expr::Not(x) => lemma_expr_ops(*x),
        Expr::Slice { expr, .. } => lemma_expr_ops(*expr),
        Expr::Zext { expr, .. } => lemma_expr_ops(*expr),
        Expr::Sext { expr, .. } => lemma_expr_ops(*expr),
        Expr::Trunc { expr, .. } => lemma_expr_ops(*expr),
        Expr::Cast { expr, .. } => lemma_expr_ops(*expr),
        Expr::And(a, b) => {
            lemma_expr_ops(*a);
            lemma_expr_ops(*b);
        },
        Expr::Or(a, b) => {
            lemma_expr_ops(*a);
            lemma_expr_ops(*b);
        },
        Expr::Xor(a, b) => {
            lemma_expr_ops(*a);
            lemma_expr_ops(*b);
        },
        Expr::Add(a, b) => {
            lemma_expr_ops(*a);
            lemma_expr_ops(*b);
        },
        Expr::Sub(a, b) => {
            lemma_expr_ops(*a);
            lemma_expr_ops(*b);
        },
        Expr::Mul(a, b) => {
            lemma_expr_ops(*a);
            lemma_expr_ops(*b);
        },
        Expr::Eq(a, b) => {
            lemma_expr_ops(*a);
            lemma_expr_ops(*b);
        },
        Expr::Ne(a, b) => {
            lemma_expr_ops(*a);
            lemma_expr_ops(*b);
        },
        Expr::Lt(a, b) => {
            lemma_expr_ops(*a);
            lemma_expr_ops(*b);
        },
        Expr::Mux { cond, then_expr, else_expr } => {
            lemma_expr_ops(*cond);
            lemma_expr_ops(*then_expr);
            lemma_expr_ops(*else_expr);
        },
        Expr::Concat(es) => lemma_exprs_ops(es@, es@.len() as int),
        Expr::MemRead { addr, .. } => lemma_expr_ops(*addr),
    }
}

/// A longer list of expressions takes no fewer operations.
pub proof fn lemma_exprs_ops(es: Seq<Expr>, n: int)
    requires
        0 <= n <= es.len(),
    ensures
        0 <= exprs_ops(es.take(n)) <= exprs_ops(es),
    decreases es,
{
    if es.len() == 0 {
        assert(es.take(n) =~= es);
    } else {
        lemma_expr_ops(es.last());
        if n == es.len() {
            assert(es.take(n) =~= es);
            lemma_exprs_ops(es.drop_last(), n - 1);
        } else {
            lemma_exprs_ops(es.drop_last(), n);
            assert(es.take(n) =~= es.drop_last().take(n));
        }
    }
}

/// Counts the operations of an expression.
pub fn expr_compute_ops(e: &Expr) -> (r: u64)
    requires
        expr_ops(*e) <= u64::MAX,
    ensures
        r == expr_ops(*e),
    decreases *e,
{
    match e {
        Expr::Lit { .. } => 1,
        Expr::Signal(_) => 1,
        Expr::Not(x) => 1 + expr_compute_ops(x),
        Expr::Slice { expr, .. } => 1 + expr_compute_ops(expr),
        Expr::Zext { expr, .. } => 1 + expr_compute_ops(expr),
        Expr::Sext { expr, .. } => 1 + expr_compute_ops(expr),
        Expr::Trunc { expr, .. } => 1 + expr_compute_ops(expr),
        Expr::Cast { expr, .. } => 1 + expr_compute_ops(expr),
        Expr::And(a, b) | Expr::Or(a, b) | Expr::Xor(a, b) | Expr::Add(a, b) | Expr::Sub(a, b)
        | Expr::Mul(a, b) | Expr::Eq(a, b) | Expr::Ne(a, b) | Expr::Lt(a, b) => {
            proof {
                lemma_expr_ops(**a);
                lemma_expr_ops(**b);
            }
            1 + expr_compute_ops(a) + expr_compute_ops(b)
        },
        Expr::Mux { cond, then_expr, else_expr } => {
            proof {
                lemma_expr_ops(**cond);
                lemma_expr_ops(**then_expr);
                lemma_expr_ops(**else_expr);
            }
            1 + expr_compute_ops(cond) + expr_compute_ops(then_expr) + expr_compute_ops(else_expr)
        },
        Expr::Concat(es) => {
            let mut r: u64 = 1;
            let mut k: usize = 0;
            proof {
                assert(es@.take(0) =~= Seq::empty());
            }
            while k < es.len()
                invariant
                    k <= es@.len(),
                    *e == Expr::Concat(*es),
                    expr_ops(*e) <= u64::MAX,
                    r == 1 + exprs_ops(es@.take(k as int)),
                decreases es@.len() - k,
            {
                proof {
                    let next = es@.take(k + 1);
                    assert(next.drop_last() =~= es@.take(k as int));
                    lemma_exprs_ops(es@, k + 1);
                    lemma_exprs_ops(es@, k as int);
                    lemma_expr_ops(es@[k as int]);
                }
                r = r + expr_compute_ops(&es[k]);
                k = k + 1;
            }
            proof {
                assert(es@.take(k as int) =~= es@);
            }
            r
        },
        Expr::MemRead { addr, .. } => 2 + expr_compute_ops(addr),
    }
}

// ---------------------------------------------------------------------------
// What modules cost
// ---------------------------------------------------------------------------

/// Work, as numbers without a bound.
pub struct Work {
    pub compute: int,
    pub state: int,
    pub memory: int,
}

/// No work.
pub open spec fn no_work() -> Work {
    Work { compute: 0, state: 0, memory: 0 }
}

/// Two pieces of work together.
pub open spec fn work_sum(a: Work, b: Work) -> Work {
    Work {
        compute: a.compute + b.compute,
        state: a.state + b.state,
        memory: a.memory + b.memory,
    }
}

/// Whether work is counted by non-negative numbers.
pub open spec fn is_work(w: Work) -> bool {
    w.compute >= 0 && w.state >= 0 && w.memory >= 0
}

/// Whether work can be stated in 64-bit numbers.
pub open spec fn work_fits(w: Work) -> bool {
    w.compute <= u64::MAX && w.state <= u64::MAX && w.memory <= u64::MAX
}

/// Whether one piece of work is part of another.
pub open spec fn work_le(a: Work, b: Work) -> bool {
    a.compute <= b.compute && a.state <= b.state && a.memory <= b.memory
}

/// Work as a cost without boundary.
pub open spec fn cost_of(w: Work) -> RuntimePartitionCost {
    RuntimePartitionCost {
        compute_ops: w.compute as u64,
        state_bits: w.state as u64,
        memory_bits: w.memory as u64,
        boundary_bits: 0,
    }
}

/// The operations of an assertion or a cover point.
pub open spec fn check_ops(check: CompiledCheck) -> int {
    expr_ops(check.condition) + match check.enable {
        Some(enable) => expr_ops(enable),
        None => 0,
    }
}

/// The bits of a register.
pub open spec fn register_bits(module: CompiledModule, signal: Signal) -> int {
    match signal_at(module, signal) {
        Some(s) => module.signals@[s].width as int,
        None => 0,
    }
}

/// The bits of a memory.
pub open spec fn memory_bits(kind: SignalKind) -> int {
    match kind {
        SignalKind::Mem { data_width, depth, .. } => data_width * depth,
        _ => 0,
    }
}

pub open spec fn assignment_work(module: CompiledModule) -> int {
    sum_below(module.assignments@.len(), |i: int| expr_ops(module.assignments@[i].expr))
}

pub open spec fn register_work(module: CompiledModule) -> int {
    sum_below(module.registers@.len(), |i: int| 1 + expr_ops(module.registers@[i].next))
}

pub open spec fn memory_write_work(module: CompiledModule) -> int {
    sum_below(
        module.memory_writes@.len(),
        |i: int|
            1 + expr_ops(module.memory_writes@[i].enable) + expr_ops(module.memory_writes@[i].addr)
                + expr_ops(module.memory_writes@[i].data),
    )
}

pub open spec fn checks_work(checks: Seq<CompiledCheck>) -> int {
    sum_below(checks.len(), |i: int| check_ops(checks[i]))
}

pub open spec fn register_state(module: CompiledModule) -> int {
    sum_below(
        module.registers@.len(),
        |i: int| register_bits(module, module.registers@[i].signal),
    )
}

pub open spec fn memory_state(module: CompiledModule) -> int {
    sum_below(module.signals@.len(), |i: int| memory_bits(module.signals@[i].kind))
}

/// The work of a module without its instances.
pub open spec fn local_work(module: CompiledModule) -> Work {
    Work {
        compute: assignment_work(module) + register_work(module) + memory_write_work(module)
            + checks_work(module.assertions@) + checks_work(module.cover_points@),
        state: register_state(module),
        memory: memory_state(module),
    }
}

/// The work of module `i` with all that is below it. Missing modules count
/// nothing.
pub open spec fn full_work(design: CompiledDesign, i: int) -> Work
    decreases height(design, i), design.modules@[i].instances@.len() + 1,
    when hierarchy_ends(design, i)
{
    work_sum(
        local_work(design.modules@[i]),
        children_work(design, i, design.modules@[i].instances@.len()),
    )
}

/// The work below the first `k` instances of module `i`.
pub open spec fn children_work(design: CompiledDesign, i: int, k: nat) -> Work
    decreases height(design, i), k,
    when hierarchy_ends(design, i) && k <= design.modules@[i].instances@.len()
{
    if k == 0 {
        no_work()
    } else {
        work_sum(
            children_work(design, i, (k - 1) as nat),
            match child_of(design, i, k - 1) {
                Some(j) => {
                    proof {
                        lemma_child_ends(design, i, k - 1);
                    }
                    full_work(design, j)
                },
                None => no_work(),
            },
        )
    }
}

/// The work below instance `k` of module `i`.
pub open spec fn child_work(design: CompiledDesign, i: int, k: int) -> Work {
    match child_of(design, i, k) {
        Some(j) => full_work(design, j),
        None => no_work(),
    }
}

/// The work of a module is counted by non-negative numbers.
pub proof fn lemma_local_work(module: CompiledModule)
    ensures
        is_work(local_work(module)),
        assignment_work(module) >= 0,
        register_work(module) >= 0,
        memory_write_work(module) >= 0,
        checks_work(module.assertions@) >= 0,
        checks_work(module.cover_points@) >= 0,
{
    let a = |i: int| expr_ops(module.assignments@[i].expr);
    assert forall|i: int| #[trigger] a(i) >= 0 by {
        lemma_expr_ops(module.assignments@[i].expr);
    }
    lemma_sum_below_grows(0, module.assignments@.len(), a);
    let r = |i: int| 1 + expr_ops(module.registers@[i].next);
    assert forall|i: int| #[trigger] r(i) >= 0 by {
        lemma_expr_ops(module.registers@[i].next);
    }
    lemma_sum_below_grows(0, module.registers@.len(), r);
    let w = |i: int|
        1 + expr_ops(module.memory_writes@[i].enable) + expr_ops(module.memory_writes@[i].addr)
            + expr_ops(module.memory_writes@[i].data);
    assert forall|i: int| #[trigger] w(i) >= 0 by {
        lemma_expr_ops(module.memory_writes@[i].enable);
        lemma_expr_ops(module.memory_writes@[i].addr);
        lemma_expr_ops(module.memory_writes@[i].data);
    }
    lemma_sum_below_grows(0, module.memory_writes@.len(), w);
    lemma_checks_work(module.assertions@);
    lemma_checks_work(module.cover_points@);
    let s = |i: int| register_bits(module, module.registers@[i].signal);
    assert forall|i: int| #[trigger] s(i) >= 0 by {}
    lemma_sum_below_grows(0, module.registers@.len(), s);
    let m = |i: int| memory_bits(module.signals@[i].kind);
    assert forall|i: int| #[trigger] m(i) >= 0 by {
        lemma_memory_bits(module.signals@[i].kind);
    }
    lemma_sum_below_grows(0, module.signals@.len(), m);
}

proof fn lemma_memory_bits(kind: SignalKind)
    ensures
        memory_bits(kind) >= 0,
{
    match kind {
        SignalKind::Mem { data_width, depth, .. } => {
            assert(data_width * depth >= 0) by (nonlinear_arith)
                requires
                    data_width >= 0,
                    depth >= 0,
            ;
        },
        _ => {},
    }
}

proof fn lemma_checks_work(checks: Seq<CompiledCheck>)
    ensures
        checks_work(checks) >= 0,
        forall|i: int| #[trigger] check_ops(checks[i]) >= 0,
{
    let c = |i: int| check_ops(checks[i]);
    assert forall|i: int| #[trigger] check_ops(checks[i]) >= 0 by {
        lemma_expr_ops(checks[i].condition);
        match checks[i].enable {
            Some(enable) => lemma_expr_ops(enable),
            None => {},
        }
    }
    assert forall|i: int| #[trigger] c(i) >= 0 by {
        assert(check_ops(checks[i]) >= 0);
    }
    lemma_sum_below_grows(0, checks.len(), c);
}

/// The work below a module is counted by non-negative numbers, and that below
/// some of its instances is part of that below more of them.
pub proof fn lemma_children_work(design: CompiledDesign, i: int, k: nat, n: nat)
    requires
        hierarchy_ends(design, i),
        k <= n <= design.modules@[i].instances@.len(),
    ensures
        is_work(children_work(design, i, k)),
        work_le(children_work(design, i, k), children_work(design, i, n)),
    decreases height(design, i), n,
{
    if n > 0 {
        match child_of(design, i, n - 1) {
            Some(j) => {
                lemma_child_ends(design, i, n - 1);
                lemma_children_work(
                    design,
                    j,
                    design.modules@[j].instances@.len(),
                    design.modules@[j].instances@.len(),
                );
                lemma_local_work(design.modules@[j]);
                assert(is_work(full_work(design, j)));
            },
            None => {},
        }
        assert(is_work(child_work(design, i, n - 1)));
        assert(children_work(design, i, n) == work_sum(
            children_work(design, i, (n - 1) as nat),
            child_work(design, i, n - 1),
        ));
        if k < n {
            lemma_children_work(design, i, k, (n - 1) as nat);
        } else {
            lemma_children_work(design, i, (n - 1) as nat, (n - 1) as nat);
        }
    }
}

/// The work of a module with all below it.
pub proof fn lemma_full_work(design: CompiledDesign, i: int)
    requires
        hierarchy_ends(design, i),
    ensures
        is_work(full_work(design, i)),
        is_work(local_work(design.modules@[i])),
        work_le(local_work(design.modules@[i]), full_work(design, i)),
{
    let n = design.modules@[i].instances@.len();
    lemma_local_work(design.modules@[i]);
    lemma_children_work(design, i, n, n);
}

/// What is below an instance is part of the work of the module around it.
pub proof fn lemma_child_work(design: CompiledDesign, i: int, k: int)
    requires
        hierarchy_ends(design, i),
        0 <= k < design.modules@[i].instances@.len(),
    ensures
        is_work(child_work(design, i, k)),
        work_le(child_work(design, i, k), full_work(design, i)),
        child_of(design, i, k) is Some ==> hierarchy_ends(design, child_of(design, i, k)->0),
{
    let n = design.modules@[i].instances@.len();
    lemma_full_work(design, i);
    lemma_children_work(design, i, (k + 1) as nat, n);
    lemma_children_work(design, i, k as nat, (k + 1) as nat);
    match child_of(design, i, k) {
        Some(j) => {
            lemma_child_ends(design, i, k);
            lemma_full_work(design, j);
        },
        None => {},
    }
}

proof fn lemma_sum_item(n: nat, g: spec_fn(int) -> int)
    requires
        forall|k: int| 0 <= k < n ==> #[trigger] g(k) >= 0,
    ensures
        forall|k: int| 0 <= k < n ==> #[trigger] g(k) <= sum_below(n, g),
{
    assert forall|k: int| 0 <= k < n implies #[trigger] g(k) <= sum_below(n, g) by {
        lemma_sum_below_grows((k + 1) as nat, n, g);
        lemma_sum_below_grows(k as nat, n, g);
    }
}

fn check_compute_ops(check: &CompiledCheck) -> (r: u64)
    requires
        check_ops(*check) <= u64::MAX,
    ensures
        r == check_ops(*check),
{
    proof {
        lemma_expr_ops(check.condition);
        if check.enable is Some {
            lemma_expr_ops(check.enable->0);
        }
    }
    let condition: u64 = expr_compute_ops(&check.condition);
    match &check.enable {
        Some(enable) => condition + expr_compute_ops(enable),
        None => condition,
    }
}

fn checks_compute_ops(checks: &Vec<CompiledCheck>) -> (r: u64)
    requires
        checks_work(checks@) <= u64::MAX,
    ensures
        r == checks_work(checks@),
{
    let ghost g = |i: int| check_ops(checks@[i]);
    proof {
        lemma_checks_work(checks@);
        assert forall|i: int| #[trigger] g(i) >= 0 by {
            assert(check_ops(checks@[i]) >= 0);
        }
        lemma_sum_item(checks@.len(), g);
    }
    sum_items(
        checks.len(),
        |i: usize| -> (y: u64)
            requires i < checks@.len(), g(i as int) <= u64::MAX,
            ensures y == g(i as int)
        {
            check_compute_ops(&checks[i])
        },
        Ghost(g),
    )
}

fn assignment_compute_ops(module: &CompiledModule) -> (r: u64)
    requires
        assignment_work(*module) <= u64::MAX,
    ensures
        r == assignment_work(*module),
{
    let ghost g = |i: int| expr_ops(module.assignments@[i].expr);
    proof {
        assert forall|i: int| #[trigger] g(i) >= 0 by {
            lemma_expr_ops(module.assignments@[i].expr);
        }
        lemma_sum_item(module.assignments@.len(), g);
    }
    sum_items(
        module.assignments.len(),
        |i: usize| -> (y: u64)
            requires i < module.assignments@.len(), g(i as int) <= u64::MAX,
            ensures y == g(i as int)
        {
            expr_compute_ops(&module.assignments[i].expr)
        },
        Ghost(g),
    )
}

fn register_compute_ops(module: &CompiledModule) -> (r: u64)
    requires
        register_work(*module) <= u64::MAX,
    ensures
        r == register_work(*module),
{
    let ghost g = |i: int| 1 + expr_ops(module.registers@[i].next);
    proof {
        assert forall|i: int| #[trigger] g(i) >= 0 by {
            lemma_expr_ops(module.registers@[i].next);
        }
        lemma_sum_item(module.registers@.len(), g);
    }
    sum_items(
        module.registers.len(),
        |i: usize| -> (y: u64)
            requires i < module.registers@.len(), g(i as int) <= u64::MAX,
            ensures y == g(i as int)
        {
            1 + expr_compute_ops(&module.registers[i].next)
        },
        Ghost(g),
    )
}

fn memory_write_compute_ops(module: &CompiledModule) -> (r: u64)
    requires
        memory_write_work(*module) <= u64::MAX,
    ensures
        r == memory_write_work(*module),
{
    let ghost g = |i: int|
        1 + expr_ops(module.memory_writes@[i].enable) + expr_ops(module.memory_writes@[i].addr)
            + expr_ops(module.memory_writes@[i].data);
    proof {
        assert forall|i: int| #[trigger] g(i) >= 0 by {
            lemma_expr_ops(module.memory_writes@[i].enable);
            lemma_expr_ops(module.memory_writes@[i].addr);
            lemma_expr_ops(module.memory_writes@[i].data);
        }
        lemma_sum_item(module.memory_writes@.len(), g);
    }
    sum_items(
        module.memory_writes.len(),
        |i: usize| -> (y: u64)
            requires i < module.memory_writes@.len(), g(i as int) <= u64::MAX,
            ensures y == g(i as int)
        {
            let write = &module.memory_writes[i];
            proof {
                lemma_expr_ops(write.enable);
                lemma_expr_ops(write.addr);
                lemma_expr_ops(write.data);
            }
            1 + expr_compute_ops(&write.enable) + expr_compute_ops(&write.addr)
                + expr_compute_ops(&write.data)
        },
        Ghost(g),
    )
}

fn register_state_bits(module: &CompiledModule) -> (r: u64)
    requires
        register_state(*module) <= u64::MAX,
    ensures
        r == register_state(*module),
{
    let ghost g = |i: int| register_bits(*module, module.registers@[i].signal);
    proof {
        assert forall|i: int| #[trigger] g(i) >= 0 by {}
    }
    sum_items(
        module.registers.len(),
        |i: usize| -> (y: u64)
            requires i < module.registers@.len(),
            ensures y == g(i as int)
        {
            match module.signal(module.registers[i].signal) {
                Some(signal) => signal.width as u64,
                None => 0,
            }
        },
        Ghost(g),
    )
}

fn memory_state_bits(module: &CompiledModule) -> (r: u64)
    requires
        memory_state(*module) <= u64::MAX,
    ensures
        r == memory_state(*module),
{
    let ghost g = |i: int| memory_bits(module.signals@[i].kind);
    proof {
        assert forall|i: int| #[trigger] g(i) >= 0 by {
            lemma_memory_bits(module.signals@[i].kind);
        }
        lemma_sum_item(module.signals@.len(), g);
    }
    sum_items(
        module.signals.len(),
        |i: usize| -> (y: u64)
            requires i < module.signals@.len(), g(i as int) <= u64::MAX,
            ensures y == g(i as int)
        {
            match &module.signals[i].kind {
                SignalKind::Mem { data_width, depth, .. } => (*data_width as u64) * (*depth as u64),
                _ => 0,
            }
        },
        Ghost(g),
    )
}

/// Counts the work of a module without its instances.
pub fn local_partition_cost(module: &CompiledModule) -> (r: RuntimePartitionCost)
    requires
        work_fits(local_work(*module)),
    ensures
        r == cost_of(local_work(*module)),
{
    proof {
        lemma_local_work(*module);
    }
    RuntimePartitionCost {
        compute_ops: assignment_compute_ops(module) + register_compute_ops(module)
            + memory_write_compute_ops(module) + checks_compute_ops(&module.assertions)
            + checks_compute_ops(&module.cover_points),
        state_bits: register_state_bits(module),
        memory_bits: memory_state_bits(module),
        boundary_bits: 0,
    }
}

/// Counts the work of a module, with or without what is below it.
pub fn module_partition_cost(
    design: &CompiledDesign,
    i: usize,
    include_instances: bool,
) -> (r: RuntimePartitionCost)
    requires
        i < design.modules@.len(),
        include_instances ==> hierarchy_ends(*design, i as int) && work_fits(
            full_work(*design, i as int),
        ),
        !include_instances ==> work_fits(local_work(design.modules@[i as int])),
    ensures
        r == cost_of(
            if include_instances {
                full_work(*design, i as int)
            } else {
                local_work(design.modules@[i as int])
            },
        ),
    decreases
            height(*design, i as int),
            if include_instances {
                1nat
            } else {
                0nat
            },
{
    let module = &design.modules[i];
    let ghost n = module.instances@.len();
    proof {
        if include_instances {
            lemma_full_work(*design, i as int);
            lemma_children_work(*design, i as int, 0, n);
        }
        lemma_local_work(*module);
    }
    let mut cost = local_partition_cost(module);
    if include_instances {
        let mut k: usize = 0;
        while k < module.instances.len()
            invariant
                i < design.modules@.len(),
                *module == design.modules@[i as int],
                hierarchy_ends(*design, i as int),
                work_fits(full_work(*design, i as int)),
                n == module.instances@.len(),
                k <= n,
                is_work(local_work(*module)),
                cost == cost_of(
                    work_sum(local_work(*module), children_work(*design, i as int, k as nat)),
                ),
            decreases n - k,
        {
            proof {
                lemma_children_work(*design, i as int, (k + 1) as nat, n);
                lemma_children_work(*design, i as int, k as nat, (k + 1) as nat);
                lemma_child_work(*design, i as int, k as int);
                lemma_module_named(*design, module.instances@[k as int].module@);
            }
            match design.find_module(module.instances[k].module.as_str()) {
                Some(j) => {
                    proof {
                        lemma_child_ends(*design, i as int, k as int);
                    }
                    let child = module_partition_cost(design, j, true);
                    cost.compute_ops = cost.compute_ops + child.compute_ops;
                    cost.state_bits = cost.state_bits + child.state_bits;
                    cost.memory_bits = cost.memory_bits + child.memory_bits;
                },
                None => {},
            }
            k = k + 1;
        }
    }
    cost
}

} // verus!

//! Adding up partition costs.

use vstd::prelude::*;

use crate::model::partition::{RuntimePartitionConfig, RuntimePartitionCost};
use crate::seqs::{lemma_sum_by_step, sum_by};

verus! {

/// The cost of nothing.
pub open spec fn no_cost() -> RuntimePartitionCost {
    RuntimePartitionCost { compute_ops: 0, state_bits: 0, memory_bits: 0, boundary_bits: 0 }
}

/// Whether two costs can be added.
pub open spec fn cost_sum_fits(a: RuntimePartitionCost, b: RuntimePartitionCost) -> bool {
    &&& a.compute_ops + b.compute_ops <= u64::MAX
    &&& a.state_bits + b.state_bits <= u64::MAX
    &&& a.memory_bits + b.memory_bits <= u64::MAX
    &&& a.boundary_bits + b.boundary_bits <= u64::MAX
}

/// The field-wise sum of two costs.
pub open spec fn cost_sum(a: RuntimePartitionCost, b: RuntimePartitionCost) -> RuntimePartitionCost {
    RuntimePartitionCost {
        compute_ops: (a.compute_ops + b.compute_ops) as u64,
        state_bits: (a.state_bits + b.state_bits) as u64,
        memory_bits: (a.memory_bits + b.memory_bits) as u64,
        boundary_bits: (a.boundary_bits + b.boundary_bits) as u64,
    }
}

pub open spec fn compute_of() -> spec_fn(RuntimePartitionCost) -> int {
    |c: RuntimePartitionCost| c.compute_ops as int
}

pub open spec fn state_of() -> spec_fn(RuntimePartitionCost) -> int {
    |c: RuntimePartitionCost| c.state_bits as int
}

pub open spec fn memory_of() -> spec_fn(RuntimePartitionCost) -> int {
    |c: RuntimePartitionCost| c.memory_bits as int
}

pub open spec fn boundary_of() -> spec_fn(RuntimePartitionCost) -> int {
    |c: RuntimePartitionCost| c.boundary_bits as int
}

/// Whether a list of costs can be added.
pub open spec fn costs_fit(costs: Seq<RuntimePartitionCost>) -> bool {
    &&& sum_by(costs, compute_of()) <= u64::MAX
    &&& sum_by(costs, state_of()) <= u64::MAX
    &&& sum_by(costs, memory_of()) <= u64::MAX
    &&& sum_by(costs, boundary_of()) <= u64::MAX
}

/// The field-wise sum of a list of costs.
pub open spec fn costs_sum(costs: Seq<RuntimePartitionCost>) -> RuntimePartitionCost {
    RuntimePartitionCost {
        compute_ops: sum_by(costs, compute_of()) as u64,
        state_bits: sum_by(costs, state_of()) as u64,
        memory_bits: sum_by(costs, memory_of()) as u64,
        boundary_bits: sum_by(costs, boundary_of()) as u64,
    }
}

/// Every prefix of a list that can be added can be added; the next cost is then
/// added to it.
pub proof fn lemma_costs_step(costs: Seq<RuntimePartitionCost>, i: int)
    requires
        costs_fit(costs),
        0 <= i < costs.len(),
    ensures
        costs_fit(costs.take(i)),
        costs_fit(costs.take(i + 1)),
        cost_sum_fits(costs_sum(costs.take(i)), costs[i]),
        costs_sum(costs.take(i + 1)) == cost_sum(costs_sum(costs.take(i)), costs[i]),
{
    lemma_sum_by_step(costs, i, compute_of());
    lemma_sum_by_step(costs, i, state_of());
    lemma_sum_by_step(costs, i, memory_of());
    lemma_sum_by_step(costs, i, boundary_of());
}

/// The empty list costs nothing.
pub proof fn lemma_costs_empty()
    ensures
        costs_fit(Seq::empty()),
        costs_sum(Seq::empty()) == no_cost(),
{
}

impl Default for RuntimePartitionCost {
    fn default() -> (r: Self)
        ensures
            r == no_cost(),
    {
        RuntimePartitionCost { compute_ops: 0, state_bits: 0, memory_bits: 0, boundary_bits: 0 }
    }
}

impl Default for RuntimePartitionConfig {
    fn default() -> (r: Self)
        ensures
            r.target_partitions == 1,
    {
        RuntimePartitionConfig { target_partitions: 1 }
    }
}

/// Adds a cost to an accumulator, field by field.
pub fn add_partition_cost(acc: &mut RuntimePartitionCost, cost: &RuntimePartitionCost)
    requires
        cost_sum_fits(*old(acc), *cost),
    ensures
        *final(acc) == cost_sum(*old(acc), *cost),
{
    acc.compute_ops = acc.compute_ops + cost.compute_ops;
    acc.state_bits = acc.state_bits + cost.state_bits;
    acc.memory_bits = acc.memory_bits + cost.memory_bits;
    acc.boundary_bits = acc.boundary_bits + cost.boundary_bits;
}

/// Adds up a list of costs.
pub fn total_of_costs(costs: &Vec<RuntimePartitionCost>) -> (r: RuntimePartitionCost)
    requires
        costs_fit(costs@),
    ensures
        r == costs_sum(costs@),
{
    let mut r = RuntimePartitionCost::default();
    let mut i: usize = 0;
    proof {
        assert(costs@.take(0) =~= Seq::empty());
        lemma_costs_empty();
    }
    while i < costs.len()
        invariant
            i <= costs.len(),
            costs_fit(costs@),
            r == costs_sum(costs@.take(i as int)),
        decreases costs.len() - i,
    {
        proof {
            lemma_costs_step(costs@, i as int);
        }
        add_partition_cost(&mut r, &costs[i]);
        i = i + 1;
    }
    proof {
        assert(costs@.take(i as int) =~= costs@);
    }
    r
}

/// The least of a number and the largest 64-bit number.
pub open spec fn saturated(n: int) -> u64 {
    if n <= u64::MAX {
        n as u64
    } else {
        u64::MAX
    }
}

/// How much a cost weighs when partitions are split and placed: compute, state
/// and memory together.
pub open spec fn split_score(cost: RuntimePartitionCost) -> u64 {
    saturated(cost.compute_ops + cost.state_bits + cost.memory_bits)
}

/// Weighs a cost.
pub fn partition_split_score(cost: RuntimePartitionCost) -> (r: u64)
    ensures
        r == split_score(cost),
{
    cost.compute_ops.saturating_add(cost.state_bits).saturating_add(cost.memory_bits)
}

/// Multiplies, or gives the largest 64-bit number.
pub fn saturating_product(a: u64, b: u64) -> (r: u64)
    ensures
        r == saturated(a * b),
{
    match a.checked_mul(b) {
        Some(p) => p,
        None => u64::MAX,
    }
}

} // verus!

//! Sequence vocabulary shared by the contracts: counting, summing, searching
//! and the first problem of a list of checks.

use vstd::prelude::*;

verus! {

/// Appends a value; on models this is `push`.
pub fn push_item<T: DeepView>(items: &mut Vec<T>, item: T)
    ensures
        final(items).deep_view() == old(items).deep_view().push(item.deep_view()),
        final(items)@ == old(items)@.push(item),
{
    let ghost before = items.deep_view();
    items.push(item);
    proof {
        assert(items.deep_view() =~= before.push(item.deep_view()));
    }
}

/// The vector without elements.
pub fn no_items<T: DeepView>() -> (items: Vec<T>)
    ensures
        items.deep_view() == Seq::<T::V>::empty(),
        items@.len() == 0,
{
    let items: Vec<T> = Vec::new();
    proof {
        assert(items.deep_view() =~= Seq::<T::V>::empty());
    }
    items
}

/// Takes the first of some items out.
pub fn take_first<T: DeepView>(items: &mut Vec<T>) -> (r: T)
    requires
        old(items)@.len() > 0,
    ensures
        r.deep_view() == old(items).deep_view()[0],
        final(items)@.len() == old(items)@.len() - 1,
        final(items).deep_view() == old(items).deep_view().skip(1),
{
    let ghost before = items@;
    let ghost seen = items.deep_view();
    let r = items.remove(0);
    proof {
        assert(seen.len() == before.len());
        assert(seen[0] == before[0].deep_view());
        assert forall|k: int| 0 <= k < items@.len() implies items.deep_view()[k] == seen.skip(1)[k] by {
            assert(items@[k] == before[k + 1]);
            assert(seen[k + 1] == before[k + 1].deep_view());
        }
        assert(items.deep_view() =~= seen.skip(1));
    }
    r
}

/// How many elements satisfy a predicate.
pub open spec fn count_if<A>(s: Seq<A>, p: spec_fn(A) -> bool) -> nat
    decreases s.len(),
{
    if s.len() == 0 {
        0
    } else {
        count_if(s.drop_last(), p) + if p(s.last()) {
            1nat
        } else {
            0nat
        }
    }
}

/// The sum of a measure over all elements.
pub open spec fn sum_by<A>(s: Seq<A>, f: spec_fn(A) -> int) -> int
    decreases s.len(),
{
    if s.len() == 0 {
        0
    } else {
        sum_by(s.drop_last(), f) + f(s.last())
    }
}

/// The first index below `n` at which a predicate holds.
pub open spec fn first_index(n: nat, p: spec_fn(int) -> bool) -> Option<int>
    decreases n,
{
    if n == 0 {
        None
    } else {
        match first_index((n - 1) as nat, p) {
            Some(i) => Some(i),
            None => if p(n - 1) {
                Some(n - 1)
            } else {
                None
            },
        }
    }
}

/// The last index below `n` at which a predicate holds.
pub open spec fn last_index(n: nat, p: spec_fn(int) -> bool) -> Option<int>
    decreases n,
{
    if n == 0 {
        None
    } else if p(n - 1) {
        Some(n - 1)
    } else {
        last_index((n - 1) as nat, p)
    }
}

/// What the first of `n` numbered checks that finds a problem reports.
pub open spec fn first_problem<E>(n: nat, check: spec_fn(int) -> Option<E>) -> Option<E>
    decreases n,
{
    if n == 0 {
        None
    } else {
        match first_problem((n - 1) as nat, check) {
            Some(e) => Some(e),
            None => check(n - 1),
        }
    }
}

/// The first of two reports.
pub open spec fn or_problem<E>(a: Option<E>, b: Option<E>) -> Option<E> {
    match a {
        Some(e) => Some(e),
        None => b,
    }
}

pub proof fn lemma_count_if_push<A>(s: Seq<A>, a: A, p: spec_fn(A) -> bool)
    ensures
        count_if(s.push(a), p) == count_if(s, p) + if p(a) {
            1nat
        } else {
            0nat
        },
{
    assert(s.push(a).drop_last() =~= s);
}

pub proof fn lemma_count_if_take<A>(s: Seq<A>, i: int, p: spec_fn(A) -> bool)
    requires
        0 <= i < s.len(),
    ensures
        count_if(s.take(i + 1), p) == count_if(s.take(i), p) + if p(s[i]) {
            1nat
        } else {
            0nat
        },
{
    assert(s.take(i + 1) =~= s.take(i).push(s[i]));
    lemma_count_if_push(s.take(i), s[i], p);
}

pub proof fn lemma_count_if_bound<A>(s: Seq<A>, p: spec_fn(A) -> bool)
    ensures
        count_if(s, p) <= s.len(),
    decreases s.len(),
{
    if s.len() > 0 {
        lemma_count_if_bound(s.drop_last(), p);
    }
}

/// Predicates that agree on all elements count the same.
pub proof fn lemma_count_if_same<A>(s: Seq<A>, p: spec_fn(A) -> bool, q: spec_fn(A) -> bool)
    requires
        forall|i: int| 0 <= i < s.len() ==> p(#[trigger] s[i]) == q(s[i]),
    ensures
        count_if(s, p) == count_if(s, q),
    decreases s.len(),
{
    if s.len() > 0 {
        assert(forall|i: int|
            0 <= i < s.drop_last().len() ==> #[trigger] s.drop_last()[i] == s[i]);
        lemma_count_if_same(s.drop_last(), p, q);
    }
}

/// Two predicates that exclude each other on all elements count apart.
pub proof fn lemma_count_if_split<A>(
    s: Seq<A>,
    p: spec_fn(A) -> bool,
    q: spec_fn(A) -> bool,
    whole: spec_fn(A) -> bool,
)
    requires
        forall|i: int|
            0 <= i < s.len() ==> (whole(#[trigger] s[i]) <==> p(s[i]) || q(s[i])) && !(p(s[i])
                && q(s[i])),
    ensures
        count_if(s, whole) == count_if(s, p) + count_if(s, q),
    decreases s.len(),
{
    if s.len() > 0 {
        assert(forall|i: int|
            0 <= i < s.drop_last().len() ==> #[trigger] s.drop_last()[i] == s[i]);
        lemma_count_if_split(s.drop_last(), p, q, whole);
    }
}

pub proof fn lemma_sum_by_push<A>(s: Seq<A>, a: A, f: spec_fn(A) -> int)
    ensures
        sum_by(s.push(a), f) == sum_by(s, f) + f(a),
{
    assert(s.push(a).drop_last() =~= s);
}

pub proof fn lemma_sum_by_take<A>(s: Seq<A>, i: int, f: spec_fn(A) -> int)
    requires
        0 <= i < s.len(),
    ensures
        sum_by(s.take(i + 1), f) == sum_by(s.take(i), f) + f(s[i]),
{
    assert(s.take(i + 1) =~= s.take(i).push(s[i]));
    lemma_sum_by_push(s.take(i), s[i], f);
}

/// A sum of non-negative measures grows with the prefix.
pub proof fn lemma_sum_by_prefix<A>(s: Seq<A>, i: int, j: int, f: spec_fn(A) -> int)
    requires
        0 <= i <= j <= s.len(),
        forall|k: int| 0 <= k < s.len() ==> f(#[trigger] s[k]) >= 0,
    ensures
        0 <= sum_by(s.take(i), f) <= sum_by(s.take(j), f),
    decreases j,
{
    if i < j {
        lemma_sum_by_prefix(s, i, j - 1, f);
        lemma_sum_by_take(s, j - 1, f);
    } else if i > 0 {
        lemma_sum_by_prefix(s, i - 1, i - 1, f);
        lemma_sum_by_take(s, i - 1, f);
    }
}

/// A prefix sum and the next measure stay below the whole sum.
pub proof fn lemma_sum_by_step<A>(s: Seq<A>, i: int, f: spec_fn(A) -> int)
    requires
        0 <= i < s.len(),
        forall|k: int| 0 <= k < s.len() ==> f(#[trigger] s[k]) >= 0,
    ensures
        0 <= sum_by(s.take(i), f),
        sum_by(s.take(i + 1), f) == sum_by(s.take(i), f) + f(s[i]),
        sum_by(s.take(i + 1), f) <= sum_by(s, f),
{
    lemma_sum_by_take(s, i, f);
    lemma_sum_by_prefix(s, i, i, f);
    lemma_sum_by_prefix(s, i + 1, s.len() as int, f);
    assert(s.take(s.len() as int) =~= s);
}

/// Measures that agree on all elements have the same sum.
pub proof fn lemma_sum_by_same<A>(s: Seq<A>, f: spec_fn(A) -> int, g: spec_fn(A) -> int)
    requires
        forall|i: int| 0 <= i < s.len() ==> f(#[trigger] s[i]) == g(s[i]),
    ensures
        sum_by(s, f) == sum_by(s, g),
    decreases s.len(),
{
    if s.len() > 0 {
        assert(forall|i: int|
            0 <= i < s.drop_last().len() ==> #[trigger] s.drop_last()[i] == s[i]);
        lemma_sum_by_same(s.drop_last(), f, g);
    }
}

/// The sum of two measures is the sum of their sums.
pub proof fn lemma_sum_by_add<A>(
    s: Seq<A>,
    f: spec_fn(A) -> int,
    g: spec_fn(A) -> int,
    h: spec_fn(A) -> int,
)
    requires
        forall|i: int| 0 <= i < s.len() ==> h(#[trigger] s[i]) == f(s[i]) + g(s[i]),
    ensures
        sum_by(s, h) == sum_by(s, f) + sum_by(s, g),
    decreases s.len(),
{
    if s.len() > 0 {
        assert(forall|i: int|
            0 <= i < s.drop_last().len() ==> #[trigger] s.drop_last()[i] == s[i]);
        lemma_sum_by_add(s.drop_last(), f, g, h);
    }
}

/// A measure that is zero everywhere sums to zero.
pub proof fn lemma_sum_by_zero<A>(s: Seq<A>, f: spec_fn(A) -> int)
    requires
        forall|i: int| 0 <= i < s.len() ==> f(#[trigger] s[i]) == 0,
    ensures
        sum_by(s, f) == 0,
    decreases s.len(),
{
    if s.len() > 0 {
        assert(forall|i: int|
            0 <= i < s.drop_last().len() ==> #[trigger] s.drop_last()[i] == s[i]);
        lemma_sum_by_zero(s.drop_last(), f);
    }
}

/// A measure that is one at exactly one index and zero elsewhere sums to one.
pub proof fn lemma_sum_by_single<A>(s: Seq<A>, f: spec_fn(A) -> int, at: int)
    requires
        0 <= at < s.len(),
        f(s[at]) == 1,
        forall|i: int| 0 <= i < s.len() && i != at ==> f(#[trigger] s[i]) == 0,
    ensures
        sum_by(s, f) == 1,
    decreases s.len(),
{
    assert(forall|i: int| 0 <= i < s.drop_last().len() ==> #[trigger] s.drop_last()[i] == s[i]);
    if at == s.len() - 1 {
        lemma_sum_by_zero(s.drop_last(), f);
    } else {
        assert(s.drop_last()[at] == s[at]);
        lemma_sum_by_single(s.drop_last(), f, at);
    }
}

/// What `first_index` finds.
pub proof fn lemma_first_index(n: nat, p: spec_fn(int) -> bool)
    ensures
        match first_index(n, p) {
            Some(i) => 0 <= i < n && p(i) && forall|j: int| 0 <= j < i ==> !#[trigger] p(j),
            None => forall|j: int| 0 <= j < n ==> !#[trigger] p(j),
        },
    decreases n,
{
    if n > 0 {
        lemma_first_index((n - 1) as nat, p);
    }
}

/// An index with the property and none before it is what `first_index` finds.
pub proof fn lemma_first_index_is(n: nat, p: spec_fn(int) -> bool, i: int)
    requires
        0 <= i < n,
        p(i),
        forall|j: int| 0 <= j < i ==> !#[trigger] p(j),
    ensures
        first_index(n, p) == Some(i),
{
    lemma_first_index(n, p);
}

/// What `last_index` finds.
pub proof fn lemma_last_index(n: nat, p: spec_fn(int) -> bool)
    ensures
        match last_index(n, p) {
            Some(i) => 0 <= i < n && p(i) && forall|j: int| i < j < n ==> !#[trigger] p(j),
            None => forall|j: int| 0 <= j < n ==> !#[trigger] p(j),
        },
    decreases n,
{
    if n > 0 && !p(n - 1) {
        lemma_last_index((n - 1) as nat, p);
    }
}

/// An index with the property and none behind it is what `last_index` finds.
pub proof fn lemma_last_index_is(n: nat, p: spec_fn(int) -> bool, i: int)
    requires
        0 <= i < n,
        p(i),
        forall|j: int| i < j < n ==> !#[trigger] p(j),
    ensures
        last_index(n, p) == Some(i),
{
    lemma_last_index(n, p);
}

/// Once a check has reported, the report stays the first.
pub proof fn lemma_first_problem_stays<E>(i: nat, n: nat, check: spec_fn(int) -> Option<E>)
    requires
        i <= n,
        first_problem(i, check) is Some,
    ensures
        first_problem(n, check) == first_problem(i, check),
    decreases n,
{
    if i < n {
        lemma_first_problem_stays(i, (n - 1) as nat, check);
    }
}

/// No problem is reported exactly when no check finds one.
pub proof fn lemma_first_problem_none<E>(n: nat, check: spec_fn(int) -> Option<E>)
    ensures
        first_problem(n, check) is None <==> (forall|i: int|
            0 <= i < n ==> (#[trigger] check(i)) is None),
    decreases n,
{
    if n > 0 {
        lemma_first_problem_none((n - 1) as nat, check);
        if first_problem(n, check) is None {
            assert forall|i: int| 0 <= i < n implies (#[trigger] check(i)) is None by {
                if i < n - 1 {
                    assert(check(i) is None);
                }
            }
        } else {
            if first_problem((n - 1) as nat, check) is None {
                assert(check(n - 1) is Some);
            }
        }
    }
}

} // verus!

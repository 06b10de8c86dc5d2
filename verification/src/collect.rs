//! Building vectors by index.
//!
//! The functions below run a closure for every index below a bound and collect,
//! check or add up what it returns. Their contracts relate the closure to a
//! mathematical function of the index.

use vstd::prelude::*;

use crate::error::{fails_with, ErrorReport, ErrorReportView};
use crate::seqs::{first_problem, lemma_first_problem_stays, no_items, push_item};

verus! {

/// The values that a partial function has on the indexes below `n`, in order.
pub open spec fn gather<V>(n: nat, g: spec_fn(int) -> Option<V>) -> Seq<V>
    decreases n,
{
    if n == 0 {
        seq![]
    } else {
        let rest = gather((n - 1) as nat, g);
        match g(n - 1) {
            Some(v) => rest.push(v),
            None => rest,
        }
    }
}

/// The sum of a function over the indexes below `n`.
pub open spec fn sum_below(n: nat, g: spec_fn(int) -> int) -> int
    decreases n,
{
    if n == 0 {
        0
    } else {
        sum_below((n - 1) as nat, g) + g(n - 1)
    }
}

/// Runs `f` for every index and collects the results.
pub fn build_items<U: DeepView, F: Fn(usize) -> U>(
    n: usize,
    f: F,
    Ghost(g): Ghost<spec_fn(int) -> U::V>,
) -> (r: Vec<U>)
    requires
        forall|i: usize| i < n ==> #[trigger] f.requires((i,)),
        forall|i: usize, y: U| i < n && #[trigger] f.ensures((i,), y) ==> y.deep_view() == g(i as int),
    ensures
        r.deep_view() == Seq::new(n as nat, g),
{
    let ghost all = Seq::new(n as nat, g);
    let mut r: Vec<U> = no_items();
    proof {
        assert(all.take(0) =~= Seq::empty());
    }
    let mut i: usize = 0;
    while i < n
        invariant
            i <= n,
            all == Seq::new(n as nat, g),
            forall|i: usize| i < n ==> #[trigger] f.requires((i,)),
            forall|i: usize, y: U|
                i < n && #[trigger] f.ensures((i,), y) ==> y.deep_view() == g(i as int),
            r.deep_view() == all.take(i as int),
        decreases n - i,
    {
        let y = f(i);
        push_item(&mut r, y);
        proof {
            assert(all.take(i + 1) =~= all.take(i as int).push(all[i as int]));
        }
        i = i + 1;
    }
    proof {
        assert(all.take(i as int) =~= all);
    }
    r
}

/// Runs `f` for every index and collects the results that are there.
pub fn gather_items<U: DeepView, F: Fn(usize) -> Option<U>>(
    n: usize,
    f: F,
    Ghost(g): Ghost<spec_fn(int) -> Option<U::V>>,
) -> (r: Vec<U>)
    requires
        forall|i: usize| i < n ==> #[trigger] f.requires((i,)),
        forall|i: usize, y: Option<U>|
            i < n && #[trigger] f.ensures((i,), y) ==> y.deep_view() == g(i as int),
    ensures
        r.deep_view() == gather(n as nat, g),
{
    let mut r: Vec<U> = no_items();
    let mut i: usize = 0;
    while i < n
        invariant
            i <= n,
            forall|i: usize| i < n ==> #[trigger] f.requires((i,)),
            forall|i: usize, y: Option<U>|
                i < n && #[trigger] f.ensures((i,), y) ==> y.deep_view() == g(i as int),
            r.deep_view() == gather(i as nat, g),
        decreases n - i,
    {
        match f(i) {
            Some(y) => {
                push_item(&mut r, y);
            },
            None => {},
        }
        i = i + 1;
    }
    r
}

/// Runs a check for every index, up to the first that fails.
pub fn check_each<F: Fn(usize) -> Result<(), ErrorReport>>(
    n: usize,
    f: F,
    Ghost(g): Ghost<spec_fn(int) -> Option<ErrorReportView>>,
) -> (r: Result<(), ErrorReport>)
    requires
        forall|i: usize| i < n ==> #[trigger] f.requires((i,)),
        forall|i: usize, y: Result<(), ErrorReport>|
            i < n && #[trigger] f.ensures((i,), y) ==> fails_with(y, g(i as int)),
    ensures
        fails_with(r, first_problem(n as nat, g)),
{
    let mut i: usize = 0;
    while i < n
        invariant
            i <= n,
            forall|i: usize| i < n ==> #[trigger] f.requires((i,)),
            forall|i: usize, y: Result<(), ErrorReport>|
                i < n && #[trigger] f.ensures((i,), y) ==> fails_with(y, g(i as int)),
            first_problem(i as nat, g) is None,
        decreases n - i,
    {
        match f(i) {
            Ok(_) => {},
            Err(e) => {
                proof {
                    lemma_first_problem_stays((i + 1) as nat, n as nat, g);
                }
                return Err(e);
            },
        }
        i = i + 1;
    }
    Ok(())
}

/// A sum of non-negative values grows with the bound.
pub proof fn lemma_sum_below_grows(i: nat, n: nat, g: spec_fn(int) -> int)
    requires
        i <= n,
        forall|k: int| 0 <= k < n ==> #[trigger] g(k) >= 0,
    ensures
        0 <= sum_below(i, g) <= sum_below(n, g),
    decreases n,
{
    if n > 0 {
        if i < n {
            lemma_sum_below_grows(i, (n - 1) as nat, g);
        } else {
            lemma_sum_below_grows((n - 1) as nat, (n - 1) as nat, g);
        }
        assert(g(n - 1) >= 0);
    }
}

/// Functions that agree below the bound have the same sum.
pub proof fn lemma_sum_below_same(n: nat, f: spec_fn(int) -> int, g: spec_fn(int) -> int)
    requires
        forall|k: int| 0 <= k < n ==> #[trigger] f(k) == g(k),
    ensures
        sum_below(n, f) == sum_below(n, g),
    decreases n,
{
    if n > 0 {
        lemma_sum_below_same((n - 1) as nat, f, g);
        assert(f(n - 1) == g(n - 1));
    }
}

/// A function that stays below another has the smaller sum.
pub proof fn lemma_sum_below_mono(n: nat, f: spec_fn(int) -> int, g: spec_fn(int) -> int)
    requires
        forall|k: int| 0 <= k < n ==> #[trigger] f(k) <= g(k),
    ensures
        sum_below(n, f) <= sum_below(n, g),
    decreases n,
{
    if n > 0 {
        lemma_sum_below_mono((n - 1) as nat, f, g);
        assert(f(n - 1) <= g(n - 1));
    }
}

/// The sum of two functions is the sum of their sums.
pub proof fn lemma_sum_below_add(
    n: nat,
    f: spec_fn(int) -> int,
    g: spec_fn(int) -> int,
    h: spec_fn(int) -> int,
)
    requires
        forall|k: int| 0 <= k < n ==> #[trigger] h(k) == f(k) + g(k),
    ensures
        sum_below(n, h) == sum_below(n, f) + sum_below(n, g),
    decreases n,
{
    if n > 0 {
        lemma_sum_below_add((n - 1) as nat, f, g, h);
        assert(h(n - 1) == f(n - 1) + g(n - 1));
    }
}

/// The sum of a function that is zero at all indexes but one.
pub proof fn lemma_sum_below_one(n: nat, f: spec_fn(int) -> int, at: int)
    requires
        forall|k: int| 0 <= k < n && k != at ==> #[trigger] f(k) == 0,
    ensures
        sum_below(n, f) == if 0 <= at < n {
            f(at)
        } else {
            0
        },
    decreases n,
{
    if n > 0 {
        lemma_sum_below_one((n - 1) as nat, f, at);
        assert(n - 1 != at ==> f(n - 1) == 0);
    }
}

/// A table adds up to the same by rows and by columns.
pub proof fn lemma_sum_below_swap(m: nat, n: nat, f: spec_fn(int, int) -> int)
    ensures
        sum_below(m, |k: int| sum_below(n, |i: int| f(k, i))) == sum_below(
            n,
            |i: int| sum_below(m, |k: int| f(k, i)),
        ),
    decreases m,
{
    let columns = |i: int| sum_below(m, |k: int| f(k, i));
    if m == 0 {
        lemma_sum_below_one(n, columns, -1);
    } else {
        let l = (m - 1) as nat;
        let rows = |k: int| sum_below(n, |i: int| f(k, i));
        let shorter = |i: int| sum_below(l, |k: int| f(k, i));
        let last = |i: int| f(m - 1, i);
        lemma_sum_below_swap(l, n, f);
        assert forall|i: int| 0 <= i < n implies #[trigger] columns(i) == shorter(i) + last(i) by {
            let column = |k: int| f(k, i);
            assert(sum_below(m, column) == sum_below(l, column) + column(m - 1));
        }
        lemma_sum_below_add(n, shorter, last, columns);
        assert(sum_below(m, rows) == sum_below(l, rows) + rows(m - 1));
    }
}

/// Runs `f` for every index and adds up the results.
pub fn sum_items<F: Fn(usize) -> u64>(
    n: usize,
    f: F,
    Ghost(g): Ghost<spec_fn(int) -> int>,
) -> (r: u64)
    requires
        forall|i: usize| i < n ==> #[trigger] f.requires((i,)),
        forall|i: usize, y: u64| i < n && #[trigger] f.ensures((i,), y) ==> y == g(i as int),
        forall|k: int| 0 <= k < n ==> #[trigger] g(k) >= 0,
        sum_below(n as nat, g) <= u64::MAX,
    ensures
        r == sum_below(n as nat, g),
{
    let mut r: u64 = 0;
    let mut i: usize = 0;
    while i < n
        invariant
            i <= n,
            forall|i: usize| i < n ==> #[trigger] f.requires((i,)),
            forall|i: usize, y: u64| i < n && #[trigger] f.ensures((i,), y) ==> y == g(i as int),
            forall|k: int| 0 <= k < n ==> #[trigger] g(k) >= 0,
            sum_below(n as nat, g) <= u64::MAX,
            r == sum_below(i as nat, g),
        decreases n - i,
    {
        let y: u64 = f(i);
        proof {
            lemma_sum_below_grows((i + 1) as nat, n as nat, g);
        }
        r = r + y;
        i = i + 1;
    }
    r
}

/// The sequences that a function has on the indexes below `n`, one behind the
/// other.
pub open spec fn concat_below<V>(n: nat, g: spec_fn(int) -> Seq<V>) -> Seq<V>
    decreases n,
{
    if n == 0 {
        seq![]
    } else {
        concat_below((n - 1) as nat, g) + g(n - 1)
    }
}

/// Moves all values behind others.
pub fn append_items<T: DeepView>(items: &mut Vec<T>, more: Vec<T>)
    ensures
        final(items).deep_view() == old(items).deep_view() + more.deep_view(),
        final(items)@ == old(items)@ + more@,
{
    let ghost before = items.deep_view();
    let ghost added = more.deep_view();
    let mut rest = more;
    items.append(&mut rest);
    proof {
        assert(items.deep_view() =~= before + added);
    }
}

/// Runs `f` for every index and puts the results one behind the other.
pub fn concat_items<U: DeepView, F: Fn(usize) -> Vec<U>>(
    n: usize,
    f: F,
    Ghost(g): Ghost<spec_fn(int) -> Seq<U::V>>,
) -> (r: Vec<U>)
    requires
        forall|i: usize| i < n ==> #[trigger] f.requires((i,)),
        forall|i: usize, y: Vec<U>|
            i < n && #[trigger] f.ensures((i,), y) ==> y.deep_view() == g(i as int),
    ensures
        r.deep_view() == concat_below(n as nat, g),
{
    let mut r: Vec<U> = no_items();
    let mut i: usize = 0;
    while i < n
        invariant
            i <= n,
            forall|i: usize| i < n ==> #[trigger] f.requires((i,)),
            forall|i: usize, y: Vec<U>|
                i < n && #[trigger] f.ensures((i,), y) ==> y.deep_view() == g(i as int),
            r.deep_view() == concat_below(i as nat, g),
        decreases n - i,
    {
        let y = f(i);
        append_items(&mut r, y);
        i = i + 1;
    }
    r
}

/// Every gathered value stems from an index, and every index with a value gives
/// one.
pub proof fn lemma_gather_contains<V>(n: nat, g: spec_fn(int) -> Option<V>, v: V)
    ensures
        gather(n, g).contains(v) <==> exists|i: int| 0 <= i < n && #[trigger] g(i) == Some(v),
    decreases n,
{
    let all = gather(n, g);
    if n > 0 {
        let rest = gather((n - 1) as nat, g);
        lemma_gather_contains((n - 1) as nat, g, v);
        if all.contains(v) {
            let k = choose|k: int| 0 <= k < all.len() && all[k] == v;
            if k < rest.len() {
                assert(rest[k] == v);
                let i = choose|i: int| 0 <= i < n - 1 && #[trigger] g(i) == Some(v);
                assert(g(i) == Some(v));
            } else {
                assert(g(n - 1) == Some(v));
            }
        }
        if exists|i: int| 0 <= i < n && #[trigger] g(i) == Some(v) {
            let i = choose|i: int| 0 <= i < n && #[trigger] g(i) == Some(v);
            if i < n - 1 {
                assert(rest.contains(v));
                let k = choose|k: int| 0 <= k < rest.len() && rest[k] == v;
                assert(all[k] == v);
            } else {
                assert(all[all.len() - 1] == v);
            }
        }
    }
}

/// Gathering from no more than `n` indexes gives no more than `n` values.
pub proof fn lemma_gather_len<V>(n: nat, g: spec_fn(int) -> Option<V>)
    ensures
        gather(n, g).len() <= n,
    decreases n,
{
    if n > 0 {
        lemma_gather_len((n - 1) as nat, g);
    }
}

/// Functions that agree below the bound gather the same.
pub proof fn lemma_gather_same<V>(
    n: nat,
    f: spec_fn(int) -> Option<V>,
    g: spec_fn(int) -> Option<V>,
)
    requires
        forall|i: int| 0 <= i < n ==> #[trigger] f(i) == g(i),
    ensures
        gather(n, f) == gather(n, g),
    decreases n,
{
    if n > 0 {
        lemma_gather_same((n - 1) as nat, f, g);
        assert(f(n - 1) == g(n - 1));
    }
}

/// A function that gives every value of a sequence gathers the sequence.
pub proof fn lemma_gather_all<V>(n: nat, g: spec_fn(int) -> Option<V>, s: Seq<V>)
    requires
        n <= s.len(),
        forall|i: int| 0 <= i < n ==> #[trigger] g(i) == Some(s[i]),
    ensures
        gather(n, g) == s.take(n as int),
        n == s.len() ==> gather(n, g) == s,
    decreases n,
{
    if n > 0 {
        lemma_gather_all((n - 1) as nat, g, s);
        assert(g(n - 1) == Some(s[n - 1]));
        assert(s.take(n as int) =~= s.take(n - 1).push(s[n - 1]));
    } else {
        assert(s.take(0) =~= Seq::empty());
    }
    if n == s.len() {
        assert(s.take(n as int) =~= s);
    }
}

/// An element of a concatenation stems from one of its parts.
pub proof fn lemma_concat_contains<V>(n: nat, g: spec_fn(int) -> Seq<V>, v: V)
    ensures
        concat_below(n, g).contains(v) <==> exists|i: int|
            0 <= i < n && (#[trigger] g(i)).contains(v),
    decreases n,
{
    let all = concat_below(n, g);
    if n > 0 {
        let rest = concat_below((n - 1) as nat, g);
        lemma_concat_contains((n - 1) as nat, g, v);
        if all.contains(v) {
            let k = choose|k: int| 0 <= k < all.len() && all[k] == v;
            if k < rest.len() {
                assert(rest[k] == v);
                assert(rest.contains(v));
            } else {
                assert(g(n - 1)[k - rest.len()] == v);
                assert(g(n - 1).contains(v));
            }
        }
        if exists|i: int| 0 <= i < n && (#[trigger] g(i)).contains(v) {
            let i = choose|i: int| 0 <= i < n && (#[trigger] g(i)).contains(v);
            if i < n - 1 {
                assert(rest.contains(v));
                let k = choose|k: int| 0 <= k < rest.len() && rest[k] == v;
                assert(all[k] == v);
            } else {
                let last = g(n - 1);
                let k = choose|k: int| 0 <= k < last.len() && last[k] == v;
                assert(all[rest.len() + k] == v);
            }
        }
    }
}

} // verus!

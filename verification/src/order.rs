//! Total orders on strings and sequences, and a verified sort.
//!
//! `Ranked` describes a type whose model is totally ordered. `sort_ranked`
//! arranges a vector in that order; its contract uses `Seq::sort_by`, which for
//! a total order is the only sorted rearrangement of the input.

use vstd::prelude::*;
use vstd::relations::{antisymmetric, connected, reflexive, sorted_by, total_ordering, transitive};

verus! {

/// A type whose model has a total order and an executable comparison.
pub trait Ranked: DeepView + Sized {
    /// Whether `a` comes no later than `b`.
    spec fn ranked_le(a: Self::V, b: Self::V) -> bool;

    proof fn lemma_ranked_total()
        ensures
            total_ordering(|a: Self::V, b: Self::V| Self::ranked_le(a, b)),
    ;

    /// Decides `ranked_le`.
    fn is_ranked_le(&self, other: &Self) -> (r: bool)
        ensures
            r == Self::ranked_le(self.deep_view(), other.deep_view()),
    ;
}

/// Lexicographic order on sequences, by an order on their elements.
pub open spec fn lexicographic_le<V>(le: spec_fn(V, V) -> bool, a: Seq<V>, b: Seq<V>) -> bool
    decreases a.len(),
{
    if a.len() == 0 {
        true
    } else if b.len() == 0 {
        false
    } else if a[0] == b[0] {
        lexicographic_le(le, a.skip(1), b.skip(1))
    } else {
        le(a[0], b[0])
    }
}

/// The order of text: by code points, from the first character on.
pub open spec fn text_le(a: Seq<char>, b: Seq<char>) -> bool {
    lexicographic_le(|x: char, y: char| x <= y, a, b)
}

proof fn lemma_lexicographic_reflexive<V>(le: spec_fn(V, V) -> bool, a: Seq<V>)
    ensures
        lexicographic_le(le, a, a),
    decreases a.len(),
{
    if a.len() > 0 {
        lemma_lexicographic_reflexive(le, a.skip(1));
    }
}

proof fn lemma_lexicographic_antisymmetric<V>(le: spec_fn(V, V) -> bool, a: Seq<V>, b: Seq<V>)
    requires
        total_ordering(le),
        lexicographic_le(le, a, b),
        lexicographic_le(le, b, a),
    ensures
        a == b,
    decreases a.len(),
{
    if a.len() == 0 || b.len() == 0 {
        assert(a =~= b);
    } else {
        assert(antisymmetric(le));
        if a[0] != b[0] {
            assert(le(a[0], b[0]) && le(b[0], a[0]));
            assert(false);
        }
        lemma_lexicographic_antisymmetric(le, a.skip(1), b.skip(1));
        assert(a =~= seq![a[0]] + a.skip(1));
        assert(b =~= seq![b[0]] + b.skip(1));
    }
}

proof fn lemma_lexicographic_transitive<V>(
    le: spec_fn(V, V) -> bool,
    a: Seq<V>,
    b: Seq<V>,
    c: Seq<V>,
)
    requires
        total_ordering(le),
        lexicographic_le(le, a, b),
        lexicographic_le(le, b, c),
    ensures
        lexicographic_le(le, a, c),
    decreases a.len(),
{
    if a.len() > 0 && b.len() > 0 && c.len() > 0 {
        assert(transitive(le));
        assert(antisymmetric(le));
        if a[0] == b[0] && b[0] == c[0] {
            lemma_lexicographic_transitive(le, a.skip(1), b.skip(1), c.skip(1));
        } else {
            assert(le(a[0], c[0]));
            if a[0] == c[0] {
                assert(le(a[0], b[0]) && le(b[0], a[0]));
                assert(false);
            }
        }
    }
}

proof fn lemma_lexicographic_connected<V>(le: spec_fn(V, V) -> bool, a: Seq<V>, b: Seq<V>)
    requires
        total_ordering(le),
    ensures
        lexicographic_le(le, a, b) || lexicographic_le(le, b, a),
    decreases a.len(),
{
    if a.len() > 0 && b.len() > 0 {
        assert(connected(le));
        if a[0] == b[0] {
            lemma_lexicographic_connected(le, a.skip(1), b.skip(1));
        }
    }
}

/// The lexicographic order over a total order is total.
pub proof fn lemma_lexicographic_total<V>(le: spec_fn(V, V) -> bool)
    requires
        total_ordering(le),
    ensures
        total_ordering(|a: Seq<V>, b: Seq<V>| lexicographic_le(le, a, b)),
{
    let lex = |a: Seq<V>, b: Seq<V>| lexicographic_le(le, a, b);
    assert forall|a: Seq<V>| #[trigger] lex(a, a) by {
        lemma_lexicographic_reflexive(le, a);
    }
    assert forall|a: Seq<V>, b: Seq<V>| #[trigger] lex(a, b) && #[trigger] lex(b, a) implies a
        == b by {
        lemma_lexicographic_antisymmetric(le, a, b);
    }
    assert forall|a: Seq<V>, b: Seq<V>, c: Seq<V>| #[trigger]
        lex(a, b) && #[trigger] lex(b, c) implies lex(a, c) by {
        lemma_lexicographic_transitive(le, a, b, c);
    }
    assert forall|a: Seq<V>, b: Seq<V>| a != b implies #[trigger] lex(a, b) || #[trigger] lex(
        b,
        a,
    ) by {
        lemma_lexicographic_connected(le, a, b);
    }
    assert(reflexive(lex));
    assert(antisymmetric(lex));
    assert(transitive(lex));
    assert(connected(lex));
}

impl Ranked for usize {
    open spec fn ranked_le(a: usize, b: usize) -> bool {
        a <= b
    }

    proof fn lemma_ranked_total() {
    }

    fn is_ranked_le(&self, other: &usize) -> bool {
        *self <= *other
    }
}

impl Ranked for String {
    open spec fn ranked_le(a: Seq<char>, b: Seq<char>) -> bool {
        text_le(a, b)
    }

    proof fn lemma_ranked_total() {
        lemma_lexicographic_total(|x: char, y: char| x <= y);
        let f = |a: Seq<char>, b: Seq<char>| Self::ranked_le(a, b);
        assert(f =~= (|a: Seq<char>, b: Seq<char>| lexicographic_le(|x: char, y: char| x <= y, a, b)));
    }

    fn is_ranked_le(&self, other: &String) -> bool {
        let r = is_text_le(self.as_str(), other.as_str());
        assert(Self::ranked_le(self.deep_view(), other.deep_view()) == text_le(self@, other@));
        r
    }
}

/// Decides the order of text.
pub fn is_text_le(a: &str, b: &str) -> (r: bool)
    ensures
        r == text_le(a@, b@),
{
    let ghost le = |x: char, y: char| x <= y;
    let n: usize = a.unicode_len();
    let m: usize = b.unicode_len();
    let mut i: usize = 0;
    proof {
        assert(a@.skip(0) =~= a@);
        assert(b@.skip(0) =~= b@);
    }
    while i < n && i < m
        invariant
            n == a@.len(),
            m == b@.len(),
            i <= n,
            i <= m,
            le == (|x: char, y: char| x <= y),
            text_le(a@, b@) == lexicographic_le(le, a@.skip(i as int), b@.skip(i as int)),
        decreases n - i,
    {
        let x: char = a.get_char(i);
        let y: char = b.get_char(i);
        if x != y {
            return x < y;
        }
        proof {
            assert(a@.skip(i as int).skip(1) =~= a@.skip(i + 1));
            assert(b@.skip(i as int).skip(1) =~= b@.skip(i + 1));
        }
        i = i + 1;
    }
    i == n
}

impl<T: Ranked> Ranked for Vec<T> {
    open spec fn ranked_le(a: Seq<T::V>, b: Seq<T::V>) -> bool {
        lexicographic_le(|x: T::V, y: T::V| T::ranked_le(x, y), a, b)
    }

    proof fn lemma_ranked_total() {
        T::lemma_ranked_total();
        let le = |x: T::V, y: T::V| T::ranked_le(x, y);
        lemma_lexicographic_total(le);
        let f = |a: Seq<T::V>, b: Seq<T::V>| Self::ranked_le(a, b);
        assert(f =~= (|a: Seq<T::V>, b: Seq<T::V>| lexicographic_le(le, a, b)));
    }

    fn is_ranked_le(&self, other: &Vec<T>) -> bool {
        let ghost le = |x: T::V, y: T::V| T::ranked_le(x, y);
        let ghost a = self.deep_view();
        let ghost b = other.deep_view();
        let mut i: usize = 0;
        proof {
            assert(a.skip(0) =~= a);
            assert(b.skip(0) =~= b);
            T::lemma_ranked_total();
        }
        while i < self.len() && i < other.len()
            invariant
                a == self.deep_view(),
                b == other.deep_view(),
                i <= self.len(),
                i <= other.len(),
                le == (|x: T::V, y: T::V| T::ranked_le(x, y)),
                total_ordering(le),
                Self::ranked_le(a, b) == lexicographic_le(le, a.skip(i as int), b.skip(i as int)),
            decreases self.len() - i,
        {
            let forward: bool = self[i].is_ranked_le(&other[i]);
            let backward: bool = other[i].is_ranked_le(&self[i]);
            proof {
                let x = a[i as int];
                let y = b[i as int];
                assert(le(x, y) == forward);
                assert(le(y, x) == backward);
                assert(antisymmetric(le));
                assert(reflexive(le));
                assert(connected(le));
                assert((x == y) == (forward && backward));
                assert(a.skip(i as int)[0] == x);
                assert(b.skip(i as int)[0] == y);
                assert(a.skip(i as int).skip(1) =~= a.skip(i + 1));
                assert(b.skip(i as int).skip(1) =~= b.skip(i + 1));
            }
            if !(forward && backward) {
                return forward;
            }
            i = i + 1;
        }
        i == self.len()
    }
}

/// The sorted arrangement of a model sequence.
pub open spec fn ranked_sort<T: Ranked>(s: Seq<T::V>) -> Seq<T::V> {
    s.sort_by(|a: T::V, b: T::V| T::ranked_le(a, b))
}

/// A sorted rearrangement is `ranked_sort`: there is no other one.
pub proof fn lemma_ranked_sort_unique<T: Ranked>(s: Seq<T::V>, r: Seq<T::V>)
    requires
        sorted_by(r, |a: T::V, b: T::V| T::ranked_le(a, b)),
        r.to_multiset() == s.to_multiset(),
    ensures
        r == ranked_sort::<T>(s),
{
    let le = |a: T::V, b: T::V| T::ranked_le(a, b);
    T::lemma_ranked_total();
    s.lemma_sort_by_ensures(le);
    vstd::seq_lib::lemma_sorted_unique(r, s.sort_by(le), le);
}

/// Sorting arranges and keeps: the result is in order and holds the same
/// elements, each as often.
pub proof fn lemma_ranked_sort_is_sorting<T: Ranked>(s: Seq<T::V>)
    ensures
        sorted_by(ranked_sort::<T>(s), |a: T::V, b: T::V| T::ranked_le(a, b)),
        ranked_sort::<T>(s).to_multiset() == s.to_multiset(),
        ranked_sort::<T>(s).len() == s.len(),
        forall|x: T::V| #[trigger] ranked_sort::<T>(s).contains(x) <==> s.contains(x),
{
    let le = |a: T::V, b: T::V| T::ranked_le(a, b);
    let r = ranked_sort::<T>(s);
    T::lemma_ranked_total();
    s.lemma_sort_by_ensures(le);
    broadcast use vstd::seq_lib::group_to_multiset_ensures;
    assert(r.len() == r.to_multiset().len());
    assert(s.len() == s.to_multiset().len());
    assert forall|x: T::V| #[trigger] r.contains(x) <==> s.contains(x) by {
        assert(r.contains(x) <==> r.to_multiset().count(x) > 0);
        assert(s.contains(x) <==> s.to_multiset().count(x) > 0);
    }
}

/// Inserts an element behind every element that comes no later than it.
fn insert_ranked<T: Ranked>(sorted: &mut Vec<T>, item: T)
    requires
        sorted_by(old(sorted).deep_view(), |a: T::V, b: T::V| T::ranked_le(a, b)),
    ensures
        sorted_by(final(sorted).deep_view(), |a: T::V, b: T::V| T::ranked_le(a, b)),
        final(sorted).deep_view().to_multiset() == old(sorted).deep_view().to_multiset().insert(
            item.deep_view(),
        ),
{
    let ghost le = |a: T::V, b: T::V| T::ranked_le(a, b);
    let ghost before = sorted.deep_view();
    proof {
        T::lemma_ranked_total();
    }
    let mut i: usize = sorted.len();
    while i > 0
        invariant_except_break
            i <= sorted.len(),
        invariant
            *sorted == *old(sorted),
            before == sorted.deep_view(),
            i <= sorted.len(),
            le == (|a: T::V, b: T::V| T::ranked_le(a, b)),
            total_ordering(le),
            sorted_by(before, le),
            forall|k: int|
                i <= k < before.len() ==> !#[trigger] T::ranked_le(before[k], item.deep_view()),
        ensures
            i <= sorted.len(),
            i > 0 ==> T::ranked_le(before[i - 1], item.deep_view()),
        decreases i,
    {
        if sorted[i - 1].is_ranked_le(&item) {
            break;
        }
        i = i - 1;
    }
    let ghost x = item.deep_view();
    sorted.insert(i, item);
    proof {
        let after = sorted.deep_view();
        assert(after =~= before.insert(i as int, x));
        before.insert_ensures(i as int, x);
        vstd::seq_lib::to_multiset_insert(before, i as int, x);
        assert(transitive(le));
        assert(connected(le));
        assert forall|p: int, q: int| 0 <= p < q < after.len() implies #[trigger] le(
            after[p],
            after[q],
        ) by {
            if q < i {
                assert(le(before[p], before[q]));
            } else if p > i {
                assert(le(before[p - 1], before[q - 1]));
            } else if p < i && q > i {
                assert(le(before[p], before[q - 1]));
            } else if q == i {
                assert(le(before[i - 1], x));
                if p < i - 1 {
                    assert(le(before[p], before[i - 1]));
                }
            } else {
                assert(p == i);
                assert(!T::ranked_le(before[q - 1], x));
                assert(!le(before[q - 1], x));
                assert(reflexive(le));
                assert(before[q - 1] != x);
                assert(le(x, before[q - 1]));
            }
        }
        assert(sorted_by(after, le));
    }
}

/// Sorts a vector.
pub fn sort_ranked<T: Ranked>(items: Vec<T>) -> (r: Vec<T>)
    ensures
        r.deep_view() == ranked_sort::<T>(items.deep_view()),
{
    let mut rest = items;
    let mut sorted: Vec<T> = Vec::new();
    let ghost all = items.deep_view();
    let ghost le = |a: T::V, b: T::V| T::ranked_le(a, b);
    proof {
        broadcast use vstd::seq_lib::group_to_multiset_ensures;
        assert(sorted.deep_view() =~= Seq::<T::V>::empty());
        assert(sorted.deep_view().to_multiset() =~= vstd::multiset::Multiset::empty());
        assert(sorted_by(sorted.deep_view(), le));
    }
    while rest.len() > 0
        invariant
            le == (|a: T::V, b: T::V| T::ranked_le(a, b)),
            sorted_by(sorted.deep_view(), le),
            sorted.deep_view().to_multiset().add(rest.deep_view().to_multiset()) == all.to_multiset(),
        decreases rest.len(),
    {
        let ghost before_rest = rest.deep_view();
        let ghost before_sorted = sorted.deep_view();
        let last = rest.pop();
        if let Some(item) = last {
            let ghost x = item.deep_view();
            proof {
                broadcast use vstd::seq_lib::group_to_multiset_ensures;
                assert(before_rest =~= rest.deep_view().push(x));
                assert(before_rest.to_multiset() =~= rest.deep_view().to_multiset().insert(x));
            }
            insert_ranked(&mut sorted, item);
            proof {
                assert(sorted.deep_view().to_multiset().add(rest.deep_view().to_multiset())
                    =~= before_sorted.to_multiset().add(before_rest.to_multiset()));
            }
        }
    }
    proof {
        broadcast use vstd::seq_lib::group_to_multiset_ensures;
        assert(rest.deep_view() =~= Seq::<T::V>::empty());
        assert(sorted.deep_view().to_multiset() =~= all.to_multiset());
        lemma_ranked_sort_unique::<T>(all, sorted.deep_view());
    }
    sorted
}

impl Ranked for u64 {
    open spec fn ranked_le(a: u64, b: u64) -> bool {
        a <= b
    }

    proof fn lemma_ranked_total() {
    }

    fn is_ranked_le(&self, other: &u64) -> bool {
        *self <= *other
    }
}

impl Ranked for u32 {
    open spec fn ranked_le(a: u32, b: u32) -> bool {
        a <= b
    }

    proof fn lemma_ranked_total() {
    }

    fn is_ranked_le(&self, other: &u32) -> bool {
        *self <= *other
    }
}

/// Pairs are ordered by their first part, and where it is equal by the second.
impl<A: Ranked, B: Ranked> Ranked for (A, B) {
    open spec fn ranked_le(a: (A::V, B::V), b: (A::V, B::V)) -> bool {
        if a.0 == b.0 {
            B::ranked_le(a.1, b.1)
        } else {
            A::ranked_le(a.0, b.0)
        }
    }

    proof fn lemma_ranked_total() {
        A::lemma_ranked_total();
        B::lemma_ranked_total();
        let f = |a: A::V, b: A::V| A::ranked_le(a, b);
        let g = |a: B::V, b: B::V| B::ranked_le(a, b);
        let h = |a: (A::V, B::V), b: (A::V, B::V)| Self::ranked_le(a, b);
        assert(total_ordering(f));
        assert(total_ordering(g));
        assert forall|a: (A::V, B::V)| #[trigger] h(a, a) by {
            assert(g(a.1, a.1));
        }
        assert forall|a: (A::V, B::V), b: (A::V, B::V)| #[trigger]
            h(a, b) && #[trigger] h(b, a) implies a == b by {
            if a.0 != b.0 {
                assert(f(a.0, b.0) && f(b.0, a.0));
            } else {
                assert(g(a.1, b.1) && g(b.1, a.1));
            }
        }
        assert forall|a: (A::V, B::V), b: (A::V, B::V), c: (A::V, B::V)| #[trigger]
            h(a, b) && #[trigger] h(b, c) implies h(a, c) by {
            if a.0 == b.0 && b.0 == c.0 {
                assert(g(a.1, b.1) && g(b.1, c.1));
                assert(g(a.1, c.1));
            } else if a.0 != b.0 && b.0 != c.0 {
                assert(f(a.0, b.0) && f(b.0, c.0));
                assert(f(a.0, c.0));
                if a.0 == c.0 {
                    assert(f(a.0, b.0) && f(b.0, a.0));
                    assert(false);
                }
            }
        }
        assert forall|a: (A::V, B::V), b: (A::V, B::V)| a != b implies #[trigger] h(
            a,
            b,
        ) || #[trigger] h(b, a) by {
            if a.0 == b.0 {
                assert(a.1 != b.1);
                assert(g(a.1, b.1) || g(b.1, a.1));
            } else {
                assert(f(a.0, b.0) || f(b.0, a.0));
            }
        }
        assert(reflexive(h));
        assert(antisymmetric(h));
        assert(transitive(h));
        assert(connected(h));
    }

    fn is_ranked_le(&self, other: &(A, B)) -> bool {
        let forward: bool = self.0.is_ranked_le(&other.0);
        let backward: bool = other.0.is_ranked_le(&self.0);
        proof {
            lemma_ranked_same::<A>(self.0.deep_view(), other.0.deep_view());
        }
        if forward && backward {
            self.1.is_ranked_le(&other.1)
        } else {
            forward
        }
    }
}

/// The order of pairs.
pub proof fn lemma_pair_ranked<A: Ranked, B: Ranked>(a: (A::V, B::V), b: (A::V, B::V))
    ensures
        <(A, B) as Ranked>::ranked_le(a, b) == if a.0 == b.0 {
            B::ranked_le(a.1, b.1)
        } else {
            A::ranked_le(a.0, b.0)
        },
{
}

/// Two values are equal exactly if neither comes after the other.
pub proof fn lemma_ranked_same<T: Ranked>(a: T::V, b: T::V)
    ensures
        a == b <==> T::ranked_le(a, b) && T::ranked_le(b, a),
        T::ranked_le(a, b) || T::ranked_le(b, a),
{
    T::lemma_ranked_total();
    let f = |a: T::V, b: T::V| T::ranked_le(a, b);
    assert(total_ordering(f));
    assert(f(a, a));
    if f(a, b) && f(b, a) {
        assert(a == b);
    }
    if a != b {
        assert(f(a, b) || f(b, a));
    }
}

/// `ranked_le` can be chained.
pub proof fn lemma_ranked_chain<T: Ranked>(a: T::V, b: T::V, c: T::V)
    requires
        T::ranked_le(a, b),
        T::ranked_le(b, c),
    ensures
        T::ranked_le(a, c),
{
    T::lemma_ranked_total();
    let f = |a: T::V, b: T::V| T::ranked_le(a, b);
    assert(f(a, b) && f(b, c));
    assert(f(a, c));
}

/// A way to sort values of type `T`: by a key whose type is ordered.
pub trait SortKey<T: DeepView>: Sized {
    type Key: Ranked;

    /// The key of a value.
    spec fn key(v: T::V) -> <Self::Key as DeepView>::V;

    /// Decides whether the key of `a` comes no later than that of `b`.
    fn is_key_le(a: &T, b: &T) -> (r: bool)
        ensures
            r == Self::Key::ranked_le(Self::key(a.deep_view()), Self::key(b.deep_view())),
    ;
}

/// Whether the key of `a` comes no later than that of `b`.
pub open spec fn key_le<T: DeepView, S: SortKey<T>>(a: T::V, b: T::V) -> bool {
    S::Key::ranked_le(S::key(a), S::key(b))
}

/// Inserts an element before the first one whose key does not come earlier.
pub open spec fn insert_by<T: DeepView, S: SortKey<T>>(x: T::V, s: Seq<T::V>) -> Seq<T::V>
    decreases s.len(),
{
    if s.len() == 0 || key_le::<T, S>(x, s[0]) {
        seq![x] + s
    } else {
        seq![s[0]] + insert_by::<T, S>(x, s.skip(1))
    }
}

/// The sequence sorted by a key; elements with the same key keep their order.
pub open spec fn sorted_by_key<T: DeepView, S: SortKey<T>>(s: Seq<T::V>) -> Seq<T::V>
    decreases s.len(),
{
    if s.len() == 0 {
        s
    } else {
        insert_by::<T, S>(s[0], sorted_by_key::<T, S>(s.skip(1)))
    }
}

proof fn lemma_insert_by_at<T: DeepView, S: SortKey<T>>(x: T::V, s: Seq<T::V>, i: int)
    requires
        0 <= i <= s.len(),
        forall|j: int| 0 <= j < i ==> !#[trigger] key_le::<T, S>(x, s[j]),
        i < s.len() ==> key_le::<T, S>(x, s[i]),
    ensures
        insert_by::<T, S>(x, s) == s.insert(i, x),
    decreases i,
{
    if i == 0 {
        assert(seq![x] + s =~= s.insert(0, x));
    } else {
        assert(!key_le::<T, S>(x, s[0]));
        let t = s.skip(1);
        assert forall|j: int| 0 <= j < i - 1 implies !#[trigger] key_le::<T, S>(x, t[j]) by {
            assert(!key_le::<T, S>(x, s[j + 1]));
        }
        lemma_insert_by_at::<T, S>(x, t, i - 1);
        assert(seq![s[0]] + t.insert(i - 1, x) =~= s.insert(i, x));
    }
}

/// Where `insert_by` inserts.
pub proof fn lemma_insert_by_place<T: DeepView, S: SortKey<T>>(x: T::V, s: Seq<T::V>) -> (i: int)
    ensures
        0 <= i <= s.len(),
        forall|j: int| 0 <= j < i ==> !#[trigger] key_le::<T, S>(x, s[j]),
        i < s.len() ==> key_le::<T, S>(x, s[i]),
        insert_by::<T, S>(x, s) == s.insert(i, x),
    decreases s.len(),
{
    if s.len() == 0 || key_le::<T, S>(x, s[0]) {
        assert(seq![x] + s =~= s.insert(0, x));
        0
    } else {
        let t = s.skip(1);
        let k = lemma_insert_by_place::<T, S>(x, t);
        assert forall|j: int| 0 <= j < k + 1 implies !#[trigger] key_le::<T, S>(x, s[j]) by {
            if j > 0 {
                assert(!key_le::<T, S>(x, t[j - 1]));
            }
        }
        lemma_insert_by_at::<T, S>(x, s, k + 1);
        k + 1
    }
}

/// Sorting by a key keeps all elements, each as often, and orders them.
pub proof fn lemma_sorted_by_key<T: DeepView, S: SortKey<T>>(s: Seq<T::V>)
    ensures
        sorted_by_key::<T, S>(s).to_multiset() == s.to_multiset(),
        sorted_by_key::<T, S>(s).len() == s.len(),
        forall|i: int, j: int|
            0 <= i <= j < s.len() ==> #[trigger] key_le::<T, S>(
                sorted_by_key::<T, S>(s)[i],
                sorted_by_key::<T, S>(s)[j],
            ),
    decreases s.len(),
{
    let r = sorted_by_key::<T, S>(s);
    if s.len() > 0 {
        let x = s[0];
        let rest = s.skip(1);
        lemma_sorted_by_key::<T, S>(rest);
        let t = sorted_by_key::<T, S>(rest);
        let k = lemma_insert_by_place::<T, S>(x, t);
        t.insert_ensures(k, x);
        vstd::seq_lib::to_multiset_insert(t, k, x);
        assert(s =~= rest.insert(0, x));
        vstd::seq_lib::to_multiset_insert(rest, 0, x);
        assert forall|i: int, j: int| 0 <= i <= j < s.len() implies #[trigger] key_le::<T, S>(
            r[i],
            r[j],
        ) by {
            if i == j {
                lemma_ranked_same::<S::Key>(S::key(r[i]), S::key(r[i]));
            } else if j < k {
                assert(key_le::<T, S>(t[i], t[j]));
            } else if i > k {
                assert(key_le::<T, S>(t[i - 1], t[j - 1]));
            } else if i < k && j > k {
                assert(key_le::<T, S>(t[i], t[j - 1]));
            } else if j == k {
                assert(!key_le::<T, S>(x, t[i]));
                lemma_ranked_same::<S::Key>(S::key(x), S::key(t[i]));
            } else {
                assert(i == k);
                assert(key_le::<T, S>(x, t[k]));
                assert(key_le::<T, S>(t[k], t[j - 1]));
                lemma_ranked_chain::<S::Key>(S::key(x), S::key(t[k]), S::key(t[j - 1]));
            }
        }
    }
}

/// Sorting by a key keeps the elements of every key in their order.
pub proof fn lemma_sorted_by_key_stable<T: DeepView, S: SortKey<T>>(
    s: Seq<T::V>,
    k: <S::Key as DeepView>::V,
)
    ensures
        sorted_by_key::<T, S>(s).filter(|v: T::V| S::key(v) == k) == s.filter(
            |v: T::V| S::key(v) == k,
        ),
    decreases s.len(),
{
    let p = |v: T::V| S::key(v) == k;
    if s.len() > 0 {
        let x = s[0];
        let rest = s.skip(1);
        lemma_sorted_by_key_stable::<T, S>(rest, k);
        let t = sorted_by_key::<T, S>(rest);
        lemma_insert_by_filter::<T, S>(x, t, k);
        assert(s =~= seq![x] + rest);
        Seq::filter_distributes_over_add(seq![x], rest, p);
    }
}

proof fn lemma_insert_by_filter<T: DeepView, S: SortKey<T>>(
    x: T::V,
    s: Seq<T::V>,
    k: <S::Key as DeepView>::V,
)
    ensures
        insert_by::<T, S>(x, s).filter(|v: T::V| S::key(v) == k) == seq![x].filter(
            |v: T::V| S::key(v) == k,
        ) + s.filter(|v: T::V| S::key(v) == k),
    decreases s.len(),
{
    let p = |v: T::V| S::key(v) == k;
    if s.len() == 0 || key_le::<T, S>(x, s[0]) {
        Seq::filter_distributes_over_add(seq![x], s, p);
    } else {
        let t = s.skip(1);
        lemma_insert_by_filter::<T, S>(x, t, k);
        Seq::filter_distributes_over_add(seq![s[0]], insert_by::<T, S>(x, t), p);
        Seq::filter_distributes_over_add(seq![s[0]], t, p);
        assert(s =~= seq![s[0]] + t);
        lemma_ranked_same::<S::Key>(S::key(x), S::key(s[0]));
        lemma_filter_single(x, p);
        lemma_filter_single(s[0], p);
        assert(!(p(x) && p(s[0])));
        assert(insert_by::<T, S>(x, s).filter(p) =~= seq![x].filter(p) + s.filter(p));
    }
}

proof fn lemma_filter_single<V>(x: V, p: spec_fn(V) -> bool)
    ensures
        seq![x].filter(p) == if p(x) {
            seq![x]
        } else {
            seq![]
        },
{
    reveal(Seq::filter);
    assert(seq![x].drop_last() =~= Seq::<V>::empty());
    assert(Seq::<V>::empty().filter(p) =~= Seq::<V>::empty());
    assert(Seq::<V>::empty().push(x) =~= seq![x]);
}

/// An element is in the sorted sequence exactly if it is in the other.
pub proof fn lemma_sorted_by_key_contains<T: DeepView, S: SortKey<T>>(s: Seq<T::V>, v: T::V)
    ensures
        sorted_by_key::<T, S>(s).contains(v) <==> s.contains(v),
{
    lemma_sorted_by_key::<T, S>(s);
    broadcast use vstd::seq_lib::group_to_multiset_ensures;
    let r = sorted_by_key::<T, S>(s);
    assert(r.contains(v) <==> r.to_multiset().count(v) > 0);
    assert(s.contains(v) <==> s.to_multiset().count(v) > 0);
}

/// Sorts a vector by a key; elements with the same key keep their order.
pub fn sort_by_key<T: DeepView, S: SortKey<T>>(items: Vec<T>) -> (r: Vec<T>)
    ensures
        r.deep_view() == sorted_by_key::<T, S>(items.deep_view()),
        r@.to_multiset() == items@.to_multiset(),
{
    let ghost all = items.deep_view();
    let ghost source = items@;
    let mut rest = items;
    let mut sorted: Vec<T> = Vec::new();
    proof {
        broadcast use vstd::seq_lib::group_to_multiset_ensures;
        assert(sorted.deep_view() =~= all.skip(all.len() as int));
        assert(sorted@.to_multiset() =~= vstd::multiset::Multiset::empty());
        assert(rest.deep_view() =~= all.take(all.len() as int));
    }
    while rest.len() > 0
        invariant
            rest.len() <= all.len(),
            rest.deep_view() == all.take(rest.len() as int),
            sorted.deep_view() == sorted_by_key::<T, S>(all.skip(rest.len() as int)),
            sorted@.to_multiset().add(rest@.to_multiset()) == source.to_multiset(),
        decreases rest.len(),
    {
        let ghost n = rest.len() as int;
        let ghost rest_before = rest@;
        let ghost sorted_before = sorted@;
        let ghost t = sorted.deep_view();
        let last = rest.pop();
        if let Some(item) = last {
            let ghost x = item.deep_view();
            proof {
                assert(rest_before =~= rest@.push(item));
                assert(all.take(n)[n - 1] == all[n - 1]);
                assert(x == all[n - 1]);
                assert(all.skip(n - 1)[0] == x);
                assert(all.skip(n - 1).skip(1) =~= all.skip(n));
                assert(rest.deep_view() =~= all.take(n - 1));
                broadcast use vstd::seq_lib::group_to_multiset_ensures;
                assert(rest_before.to_multiset() =~= rest@.to_multiset().insert(item));
            }
            let mut i: usize = 0;
            while i < sorted.len() && !S::is_key_le(&item, &sorted[i])
                invariant
                    i <= sorted.len(),
                    t == sorted.deep_view(),
                    x == item.deep_view(),
                    forall|j: int| 0 <= j < i ==> !#[trigger] key_le::<T, S>(x, t[j]),
                decreases sorted.len() - i,
            {
                i = i + 1;
            }
            sorted.insert(i, item);
            proof {
                lemma_insert_by_at::<T, S>(x, t, i as int);
                assert(sorted.deep_view() =~= t.insert(i as int, x));
                sorted_before.insert_ensures(i as int, item);
                vstd::seq_lib::to_multiset_insert(sorted_before, i as int, item);
                assert(sorted@.to_multiset().add(rest@.to_multiset())
                    =~= sorted_before.to_multiset().add(rest_before.to_multiset()));
            }
        }
    }
    proof {
        broadcast use vstd::seq_lib::group_to_multiset_ensures;
        assert(all.skip(0) =~= all);
        assert(rest@ =~= Seq::<T>::empty());
        assert(sorted@.to_multiset() =~= source.to_multiset());
    }
    sorted
}

} // verus!

//! Looking up values by name.
//!
//! Several lists of the runtime are read as maps from a name to a value. Where a
//! name occurs more than once, the last value under it counts.

use vstd::prelude::*;

use crate::model::communication::RuntimePartitionCommunicationWorkerSummary;
use crate::model::communication::RuntimePartitionCommunicationWorkerSummaryView;
use crate::model::launch::{RuntimePartitionWorkerLaunch, RuntimePartitionWorkerLaunchView};
use crate::model::partition::{RuntimePartition, RuntimePartitionView};
use crate::model::placement::{
    RuntimePartitionAssignment, RuntimePartitionAssignmentView, RuntimePartitionWorkerSummary,
    RuntimePartitionWorkerSummaryView,
};
use crate::model::runtime::{RuntimeTcpEndpoint, RuntimeTcpEndpointView};
use crate::model::session::{
    RuntimePartitionRouteMailboxReport, RuntimePartitionRouteMailboxReportView,
    RuntimePartitionWorkerHealth, RuntimePartitionWorkerHealthView,
};
use crate::model::topology::{RuntimeWorker, RuntimeWorkerView};
use crate::seqs::{
    first_index, last_index, lemma_first_index, lemma_first_index_is, lemma_last_index,
    lemma_last_index_is,
};
use crate::text::same_text;

verus! {

/// A value that is found by a name.
pub trait Named: DeepView + Sized {
    /// The name in a model.
    spec fn name_of(v: Self::V) -> Seq<char>;

    /// The name.
    fn name(&self) -> (r: &str)
        ensures
            r@ == Self::name_of(self.deep_view()),
    ;
}

/// Which values have a name.
pub open spec fn is_named<T: Named>(s: Seq<T::V>, name: Seq<char>) -> spec_fn(int) -> bool {
    |i: int| T::name_of(s[i]) == name
}

/// The last value with a name.
pub open spec fn last_named<T: Named>(s: Seq<T::V>, name: Seq<char>) -> Option<int> {
    last_index(s.len(), is_named::<T>(s, name))
}

/// The first value with a name.
pub open spec fn first_named<T: Named>(s: Seq<T::V>, name: Seq<char>) -> Option<int> {
    first_index(s.len(), is_named::<T>(s, name))
}

/// Whether no two values have the same name.
pub open spec fn distinct_names<T: Named>(s: Seq<T::V>) -> bool {
    forall|i: int, j: int|
        0 <= i < j < s.len() ==> T::name_of(#[trigger] s[i]) != T::name_of(#[trigger] s[j])
}

/// What `last_named` finds.
pub proof fn lemma_last_named<T: Named>(s: Seq<T::V>, name: Seq<char>)
    ensures
        match last_named::<T>(s, name) {
            Some(k) => 0 <= k < s.len() && T::name_of(s[k]) == name && forall|j: int|
                k < j < s.len() ==> T::name_of(#[trigger] s[j]) != name,
            None => forall|j: int| 0 <= j < s.len() ==> T::name_of(#[trigger] s[j]) != name,
        },
{
    let p = is_named::<T>(s, name);
    lemma_last_index(s.len(), p);
    match last_named::<T>(s, name) {
        Some(k) => {
            assert forall|j: int| k < j < s.len() implies T::name_of(#[trigger] s[j]) != name by {
                assert(!p(j));
            }
        },
        None => {
            assert forall|j: int| 0 <= j < s.len() implies T::name_of(#[trigger] s[j]) != name by {
                assert(!p(j));
            }
        },
    }
}

/// Finds the last value with a name.
pub fn find_last_named<T: Named>(items: &Vec<T>, name: &str) -> (r: Option<usize>)
    ensures
        match r {
            Some(k) => k < items.len() && last_named::<T>(items.deep_view(), name@) == Some(
                k as int,
            ),
            None => last_named::<T>(items.deep_view(), name@) is None,
        },
{
    let ghost s = items.deep_view();
    let ghost p = is_named::<T>(s, name@);
    let mut i: usize = items.len();
    while i > 0
        invariant
            i <= items.len(),
            s == items.deep_view(),
            p == is_named::<T>(s, name@),
            forall|j: int| i <= j < s.len() ==> !#[trigger] p(j),
        decreases i,
    {
        i = i - 1;
        proof {
            assert(s[i as int] == items[i as int].deep_view());
        }
        if same_text(items[i].name(), name) {
            proof {
                assert(p(i as int));
                lemma_last_index_is(s.len(), p, i as int);
            }
            return Some(i);
        }
    }
    proof {
        lemma_last_index(s.len(), p);
    }
    None
}

/// Finds the first value with a name.
pub fn find_first_named<T: Named>(items: &Vec<T>, name: &str) -> (r: Option<usize>)
    ensures
        match r {
            Some(k) => k < items.len() && first_named::<T>(items.deep_view(), name@) == Some(
                k as int,
            ),
            None => first_named::<T>(items.deep_view(), name@) is None,
        },
{
    let ghost s = items.deep_view();
    let ghost p = is_named::<T>(s, name@);
    let mut i: usize = 0;
    while i < items.len()
        invariant
            i <= items.len(),
            s == items.deep_view(),
            p == is_named::<T>(s, name@),
            forall|j: int| 0 <= j < i ==> !#[trigger] p(j),
        decreases items.len() - i,
    {
        proof {
            assert(s[i as int] == items[i as int].deep_view());
        }
        if same_text(items[i].name(), name) {
            proof {
                assert(p(i as int));
                lemma_first_index_is(s.len(), p, i as int);
            }
            return Some(i);
        }
        i = i + 1;
    }
    proof {
        lemma_first_index(s.len(), p);
    }
    None
}

/// Whether the name of value `i` occurs before it.
pub open spec fn repeats_name<T: Named>(s: Seq<T::V>, i: int) -> bool {
    exists|j: int| 0 <= j < i && T::name_of(#[trigger] s[j]) == T::name_of(s[i])
}

/// Decides whether the name of value `i` occurs before it.
pub fn is_repeated_name<T: Named>(items: &Vec<T>, i: usize) -> (r: bool)
    requires
        i < items.len(),
    ensures
        r == repeats_name::<T>(items.deep_view(), i as int),
{
    let ghost s = items.deep_view();
    let mut j: usize = 0;
    proof {
        assert(s[i as int] == items[i as int].deep_view());
    }
    while j < i
        invariant
            j <= i < items.len(),
            s == items.deep_view(),
            forall|k: int| 0 <= k < j ==> T::name_of(#[trigger] s[k]) != T::name_of(s[i as int]),
        decreases i - j,
    {
        proof {
            assert(s[i as int] == items[i as int].deep_view());
            assert(s[j as int] == items[j as int].deep_view());
        }
        if same_text(items[j].name(), items[i].name()) {
            return true;
        }
        j = j + 1;
    }
    false
}

/// Names are distinct exactly if none is repeated.
pub proof fn lemma_distinct_names<T: Named>(s: Seq<T::V>)
    ensures
        distinct_names::<T>(s) <==> forall|i: int|
            0 <= i < s.len() ==> !#[trigger] repeats_name::<T>(s, i),
{
    if forall|i: int| 0 <= i < s.len() ==> !#[trigger] repeats_name::<T>(s, i) {
        assert forall|i: int, j: int| 0 <= i < j < s.len() implies T::name_of(#[trigger] s[i])
            != T::name_of(#[trigger] s[j]) by {
            assert(!repeats_name::<T>(s, j));
        }
    }
}

impl Named for RuntimePartition {
    open spec fn name_of(v: RuntimePartitionView) -> Seq<char> {
        v.id
    }

    fn name(&self) -> &str {
        self.id.as_str()
    }
}

impl Named for RuntimePartitionAssignment {
    open spec fn name_of(v: RuntimePartitionAssignmentView) -> Seq<char> {
        v.partition_id
    }

    fn name(&self) -> &str {
        self.partition_id.as_str()
    }
}

impl Named for RuntimePartitionWorkerSummary {
    open spec fn name_of(v: RuntimePartitionWorkerSummaryView) -> Seq<char> {
        v.worker_id
    }

    fn name(&self) -> &str {
        self.worker_id.as_str()
    }
}

impl Named for RuntimeWorker {
    open spec fn name_of(v: RuntimeWorkerView) -> Seq<char> {
        v.id
    }

    fn name(&self) -> &str {
        self.id.as_str()
    }
}

impl Named for RuntimePartitionWorkerLaunch {
    open spec fn name_of(v: RuntimePartitionWorkerLaunchView) -> Seq<char> {
        v.worker_id
    }

    fn name(&self) -> &str {
        self.worker_id.as_str()
    }
}

impl Named for RuntimePartitionCommunicationWorkerSummary {
    open spec fn name_of(v: RuntimePartitionCommunicationWorkerSummaryView) -> Seq<char> {
        v.worker_id
    }

    fn name(&self) -> &str {
        self.worker_id.as_str()
    }
}

impl Named for RuntimeTcpEndpoint {
    open spec fn name_of(v: RuntimeTcpEndpointView) -> Seq<char> {
        v.worker_id
    }

    fn name(&self) -> &str {
        self.worker_id.as_str()
    }
}

impl Named for RuntimePartitionRouteMailboxReport {
    open spec fn name_of(v: RuntimePartitionRouteMailboxReportView) -> Seq<char> {
        v.worker_id
    }

    fn name(&self) -> &str {
        self.worker_id.as_str()
    }
}

impl Named for RuntimePartitionWorkerHealth {
    open spec fn name_of(v: RuntimePartitionWorkerHealthView) -> Seq<char> {
        v.worker_id
    }

    fn name(&self) -> &str {
        self.worker_id.as_str()
    }
}

} // verus!

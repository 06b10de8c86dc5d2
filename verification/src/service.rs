//! The worker side of the runtime: shards, partition workers and their mailboxes.
//!
//! A worker keeps the books; the simulation engines are outside. A request that
//! needs an engine is answered in two steps: [`LocalRuntimeWorkerService::handle`]
//! says what to ask of the engine, and [`LocalRuntimeWorkerService::resume`] takes
//! what the engine replied.

use vstd::prelude::*;

use std::collections::HashMap;

use crate::error::{error, fails_with, report, ErrorReport, ErrorReportView};
use crate::ids::{
    distinct_names, find_last_named, last_named, lemma_last_named, Named,
};
use crate::limbs::{payload_problem, validate_partition_route_payload};
use crate::model::launch::{
    RuntimePartitionWorkerLaunch, RuntimePartitionWorkerLaunchView,
};
use crate::model::protocol::{
    RuntimeEngineCall, RuntimeEngineValue, RuntimeWorkerRequest, RuntimeWorkerResponse,
    RuntimeWorkerResponseView, RuntimeWorkerStep,
};
use crate::model::runtime::{
    RuntimeOperationStats, RuntimeShardSnapshot, RuntimeShardSnapshotView, RuntimeShardStats,
    RuntimeShardStatsView, RuntimeWorkerHealth, RuntimeWorkerHealthView,
};
use crate::model::session::{
    RuntimePartitionRouteMailboxReport, RuntimePartitionRouteMailboxReportView,
    RuntimePartitionRoutePayload, RuntimePartitionRoutePayloadView, RuntimePartitionWorkerAction,
    RuntimePartitionWorkerActionReport, RuntimePartitionWorkerActionReportView,
    RuntimePartitionWorkerActionKind, RuntimePartitionWorkerHealth,
    RuntimePartitionWorkerHealthView, RuntimePartitionWorkerInit,
};
use crate::model::topology::{RuntimeBackend, RuntimeShardInfo, RuntimeShardInfoView};
use crate::operations::{
    no_operations, partition_recorded, record_partition_worker_action, recorded,
    records_one_more, records_partition_action, RuntimeShardAction,
};
use crate::seqs::{no_items, or_problem, push_item};
use crate::text::same_text;

verus! {

broadcast use vstd::std_specs::hash::group_hash_axioms;

// ---------------------------------------------------------------------------
// State
// ---------------------------------------------------------------------------

/// Payloads by route.
pub open spec fn mailbox(m: HashMap<usize, RuntimePartitionRoutePayload>) -> Map<
    usize,
    RuntimePartitionRoutePayloadView,
> {
    m@.map_values(|p: RuntimePartitionRoutePayload| p.deep_view())
}

/// What a worker knows of the partitions that it runs.
pub struct RuntimePartitionWorkerState {
    pub launch: RuntimePartitionWorkerLaunch,
    pub operations: RuntimeOperationStats,
    pub outbound_route_payloads: HashMap<usize, RuntimePartitionRoutePayload>,
    pub inbound_route_payloads: HashMap<usize, RuntimePartitionRoutePayload>,
}

/// The model of [`RuntimePartitionWorkerState`].
#[verifier::ext_equal]
pub struct RuntimePartitionWorkerStateView {
    pub launch: RuntimePartitionWorkerLaunchView,
    pub operations: RuntimeOperationStats,
    pub outbound: Map<usize, RuntimePartitionRoutePayloadView>,
    pub inbound: Map<usize, RuntimePartitionRoutePayloadView>,
}

impl DeepView for RuntimePartitionWorkerState {
    type V = RuntimePartitionWorkerStateView;

    open spec fn deep_view(&self) -> RuntimePartitionWorkerStateView {
        RuntimePartitionWorkerStateView {
            launch: self.launch.deep_view(),
            operations: self.operations,
            outbound: mailbox(self.outbound_route_payloads),
            inbound: mailbox(self.inbound_route_payloads),
        }
    }
}

impl Named for RuntimePartitionWorkerState {
    open spec fn name_of(v: RuntimePartitionWorkerStateView) -> Seq<char> {
        v.launch.worker_id
    }

    fn name(&self) -> &str {
        self.launch.worker_id.as_str()
    }
}

/// What a worker knows of a shard.
pub struct RuntimeShardState {
    pub info: RuntimeShardInfo,
    pub operations: RuntimeOperationStats,
}

/// The model of [`RuntimeShardState`].
#[verifier::ext_equal]
pub struct RuntimeShardStateView {
    pub info: RuntimeShardInfoView,
    pub operations: RuntimeOperationStats,
}

impl DeepView for RuntimeShardState {
    type V = RuntimeShardStateView;

    open spec fn deep_view(&self) -> RuntimeShardStateView {
        RuntimeShardStateView { info: self.info.deep_view(), operations: self.operations }
    }
}

impl Named for RuntimeShardState {
    open spec fn name_of(v: RuntimeShardStateView) -> Seq<char> {
        v.info.worker_id
    }

    fn name(&self) -> &str {
        self.info.worker_id.as_str()
    }
}

/// A worker in this process.
pub struct LocalRuntimeWorkerService {
    pub shards: Vec<RuntimeShardState>,
    pub partition_workers: Vec<RuntimePartitionWorkerState>,
}

/// The model of [`LocalRuntimeWorkerService`]: what it knows under each name.
#[verifier::ext_equal]
pub struct LocalRuntimeWorkerServiceView {
    pub shards: Map<Seq<char>, RuntimeShardStateView>,
    pub partition_workers: Map<Seq<char>, RuntimePartitionWorkerStateView>,
}

/// A list as a map from names.
pub open spec fn by_name<T: Named>(s: Seq<T::V>) -> Map<Seq<char>, T::V> {
    Map::new(
        |name: Seq<char>| last_named::<T>(s, name) is Some,
        |name: Seq<char>| s[last_named::<T>(s, name)->0],
    )
}

impl View for LocalRuntimeWorkerService {
    type V = LocalRuntimeWorkerServiceView;

    open spec fn view(&self) -> LocalRuntimeWorkerServiceView {
        LocalRuntimeWorkerServiceView {
            shards: by_name::<RuntimeShardState>(self.shards.deep_view()),
            partition_workers: by_name::<RuntimePartitionWorkerState>(
                self.partition_workers.deep_view(),
            ),
        }
    }
}

/// What is under each name carries that name.
pub proof fn lemma_by_name<T: Named>(s: Seq<T::V>, name: Seq<char>)
    ensures
        by_name::<T>(s).dom().contains(name) <==> last_named::<T>(s, name) is Some,
        by_name::<T>(s).dom().contains(name) ==> T::name_of(by_name::<T>(s)[name]) == name,
{
    lemma_last_named::<T>(s, name);
}

proof fn lemma_by_name_push<T: Named>(s: Seq<T::V>, v: T::V)
    requires
        distinct_names::<T>(s),
        last_named::<T>(s, T::name_of(v)) is None,
    ensures
        distinct_names::<T>(s.push(v)),
        by_name::<T>(s.push(v)) == by_name::<T>(s).insert(T::name_of(v), v),
{
    let t = s.push(v);
    let n = s.len() as int;
    lemma_last_named::<T>(s, T::name_of(v));
    assert forall|i: int, j: int| 0 <= i < j < t.len() implies T::name_of(#[trigger] t[i])
        != T::name_of(#[trigger] t[j]) by {
        assert(t[i] == s[i]);
        if j < n {
            assert(t[j] == s[j]);
        }
    }
    assert forall|name: Seq<char>| #[trigger]
        by_name::<T>(t).dom().contains(name) == by_name::<T>(s).insert(
            T::name_of(v),
            v,
        ).dom().contains(name) && (by_name::<T>(t).dom().contains(name) ==> by_name::<T>(t)[name]
            == by_name::<T>(s).insert(T::name_of(v), v)[name]) by {
        lemma_last_named::<T>(s, name);
        lemma_last_named::<T>(t, name);
        if name == T::name_of(v) {
            assert(T::name_of(t[n]) == name);
            let k = last_named::<T>(t, name)->0;
            if k < n {
                assert(T::name_of(t[n]) != name);
            }
        } else {
            match last_named::<T>(s, name) {
                Some(k) => {
                    assert(T::name_of(t[k]) == name);
                    let l = last_named::<T>(t, name)->0;
                    assert(l < n);
                    if l < k {
                        assert(T::name_of(t[k]) != name);
                    } else if k < l {
                        assert(T::name_of(s[l]) != name);
                        assert(t[l] == s[l]);
                    }
                },
                None => {
                    match last_named::<T>(t, name) {
                        Some(l) => {
                            assert(l < n);
                            assert(T::name_of(s[l]) != name);
                        },
                        None => {},
                    }
                },
            }
        }
    }
    assert(by_name::<T>(t) =~= by_name::<T>(s).insert(T::name_of(v), v));
}

proof fn lemma_by_name_update<T: Named>(s: Seq<T::V>, k: int, v: T::V)
    requires
        distinct_names::<T>(s),
        0 <= k < s.len(),
        T::name_of(v) == T::name_of(s[k]),
    ensures
        distinct_names::<T>(s.update(k, v)),
        by_name::<T>(s.update(k, v)) == by_name::<T>(s).insert(T::name_of(v), v),
{
    let t = s.update(k, v);
    assert forall|i: int| 0 <= i < s.len() implies T::name_of(#[trigger] t[i]) == T::name_of(
        s[i],
    ) by {}
    assert forall|i: int, j: int| 0 <= i < j < t.len() implies T::name_of(#[trigger] t[i])
        != T::name_of(#[trigger] t[j]) by {
        assert(T::name_of(s[i]) != T::name_of(s[j]));
    }
    assert forall|name: Seq<char>| #[trigger]
        by_name::<T>(t).dom().contains(name) == by_name::<T>(s).insert(
            T::name_of(v),
            v,
        ).dom().contains(name) && (by_name::<T>(t).dom().contains(name) ==> by_name::<T>(t)[name]
            == by_name::<T>(s).insert(T::name_of(v), v)[name]) by {
        lemma_last_named::<T>(s, name);
        lemma_last_named::<T>(t, name);
        if name == T::name_of(v) {
            assert(T::name_of(t[k]) == name);
            let l = last_named::<T>(t, name)->0;
            if l < k {
                assert(T::name_of(t[l]) != T::name_of(t[k]));
            } else if k < l {
                assert(T::name_of(t[k]) != T::name_of(t[l]));
            }
        } else {
            match last_named::<T>(s, name) {
                Some(i) => {
                    assert(T::name_of(t[i]) == name);
                    let l = last_named::<T>(t, name)->0;
                    if l < i {
                        assert(T::name_of(t[i]) != name);
                    } else if i < l {
                        assert(T::name_of(s[l]) != name);
                    }
                },
                None => {
                    match last_named::<T>(t, name) {
                        Some(l) => {
                            assert(T::name_of(s[l]) != name);
                        },
                        None => {},
                    }
                },
            }
        }
    }
    assert(by_name::<T>(t) =~= by_name::<T>(s).insert(T::name_of(v), v));
}

impl LocalRuntimeWorkerService {
    /// Whether no two shards and no two partition workers share a name.
    pub open spec fn well_formed(&self) -> bool {
        &&& distinct_names::<RuntimeShardState>(self.shards.deep_view())
        &&& distinct_names::<RuntimePartitionWorkerState>(self.partition_workers.deep_view())
    }

    /// A worker without shards and partitions.
    pub fn new() -> (r: Self)
        ensures
            r.well_formed(),
            r@ == (LocalRuntimeWorkerServiceView {
                shards: Map::empty(),
                partition_workers: Map::empty(),
            }),
    {
        let r = LocalRuntimeWorkerService { shards: no_items(), partition_workers: no_items() };
        proof {
            assert forall|name: Seq<char>|
                last_named::<RuntimeShardState>(Seq::empty(), name) is None by {
                lemma_last_named::<RuntimeShardState>(Seq::empty(), name);
            }
            assert forall|name: Seq<char>|
                last_named::<RuntimePartitionWorkerState>(Seq::empty(), name) is None by {
                lemma_last_named::<RuntimePartitionWorkerState>(Seq::empty(), name);
            }
            assert(r@.shards =~= Map::empty());
            assert(r@.partition_workers =~= Map::empty());
        }
        r
    }
}

impl Default for LocalRuntimeWorkerService {
    fn default() -> (r: Self)
        ensures
            r.well_formed(),
            r@ == (LocalRuntimeWorkerServiceView {
                shards: Map::empty(),
                partition_workers: Map::empty(),
            }),
    {
        LocalRuntimeWorkerService::new()
    }
}

// ---------------------------------------------------------------------------
// Partition workers
// ---------------------------------------------------------------------------

/// A worker that has just been initialized.
pub open spec fn fresh_worker(launch: RuntimePartitionWorkerLaunchView) -> RuntimePartitionWorkerStateView {
    RuntimePartitionWorkerStateView {
        launch,
        operations: no_operations(),
        outbound: Map::empty(),
        inbound: Map::empty(),
    }
}

/// What keeps a partition worker from being initialized.
pub open spec fn init_worker_problem(
    service: LocalRuntimeWorkerServiceView,
    worker: Seq<char>,
    launch: RuntimePartitionWorkerLaunchView,
) -> Option<ErrorReportView> {
    if worker != launch.worker_id {
        Some(
            report(
                "E_RUNTIME_PARTITION_WORKER_INIT"@,
                "partition worker init id `"@ + worker + "` does not match launch worker `"@
                    + launch.worker_id + "`"@,
            ),
        )
    } else if service.partition_workers.dom().contains(worker) {
        Some(
            report(
                "E_RUNTIME_PARTITION_WORKER_INIT"@,
                "partition worker `"@ + worker + "` is already initialized"@,
            ),
        )
    } else {
        None
    }
}

/// The service with a partition worker in a new state.
pub open spec fn with_worker(
    service: LocalRuntimeWorkerServiceView,
    worker: Seq<char>,
    state: RuntimePartitionWorkerStateView,
) -> LocalRuntimeWorkerServiceView {
    LocalRuntimeWorkerServiceView {
        partition_workers: service.partition_workers.insert(worker, state),
        ..service
    }
}

/// What is wrong if a partition worker is not initialized.
pub open spec fn missing_worker_problem(
    service: LocalRuntimeWorkerServiceView,
    code: Seq<char>,
    worker: Seq<char>,
) -> Option<ErrorReportView> {
    if service.partition_workers.dom().contains(worker) {
        None
    } else {
        Some(report(code, "partition worker `"@ + worker + "` is not initialized"@))
    }
}

/// The health of a partition worker.
pub open spec fn worker_health(service: LocalRuntimeWorkerServiceView, worker: Seq<char>) -> RuntimePartitionWorkerHealthView {
    if service.partition_workers.dom().contains(worker) {
        let launch = service.partition_workers[worker].launch;
        RuntimePartitionWorkerHealthView {
            worker_id: worker,
            initialized: true,
            backend: Some(launch.backend),
            node: Some(launch.node),
            partitions: launch.partitions,
            outbound_routes: launch.outbound_routes,
            inbound_routes: launch.inbound_routes,
            outbound_bits: launch.outbound_bits,
            inbound_bits: launch.inbound_bits,
            diagnostics: seq![],
        }
    } else {
        RuntimePartitionWorkerHealthView {
            worker_id: worker,
            initialized: false,
            backend: None,
            node: None,
            partitions: seq![],
            outbound_routes: seq![],
            inbound_routes: seq![],
            outbound_bits: 0,
            inbound_bits: 0,
            diagnostics: seq![],
        }
    }
}

/// A worker after a structural step.
pub open spec fn worker_after_action(
    state: RuntimePartitionWorkerStateView,
    kind: RuntimePartitionWorkerActionKind,
) -> RuntimePartitionWorkerStateView {
    RuntimePartitionWorkerStateView {
        operations: partition_recorded(state.operations, kind),
        ..state
    }
}

/// What a worker reports of a structural step.
pub open spec fn worker_action_report(
    worker: Seq<char>,
    state: RuntimePartitionWorkerStateView,
    kind: RuntimePartitionWorkerActionKind,
) -> RuntimePartitionWorkerActionReportView {
    RuntimePartitionWorkerActionReportView {
        worker_id: worker,
        kind,
        partition_count: state.launch.partitions.len() as usize,
        outbound_route_count: state.launch.outbound_routes.len() as usize,
        inbound_route_count: state.launch.inbound_routes.len() as usize,
        outbound_bits: state.launch.outbound_bits,
        inbound_bits: state.launch.inbound_bits,
        operations: partition_recorded(state.operations, kind),
    }
}

/// What a worker reports of its mailboxes.
pub open spec fn worker_mailbox(worker: Seq<char>, state: RuntimePartitionWorkerStateView) -> RuntimePartitionRouteMailboxReportView {
    RuntimePartitionRouteMailboxReportView {
        worker_id: worker,
        outbound_payload_count: state.outbound.len() as usize,
        inbound_payload_count: state.inbound.len() as usize,
        outbound_routes: state.launch.outbound_routes,
        inbound_routes: state.launch.inbound_routes,
        diagnostics: seq![],
    }
}

/// What keeps a payload from being stored for its route.
pub open spec fn store_outbound_problem(
    service: LocalRuntimeWorkerServiceView,
    worker: Seq<char>,
    payload: RuntimePartitionRoutePayloadView,
) -> Option<ErrorReportView> {
    or_problem(
        missing_worker_problem(service, "E_RUNTIME_PARTITION_WORKER_MAILBOX"@, worker),
        payload_problem(
            worker,
            payload,
            service.partition_workers[worker].launch.outbound_route_specs,
            "outbound"@,
        ),
    )
}

/// What keeps a payload from being delivered for its route.
pub open spec fn deliver_inbound_problem(
    service: LocalRuntimeWorkerServiceView,
    worker: Seq<char>,
    payload: RuntimePartitionRoutePayloadView,
) -> Option<ErrorReportView> {
    or_problem(
        missing_worker_problem(service, "E_RUNTIME_PARTITION_WORKER_MAILBOX"@, worker),
        payload_problem(
            worker,
            payload,
            service.partition_workers[worker].launch.inbound_route_specs,
            "inbound"@,
        ),
    )
}

/// A worker with a payload in its outbound mailbox.
pub open spec fn worker_storing(
    state: RuntimePartitionWorkerStateView,
    payload: RuntimePartitionRoutePayloadView,
) -> RuntimePartitionWorkerStateView {
    RuntimePartitionWorkerStateView {
        outbound: state.outbound.insert(payload.route_index, payload),
        ..state
    }
}

/// A worker with a payload in its inbound mailbox.
pub open spec fn worker_receiving(
    state: RuntimePartitionWorkerStateView,
    payload: RuntimePartitionRoutePayloadView,
) -> RuntimePartitionWorkerStateView {
    RuntimePartitionWorkerStateView {
        inbound: state.inbound.insert(payload.route_index, payload),
        ..state
    }
}

/// A worker with empty mailboxes.
pub open spec fn worker_cleared(state: RuntimePartitionWorkerStateView) -> RuntimePartitionWorkerStateView {
    RuntimePartitionWorkerStateView { outbound: Map::empty(), inbound: Map::empty(), ..state }
}

proof fn lemma_mailbox_insert(
    m: Map<usize, RuntimePartitionRoutePayload>,
    k: usize,
    p: RuntimePartitionRoutePayload,
)
    ensures
        m.insert(k, p).map_values(|p: RuntimePartitionRoutePayload| p.deep_view())
            == m.map_values(|p: RuntimePartitionRoutePayload| p.deep_view()).insert(
            k,
            p.deep_view(),
        ),
{
    assert(m.insert(k, p).map_values(|p: RuntimePartitionRoutePayload| p.deep_view())
        =~= m.map_values(|p: RuntimePartitionRoutePayload| p.deep_view()).insert(
        k,
        p.deep_view(),
    ));
}

fn partition_route_mailbox_report(worker_id: &str, state: &RuntimePartitionWorkerState) -> (r:
    RuntimePartitionRouteMailboxReport)
    ensures
        r.deep_view() == worker_mailbox(worker_id@, state.deep_view()),
{
    let outbound_routes = state.launch.outbound_routes.clone();
    let inbound_routes = state.launch.inbound_routes.clone();
    proof {
        assert(outbound_routes@ =~= state.launch.outbound_routes@);
        assert(inbound_routes@ =~= state.launch.inbound_routes@);
        assert(mailbox(state.outbound_route_payloads).dom()
            =~= state.outbound_route_payloads@.dom());
        assert(mailbox(state.inbound_route_payloads).dom() =~= state.inbound_route_payloads@.dom());
    }
    RuntimePartitionRouteMailboxReport {
        worker_id: worker_id.to_owned(),
        outbound_payload_count: state.outbound_route_payloads.len(),
        inbound_payload_count: state.inbound_route_payloads.len(),
        outbound_routes,
        inbound_routes,
        diagnostics: no_items(),
    }
}

fn missing_worker(code: &str, worker_id: &str) -> (r: ErrorReport)
    ensures
        r.deep_view() == report(
            code@,
            "partition worker `"@ + worker_id@ + "` is not initialized"@,
        ),
{
    let mut message = "partition worker `".to_owned();
    message.append(worker_id);
    message.append("` is not initialized");
    error(code, message.as_str())
}

impl LocalRuntimeWorkerService {
    /// The place of a partition worker.
    fn partition_worker_place(&self, worker_id: &str) -> (r: Option<usize>)
        ensures
            match r {
                Some(k) => {
                    &&& k < self.partition_workers@.len()
                    &&& self@.partition_workers.dom().contains(worker_id@)
                    &&& self@.partition_workers[worker_id@] == self.partition_workers@[k as int].deep_view()
                    &&& self.partition_workers@[k as int].launch.worker_id@ == worker_id@
                },
                None => {
                    &&& !self@.partition_workers.dom().contains(worker_id@)
                    &&& last_named::<RuntimePartitionWorkerState>(
                        self.partition_workers.deep_view(),
                        worker_id@,
                    ) is None
                },
            },
    {
        let r = find_last_named(&self.partition_workers, worker_id);
        proof {
            let s = self.partition_workers.deep_view();
            lemma_last_named::<RuntimePartitionWorkerState>(s, worker_id@);
            match r {
                Some(k) => {
                    assert(s[k as int] == self.partition_workers@[k as int].deep_view());
                },
                None => {},
            }
        }
        r
    }

    /// Initializes a partition worker.
    pub fn init_partition_worker(&mut self, init: RuntimePartitionWorkerInit) -> (r: Result<
        RuntimeWorkerResponse,
        ErrorReport,
    >)
        requires
            old(self).well_formed(),
        ensures
            final(self).well_formed(),
            fails_with(
                r,
                init_worker_problem(old(self)@, init.worker_id@, init.launch.deep_view()),
            ),
            r is Err ==> final(self)@ == old(self)@,
            r matches Ok(response) ==> response.deep_view() == RuntimeWorkerResponseView::Ack
                && final(self)@ == with_worker(
                old(self)@,
                init.worker_id@,
                fresh_worker(init.launch.deep_view()),
            ),
    {
        let RuntimePartitionWorkerInit { worker_id, launch } = init;
        if !same_text(worker_id.as_str(), launch.worker_id.as_str()) {
            let mut message = "partition worker init id `".to_owned();
            message.append(worker_id.as_str());
            message.append("` does not match launch worker `");
            message.append(launch.worker_id.as_str());
            message.append("`");
            return Err(error("E_RUNTIME_PARTITION_WORKER_INIT", message.as_str()));
        }
        if self.partition_worker_place(worker_id.as_str()).is_some() {
            let mut message = "partition worker `".to_owned();
            message.append(worker_id.as_str());
            message.append("` is already initialized");
            return Err(error("E_RUNTIME_PARTITION_WORKER_INIT", message.as_str()));
        }
        let ghost before = self.partition_workers.deep_view();
        let state = RuntimePartitionWorkerState {
            launch,
            operations: RuntimeOperationStats::default(),
            outbound_route_payloads: HashMap::new(),
            inbound_route_payloads: HashMap::new(),
        };
        let ghost sv = state.deep_view();
        proof {
            assert(mailbox(state.outbound_route_payloads) =~= Map::empty());
            assert(mailbox(state.inbound_route_payloads) =~= Map::empty());
            assert(sv == fresh_worker(launch.deep_view()));
            lemma_by_name_push::<RuntimePartitionWorkerState>(before, sv);
        }
        push_item(&mut self.partition_workers, state);
        Ok(RuntimeWorkerResponse::Ack)
    }

    /// The health of a partition worker.
    pub fn partition_worker_health(&self, worker_id: String) -> (r: RuntimePartitionWorkerHealth)
        ensures
            r.deep_view() == worker_health(self@, worker_id@),
    {
        match self.partition_worker_place(worker_id.as_str()) {
            Some(k) => {
                let launch = &self.partition_workers[k].launch;
                let r = RuntimePartitionWorkerHealth {
                    worker_id,
                    initialized: true,
                    backend: Some(launch.backend),
                    node: Some(launch.node.clone()),
                    partitions: launch.partitions.clone(),
                    outbound_routes: launch.outbound_routes.clone(),
                    inbound_routes: launch.inbound_routes.clone(),
                    outbound_bits: launch.outbound_bits,
                    inbound_bits: launch.inbound_bits,
                    diagnostics: no_items(),
                };
                proof {
                    assert(r.partitions.deep_view() =~= launch.partitions.deep_view());
                    assert(r.outbound_routes@ =~= launch.outbound_routes@);
                    assert(r.inbound_routes@ =~= launch.inbound_routes@);
                }
                r
            },
            None => {
                let r = RuntimePartitionWorkerHealth {
                    worker_id,
                    initialized: false,
                    backend: None,
                    node: None,
                    partitions: no_items(),
                    outbound_routes: Vec::new(),
                    inbound_routes: Vec::new(),
                    outbound_bits: 0,
                    inbound_bits: 0,
                    diagnostics: no_items(),
                };
                proof {
                    assert(r.outbound_routes@ =~= seq![]);
                    assert(r.inbound_routes@ =~= seq![]);
                }
                r
            },
        }
    }

    /// Counts a structural step of a partition worker.
    pub fn run_partition_worker_action(&mut self, action: RuntimePartitionWorkerAction) -> (r: Result<
        RuntimeWorkerResponse,
        ErrorReport,
    >)
        requires
            old(self).well_formed(),
            old(self)@.partition_workers.dom().contains(action.worker_id@)
                ==> records_partition_action(
                old(self)@.partition_workers[action.worker_id@].operations,
                action.kind,
            ),
        ensures
            final(self).well_formed(),
            fails_with(
                r,
                missing_worker_problem(
                    old(self)@,
                    "E_RUNTIME_PARTITION_WORKER_ACTION"@,
                    action.worker_id@,
                ),
            ),
            r is Err ==> final(self)@ == old(self)@,
            r matches Ok(response) ==> {
                let state = old(self)@.partition_workers[action.worker_id@];
                &&& response.deep_view() == RuntimeWorkerResponseView::PartitionWorkerAction(
                    worker_action_report(action.worker_id@, state, action.kind),
                )
                &&& final(self)@ == with_worker(
                    old(self)@,
                    action.worker_id@,
                    worker_after_action(state, action.kind),
                )
            },
    {
        let RuntimePartitionWorkerAction { worker_id, kind } = action;
        let k: usize = match self.partition_worker_place(worker_id.as_str()) {
            Some(k) => k,
            None => {
                return Err(missing_worker("E_RUNTIME_PARTITION_WORKER_ACTION", worker_id.as_str()));
            },
        };
        let ghost before = self.partition_workers.deep_view();
        let ghost old_state = self.partition_workers@[k as int].deep_view();
        let mut operations = self.partition_workers[k].operations;
        record_partition_worker_action(&mut operations, kind);
        self.partition_workers[k].operations = operations;
        let state = &self.partition_workers[k];
        proof {
            let sv = worker_after_action(old_state, kind);
            assert(state.deep_view() == sv);
            assert(self.partition_workers.deep_view() =~= before.update(k as int, sv));
            lemma_by_name_update::<RuntimePartitionWorkerState>(before, k as int, sv);
            assert(state.launch.partitions.deep_view().len() == state.launch.partitions@.len());
        }
        Ok(
            RuntimeWorkerResponse::PartitionWorkerAction(
                RuntimePartitionWorkerActionReport {
                    worker_id,
                    kind,
                    partition_count: state.launch.partitions.len(),
                    outbound_route_count: state.launch.outbound_routes.len(),
                    inbound_route_count: state.launch.inbound_routes.len(),
                    outbound_bits: state.launch.outbound_bits,
                    inbound_bits: state.launch.inbound_bits,
                    operations: state.operations,
                },
            ),
        )
    }
}

impl LocalRuntimeWorkerService {
    /// Puts a payload into the outbound mailbox of a worker.
    pub fn store_partition_route_outbound(
        &mut self,
        worker_id: String,
        payload: RuntimePartitionRoutePayload,
    ) -> (r: Result<RuntimeWorkerResponse, ErrorReport>)
        requires
            old(self).well_formed(),
        ensures
            final(self).well_formed(),
            fails_with(r, store_outbound_problem(old(self)@, worker_id@, payload.deep_view())),
            r is Err ==> final(self)@ == old(self)@,
            r matches Ok(response) ==> {
                let state = worker_storing(
                    old(self)@.partition_workers[worker_id@],
                    payload.deep_view(),
                );
                &&& response.deep_view() == RuntimeWorkerResponseView::PartitionRouteMailbox(
                    worker_mailbox(worker_id@, state),
                )
                &&& final(self)@ == with_worker(old(self)@, worker_id@, state)
            },
    {
        let k: usize = match self.partition_worker_place(worker_id.as_str()) {
            Some(k) => k,
            None => {
                return Err(missing_worker("E_RUNTIME_PARTITION_WORKER_MAILBOX", worker_id.as_str()));
            },
        };
        let ghost before = self.partition_workers.deep_view();
        let ghost old_state = self.partition_workers@[k as int];
        validate_partition_route_payload(
            worker_id.as_str(),
            &payload,
            &self.partition_workers[k].launch.outbound_route_specs,
            "outbound",
        )?;
        let route_index: usize = payload.route_index;
        self.partition_workers[k].outbound_route_payloads.insert(route_index, payload);
        let state = &self.partition_workers[k];
        proof {
            let sv = worker_storing(old_state.deep_view(), payload.deep_view());
            lemma_mailbox_insert(old_state.outbound_route_payloads@, route_index, payload);
            assert(state.deep_view() == sv);
            assert(self.partition_workers.deep_view() =~= before.update(k as int, sv));
            lemma_by_name_update::<RuntimePartitionWorkerState>(before, k as int, sv);
        }
        Ok(
            RuntimeWorkerResponse::PartitionRouteMailbox(
                partition_route_mailbox_report(worker_id.as_str(), state),
            ),
        )
    }

    /// Puts a payload into the inbound mailbox of a worker.
    pub fn deliver_partition_route_inbound(
        &mut self,
        worker_id: String,
        payload: RuntimePartitionRoutePayload,
    ) -> (r: Result<RuntimeWorkerResponse, ErrorReport>)
        requires
            old(self).well_formed(),
        ensures
            final(self).well_formed(),
            fails_with(r, deliver_inbound_problem(old(self)@, worker_id@, payload.deep_view())),
            r is Err ==> final(self)@ == old(self)@,
            r matches Ok(response) ==> {
                let state = worker_receiving(
                    old(self)@.partition_workers[worker_id@],
                    payload.deep_view(),
                );
                &&& response.deep_view() == RuntimeWorkerResponseView::PartitionRouteMailbox(
                    worker_mailbox(worker_id@, state),
                )
                &&& final(self)@ == with_worker(old(self)@, worker_id@, state)
            },
    {
        let k: usize = match self.partition_worker_place(worker_id.as_str()) {
            Some(k) => k,
            None => {
                return Err(missing_worker("E_RUNTIME_PARTITION_WORKER_MAILBOX", worker_id.as_str()));
            },
        };
        let ghost before = self.partition_workers.deep_view();
        let ghost old_state = self.partition_workers@[k as int];
        validate_partition_route_payload(
            worker_id.as_str(),
            &payload,
            &self.partition_workers[k].launch.inbound_route_specs,
            "inbound",
        )?;
        let route_index: usize = payload.route_index;
        self.partition_workers[k].inbound_route_payloads.insert(route_index, payload);
        let state = &self.partition_workers[k];
        proof {
            let sv = worker_receiving(old_state.deep_view(), payload.deep_view());
            lemma_mailbox_insert(old_state.inbound_route_payloads@, route_index, payload);
            assert(state.deep_view() == sv);
            assert(self.partition_workers.deep_view() =~= before.update(k as int, sv));
            lemma_by_name_update::<RuntimePartitionWorkerState>(before, k as int, sv);
        }
        Ok(
            RuntimeWorkerResponse::PartitionRouteMailbox(
                partition_route_mailbox_report(worker_id.as_str(), state),
            ),
        )
    }

    /// The mailboxes of a worker.
    pub fn partition_route_mailbox(&self, worker_id: String) -> (r: Result<
        RuntimeWorkerResponse,
        ErrorReport,
    >)
        ensures
            fails_with(
                r,
                missing_worker_problem(
                    self@,
                    "E_RUNTIME_PARTITION_WORKER_MAILBOX"@,
                    worker_id@,
                ),
            ),
            r matches Ok(response) ==> response.deep_view()
                == RuntimeWorkerResponseView::PartitionRouteMailbox(
                worker_mailbox(worker_id@, self@.partition_workers[worker_id@]),
            ),
    {
        match self.partition_worker_place(worker_id.as_str()) {
            Some(k) => Ok(
                RuntimeWorkerResponse::PartitionRouteMailbox(
                    partition_route_mailbox_report(worker_id.as_str(), &self.partition_workers[k]),
                ),
            ),
            None => Err(missing_worker("E_RUNTIME_PARTITION_WORKER_MAILBOX", worker_id.as_str())),
        }
    }

    /// Empties the mailboxes of a worker.
    pub fn clear_partition_route_mailboxes(&mut self, worker_id: String) -> (r: Result<
        RuntimeWorkerResponse,
        ErrorReport,
    >)
        requires
            old(self).well_formed(),
        ensures
            final(self).well_formed(),
            fails_with(
                r,
                missing_worker_problem(
                    old(self)@,
                    "E_RUNTIME_PARTITION_WORKER_MAILBOX"@,
                    worker_id@,
                ),
            ),
            r is Err ==> final(self)@ == old(self)@,
            r matches Ok(response) ==> {
                let state = worker_cleared(old(self)@.partition_workers[worker_id@]);
                &&& response.deep_view() == RuntimeWorkerResponseView::PartitionRouteMailbox(
                    worker_mailbox(worker_id@, state),
                )
                &&& final(self)@ == with_worker(old(self)@, worker_id@, state)
            },
    {
        let k: usize = match self.partition_worker_place(worker_id.as_str()) {
            Some(k) => k,
            None => {
                return Err(missing_worker("E_RUNTIME_PARTITION_WORKER_MAILBOX", worker_id.as_str()));
            },
        };
        let ghost before = self.partition_workers.deep_view();
        let ghost old_state = self.partition_workers@[k as int];
        self.partition_workers[k].outbound_route_payloads.clear();
        self.partition_workers[k].inbound_route_payloads.clear();
        let state = &self.partition_workers[k];
        proof {
            let sv = worker_cleared(old_state.deep_view());
            assert(mailbox(state.outbound_route_payloads) =~= Map::empty());
            assert(mailbox(state.inbound_route_payloads) =~= Map::empty());
            assert(state.deep_view() == sv);
            assert(self.partition_workers.deep_view() =~= before.update(k as int, sv));
            lemma_by_name_update::<RuntimePartitionWorkerState>(before, k as int, sv);
        }
        Ok(
            RuntimeWorkerResponse::PartitionRouteMailbox(
                partition_route_mailbox_report(worker_id.as_str(), state),
            ),
        )
    }
}

// ---------------------------------------------------------------------------
// Shards
// ---------------------------------------------------------------------------

/// What keeps a shard from being initialized, before its module is lowered.
pub open spec fn init_shard_problem(
    service: LocalRuntimeWorkerServiceView,
    shard: RuntimeShardInfoView,
) -> Option<ErrorReportView> {
    if shard.lanes == 0 {
        Some(report("E_RUNTIME_WORKER_INIT"@, "worker shard must own at least one lane"@))
    } else if service.shards.dom().contains(shard.worker_id) {
        Some(
            report(
                "E_RUNTIME_WORKER_INIT"@,
                "worker shard `"@ + shard.worker_id + "` is already initialized"@,
            ),
        )
    } else {
        None
    }
}

/// The scalar engine runs one lane.
pub open spec fn scalar_lanes_problem(backend: RuntimeBackend, lanes: usize) -> Option<
    ErrorReportView,
> {
    if backend is ScalarCpu && lanes != 1 {
        Some(
            report("E_RUNTIME_BACKEND_LANES"@, "scalar CPU backend supports exactly one lane"@),
        )
    } else {
        None
    }
}

/// Checks that a backend can run a number of lanes.
pub fn validate_scalar_lanes(backend: RuntimeBackend, lanes: usize) -> (r: Result<(), ErrorReport>)
    ensures
        fails_with(r, scalar_lanes_problem(backend, lanes)),
{
    match backend {
        RuntimeBackend::ScalarCpu => {
            if lanes != 1 {
                return Err(
                    error("E_RUNTIME_BACKEND_LANES", "scalar CPU backend supports exactly one lane"),
                );
            }
            Ok(())
        },
        _ => Ok(()),
    }
}

/// What is wrong if a shard is not initialized.
pub open spec fn missing_shard_problem(
    service: LocalRuntimeWorkerServiceView,
    worker: Seq<char>,
) -> Option<ErrorReportView> {
    if service.shards.dom().contains(worker) {
        None
    } else {
        Some(
            report(
                "E_RUNTIME_WORKER_SHARD"@,
                "worker shard `"@ + worker + "` is not initialized"@,
            ),
        )
    }
}

/// A snapshot can be restored to a shard with the same lanes.
pub open spec fn restore_problem(
    service: LocalRuntimeWorkerServiceView,
    worker: Seq<char>,
    snapshot: RuntimeShardInfoView,
) -> Option<ErrorReportView> {
    or_problem(
        missing_shard_problem(service, worker),
        if snapshot.start_lane != service.shards[worker].info.start_lane || snapshot.lanes
            != service.shards[worker].info.lanes {
            Some(
                report(
                    "E_RUNTIME_WORKER_SNAPSHOT"@,
                    "snapshot shard lane range does not match initialized worker shard"@,
                ),
            )
        } else {
            None
        },
    )
}

/// The service with a shard in a new state.
pub open spec fn with_shard(
    service: LocalRuntimeWorkerServiceView,
    worker: Seq<char>,
    state: RuntimeShardStateView,
) -> LocalRuntimeWorkerServiceView {
    LocalRuntimeWorkerServiceView { shards: service.shards.insert(worker, state), ..service }
}

/// The health of a shard.
pub open spec fn shard_worker_health(
    service: LocalRuntimeWorkerServiceView,
    worker: Seq<char>,
) -> RuntimeWorkerHealthView {
    if service.shards.dom().contains(worker) {
        RuntimeWorkerHealthView {
            worker_id: worker,
            initialized: true,
            shard: Some(service.shards[worker].info),
            operations: Some(service.shards[worker].operations),
        }
    } else {
        RuntimeWorkerHealthView {
            worker_id: worker,
            initialized: false,
            shard: None,
            operations: None,
        }
    }
}

impl LocalRuntimeWorkerService {
    /// The place of a shard.
    fn shard_place(&self, worker_id: &str) -> (r: Option<usize>)
        ensures
            match r {
                Some(k) => {
                    &&& k < self.shards@.len()
                    &&& self@.shards.dom().contains(worker_id@)
                    &&& self@.shards[worker_id@] == self.shards@[k as int].deep_view()
                    &&& self.shards@[k as int].info.worker_id@ == worker_id@
                },
                None => {
                    &&& !self@.shards.dom().contains(worker_id@)
                    &&& last_named::<RuntimeShardState>(self.shards.deep_view(), worker_id@) is None
                },
            },
    {
        let r = find_last_named(&self.shards, worker_id);
        proof {
            let s = self.shards.deep_view();
            lemma_last_named::<RuntimeShardState>(s, worker_id@);
            match r {
                Some(k) => {
                    assert(s[k as int] == self.shards@[k as int].deep_view());
                },
                None => {},
            }
        }
        r
    }

    /// The place of a shard, or the error that it is not initialized.
    fn known_shard(&self, worker_id: &str) -> (r: Result<usize, ErrorReport>)
        ensures
            fails_with(r, missing_shard_problem(self@, worker_id@)),
            r matches Ok(k) ==> {
                &&& k < self.shards@.len()
                &&& self@.shards[worker_id@] == self.shards@[k as int].deep_view()
                &&& self.shards@[k as int].info.worker_id@ == worker_id@
            },
    {
        match self.shard_place(worker_id) {
            Some(k) => Ok(k),
            None => {
                let mut message = "worker shard `".to_owned();
                message.append(worker_id);
                message.append("` is not initialized");
                Err(error("E_RUNTIME_WORKER_SHARD", message.as_str()))
            },
        }
    }

    fn check_init_shard(&self, shard: &RuntimeShardInfo) -> (r: Result<(), ErrorReport>)
        ensures
            fails_with(r, init_shard_problem(self@, shard.deep_view())),
    {
        if shard.lanes == 0 {
            return Err(error("E_RUNTIME_WORKER_INIT", "worker shard must own at least one lane"));
        }
        if self.shard_place(shard.worker_id.as_str()).is_some() {
            let mut message = "worker shard `".to_owned();
            message.append(shard.worker_id.as_str());
            message.append("` is already initialized");
            return Err(error("E_RUNTIME_WORKER_INIT", message.as_str()));
        }
        Ok(())
    }

    fn add_shard(&mut self, info: RuntimeShardInfo)
        requires
            old(self).well_formed(),
            !old(self)@.shards.dom().contains(info.worker_id@),
        ensures
            final(self).well_formed(),
            final(self)@ == with_shard(
                old(self)@,
                info.worker_id@,
                (RuntimeShardStateView { info: info.deep_view(), operations: no_operations() }),
            ),
    {
        let ghost before = self.shards.deep_view();
        let state = RuntimeShardState { info, operations: RuntimeOperationStats::default() };
        proof {
            lemma_by_name::<RuntimeShardState>(before, info.worker_id@);
            lemma_by_name_push::<RuntimeShardState>(before, state.deep_view());
        }
        push_item(&mut self.shards, state);
    }

    fn set_shard_operations(&mut self, k: usize, operations: RuntimeOperationStats)
        requires
            old(self).well_formed(),
            k < old(self).shards@.len(),
        ensures
            final(self).well_formed(),
            final(self)@ == with_shard(
                old(self)@,
                old(self).shards@[k as int].info.worker_id@,
                (RuntimeShardStateView {
                    info: old(self).shards@[k as int].info.deep_view(),
                    operations,
                }),
            ),
    {
        let ghost before = self.shards.deep_view();
        let ghost sv = RuntimeShardStateView {
            info: self.shards@[k as int].info.deep_view(),
            operations,
        };
        self.shards[k].operations = operations;
        proof {
            assert(self.shards.deep_view() =~= before.update(k as int, sv));
            lemma_by_name_update::<RuntimeShardState>(before, k as int, sv);
        }
    }

    fn shard_health(&self, worker_id: String) -> (r: RuntimeWorkerHealth)
        ensures
            r.deep_view() == shard_worker_health(self@, worker_id@),
    {
        match self.shard_place(worker_id.as_str()) {
            Some(k) => RuntimeWorkerHealth {
                worker_id,
                initialized: true,
                shard: Some(self.shards[k].info.clone()),
                operations: Some(self.shards[k].operations),
            },
            None => RuntimeWorkerHealth {
                worker_id,
                initialized: false,
                shard: None,
                operations: None,
            },
        }
    }
}

// ---------------------------------------------------------------------------
// Requests
// ---------------------------------------------------------------------------

/// What keeps a worker from doing what a request asks.
pub open spec fn request_problem(
    service: LocalRuntimeWorkerServiceView,
    request: RuntimeWorkerRequest,
) -> Option<ErrorReportView> {
    match request {
        RuntimeWorkerRequest::InitShard(init) => init_shard_problem(
            service,
            init.shard.deep_view(),
        ),
        RuntimeWorkerRequest::InitPartitionWorker(init) => init_worker_problem(
            service,
            init.worker_id@,
            init.launch.deep_view(),
        ),
        RuntimeWorkerRequest::RunPartitionWorkerAction(action) => missing_worker_problem(
            service,
            "E_RUNTIME_PARTITION_WORKER_ACTION"@,
            action.worker_id@,
        ),
        RuntimeWorkerRequest::StorePartitionRouteOutbound { worker_id, payload } =>
            store_outbound_problem(service, worker_id@, payload.deep_view()),
        RuntimeWorkerRequest::DeliverPartitionRouteInbound { worker_id, payload } =>
            deliver_inbound_problem(service, worker_id@, payload.deep_view()),
        RuntimeWorkerRequest::PartitionRouteMailbox { worker_id } => missing_worker_problem(
            service,
            "E_RUNTIME_PARTITION_WORKER_MAILBOX"@,
            worker_id@,
        ),
        RuntimeWorkerRequest::ClearPartitionRouteMailboxes { worker_id } => missing_worker_problem(
            service,
            "E_RUNTIME_PARTITION_WORKER_MAILBOX"@,
            worker_id@,
        ),
        RuntimeWorkerRequest::Health { .. } => None,
        RuntimeWorkerRequest::PartitionWorkerHealth { .. } => None,
        RuntimeWorkerRequest::SetInput { worker_id, .. } => missing_shard_problem(
            service,
            worker_id@,
        ),
        RuntimeWorkerRequest::SetInputLimbs { worker_id, .. } => missing_shard_problem(
            service,
            worker_id@,
        ),
        RuntimeWorkerRequest::SetMemoryLimbs { worker_id, .. } => missing_shard_problem(
            service,
            worker_id@,
        ),
        RuntimeWorkerRequest::EvalCombinational { worker_id } => missing_shard_problem(
            service,
            worker_id@,
        ),
        RuntimeWorkerRequest::Tick { worker_id } => missing_shard_problem(service, worker_id@),
        RuntimeWorkerRequest::TickMany { worker_id, .. } => missing_shard_problem(
            service,
            worker_id@,
        ),
        RuntimeWorkerRequest::GetSignalLimbs { worker_id, .. } => missing_shard_problem(
            service,
            worker_id@,
        ),
        RuntimeWorkerRequest::GetMemoryLimbs { worker_id, .. } => missing_shard_problem(
            service,
            worker_id@,
        ),
        RuntimeWorkerRequest::Snapshot { worker_id } => missing_shard_problem(service, worker_id@),
        RuntimeWorkerRequest::RestoreSnapshot { worker_id, snapshot } => restore_problem(
            service,
            worker_id@,
            snapshot.shard.deep_view(),
        ),
        RuntimeWorkerRequest::Stats { worker_id } => missing_shard_problem(service, worker_id@),
        RuntimeWorkerRequest::ResetStats { worker_id } => missing_shard_problem(
            service,
            worker_id@,
        ),
    }
}

/// The worker after a request that it does.
pub open spec fn request_next(
    service: LocalRuntimeWorkerServiceView,
    request: RuntimeWorkerRequest,
) -> LocalRuntimeWorkerServiceView {
    match request {
        RuntimeWorkerRequest::InitPartitionWorker(init) => with_worker(
            service,
            init.worker_id@,
            fresh_worker(init.launch.deep_view()),
        ),
        RuntimeWorkerRequest::RunPartitionWorkerAction(action) => with_worker(
            service,
            action.worker_id@,
            worker_after_action(service.partition_workers[action.worker_id@], action.kind),
        ),
        RuntimeWorkerRequest::StorePartitionRouteOutbound { worker_id, payload } => with_worker(
            service,
            worker_id@,
            worker_storing(service.partition_workers[worker_id@], payload.deep_view()),
        ),
        RuntimeWorkerRequest::DeliverPartitionRouteInbound { worker_id, payload } => with_worker(
            service,
            worker_id@,
            worker_receiving(service.partition_workers[worker_id@], payload.deep_view()),
        ),
        RuntimeWorkerRequest::ClearPartitionRouteMailboxes { worker_id } => with_worker(
            service,
            worker_id@,
            worker_cleared(service.partition_workers[worker_id@]),
        ),
        RuntimeWorkerRequest::ResetStats { worker_id } => with_shard(
            service,
            worker_id@,
            RuntimeShardStateView {
                info: service.shards[worker_id@].info,
                operations: no_operations(),
            },
        ),
        _ => service,
    }
}

/// The response to a request, or nothing if the engine is asked first.
pub open spec fn request_response(
    service: LocalRuntimeWorkerServiceView,
    request: RuntimeWorkerRequest,
) -> Option<RuntimeWorkerResponseView> {
    match request {
        RuntimeWorkerRequest::InitPartitionWorker(_) => Some(RuntimeWorkerResponseView::Ack),
        RuntimeWorkerRequest::RunPartitionWorkerAction(action) => Some(
            RuntimeWorkerResponseView::PartitionWorkerAction(
                worker_action_report(
                    action.worker_id@,
                    service.partition_workers[action.worker_id@],
                    action.kind,
                ),
            ),
        ),
        RuntimeWorkerRequest::StorePartitionRouteOutbound { worker_id, payload } => Some(
            RuntimeWorkerResponseView::PartitionRouteMailbox(
                worker_mailbox(
                    worker_id@,
                    worker_storing(service.partition_workers[worker_id@], payload.deep_view()),
                ),
            ),
        ),
        RuntimeWorkerRequest::DeliverPartitionRouteInbound { worker_id, payload } => Some(
            RuntimeWorkerResponseView::PartitionRouteMailbox(
                worker_mailbox(
                    worker_id@,
                    worker_receiving(service.partition_workers[worker_id@], payload.deep_view()),
                ),
            ),
        ),
        RuntimeWorkerRequest::PartitionRouteMailbox { worker_id } => Some(
            RuntimeWorkerResponseView::PartitionRouteMailbox(
                worker_mailbox(worker_id@, service.partition_workers[worker_id@]),
            ),
        ),
        RuntimeWorkerRequest::ClearPartitionRouteMailboxes { worker_id } => Some(
            RuntimeWorkerResponseView::PartitionRouteMailbox(
                worker_mailbox(
                    worker_id@,
                    worker_cleared(service.partition_workers[worker_id@]),
                ),
            ),
        ),
        RuntimeWorkerRequest::Health { worker_id } => Some(
            RuntimeWorkerResponseView::Health(shard_worker_health(service, worker_id@)),
        ),
        RuntimeWorkerRequest::PartitionWorkerHealth { worker_id } => Some(
            RuntimeWorkerResponseView::PartitionWorkerHealth(worker_health(service, worker_id@)),
        ),
        RuntimeWorkerRequest::Stats { worker_id } => Some(
            RuntimeWorkerResponseView::Stats(
                RuntimeShardStatsView {
                    shard: service.shards[worker_id@].info,
                    operations: service.shards[worker_id@].operations,
                },
            ),
        ),
        RuntimeWorkerRequest::ResetStats { .. } => Some(RuntimeWorkerResponseView::Ack),
        _ => None,
    }
}

/// What is asked of the engine for a request.
pub open spec fn request_call(request: RuntimeWorkerRequest) -> Option<RuntimeEngineCall> {
    match request {
        RuntimeWorkerRequest::InitShard(init) => Some(RuntimeEngineCall::Lower(init)),
        RuntimeWorkerRequest::SetInput { worker_id, signal, lane_values } => Some(
            RuntimeEngineCall::SetInput { worker_id, signal, lane_values },
        ),
        RuntimeWorkerRequest::SetInputLimbs { worker_id, signal, lane_values } => Some(
            RuntimeEngineCall::SetInputLimbs { worker_id, signal, lane_values },
        ),
        RuntimeWorkerRequest::SetMemoryLimbs { worker_id, memory, lane_words } => Some(
            RuntimeEngineCall::SetMemoryLimbs { worker_id, memory, lane_words },
        ),
        RuntimeWorkerRequest::EvalCombinational { worker_id } => Some(
            RuntimeEngineCall::Execute {
                worker_id,
                action: RuntimeShardAction::EvalCombinational,
            },
        ),
        RuntimeWorkerRequest::Tick { worker_id } => Some(
            RuntimeEngineCall::Execute { worker_id, action: RuntimeShardAction::Tick },
        ),
        RuntimeWorkerRequest::TickMany { worker_id, steps } => Some(
            RuntimeEngineCall::Execute { worker_id, action: RuntimeShardAction::TickMany(steps) },
        ),
        RuntimeWorkerRequest::GetSignalLimbs { worker_id, signal } => Some(
            RuntimeEngineCall::GetSignalLimbs { worker_id, signal },
        ),
        RuntimeWorkerRequest::GetMemoryLimbs { worker_id, memory } => Some(
            RuntimeEngineCall::GetMemoryLimbs { worker_id, memory },
        ),
        RuntimeWorkerRequest::Snapshot { worker_id } => Some(
            RuntimeEngineCall::ReadStorage { worker_id },
        ),
        RuntimeWorkerRequest::RestoreSnapshot { worker_id, snapshot } => Some(
            RuntimeEngineCall::WriteStorage {
                worker_id,
                values: snapshot.values,
                memories: snapshot.memories,
            },
        ),
        _ => None,
    }
}

/// Whether a structural step can still be counted.
pub open spec fn request_fits(
    service: LocalRuntimeWorkerServiceView,
    request: RuntimeWorkerRequest,
) -> bool {
    match request {
        RuntimeWorkerRequest::RunPartitionWorkerAction(action) =>
            service.partition_workers.dom().contains(action.worker_id@)
                ==> records_partition_action(
                service.partition_workers[action.worker_id@].operations,
                action.kind,
            ),
        _ => true,
    }
}

impl LocalRuntimeWorkerService {
    /// Does what a request asks, up to what only the engine can do.
    pub fn handle(&mut self, request: RuntimeWorkerRequest) -> (r: Result<
        RuntimeWorkerStep,
        ErrorReport,
    >)
        requires
            old(self).well_formed(),
            request_fits(old(self)@, request),
        ensures
            final(self).well_formed(),
            fails_with(r, request_problem(old(self)@, request)),
            r is Err ==> final(self)@ == old(self)@,
            r matches Ok(step) ==> {
                &&& final(self)@ == request_next(old(self)@, request)
                &&& match step {
                    RuntimeWorkerStep::Respond(response) => request_response(
                        old(self)@,
                        request,
                    ) == Some(response.deep_view()),
                    RuntimeWorkerStep::Engine(call) => request_response(old(self)@, request) is None
                        && request_call(request) == Some(call),
                }
            },
    {
        match request {
            RuntimeWorkerRequest::InitShard(init) => {
                self.check_init_shard(&init.shard)?;
                Ok(RuntimeWorkerStep::Engine(RuntimeEngineCall::Lower(init)))
            },
            RuntimeWorkerRequest::InitPartitionWorker(init) => {
                let response = self.init_partition_worker(init)?;
                Ok(RuntimeWorkerStep::Respond(response))
            },
            RuntimeWorkerRequest::RunPartitionWorkerAction(action) => {
                let response = self.run_partition_worker_action(action)?;
                Ok(RuntimeWorkerStep::Respond(response))
            },
            RuntimeWorkerRequest::StorePartitionRouteOutbound { worker_id, payload } => {
                let response = self.store_partition_route_outbound(worker_id, payload)?;
                Ok(RuntimeWorkerStep::Respond(response))
            },
            RuntimeWorkerRequest::DeliverPartitionRouteInbound { worker_id, payload } => {
                let response = self.deliver_partition_route_inbound(worker_id, payload)?;
                Ok(RuntimeWorkerStep::Respond(response))
            },
            RuntimeWorkerRequest::PartitionRouteMailbox { worker_id } => {
                let response = self.partition_route_mailbox(worker_id)?;
                Ok(RuntimeWorkerStep::Respond(response))
            },
            RuntimeWorkerRequest::ClearPartitionRouteMailboxes { worker_id } => {
                let response = self.clear_partition_route_mailboxes(worker_id)?;
                Ok(RuntimeWorkerStep::Respond(response))
            },
            RuntimeWorkerRequest::Health { worker_id } => Ok(
                RuntimeWorkerStep::Respond(
                    RuntimeWorkerResponse::Health(self.shard_health(worker_id)),
                ),
            ),
            RuntimeWorkerRequest::PartitionWorkerHealth { worker_id } => Ok(
                RuntimeWorkerStep::Respond(
                    RuntimeWorkerResponse::PartitionWorkerHealth(
                        self.partition_worker_health(worker_id),
                    ),
                ),
            ),
            RuntimeWorkerRequest::SetInput { worker_id, signal, lane_values } => {
                self.known_shard(worker_id.as_str())?;
                Ok(
                    RuntimeWorkerStep::Engine(
                        RuntimeEngineCall::SetInput { worker_id, signal, lane_values },
                    ),
                )
            },
            RuntimeWorkerRequest::SetInputLimbs { worker_id, signal, lane_values } => {
                self.known_shard(worker_id.as_str())?;
                Ok(
                    RuntimeWorkerStep::Engine(
                        RuntimeEngineCall::SetInputLimbs { worker_id, signal, lane_values },
                    ),
                )
            },
            RuntimeWorkerRequest::SetMemoryLimbs { worker_id, memory, lane_words } => {
                self.known_shard(worker_id.as_str())?;
                Ok(
                    RuntimeWorkerStep::Engine(
                        RuntimeEngineCall::SetMemoryLimbs { worker_id, memory, lane_words },
                    ),
                )
            },
            RuntimeWorkerRequest::EvalCombinational { worker_id } => {
                self.known_shard(worker_id.as_str())?;
                Ok(
                    RuntimeWorkerStep::Engine(
                        RuntimeEngineCall::Execute {
                            worker_id,
                            action: RuntimeShardAction::EvalCombinational,
                        },
                    ),
                )
            },
            RuntimeWorkerRequest::Tick { worker_id } => {
                self.known_shard(worker_id.as_str())?;
                Ok(
                    RuntimeWorkerStep::Engine(
                        RuntimeEngineCall::Execute { worker_id, action: RuntimeShardAction::Tick },
                    ),
                )
            },
            RuntimeWorkerRequest::TickMany { worker_id, steps } => {
                self.known_shard(worker_id.as_str())?;
                Ok(
                    RuntimeWorkerStep::Engine(
                        RuntimeEngineCall::Execute {
                            worker_id,
                            action: RuntimeShardAction::TickMany(steps),
                        },
                    ),
                )
            },
            RuntimeWorkerRequest::GetSignalLimbs { worker_id, signal } => {
                self.known_shard(worker_id.as_str())?;
                Ok(
                    RuntimeWorkerStep::Engine(
                        RuntimeEngineCall::GetSignalLimbs { worker_id, signal },
                    ),
                )
            },
            RuntimeWorkerRequest::GetMemoryLimbs { worker_id, memory } => {
                self.known_shard(worker_id.as_str())?;
                Ok(
                    RuntimeWorkerStep::Engine(
                        RuntimeEngineCall::GetMemoryLimbs { worker_id, memory },
                    ),
                )
            },
            RuntimeWorkerRequest::Snapshot { worker_id } => {
                self.known_shard(worker_id.as_str())?;
                Ok(RuntimeWorkerStep::Engine(RuntimeEngineCall::ReadStorage { worker_id }))
            },
            RuntimeWorkerRequest::RestoreSnapshot { worker_id, snapshot } => {
                let k: usize = self.known_shard(worker_id.as_str())?;
                let info = &self.shards[k].info;
                if snapshot.shard.start_lane != info.start_lane || snapshot.shard.lanes
                    != info.lanes {
                    return Err(
                        error(
                            "E_RUNTIME_WORKER_SNAPSHOT",
                            "snapshot shard lane range does not match initialized worker shard",
                        ),
                    );
                }
                Ok(
                    RuntimeWorkerStep::Engine(
                        RuntimeEngineCall::WriteStorage {
                            worker_id,
                            values: snapshot.values,
                            memories: snapshot.memories,
                        },
                    ),
                )
            },
            RuntimeWorkerRequest::Stats { worker_id } => {
                let k: usize = self.known_shard(worker_id.as_str())?;
                Ok(
                    RuntimeWorkerStep::Respond(
                        RuntimeWorkerResponse::Stats(
                            RuntimeShardStats {
                                shard: self.shards[k].info.clone(),
                                operations: self.shards[k].operations,
                            },
                        ),
                    ),
                )
            },
            RuntimeWorkerRequest::ResetStats { worker_id } => {
                let k: usize = self.known_shard(worker_id.as_str())?;
                self.set_shard_operations(k, RuntimeOperationStats::default());
                Ok(RuntimeWorkerStep::Respond(RuntimeWorkerResponse::Ack))
            },
        }
    }
}

// ---------------------------------------------------------------------------
// Replies of the engine
// ---------------------------------------------------------------------------

/// The shard that a call is about.
pub open spec fn call_worker(call: RuntimeEngineCall) -> Seq<char> {
    match call {
        RuntimeEngineCall::Lower(init) => init.shard.worker_id@,
        RuntimeEngineCall::Start(init) => init.shard.worker_id@,
        RuntimeEngineCall::SetInput { worker_id, .. } => worker_id@,
        RuntimeEngineCall::SetInputLimbs { worker_id, .. } => worker_id@,
        RuntimeEngineCall::SetMemoryLimbs { worker_id, .. } => worker_id@,
        RuntimeEngineCall::Execute { worker_id, .. } => worker_id@,
        RuntimeEngineCall::GetSignalLimbs { worker_id, .. } => worker_id@,
        RuntimeEngineCall::GetMemoryLimbs { worker_id, .. } => worker_id@,
        RuntimeEngineCall::ReadStorage { worker_id } => worker_id@,
        RuntimeEngineCall::WriteStorage { worker_id, .. } => worker_id@,
    }
}

/// Whether a worker can be waiting for a call: a new shard is not there yet, any
/// other is.
pub open spec fn awaits_call(service: LocalRuntimeWorkerServiceView, call: RuntimeEngineCall) -> bool {
    match call {
        RuntimeEngineCall::Lower(_) => !service.shards.dom().contains(call_worker(call)),
        RuntimeEngineCall::Start(_) => !service.shards.dom().contains(call_worker(call)),
        _ => service.shards.dom().contains(call_worker(call)),
    }
}

/// Whether an engine's value is of the kind that a call asks for.
pub open spec fn value_answers(call: RuntimeEngineCall, value: RuntimeEngineValue) -> bool {
    match call {
        RuntimeEngineCall::GetSignalLimbs { .. } => value is SignalLimbs,
        RuntimeEngineCall::GetMemoryLimbs { .. } => value is MemoryLimbs,
        RuntimeEngineCall::ReadStorage { .. } => value is Storage,
        _ => value is Done,
    }
}

/// What is wrong after the engine has replied: what it reported, or that a scalar
/// engine was asked for more than one lane.
pub open spec fn reply_problem(
    call: RuntimeEngineCall,
    reply: Result<RuntimeEngineValue, ErrorReport>,
) -> Option<ErrorReportView> {
    match reply {
        Err(e) => Some(e.deep_view()),
        Ok(_) => match call {
            RuntimeEngineCall::Lower(init) => scalar_lanes_problem(init.backend, init.shard.lanes),
            _ => None,
        },
    }
}

/// The worker after the engine has replied. Steps are counted even if they fail.
pub open spec fn reply_next(
    service: LocalRuntimeWorkerServiceView,
    call: RuntimeEngineCall,
    elapsed_ns: u128,
    reply: Result<RuntimeEngineValue, ErrorReport>,
) -> LocalRuntimeWorkerServiceView {
    match call {
        RuntimeEngineCall::Start(init) => if reply is Ok {
            with_shard(
                service,
                init.shard.worker_id@,
                RuntimeShardStateView {
                    info: init.shard.deep_view(),
                    operations: no_operations(),
                },
            )
        } else {
            service
        },
        RuntimeEngineCall::Execute { worker_id, action } => with_shard(
            service,
            worker_id@,
            RuntimeShardStateView {
                info: service.shards[worker_id@].info,
                operations: recorded(service.shards[worker_id@].operations, action, elapsed_ns),
            },
        ),
        _ => service,
    }
}

/// The response after a successful reply, or nothing if the engine is asked again.
pub open spec fn reply_response(
    service: LocalRuntimeWorkerServiceView,
    call: RuntimeEngineCall,
    value: RuntimeEngineValue,
) -> Option<RuntimeWorkerResponseView> {
    match call {
        RuntimeEngineCall::Lower(_) => None,
        RuntimeEngineCall::GetSignalLimbs { .. } => Some(
            RuntimeWorkerResponseView::SignalLimbs(value->SignalLimbs_0.deep_view()),
        ),
        RuntimeEngineCall::GetMemoryLimbs { .. } => Some(
            RuntimeWorkerResponseView::MemoryLimbs(value->MemoryLimbs_0.deep_view()),
        ),
        RuntimeEngineCall::ReadStorage { worker_id } => Some(
            RuntimeWorkerResponseView::Snapshot(
                RuntimeShardSnapshotView {
                    shard: service.shards[worker_id@].info,
                    values: value->values@,
                    memories: value->memories@,
                },
            ),
        ),
        _ => Some(RuntimeWorkerResponseView::Ack),
    }
}

impl LocalRuntimeWorkerService {
    /// Goes on with a request after the engine has replied to a call.
    pub fn resume(
        &mut self,
        call: RuntimeEngineCall,
        elapsed_ns: u128,
        reply: Result<RuntimeEngineValue, ErrorReport>,
    ) -> (r: Result<RuntimeWorkerStep, ErrorReport>)
        requires
            old(self).well_formed(),
            awaits_call(old(self)@, call),
            reply is Ok ==> value_answers(call, reply->Ok_0),
            call matches RuntimeEngineCall::Execute { worker_id, action } ==> records_one_more(
                old(self)@.shards[worker_id@].operations,
                action,
                elapsed_ns,
            ),
        ensures
            final(self).well_formed(),
            fails_with(r, reply_problem(call, reply)),
            final(self)@ == reply_next(old(self)@, call, elapsed_ns, reply),
            r matches Ok(step) ==> match step {
                RuntimeWorkerStep::Respond(response) => reply_response(
                    old(self)@,
                    call,
                    reply->Ok_0,
                ) == Some(response.deep_view()),
                RuntimeWorkerStep::Engine(next) => call matches RuntimeEngineCall::Lower(init)
                    && next == RuntimeEngineCall::Start(init),
            },
    {
        match call {
            RuntimeEngineCall::Lower(init) => {
                match reply {
                    Err(e) => Err(e),
                    Ok(_) => {
                        validate_scalar_lanes(init.backend, init.shard.lanes)?;
                        Ok(RuntimeWorkerStep::Engine(RuntimeEngineCall::Start(init)))
                    },
                }
            },
            RuntimeEngineCall::Start(init) => {
                match reply {
                    Err(e) => Err(e),
                    Ok(_) => {
                        self.add_shard(init.shard);
                        Ok(RuntimeWorkerStep::Respond(RuntimeWorkerResponse::Ack))
                    },
                }
            },
            RuntimeEngineCall::Execute { worker_id, action } => {
                match self.shard_place(worker_id.as_str()) {
                    Some(k) => {
                        let mut operations = self.shards[k].operations;
                        operations.record(action, elapsed_ns);
                        self.set_shard_operations(k, operations);
                    },
                    None => {},
                }
                match reply {
                    Err(e) => Err(e),
                    Ok(_) => Ok(RuntimeWorkerStep::Respond(RuntimeWorkerResponse::Ack)),
                }
            },
            RuntimeEngineCall::ReadStorage { worker_id } => {
                match reply {
                    Err(e) => Err(e),
                    Ok(value) => {
                        let k: usize = self.known_shard(worker_id.as_str())?;
                        match value {
                            RuntimeEngineValue::Storage { values, memories } => Ok(
                                RuntimeWorkerStep::Respond(
                                    RuntimeWorkerResponse::Snapshot(
                                        RuntimeShardSnapshot {
                                            shard: self.shards[k].info.clone(),
                                            values,
                                            memories,
                                        },
                                    ),
                                ),
                            ),
                            _ => Ok(RuntimeWorkerStep::Respond(RuntimeWorkerResponse::Ack)),
                        }
                    },
                }
            },
            _ => {
                match reply {
                    Err(e) => Err(e),
                    Ok(value) => match value {
                        RuntimeEngineValue::SignalLimbs(limbs) => Ok(
                            RuntimeWorkerStep::Respond(RuntimeWorkerResponse::SignalLimbs(limbs)),
                        ),
                        RuntimeEngineValue::MemoryLimbs(limbs) => Ok(
                            RuntimeWorkerStep::Respond(RuntimeWorkerResponse::MemoryLimbs(limbs)),
                        ),
                        _ => Ok(RuntimeWorkerStep::Respond(RuntimeWorkerResponse::Ack)),
                    },
                }
            },
        }
    }
}

} // verus!

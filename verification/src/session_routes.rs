//! Moving payloads along the routes of a session.

use vstd::prelude::*;

use crate::error::{error, fails_with, report, ErrorReport, ErrorReportView};
use crate::ids::{find_first_named, first_named};
use crate::limbs::{find_route, limb_count, route_at, route_width_limbs};
use crate::model::launch::{
    RuntimePartitionLaunchRoute, RuntimePartitionLaunchRouteView, RuntimePartitionWorkerLaunchView,
};
use crate::model::session::{
    RuntimePartitionRouteMailboxReport, RuntimePartitionRouteMailboxReportView,
    RuntimePartitionRoutePayload, RuntimePartitionRoutePayloadView,
    RuntimePartitionRouteTransferReport, RuntimePartitionRouteTransferReportView,
};
use crate::order::{sort_by_key, sorted_by_key, SortKey, Ranked};
use crate::responses::expect_partition_route_mailbox;
use crate::seqs::{
    first_index, lemma_first_index, lemma_first_index_is, no_items, or_problem, push_item,
};
use crate::service::{
    deliver_inbound_problem, missing_worker_problem, store_outbound_problem, with_worker,
    worker_cleared, worker_mailbox, worker_receiving, worker_storing, LocalRuntimeWorkerService,
    LocalRuntimeWorkerServiceView,
};
use crate::session::{RuntimePartitionSession, RuntimePartitionSessionView};
use crate::session_actions::{is_absent, steppable};
use crate::text::{append_decimal, decimal, same_text};

verus! {

// ---------------------------------------------------------------------------
// Mailboxes
// ---------------------------------------------------------------------------

/// Mailboxes are listed by worker.
pub struct MailboxOrder {}

impl SortKey<RuntimePartitionRouteMailboxReport> for MailboxOrder {
    type Key = String;

    open spec fn key(v: RuntimePartitionRouteMailboxReportView) -> Seq<char> {
        v.worker_id
    }

    fn is_key_le(a: &RuntimePartitionRouteMailboxReport, b: &RuntimePartitionRouteMailboxReport) -> bool {
        a.worker_id.is_ranked_le(&b.worker_id)
    }
}

/// A session that has heard of the mailboxes of a worker.
pub open spec fn with_mailbox(
    session: RuntimePartitionSessionView,
    found: RuntimePartitionRouteMailboxReportView,
) -> RuntimePartitionSessionView {
    let known = session.route_mailboxes;
    RuntimePartitionSessionView {
        route_mailboxes: match first_named::<RuntimePartitionRouteMailboxReport>(
            known,
            found.worker_id,
        ) {
            Some(k) => known.update(k, found),
            None => sorted_by_key::<RuntimePartitionRouteMailboxReport, MailboxOrder>(
                known.push(found),
            ),
        },
        ..session
    }
}

impl RuntimePartitionSession {
    /// Notes what a worker reports of its mailboxes.
    pub fn record_route_mailbox(&mut self, found: RuntimePartitionRouteMailboxReport)
        ensures
            final(self).deep_view() == with_mailbox(old(self).deep_view(), found.deep_view()),
    {
        let ghost known = self.route_mailboxes.deep_view();
        let ghost fv = found.deep_view();
        match find_first_named(&self.route_mailboxes, found.worker_id.as_str()) {
            Some(k) => {
                self.route_mailboxes.set(k, found);
                proof {
                    assert(self.route_mailboxes.deep_view() =~= known.update(k as int, fv));
                }
            },
            None => {
                let mut all: Vec<RuntimePartitionRouteMailboxReport> = no_items();
                std::mem::swap(&mut all, &mut self.route_mailboxes);
                push_item(&mut all, found);
                self.route_mailboxes =
                sort_by_key::<RuntimePartitionRouteMailboxReport, MailboxOrder>(all);
            },
        }
    }

    /// Puts a payload into the outbound mailbox of a worker in this process.
    pub fn publish_route_outbound_local(
        &mut self,
        worker_id: &str,
        payload: RuntimePartitionRoutePayload,
        service: &mut LocalRuntimeWorkerService,
    ) -> (r: Result<RuntimePartitionRouteMailboxReport, ErrorReport>)
        requires
            old(service).well_formed(),
        ensures
            final(service).well_formed(),
            fails_with(r, store_outbound_problem(old(service)@, worker_id@, payload.deep_view())),
            r is Err ==> final(service)@ == old(service)@ && final(self).deep_view()
                == old(self).deep_view(),
            r matches Ok(mailbox) ==> {
                let state = worker_storing(
                    old(service)@.partition_workers[worker_id@],
                    payload.deep_view(),
                );
                &&& mailbox.deep_view() == worker_mailbox(worker_id@, state)
                &&& final(service)@ == with_worker(old(service)@, worker_id@, state)
                &&& final(self).deep_view() == with_mailbox(
                    old(self).deep_view(),
                    mailbox.deep_view(),
                )
            },
    {
        let response = service.store_partition_route_outbound(worker_id.to_owned(), payload)?;
        let mailbox = expect_partition_route_mailbox(worker_id, response)?;
        self.record_route_mailbox(mailbox.clone());
        Ok(mailbox)
    }

    /// Puts a payload into the inbound mailbox of a worker in this process.
    pub fn deliver_route_inbound_local(
        &mut self,
        worker_id: &str,
        payload: RuntimePartitionRoutePayload,
        service: &mut LocalRuntimeWorkerService,
    ) -> (r: Result<RuntimePartitionRouteMailboxReport, ErrorReport>)
        requires
            old(service).well_formed(),
        ensures
            final(service).well_formed(),
            fails_with(r, deliver_inbound_problem(old(service)@, worker_id@, payload.deep_view())),
            r is Err ==> final(service)@ == old(service)@ && final(self).deep_view()
                == old(self).deep_view(),
            r matches Ok(mailbox) ==> {
                let state = worker_receiving(
                    old(service)@.partition_workers[worker_id@],
                    payload.deep_view(),
                );
                &&& mailbox.deep_view() == worker_mailbox(worker_id@, state)
                &&& final(service)@ == with_worker(old(service)@, worker_id@, state)
                &&& final(self).deep_view() == with_mailbox(
                    old(self).deep_view(),
                    mailbox.deep_view(),
                )
            },
    {
        let response = service.deliver_partition_route_inbound(worker_id.to_owned(), payload)?;
        let mailbox = expect_partition_route_mailbox(worker_id, response)?;
        self.record_route_mailbox(mailbox.clone());
        Ok(mailbox)
    }
}

/// What keeps the mailboxes of all workers from being read: one is not there.
pub open spec fn mailboxes_problem(
    session: RuntimePartitionSessionView,
    service: LocalRuntimeWorkerServiceView,
) -> Option<ErrorReportView> {
    match first_index(session.launch.workers.len(), is_absent(service, session.launch.workers)) {
        Some(i) => missing_worker_problem(
            service,
            "E_RUNTIME_PARTITION_WORKER_MAILBOX"@,
            session.launch.workers[i].worker_id,
        ),
        None => None,
    }
}

/// The session after the mailboxes of the first `n` workers were read.
pub open spec fn mailboxes_read(
    session: RuntimePartitionSessionView,
    service: LocalRuntimeWorkerServiceView,
    n: nat,
) -> RuntimePartitionSessionView
    decreases n,
{
    if n == 0 {
        session
    } else {
        let worker = session.launch.workers[n - 1].worker_id;
        with_mailbox(
            mailboxes_read(session, service, (n - 1) as nat),
            worker_mailbox(worker, service.partition_workers[worker]),
        )
    }
}

/// Reading mailboxes changes nothing of a session but its mailboxes.
pub proof fn lemma_mailboxes_read(
    session: RuntimePartitionSessionView,
    service: LocalRuntimeWorkerServiceView,
    n: nat,
)
    ensures
        mailboxes_read(session, service, n) == (RuntimePartitionSessionView {
            route_mailboxes: mailboxes_read(session, service, n).route_mailboxes,
            ..session
        }),
    decreases n,
{
    if n > 0 {
        lemma_mailboxes_read(session, service, (n - 1) as nat);
    }
}

/// The service after the mailboxes of the first `n` workers were emptied.
pub open spec fn mailboxes_cleared(
    service: LocalRuntimeWorkerServiceView,
    workers: Seq<RuntimePartitionWorkerLaunchView>,
    n: nat,
) -> LocalRuntimeWorkerServiceView
    decreases n,
{
    if n == 0 {
        service
    } else {
        let before = mailboxes_cleared(service, workers, (n - 1) as nat);
        let worker = workers[n - 1].worker_id;
        with_worker(before, worker, worker_cleared(before.partition_workers[worker]))
    }
}

/// Emptying mailboxes keeps the workers that are there and what they launched.
pub proof fn lemma_mailboxes_cleared(
    service: LocalRuntimeWorkerServiceView,
    workers: Seq<RuntimePartitionWorkerLaunchView>,
    n: nat,
    name: Seq<char>,
)
    requires
        n <= workers.len(),
        forall|i: int| 0 <= i < n ==> !#[trigger] is_absent(service, workers)(i),
    ensures
        mailboxes_cleared(service, workers, n).partition_workers.dom().contains(name)
            <==> service.partition_workers.dom().contains(name),
        mailboxes_cleared(service, workers, n).shards == service.shards,
        service.partition_workers.dom().contains(name) ==> worker_cleared(
            mailboxes_cleared(service, workers, n).partition_workers[name],
        ) == worker_cleared(service.partition_workers[name]),
    decreases n,
{
    if n > 0 {
        lemma_mailboxes_cleared(service, workers, (n - 1) as nat, name);
        assert(!is_absent(service, workers)(n - 1));
    }
}

/// The session after the first `n` workers have reported emptied mailboxes.
pub open spec fn clears_read(
    session: RuntimePartitionSessionView,
    service: LocalRuntimeWorkerServiceView,
    n: nat,
) -> RuntimePartitionSessionView
    decreases n,
{
    if n == 0 {
        session
    } else {
        let worker = session.launch.workers[n - 1].worker_id;
        with_mailbox(
            clears_read(session, service, (n - 1) as nat),
            worker_mailbox(worker, worker_cleared(service.partition_workers[worker])),
        )
    }
}

/// Emptying mailboxes changes nothing of a session but its mailboxes.
pub proof fn lemma_clears_read(
    session: RuntimePartitionSessionView,
    service: LocalRuntimeWorkerServiceView,
    n: nat,
)
    ensures
        clears_read(session, service, n) == (RuntimePartitionSessionView {
            route_mailboxes: clears_read(session, service, n).route_mailboxes,
            ..session
        }),
    decreases n,
{
    if n > 0 {
        lemma_clears_read(session, service, (n - 1) as nat);
    }
}

impl RuntimePartitionSession {
    /// Reads the mailboxes of all workers in this process.
    pub fn collect_route_mailboxes_local(&mut self, service: &mut LocalRuntimeWorkerService) -> (r:
        Result<Vec<RuntimePartitionRouteMailboxReport>, ErrorReport>)
        requires
            old(service).well_formed(),
        ensures
            final(service).well_formed(),
            fails_with(r, mailboxes_problem(old(self).deep_view(), old(service)@)),
            final(service)@ == old(service)@,
            final(self).deep_view() == mailboxes_read(
                old(self).deep_view(),
                old(service)@,
                steppable(old(service)@, old(self).deep_view().launch.workers),
            ),
            r matches Ok(mailboxes) ==> mailboxes.deep_view() == Seq::new(
                old(self).deep_view().launch.workers.len(),
                |i: int|
                    worker_mailbox(
                        old(self).deep_view().launch.workers[i].worker_id,
                        old(service)@.partition_workers[old(
                            self,
                        ).deep_view().launch.workers[i].worker_id],
                    ),
            ),
    {
        let ghost session = self.deep_view();
        let ghost ws = session.launch.workers;
        let ghost state = service@;
        let ghost absent = is_absent(state, ws);
        let ghost all = Seq::new(
            ws.len(),
            |i: int| worker_mailbox(ws[i].worker_id, state.partition_workers[ws[i].worker_id]),
        );
        let mut reports: Vec<RuntimePartitionRouteMailboxReport> = no_items();
        let mut i: usize = 0;
        proof {
            assert(ws.len() == self.launch.workers@.len());
            assert(all.take(0) =~= Seq::empty());
            lemma_first_index(ws.len(), absent);
        }
        while i < self.launch.workers.len()
            invariant
                ws == session.launch.workers,
                session == old(self).deep_view(),
                state == old(service)@,
                absent == is_absent(state, ws),
                all == Seq::new(
                    ws.len(),
                    |i: int|
                        worker_mailbox(ws[i].worker_id, state.partition_workers[ws[i].worker_id]),
                ),
                service.well_formed(),
                service@ == state,
                self.deep_view() == mailboxes_read(session, state, i as nat),
                self.deep_view().launch == session.launch,
                ws.len() == self.launch.workers@.len(),
                i <= ws.len(),
                forall|j: int| 0 <= j < i ==> !#[trigger] absent(j),
                reports.deep_view() == all.take(i as int),
            decreases ws.len() - i,
        {
            let worker_id = self.launch.workers[i].worker_id.clone();
            proof {
                assert(ws == self.launch.workers.deep_view());
                assert(ws[i as int] == self.launch.workers@[i as int].deep_view());
                lemma_first_index(ws.len(), absent);
            }
            let response = match service.partition_route_mailbox(worker_id.clone()) {
                Ok(response) => response,
                Err(e) => {
                    proof {
                        assert(absent(i as int));
                        lemma_first_index_is(ws.len(), absent, i as int);
                    }
                    return Err(e);
                },
            };
            let mailbox = expect_partition_route_mailbox(worker_id.as_str(), response)?;
            proof {
                assert(!absent(i as int));
                assert(mailbox.deep_view() == all[i as int]);
                assert(all.take(i + 1) =~= all.take(i as int).push(all[i as int]));
                lemma_mailboxes_read(session, state, (i + 1) as nat);
            }
            self.record_route_mailbox(mailbox.clone());
            proof {
                assert(self.deep_view().launch.workers.len() == self.launch.workers@.len());
            }
            push_item(&mut reports, mailbox);
            i = i + 1;
        }
        proof {
            lemma_first_index(ws.len(), absent);
            assert(all.take(i as int) =~= all);
        }
        Ok(reports)
    }

    /// Empties the mailboxes of all workers in this process.
    pub fn clear_route_mailboxes_local(&mut self, service: &mut LocalRuntimeWorkerService) -> (r:
        Result<Vec<RuntimePartitionRouteMailboxReport>, ErrorReport>)
        requires
            old(service).well_formed(),
        ensures
            final(service).well_formed(),
            fails_with(r, mailboxes_problem(old(self).deep_view(), old(service)@)),
            final(service)@ == mailboxes_cleared(
                old(service)@,
                old(self).deep_view().launch.workers,
                steppable(old(service)@, old(self).deep_view().launch.workers),
            ),
            final(self).deep_view() == clears_read(
                old(self).deep_view(),
                old(service)@,
                steppable(old(service)@, old(self).deep_view().launch.workers),
            ),
            r matches Ok(mailboxes) ==> mailboxes.deep_view() == Seq::new(
                old(self).deep_view().launch.workers.len(),
                |i: int|
                    worker_mailbox(
                        old(self).deep_view().launch.workers[i].worker_id,
                        worker_cleared(
                            old(service)@.partition_workers[old(
                                self,
                            ).deep_view().launch.workers[i].worker_id],
                        ),
                    ),
            ),
    {
        let ghost session = self.deep_view();
        let ghost ws = session.launch.workers;
        let ghost state = service@;
        let ghost absent = is_absent(state, ws);
        let ghost all = Seq::new(
            ws.len(),
            |i: int|
                worker_mailbox(
                    ws[i].worker_id,
                    worker_cleared(state.partition_workers[ws[i].worker_id]),
                ),
        );
        let mut reports: Vec<RuntimePartitionRouteMailboxReport> = no_items();
        let mut i: usize = 0;
        proof {
            assert(ws.len() == self.launch.workers@.len());
            assert(all.take(0) =~= Seq::empty());
            lemma_first_index(ws.len(), absent);
        }
        while i < self.launch.workers.len()
            invariant
                ws == session.launch.workers,
                session == old(self).deep_view(),
                state == old(service)@,
                absent == is_absent(state, ws),
                all == Seq::new(
                    ws.len(),
                    |i: int|
                        worker_mailbox(
                            ws[i].worker_id,
                            worker_cleared(state.partition_workers[ws[i].worker_id]),
                        ),
                ),
                service.well_formed(),
                service@ == mailboxes_cleared(state, ws, i as nat),
                self.deep_view() == clears_read(session, state, i as nat),
                self.deep_view().launch == session.launch,
                ws.len() == self.launch.workers@.len(),
                i <= ws.len(),
                forall|j: int| 0 <= j < i ==> !#[trigger] absent(j),
                reports.deep_view() == all.take(i as int),
            decreases ws.len() - i,
        {
            let worker_id = self.launch.workers[i].worker_id.clone();
            proof {
                assert(ws == self.launch.workers.deep_view());
                assert(ws[i as int] == self.launch.workers@[i as int].deep_view());
                lemma_first_index(ws.len(), absent);
                lemma_mailboxes_cleared(state, ws, i as nat, worker_id@);
            }
            let response = match service.clear_partition_route_mailboxes(worker_id.clone()) {
                Ok(response) => response,
                Err(e) => {
                    proof {
                        assert(absent(i as int));
                        lemma_first_index_is(ws.len(), absent, i as int);
                    }
                    return Err(e);
                },
            };
            let mailbox = expect_partition_route_mailbox(worker_id.as_str(), response)?;
            proof {
                assert(!absent(i as int));
                assert(mailbox.deep_view() == all[i as int]);
                assert(all.take(i + 1) =~= all.take(i as int).push(all[i as int]));
                lemma_clears_read(session, state, (i + 1) as nat);
            }
            self.record_route_mailbox(mailbox.clone());
            proof {
                assert(self.deep_view().launch.workers.len() == self.launch.workers@.len());
            }
            push_item(&mut reports, mailbox);
            i = i + 1;
        }
        proof {
            lemma_first_index(ws.len(), absent);
            assert(all.take(i as int) =~= all);
        }
        Ok(reports)
    }
}

// ---------------------------------------------------------------------------
// Transfers
// ---------------------------------------------------------------------------

pub open spec fn transfer_report_of(message: Seq<char>) -> ErrorReportView {
    report("E_RUNTIME_PARTITION_ROUTE_TRANSFER"@, message)
}

/// What keeps a route from being used for a transfer.
pub open spec fn transfer_route_problem(
    session: RuntimePartitionSessionView,
    route_index: usize,
) -> Option<ErrorReportView> {
    match route_at(session.launch.routes, route_index) {
        None => Some(
            transfer_report_of(
                "runtime partition session `"@ + session.launch.module_name + "` has no route "@
                    + decimal(route_index as nat),
            ),
        ),
        Some(k) => {
            let route = session.launch.routes[k];
            if route.producer_worker == route.consumer_worker {
                Some(
                    transfer_report_of(
                        "runtime partition route "@ + decimal(route_index as nat)
                            + " stays on worker `"@ + route.producer_worker
                            + "` and cannot be transferred across workers"@,
                    ),
                )
            } else {
                None
            }
        },
    }
}

/// The route of an index.
pub open spec fn session_route(session: RuntimePartitionSessionView, route_index: usize) -> RuntimePartitionLaunchRouteView {
    session.launch.routes[route_at(session.launch.routes, route_index)->0]
}

/// What is reported of a transfer.
pub open spec fn transfer_report(
    session: RuntimePartitionSessionView,
    route: RuntimePartitionLaunchRouteView,
    producer: RuntimePartitionRouteMailboxReportView,
    consumer: RuntimePartitionRouteMailboxReportView,
) -> RuntimePartitionRouteTransferReportView {
    RuntimePartitionRouteTransferReportView {
        route_index: route.route_index,
        producer_worker: route.producer_worker,
        consumer_worker: route.consumer_worker,
        width: route.width,
        limb_count: limb_count(route.width) as usize,
        producer_mailbox: producer,
        consumer_mailbox: consumer,
        diagnostics: session.deployment.diagnostics,
    }
}

/// The payload that a route moves.
pub open spec fn route_payload(route: RuntimePartitionLaunchRouteView, route_index: usize, limbs: Seq<u32>) -> RuntimePartitionRoutePayloadView {
    RuntimePartitionRoutePayloadView { route_index, width: route.width, limbs }
}

/// The service once the payload of a transfer is published.
pub open spec fn published(
    service: LocalRuntimeWorkerServiceView,
    route: RuntimePartitionLaunchRouteView,
    payload: RuntimePartitionRoutePayloadView,
) -> LocalRuntimeWorkerServiceView {
    with_worker(
        service,
        route.producer_worker,
        worker_storing(service.partition_workers[route.producer_worker], payload),
    )
}

/// What keeps a transfer from being made by a worker in this process.
pub open spec fn transfer_problem(
    session: RuntimePartitionSessionView,
    service: LocalRuntimeWorkerServiceView,
    route_index: usize,
    limbs: Seq<u32>,
) -> Option<ErrorReportView> {
    let route = session_route(session, route_index);
    let payload = route_payload(route, route_index, limbs);
    or_problem(
        transfer_route_problem(session, route_index),
        or_problem(
            store_outbound_problem(service, route.producer_worker, payload),
            deliver_inbound_problem(
                published(service, route, payload),
                route.consumer_worker,
                payload,
            ),
        ),
    )
}

/// The mailboxes of the producer of a transfer.
pub open spec fn producer_mailbox(
    service: LocalRuntimeWorkerServiceView,
    route: RuntimePartitionLaunchRouteView,
    payload: RuntimePartitionRoutePayloadView,
) -> RuntimePartitionRouteMailboxReportView {
    worker_mailbox(
        route.producer_worker,
        worker_storing(service.partition_workers[route.producer_worker], payload),
    )
}

/// The mailboxes of the consumer of a transfer.
pub open spec fn consumer_mailbox(
    service: LocalRuntimeWorkerServiceView,
    route: RuntimePartitionLaunchRouteView,
    payload: RuntimePartitionRoutePayloadView,
) -> RuntimePartitionRouteMailboxReportView {
    worker_mailbox(
        route.consumer_worker,
        worker_receiving(
            published(service, route, payload).partition_workers[route.consumer_worker],
            payload,
        ),
    )
}

/// The service after a transfer. If only the delivery fails, the payload stays
/// published.
pub open spec fn service_after_transfer(
    session: RuntimePartitionSessionView,
    service: LocalRuntimeWorkerServiceView,
    route_index: usize,
    limbs: Seq<u32>,
) -> LocalRuntimeWorkerServiceView {
    let route = session_route(session, route_index);
    let payload = route_payload(route, route_index, limbs);
    let between = published(service, route, payload);
    if transfer_route_problem(session, route_index) is Some || store_outbound_problem(
        service,
        route.producer_worker,
        payload,
    ) is Some {
        service
    } else if deliver_inbound_problem(between, route.consumer_worker, payload) is Some {
        between
    } else {
        with_worker(
            between,
            route.consumer_worker,
            worker_receiving(between.partition_workers[route.consumer_worker], payload),
        )
    }
}

/// The session after a transfer.
pub open spec fn session_after_transfer(
    session: RuntimePartitionSessionView,
    service: LocalRuntimeWorkerServiceView,
    route_index: usize,
    limbs: Seq<u32>,
) -> RuntimePartitionSessionView {
    let route = session_route(session, route_index);
    let payload = route_payload(route, route_index, limbs);
    if transfer_route_problem(session, route_index) is Some || store_outbound_problem(
        service,
        route.producer_worker,
        payload,
    ) is Some {
        session
    } else {
        let between = with_mailbox(session, producer_mailbox(service, route, payload));
        if deliver_inbound_problem(
            published(service, route, payload),
            route.consumer_worker,
            payload,
        ) is Some {
            between
        } else {
            with_mailbox(between, consumer_mailbox(service, route, payload))
        }
    }
}

impl RuntimePartitionSession {
    /// The route of an index, if it leads from one worker to another.
    pub fn transfer_route(&self, route_index: usize) -> (r: Result<
        RuntimePartitionLaunchRoute,
        ErrorReport,
    >)
        ensures
            fails_with(r, transfer_route_problem(self.deep_view(), route_index)),
            r matches Ok(route) ==> route.deep_view() == session_route(
                self.deep_view(),
                route_index,
            ),
    {
        let k: usize = match find_route(&self.launch.routes, route_index) {
            Some(k) => k,
            None => {
                let mut message = "runtime partition session `".to_owned();
                message.append(self.launch.module_name.as_str());
                message.append("` has no route ");
                append_decimal(&mut message, route_index as u64);
                return Err(error("E_RUNTIME_PARTITION_ROUTE_TRANSFER", message.as_str()));
            },
        };
        let route = &self.launch.routes[k];
        proof {
            assert(self.deep_view().launch.routes[k as int] == route.deep_view());
        }
        if same_text(route.producer_worker.as_str(), route.consumer_worker.as_str()) {
            let mut message = "runtime partition route ".to_owned();
            append_decimal(&mut message, route_index as u64);
            message.append(" stays on worker `");
            message.append(route.producer_worker.as_str());
            message.append("` and cannot be transferred across workers");
            return Err(error("E_RUNTIME_PARTITION_ROUTE_TRANSFER", message.as_str()));
        }
        Ok(route.clone())
    }

    /// Reports a transfer, given the mailboxes of both workers.
    pub fn route_transfer_report(
        &self,
        route: &RuntimePartitionLaunchRoute,
        producer: RuntimePartitionRouteMailboxReport,
        consumer: RuntimePartitionRouteMailboxReport,
    ) -> (r: RuntimePartitionRouteTransferReport)
        ensures
            r.deep_view() == transfer_report(
                self.deep_view(),
                route.deep_view(),
                producer.deep_view(),
                consumer.deep_view(),
            ),
    {
        let diagnostics = self.deployment.diagnostics.clone();
        proof {
            assert(diagnostics.deep_view() =~= self.deployment.diagnostics.deep_view());
        }
        RuntimePartitionRouteTransferReport {
            route_index: route.route_index,
            producer_worker: route.producer_worker.clone(),
            consumer_worker: route.consumer_worker.clone(),
            width: route.width,
            limb_count: route_width_limbs(route.width),
            producer_mailbox: producer,
            consumer_mailbox: consumer,
            diagnostics,
        }
    }

    /// Moves a value along a route between workers in this process.
    pub fn transfer_route_local(
        &mut self,
        route_index: usize,
        limbs: Vec<u32>,
        service: &mut LocalRuntimeWorkerService,
    ) -> (r: Result<RuntimePartitionRouteTransferReport, ErrorReport>)
        requires
            old(service).well_formed(),
        ensures
            final(service).well_formed(),
            fails_with(
                r,
                transfer_problem(old(self).deep_view(), old(service)@, route_index, limbs@),
            ),
            final(service)@ == service_after_transfer(
                old(self).deep_view(),
                old(service)@,
                route_index,
                limbs@,
            ),
            final(self).deep_view() == session_after_transfer(
                old(self).deep_view(),
                old(service)@,
                route_index,
                limbs@,
            ),
            r matches Ok(transfer) ==> {
                let route = session_route(old(self).deep_view(), route_index);
                let payload = route_payload(route, route_index, limbs@);
                transfer.deep_view() == transfer_report(
                    old(self).deep_view(),
                    route,
                    producer_mailbox(old(service)@, route, payload),
                    consumer_mailbox(old(service)@, route, payload),
                )
            },
    {
        let route = self.transfer_route(route_index)?;
        let copy = limbs.clone();
        proof {
            assert(copy@ =~= limbs@);
        }
        let published = self.publish_route_outbound_local(
            route.producer_worker.as_str(),
            RuntimePartitionRoutePayload { route_index, width: route.width, limbs: copy },
            service,
        )?;
        let delivered = self.deliver_route_inbound_local(
            route.consumer_worker.as_str(),
            RuntimePartitionRoutePayload { route_index, width: route.width, limbs },
            service,
        )?;
        Ok(self.route_transfer_report(&route, published, delivered))
    }
}

} // verus!

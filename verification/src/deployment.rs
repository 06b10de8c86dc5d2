//! Deploying a launch plan onto workers.

use vstd::prelude::*;

use crate::collect::check_each;
use crate::error::{error, fails_with, report, ErrorReport, ErrorReportView};
use crate::ids::{distinct_names, is_repeated_name, lemma_distinct_names, repeats_name, Named};
use crate::model::launch::{
    RuntimePartitionLaunchPartition, RuntimePartitionLaunchPlan, RuntimePartitionLaunchPlanView,
    RuntimePartitionWorkerLaunch, RuntimePartitionWorkerLaunchView,
};
use crate::model::session::{
    RuntimePartitionDeploymentReport, RuntimePartitionDeploymentReportView,
    RuntimePartitionWorkerHealth, RuntimePartitionWorkerHealthView, RuntimePartitionWorkerInit,
};
use crate::responses::{expect_ack, expect_partition_worker_health};
use crate::seqs::{
    first_index, first_problem, lemma_first_index, lemma_first_index_is, lemma_first_problem_none,
    no_items, or_problem, push_item,
};
use crate::service::{
    fresh_worker, with_worker, LocalRuntimeWorkerService, LocalRuntimeWorkerServiceView,
};
use crate::text::same_text;
use crate::versions::partition_launch_plan_version_problem;

verus! {

// ---------------------------------------------------------------------------
// Launch plans that can be deployed
// ---------------------------------------------------------------------------

/// A worker with the name of an earlier one.
pub open spec fn repeated_launch_problem(
    workers: Seq<RuntimePartitionWorkerLaunchView>,
    i: int,
) -> Option<ErrorReportView> {
    if repeats_name::<RuntimePartitionWorkerLaunch>(workers, i) {
        Some(
            report(
                "E_RUNTIME_PARTITION_DEPLOY_WORKER"@,
                "partition launch has duplicate worker `"@ + workers[i].worker_id + "`"@,
            ),
        )
    } else {
        None
    }
}

/// What keeps a launch plan from being deployed.
pub open spec fn deployment_launch_problem(launch: RuntimePartitionLaunchPlanView) -> Option<
    ErrorReportView,
> {
    or_problem(
        partition_launch_plan_version_problem(launch.format_version),
        first_problem(launch.workers.len(), |i: int| repeated_launch_problem(launch.workers, i)),
    )
}

/// Checks that a launch plan can be deployed.
pub fn validate_partition_deployment_launch(launch: &RuntimePartitionLaunchPlan) -> (r: Result<
    (),
    ErrorReport,
>)
    ensures
        fails_with(r, deployment_launch_problem(launch.deep_view())),
        r is Ok ==> distinct_names::<RuntimePartitionWorkerLaunch>(launch.deep_view().workers),
{
    launch.validate_format_version()?;
    let ghost ws = launch.deep_view().workers;
    let ghost g = |i: int| repeated_launch_problem(ws, i);
    let r = check_each(
        launch.workers.len(),
        |i: usize| -> (y: Result<(), ErrorReport>)
            requires i < launch.workers@.len(), ws == launch.workers.deep_view(),
            ensures fails_with(y, g(i as int))
        {
            proof {
                assert(ws[i as int] == launch.workers@[i as int].deep_view());
            }
            if is_repeated_name(&launch.workers, i) {
                let mut message = "partition launch has duplicate worker `".to_owned();
                message.append(launch.workers[i].worker_id.as_str());
                message.append("`");
                Err(error("E_RUNTIME_PARTITION_DEPLOY_WORKER", message.as_str()))
            } else {
                Ok(())
            }
        },
        Ghost(g),
    );
    proof {
        assert(ws.len() == launch.workers@.len());
        if r is Ok {
            lemma_first_problem_none(ws.len(), g);
            assert forall|i: int| 0 <= i < ws.len() implies !repeats_name::<
                RuntimePartitionWorkerLaunch,
            >(ws, i) by {
                assert(g(i) is None);
            }
            lemma_distinct_names::<RuntimePartitionWorkerLaunch>(ws);
        }
    }
    r
}

// ---------------------------------------------------------------------------
// Health after deployment
// ---------------------------------------------------------------------------

/// Whether a health report agrees with what was launched.
pub open spec fn health_agrees(
    worker: RuntimePartitionWorkerLaunchView,
    health: RuntimePartitionWorkerHealthView,
) -> bool {
    &&& health.backend == Some(worker.backend)
    &&& health.node == Some(worker.node)
    &&& health.partitions == worker.partitions
    &&& health.outbound_routes == worker.outbound_routes
    &&& health.inbound_routes == worker.inbound_routes
    &&& health.outbound_bits == worker.outbound_bits
    &&& health.inbound_bits == worker.inbound_bits
}

/// What is wrong with a worker after deployment.
pub open spec fn deployment_health_problem(
    worker: RuntimePartitionWorkerLaunchView,
    health: RuntimePartitionWorkerHealthView,
) -> Option<ErrorReportView> {
    if !health.initialized {
        Some(
            report(
                "E_RUNTIME_PARTITION_DEPLOY_HEALTH"@,
                "partition worker `"@ + worker.worker_id
                    + "` did not report initialized after deployment"@,
            ),
        )
    } else if !health_agrees(worker, health) {
        Some(
            report(
                "E_RUNTIME_PARTITION_DEPLOY_HEALTH"@,
                "partition worker `"@ + worker.worker_id + "` health does not match launch payload"@,
            ),
        )
    } else {
        None
    }
}

fn same_texts(a: &Vec<String>, b: &Vec<String>) -> (r: bool)
    ensures
        r == (a.deep_view() == b.deep_view()),
{
    let ghost x = a.deep_view();
    let ghost y = b.deep_view();
    proof {
        assert(x.len() == a@.len());
        assert(y.len() == b@.len());
    }
    if a.len() != b.len() {
        return false;
    }
    let mut k: usize = 0;
    while k < a.len()
        invariant
            k <= a@.len(),
            a@.len() == b@.len(),
            x == a.deep_view(),
            y == b.deep_view(),
            forall|j: int| 0 <= j < k ==> #[trigger] x[j] == y[j],
        decreases a@.len() - k,
    {
        proof {
            assert(x[k as int] == a@[k as int]@);
            assert(y[k as int] == b@[k as int]@);
        }
        if !same_text(a[k].as_str(), b[k].as_str()) {
            return false;
        }
        k = k + 1;
    }
    proof {
        assert(x =~= y);
    }
    true
}

fn same_indexes(a: &Vec<usize>, b: &Vec<usize>) -> (r: bool)
    ensures
        r == (a@ == b@),
{
    if a.len() != b.len() {
        return false;
    }
    let mut k: usize = 0;
    while k < a.len()
        invariant
            k <= a@.len(),
            a@.len() == b@.len(),
            forall|j: int| 0 <= j < k ==> #[trigger] a@[j] == b@[j],
        decreases a@.len() - k,
    {
        if a[k] != b[k] {
            return false;
        }
        k = k + 1;
    }
    proof {
        assert(a@ =~= b@);
    }
    true
}

fn same_partition(a: &RuntimePartitionLaunchPartition, b: &RuntimePartitionLaunchPartition) -> (r:
    bool)
    ensures
        r == (a.deep_view() == b.deep_view()),
{
    same_text(a.partition_id.as_str(), b.partition_id.as_str()) && same_text(
        a.module_name.as_str(),
        b.module_name.as_str(),
    ) && same_texts(&a.instance_path, &b.instance_path) && a.external == b.external && a.cost
        == b.cost
}

fn same_partitions(
    a: &Vec<RuntimePartitionLaunchPartition>,
    b: &Vec<RuntimePartitionLaunchPartition>,
) -> (r: bool)
    ensures
        r == (a.deep_view() == b.deep_view()),
{
    let ghost x = a.deep_view();
    let ghost y = b.deep_view();
    proof {
        assert(x.len() == a@.len());
        assert(y.len() == b@.len());
    }
    if a.len() != b.len() {
        return false;
    }
    let mut k: usize = 0;
    while k < a.len()
        invariant
            k <= a@.len(),
            a@.len() == b@.len(),
            x == a.deep_view(),
            y == b.deep_view(),
            forall|j: int| 0 <= j < k ==> #[trigger] x[j] == y[j],
        decreases a@.len() - k,
    {
        proof {
            assert(x[k as int] == a@[k as int].deep_view());
            assert(y[k as int] == b@[k as int].deep_view());
        }
        if !same_partition(&a[k], &b[k]) {
            return false;
        }
        k = k + 1;
    }
    proof {
        assert(x =~= y);
    }
    true
}

fn health_matches(worker: &RuntimePartitionWorkerLaunch, health: &RuntimePartitionWorkerHealth) -> (r:
    bool)
    ensures
        r == health_agrees(worker.deep_view(), health.deep_view()),
{
    let backend: bool = match health.backend {
        Some(b) => b == worker.backend,
        None => false,
    };
    let node: bool = match &health.node {
        Some(n) => same_text(n.as_str(), worker.node.as_str()),
        None => false,
    };
    backend && node && same_partitions(&health.partitions, &worker.partitions) && same_indexes(
        &health.outbound_routes,
        &worker.outbound_routes,
    ) && same_indexes(&health.inbound_routes, &worker.inbound_routes) && health.outbound_bits
        == worker.outbound_bits && health.inbound_bits == worker.inbound_bits
}

/// Checks what a worker reports after deployment.
pub fn validate_partition_deployment_health(
    worker: &RuntimePartitionWorkerLaunch,
    health: &RuntimePartitionWorkerHealth,
) -> (r: Result<(), ErrorReport>)
    ensures
        fails_with(r, deployment_health_problem(worker.deep_view(), health.deep_view())),
{
    if !health.initialized {
        let mut message = "partition worker `".to_owned();
        message.append(worker.worker_id.as_str());
        message.append("` did not report initialized after deployment");
        return Err(error("E_RUNTIME_PARTITION_DEPLOY_HEALTH", message.as_str()));
    }
    if !health_matches(worker, health) {
        let mut message = "partition worker `".to_owned();
        message.append(worker.worker_id.as_str());
        message.append("` health does not match launch payload");
        return Err(error("E_RUNTIME_PARTITION_DEPLOY_HEALTH", message.as_str()));
    }
    Ok(())
}

// ---------------------------------------------------------------------------
// Deploying to a worker in this process
// ---------------------------------------------------------------------------

/// The service after the first `n` workers of a plan were initialized.
pub open spec fn deployed(
    service: LocalRuntimeWorkerServiceView,
    workers: Seq<RuntimePartitionWorkerLaunchView>,
    n: nat,
) -> LocalRuntimeWorkerServiceView
    decreases n,
{
    if n == 0 {
        service
    } else {
        with_worker(
            deployed(service, workers, (n - 1) as nat),
            workers[n - 1].worker_id,
            fresh_worker(workers[n - 1]),
        )
    }
}

/// What a worker reports once it is initialized.
pub open spec fn launched_health(worker: RuntimePartitionWorkerLaunchView) -> RuntimePartitionWorkerHealthView {
    RuntimePartitionWorkerHealthView {
        worker_id: worker.worker_id,
        initialized: true,
        backend: Some(worker.backend),
        node: Some(worker.node),
        partitions: worker.partitions,
        outbound_routes: worker.outbound_routes,
        inbound_routes: worker.inbound_routes,
        outbound_bits: worker.outbound_bits,
        inbound_bits: worker.inbound_bits,
        diagnostics: seq![],
    }
}

/// Whether a worker of a plan is already there.
pub open spec fn is_taken(
    service: LocalRuntimeWorkerServiceView,
    workers: Seq<RuntimePartitionWorkerLaunchView>,
) -> spec_fn(int) -> bool {
    |i: int| service.partition_workers.dom().contains(workers[i].worker_id)
}

/// The number of workers that are initialized before one is found that is already
/// there.
pub open spec fn deployable(
    service: LocalRuntimeWorkerServiceView,
    workers: Seq<RuntimePartitionWorkerLaunchView>,
) -> nat {
    match first_index(workers.len(), is_taken(service, workers)) {
        Some(i) => i as nat,
        None => workers.len(),
    }
}

/// What keeps a plan from being deployed to a worker in this process.
pub open spec fn local_deployment_problem(
    launch: RuntimePartitionLaunchPlanView,
    service: LocalRuntimeWorkerServiceView,
) -> Option<ErrorReportView> {
    or_problem(
        deployment_launch_problem(launch),
        match first_index(launch.workers.len(), is_taken(service, launch.workers)) {
            Some(i) => Some(
                report(
                    "E_RUNTIME_PARTITION_WORKER_INIT"@,
                    "partition worker `"@ + launch.workers[i].worker_id
                        + "` is already initialized"@,
                ),
            ),
            None => None,
        },
    )
}

/// What is reported of a deployment.
pub open spec fn deployment_report(launch: RuntimePartitionLaunchPlanView) -> RuntimePartitionDeploymentReportView {
    RuntimePartitionDeploymentReportView {
        module_name: launch.module_name,
        workers: Seq::new(launch.workers.len(), |i: int| launched_health(launch.workers[i])),
        diagnostics: launch.diagnostics,
    }
}

/// Initializing workers leaves those of other names alone.
pub proof fn lemma_deployed(
    service: LocalRuntimeWorkerServiceView,
    workers: Seq<RuntimePartitionWorkerLaunchView>,
    n: nat,
    name: Seq<char>,
)
    requires
        n <= workers.len(),
        forall|i: int| 0 <= i < n ==> (#[trigger] workers[i]).worker_id != name,
    ensures
        deployed(service, workers, n).partition_workers.dom().contains(name)
            <==> service.partition_workers.dom().contains(name),
        service.partition_workers.dom().contains(name) ==> deployed(
            service,
            workers,
            n,
        ).partition_workers[name] == service.partition_workers[name],
        deployed(service, workers, n).shards == service.shards,
    decreases n,
{
    if n > 0 {
        lemma_deployed(service, workers, (n - 1) as nat, name);
    }
}

/// After a deployment every worker of the plan is there as it was launched.
pub proof fn lemma_deployed_worker(
    service: LocalRuntimeWorkerServiceView,
    workers: Seq<RuntimePartitionWorkerLaunchView>,
    n: nat,
    i: int,
)
    requires
        distinct_names::<RuntimePartitionWorkerLaunch>(workers),
        0 <= i < n <= workers.len(),
    ensures
        deployed(service, workers, n).partition_workers.dom().contains(workers[i].worker_id),
        deployed(service, workers, n).partition_workers[workers[i].worker_id] == fresh_worker(
            workers[i],
        ),
    decreases n,
{
    if i < n - 1 {
        lemma_deployed_worker(service, workers, (n - 1) as nat, i);
        assert(RuntimePartitionWorkerLaunch::name_of(workers[i])
            != RuntimePartitionWorkerLaunch::name_of(workers[n - 1]));
    }
}

/// Deploys a launch plan to a worker in this process.
pub fn deploy_runtime_partition_launch_local(
    launch: &RuntimePartitionLaunchPlan,
    service: &mut LocalRuntimeWorkerService,
) -> (r: Result<RuntimePartitionDeploymentReport, ErrorReport>)
    requires
        old(service).well_formed(),
    ensures
        final(service).well_formed(),
        fails_with(r, local_deployment_problem(launch.deep_view(), old(service)@)),
        final(service)@ == if deployment_launch_problem(launch.deep_view()) is Some {
            old(service)@
        } else {
            deployed(
                old(service)@,
                launch.deep_view().workers,
                deployable(old(service)@, launch.deep_view().workers),
            )
        },
        r matches Ok(deployment) ==> deployment.deep_view() == deployment_report(
            launch.deep_view(),
        ),
{
    validate_partition_deployment_launch(launch)?;
    let ghost ws = launch.deep_view().workers;
    let ghost before = service@;
    let ghost taken = is_taken(before, ws);
    let ghost all = Seq::new(ws.len(), |i: int| launched_health(ws[i]));
    let mut workers: Vec<RuntimePartitionWorkerHealth> = no_items();
    let mut i: usize = 0;
    proof {
        assert(ws.len() == launch.workers@.len());
        assert(all.take(0) =~= Seq::empty());
    }
    while i < launch.workers.len()
        invariant
            i <= launch.workers@.len(),
            ws == launch.workers.deep_view(),
            ws.len() == launch.workers@.len(),
            distinct_names::<RuntimePartitionWorkerLaunch>(ws),
            deployment_launch_problem(launch.deep_view()) is None,
            ws == launch.deep_view().workers,
            before == old(service)@,
            taken == is_taken(before, ws),
            service.well_formed(),
            service@ == deployed(before, ws, i as nat),
            forall|j: int| 0 <= j < i ==> !#[trigger] taken(j),
            all == Seq::new(ws.len(), |i: int| launched_health(ws[i])),
            workers.deep_view() == all.take(i as int),
        decreases launch.workers@.len() - i,
    {
        let worker = &launch.workers[i];
        let ghost wv = worker.deep_view();
        proof {
            assert(ws[i as int] == wv);
            assert forall|j: int| 0 <= j < i implies (#[trigger] ws[j]).worker_id
                != wv.worker_id by {
                assert(RuntimePartitionWorkerLaunch::name_of(ws[j])
                    != RuntimePartitionWorkerLaunch::name_of(ws[i as int]));
            }
            lemma_deployed(before, ws, i as nat, wv.worker_id);
        }
        let init = RuntimePartitionWorkerInit {
            worker_id: worker.worker_id.clone(),
            launch: worker.clone(),
        };
        let response = match service.init_partition_worker(init) {
            Ok(response) => response,
            Err(e) => {
                proof {
                    assert(taken(i as int));
                    lemma_first_index_is(ws.len(), taken, i as int);
                }
                return Err(e);
            },
        };
        proof {
            assert(!taken(i as int));
        }
        expect_ack(response)?;
        let health = expect_partition_worker_health(
            worker.worker_id.as_str(),
            crate::model::protocol::RuntimeWorkerResponse::PartitionWorkerHealth(
                service.partition_worker_health(worker.worker_id.clone()),
            ),
        )?;
        validate_partition_deployment_health(worker, &health)?;
        proof {
            assert(health.deep_view() == launched_health(wv));
            assert(all.take(i + 1) =~= all.take(i as int).push(all[i as int]));
        }
        push_item(&mut workers, health);
        i = i + 1;
    }
    proof {
        lemma_first_index(ws.len(), taken);
        assert(all.take(i as int) =~= all);
    }
    let diagnostics = launch.diagnostics.clone();
    proof {
        assert(diagnostics.deep_view() =~= launch.diagnostics.deep_view());
    }
    Ok(
        RuntimePartitionDeploymentReport {
            module_name: launch.module_name.clone(),
            workers,
            diagnostics,
        },
    )
}

} // verus!

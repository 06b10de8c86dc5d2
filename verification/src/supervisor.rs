//! A supervisor of worker processes: its latest checkpoint, and how it recovers from it.

use vstd::prelude::*;

use crate::error::{error, fails_with, report, ErrorReport, ErrorReportView};
use crate::model::runtime::{
    RuntimeCheckpoint, RuntimeCheckpointEvent, RuntimeCheckpointView, RuntimeHealthReport,
    RuntimeRecoveryReportView, RuntimeTcpEndpoint, RuntimeTcpEndpointView,
    TcpRuntimeSupervisorCheckpointTelemetry, TcpRuntimeSupervisorCheckpointTelemetryView,
    TcpRuntimeSupervisorRecoveryReport, TcpRuntimeSupervisorRecoveryReportView,
    TcpRuntimeSupervisorTelemetry, TcpRuntimeSupervisorTelemetryView, TcpRuntimeWorkerProcessExit,
    TcpRuntimeWorkerProcessExitView, TcpRuntimeWorkerProcessTelemetry,
    TcpRuntimeWorkerProcessTelemetryView, RUNTIME_TELEMETRY_FORMAT_VERSION,
};
use crate::model::topology::{RuntimeTopology, RuntimeTopologyView};
use crate::order::sorted_by_key;
use crate::recovery::{tcp_endpoint_list, worker_ids, ByWorker};
use crate::runtime::{DistributedRuntime, DistributedRuntimeView};
use crate::runtime_actions::{runtime_stats, shards_reset};
use crate::runtime_storage::{
    checkpoint_endpoints_problem, checkpoint_of, RuntimeShardStorage, RuntimeShardStorageView,
};
use crate::worker_process::TcpRuntimeWorkerProcessHealth;

verus! {

/// A runtime whose workers run in processes that are started anew where they fail.
#[derive(Debug, PartialEq, Eq)]
pub struct TcpRuntimeSupervisor {
    pub module_name: String,
    pub topology: RuntimeTopology,
    pub runtime: DistributedRuntime,
    pub endpoints: Vec<RuntimeTcpEndpoint>,
    pub latest_checkpoint: Option<RuntimeCheckpoint>,
    pub latest_checkpoint_event: Option<RuntimeCheckpointEvent>,
    pub last_recovery: Option<TcpRuntimeSupervisorRecoveryReport>,
}

/// The model of [`TcpRuntimeSupervisor`].
#[verifier::ext_equal]
pub struct TcpRuntimeSupervisorView {
    pub module_name: Seq<char>,
    pub topology: RuntimeTopologyView,
    pub runtime: DistributedRuntimeView,
    pub endpoints: Seq<RuntimeTcpEndpointView>,
    pub latest_checkpoint: Option<RuntimeCheckpointView>,
    pub latest_checkpoint_event: Option<RuntimeCheckpointEvent>,
    pub last_recovery: Option<TcpRuntimeSupervisorRecoveryReportView>,
}

impl DeepView for TcpRuntimeSupervisor {
    type V = TcpRuntimeSupervisorView;

    open spec fn deep_view(&self) -> TcpRuntimeSupervisorView {
        TcpRuntimeSupervisorView {
            module_name: self.module_name@,
            topology: self.topology.deep_view(),
            runtime: self.runtime.deep_view(),
            endpoints: self.endpoints.deep_view(),
            latest_checkpoint: self.latest_checkpoint.deep_view(),
            latest_checkpoint_event: self.latest_checkpoint_event,
            last_recovery: self.last_recovery.deep_view(),
        }
    }
}

/// A supervisor with a checkpoint that was taken on request.
pub open spec fn with_checkpoint(
    supervisor: TcpRuntimeSupervisorView,
    storages: Seq<RuntimeShardStorageView>,
) -> TcpRuntimeSupervisorView {
    TcpRuntimeSupervisorView {
        latest_checkpoint: Some(
            checkpoint_of(supervisor.runtime, supervisor.endpoints, storages),
        ),
        latest_checkpoint_event: None,
        ..supervisor
    }
}

/// That there is no checkpoint.
pub open spec fn no_checkpoint_problem(supervisor: TcpRuntimeSupervisorView) -> Option<
    ErrorReportView,
> {
    if supervisor.latest_checkpoint is None {
        Some(
            report(
                "E_RUNTIME_SUPERVISOR_CHECKPOINT"@,
                "runtime supervisor has no checkpoint to recover from"@,
            ),
        )
    } else {
        None
    }
}

/// A supervisor whose processes were replaced, and whose workers have taken over.
pub open spec fn replaced(
    supervisor: TcpRuntimeSupervisorView,
    endpoints: Seq<RuntimeTcpEndpointView>,
) -> TcpRuntimeSupervisorView {
    TcpRuntimeSupervisorView {
        runtime: DistributedRuntimeView {
            shards: shards_reset(supervisor.runtime.shards),
            ..supervisor.runtime
        },
        endpoints,
        ..supervisor
    }
}

/// What is reported of a recovery.
pub open spec fn recovery_report(
    supervisor: TcpRuntimeSupervisorView,
    exits: Seq<TcpRuntimeWorkerProcessExitView>,
) -> TcpRuntimeSupervisorRecoveryReportView {
    TcpRuntimeSupervisorRecoveryReportView {
        restarted_workers: exits,
        runtime_recovery: RuntimeRecoveryReportView {
            recovered_workers: worker_ids(supervisor.runtime.shards),
        },
    }
}

/// A supervisor after a recovery.
pub open spec fn recovered(
    supervisor: TcpRuntimeSupervisorView,
    endpoints: Seq<RuntimeTcpEndpointView>,
    exits: Seq<TcpRuntimeWorkerProcessExitView>,
    storages: Seq<RuntimeShardStorageView>,
) -> TcpRuntimeSupervisorView {
    let fresh = replaced(supervisor, endpoints);
    TcpRuntimeSupervisorView {
        latest_checkpoint: Some(checkpoint_of(fresh.runtime, endpoints, storages)),
        last_recovery: Some(recovery_report(supervisor, exits)),
        ..fresh
    }
}

/// What a supervisor reports of itself.
pub open spec fn supervisor_telemetry(
    supervisor: TcpRuntimeSupervisorView,
    processes: Seq<TcpRuntimeWorkerProcessTelemetryView>,
    health: Result<RuntimeHealthReport, ErrorReport>,
) -> TcpRuntimeSupervisorTelemetryView {
    TcpRuntimeSupervisorTelemetryView {
        format_version: RUNTIME_TELEMETRY_FORMAT_VERSION,
        module_name: supervisor.module_name,
        topology: supervisor.topology,
        surrogate_attachment: supervisor.runtime.surrogate_attachment,
        surrogate_execution: supervisor.runtime.surrogate_execution,
        endpoints: sorted_by_key::<RuntimeTcpEndpoint, ByWorker>(supervisor.endpoints),
        processes,
        runtime_stats: runtime_stats(supervisor.runtime),
        runtime_health: match health {
            Ok(found) => Some(found.deep_view()),
            Err(_) => None,
        },
        runtime_health_error: match health {
            Ok(_) => None,
            Err(e) => Some(e.deep_view()),
        },
        latest_checkpoint: match supervisor.latest_checkpoint {
            Some(checkpoint) => Some(
                TcpRuntimeSupervisorCheckpointTelemetryView {
                    event: supervisor.latest_checkpoint_event,
                    checkpoint,
                },
            ),
            None => None,
        },
        last_recovery: supervisor.last_recovery,
    }
}

/// Health of a supervisor.
#[derive(Debug, PartialEq, Eq)]
pub struct TcpRuntimeSupervisorHealth {
    pub processes: Vec<TcpRuntimeWorkerProcessHealth>,
    pub runtime: Option<RuntimeHealthReport>,
    pub runtime_error: Option<ErrorReport>,
}

impl TcpRuntimeSupervisorHealth {
    /// Puts the health of processes beside that of their runtime, or beside why there is none.
    pub fn new(
        processes: Vec<TcpRuntimeWorkerProcessHealth>,
        health: Result<RuntimeHealthReport, ErrorReport>,
    ) -> (r: Self)
        ensures
            r.processes == processes,
            match health {
                Ok(found) => r.runtime == Some(found) && r.runtime_error is None,
                Err(e) => r.runtime is None && r.runtime_error == Some(e),
            },
    {
        match health {
            Ok(found) => TcpRuntimeSupervisorHealth {
                processes,
                runtime: Some(found),
                runtime_error: None,
            },
            Err(e) => TcpRuntimeSupervisorHealth {
                processes,
                runtime: None,
                runtime_error: Some(e),
            },
        }
    }
}

impl TcpRuntimeSupervisor {
    /// A supervisor without a checkpoint.
    pub fn new(
        module_name: String,
        topology: RuntimeTopology,
        runtime: DistributedRuntime,
        endpoints: Vec<RuntimeTcpEndpoint>,
    ) -> (r: Self)
        ensures
            r.deep_view() == (TcpRuntimeSupervisorView {
                module_name: module_name@,
                topology: topology.deep_view(),
                runtime: runtime.deep_view(),
                endpoints: endpoints.deep_view(),
                latest_checkpoint: None,
                latest_checkpoint_event: None,
                last_recovery: None,
            }),
    {
        TcpRuntimeSupervisor {
            module_name,
            topology,
            runtime,
            endpoints,
            latest_checkpoint: None,
            latest_checkpoint_event: None,
            last_recovery: None,
        }
    }

    /// Takes a checkpoint, of what the engines store.
    pub fn checkpoint(&mut self, storages: &Vec<RuntimeShardStorage>) -> (r: Result<
        (),
        ErrorReport,
    >)
        requires
            storages@.len() == old(self).runtime.shards@.len(),
        ensures
            fails_with(
                r,
                checkpoint_endpoints_problem(
                    old(self).deep_view().runtime,
                    old(self).deep_view().endpoints,
                ),
            ),
            final(self).deep_view() == if r is Ok {
                with_checkpoint(old(self).deep_view(), storages.deep_view())
            } else {
                old(self).deep_view()
            },
    {
        let checkpoint = self.runtime.checkpoint_with_tcp_endpoints(&self.endpoints, storages)?;
        self.latest_checkpoint = Some(checkpoint);
        self.latest_checkpoint_event = None;
        Ok(())
    }

    /// Keeps the last checkpoint that a run emitted, if it emitted any; also where the run failed.
    pub fn keep_checkpoint(
        &mut self,
        latest: Option<(RuntimeCheckpointEvent, RuntimeCheckpoint)>,
    )
        ensures
            final(self).deep_view() == (match latest {
                Some((event, checkpoint)) => TcpRuntimeSupervisorView {
                    latest_checkpoint: Some(checkpoint.deep_view()),
                    latest_checkpoint_event: Some(event),
                    ..old(self).deep_view()
                },
                None => old(self).deep_view(),
            }),
    {
        if let Some((event, checkpoint)) = latest {
            self.latest_checkpoint = Some(checkpoint);
            self.latest_checkpoint_event = Some(event);
        }
    }

    /// Reports the supervisor, its processes and its runtime.
    pub fn telemetry(
        &self,
        processes: Vec<TcpRuntimeWorkerProcessTelemetry>,
        health: Result<RuntimeHealthReport, ErrorReport>,
    ) -> (r: TcpRuntimeSupervisorTelemetry)
        ensures
            r.deep_view() == supervisor_telemetry(
                self.deep_view(),
                processes.deep_view(),
                health,
            ),
    {
        let runtime_stats = self.runtime.stats();
        let surrogate_attachment = self.runtime.surrogate_attachment.clone();
        let surrogate_execution = runtime_stats.surrogate_execution.clone();
        let last_recovery = self.last_recovery.clone();
        let latest_checkpoint = match &self.latest_checkpoint {
            Some(checkpoint) => Some(
                TcpRuntimeSupervisorCheckpointTelemetry {
                    event: self.latest_checkpoint_event,
                    checkpoint: checkpoint.clone(),
                },
            ),
            None => None,
        };
        let (runtime_health, runtime_health_error) = match health {
            Ok(found) => (Some(found), None),
            Err(e) => (None, Some(e)),
        };
        proof {
            assert(surrogate_attachment.deep_view()
                =~= self.runtime.surrogate_attachment.deep_view());
            assert(surrogate_execution.deep_view()
                =~= runtime_stats.surrogate_execution.deep_view());
            assert(last_recovery.deep_view() =~= self.last_recovery.deep_view());
        }
        TcpRuntimeSupervisorTelemetry {
            format_version: RUNTIME_TELEMETRY_FORMAT_VERSION,
            module_name: self.module_name.clone(),
            topology: self.topology.clone(),
            surrogate_attachment,
            surrogate_execution,
            endpoints: tcp_endpoint_list(&self.endpoints),
            processes,
            runtime_stats,
            runtime_health,
            runtime_health_error,
            latest_checkpoint,
            last_recovery,
        }
    }

    /// The checkpoint that a recovery goes back to.
    pub fn recovery_checkpoint(&self) -> (r: Result<RuntimeCheckpoint, ErrorReport>)
        ensures
            fails_with(r, no_checkpoint_problem(self.deep_view())),
            r matches Ok(checkpoint) ==> self.deep_view().latest_checkpoint == Some(
                checkpoint.deep_view(),
            ),
    {
        match &self.latest_checkpoint {
            Some(checkpoint) => Ok(checkpoint.clone()),
            None => Err(
                error(
                    "E_RUNTIME_SUPERVISOR_CHECKPOINT",
                    "runtime supervisor has no checkpoint to recover from",
                ),
            ),
        }
    }

    /// Takes over the processes of a recovery once their workers have taken over from the
    /// checkpoint, and takes a new checkpoint of what their engines store. `exits` says how the
    /// old processes ended.
    pub fn recover_from_latest_checkpoint(
        &mut self,
        endpoints: Vec<RuntimeTcpEndpoint>,
        exits: Vec<TcpRuntimeWorkerProcessExit>,
        storages: &Vec<RuntimeShardStorage>,
    ) -> (r: Result<TcpRuntimeSupervisorRecoveryReport, ErrorReport>)
        requires
            storages@.len() == old(self).runtime.shards@.len(),
        ensures
            fails_with(
                r,
                checkpoint_endpoints_problem(
                    replaced(old(self).deep_view(), endpoints.deep_view()).runtime,
                    endpoints.deep_view(),
                ),
            ),
            r matches Ok(found) ==> {
                &&& found.deep_view() == recovery_report(old(self).deep_view(), exits.deep_view())
                &&& final(self).deep_view() == recovered(
                    old(self).deep_view(),
                    endpoints.deep_view(),
                    exits.deep_view(),
                    storages.deep_view(),
                )
            },
            r is Err ==> final(self).deep_view() == replaced(
                old(self).deep_view(),
                endpoints.deep_view(),
            ),
    {
        let ghost before = self.deep_view();
        proof {
            assert(before.runtime.shards.len() == self.runtime.shards@.len());
        }
        let runtime_recovery = self.runtime.finish_recovery();
        self.endpoints = endpoints;
        proof {
            assert(self.runtime.deep_view().shards.len() == self.runtime.shards@.len());
        }
        let checkpoint = self.runtime.checkpoint_with_tcp_endpoints(&self.endpoints, storages)?;
        self.latest_checkpoint = Some(checkpoint);
        let found = TcpRuntimeSupervisorRecoveryReport {
            restarted_workers: exits,
            runtime_recovery,
        };
        self.last_recovery = Some(found.clone());
        Ok(found)
    }

    /// The name of the module.
    pub fn module_name(&self) -> (r: &str)
        ensures
            r@ == self.deep_view().module_name,
    {
        self.module_name.as_str()
    }

    /// The runtime.
    pub fn runtime(&self) -> (r: &DistributedRuntime)
        ensures
            r.deep_view() == self.deep_view().runtime,
    {
        &self.runtime
    }

    /// The endpoints of the processes.
    pub fn endpoints(&self) -> (r: &Vec<RuntimeTcpEndpoint>)
        ensures
            r.deep_view() == self.deep_view().endpoints,
    {
        &self.endpoints
    }

    /// The latest checkpoint.
    pub fn latest_checkpoint(&self) -> (r: Option<&RuntimeCheckpoint>)
        ensures
            match r {
                Some(c) => self.deep_view().latest_checkpoint == Some(c.deep_view()),
                None => self.deep_view().latest_checkpoint is None,
            },
    {
        match &self.latest_checkpoint {
            Some(checkpoint) => Some(checkpoint),
            None => None,
        }
    }

    /// The moment of the latest checkpoint, where a run emitted it.
    pub fn latest_checkpoint_event(&self) -> (r: Option<RuntimeCheckpointEvent>)
        ensures
            r == self.deep_view().latest_checkpoint_event,
    {
        self.latest_checkpoint_event
    }

    /// The last recovery.
    pub fn last_recovery(&self) -> (r: Option<&TcpRuntimeSupervisorRecoveryReport>)
        ensures
            match r {
                Some(found) => self.deep_view().last_recovery == Some(found.deep_view()),
                None => self.deep_view().last_recovery is None,
            },
    {
        match &self.last_recovery {
            Some(found) => Some(found),
            None => None,
        }
    }
}

} // verus!

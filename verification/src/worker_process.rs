//! Worker processes: what they say when they start, and whether they are still running.

use vstd::prelude::*;

use crate::collect::build_items;
use crate::error::{error, fails_with, report, ErrorReport, ErrorReportView};
use crate::model::runtime::{
    DistributedRuntimeOptions, RuntimeTcpEndpoint, RuntimeTcpEndpointView,
    TcpRuntimeWorkerProcessExit, TcpRuntimeWorkerProcessExitView, TcpRuntimeWorkerProcessTelemetry,
    TcpRuntimeWorkerProcessTelemetryView,
};
use crate::transport::{
    default_transport, lemma_break_ends, trim_breaks, without_breaks, TcpRuntimeTransportConfig,
    TcpRuntimeTransportConfigView, TcpRuntimeWorkerProcessConfig, TcpRuntimeWorkerProcessConfigView,
};

verus! {

/// How the system says that a process ended: whether well, and its code if it has one.
#[derive(Clone, Copy, Debug, PartialEq, Eq, Structural)]
pub struct ProcessStatus {
    pub success: bool,
    pub code: Option<i32>,
}

/// A worker process: where it listens, and how it ended once that is known.
#[derive(Debug, PartialEq, Eq)]
pub struct TcpRuntimeWorkerProcess {
    pub worker_id: String,
    pub endpoint: String,
    pub exit: Option<TcpRuntimeWorkerProcessExit>,
}

/// The model of [`TcpRuntimeWorkerProcess`].
#[verifier::ext_equal]
pub struct TcpRuntimeWorkerProcessView {
    pub worker_id: Seq<char>,
    pub endpoint: Seq<char>,
    pub exit: Option<TcpRuntimeWorkerProcessExitView>,
}

impl DeepView for TcpRuntimeWorkerProcess {
    type V = TcpRuntimeWorkerProcessView;

    open spec fn deep_view(&self) -> TcpRuntimeWorkerProcessView {
        TcpRuntimeWorkerProcessView {
            worker_id: self.worker_id@,
            endpoint: self.endpoint@,
            exit: self.exit.deep_view(),
        }
    }
}

/// Health of a worker process.
#[derive(Debug, PartialEq, Eq)]
pub struct TcpRuntimeWorkerProcessHealth {
    pub worker_id: String,
    pub endpoint: String,
    pub running: bool,
    pub exit: Option<TcpRuntimeWorkerProcessExit>,
}

/// The model of [`TcpRuntimeWorkerProcessHealth`].
#[verifier::ext_equal]
pub struct TcpRuntimeWorkerProcessHealthView {
    pub worker_id: Seq<char>,
    pub endpoint: Seq<char>,
    pub running: bool,
    pub exit: Option<TcpRuntimeWorkerProcessExitView>,
}

impl DeepView for TcpRuntimeWorkerProcessHealth {
    type V = TcpRuntimeWorkerProcessHealthView;

    open spec fn deep_view(&self) -> TcpRuntimeWorkerProcessHealthView {
        TcpRuntimeWorkerProcessHealthView {
            worker_id: self.worker_id@,
            endpoint: self.endpoint@,
            running: self.running,
            exit: self.exit.deep_view(),
        }
    }
}

// ---------------------------------------------------------------------------
// Start
// ---------------------------------------------------------------------------

/// That a process ended before it said where it listens.
pub open spec fn silent_start_problem(worker_id: Seq<char>, line: Seq<char>) -> Option<
    ErrorReportView,
> {
    if line.len() == 0 {
        Some(
            report(
                "E_RUNTIME_WORKER_PROCESS"@,
                "worker process `"@ + worker_id + "` exited before reporting an endpoint"@,
            ),
        )
    } else {
        None
    }
}

/// Takes what a process said out of the first line that it wrote.
pub fn startup_content(worker_id: &str, line: &str) -> (r: Result<String, ErrorReport>)
    ensures
        fails_with(r, silent_start_problem(worker_id@, line@)),
        r matches Ok(content) ==> content@ == without_breaks(line@),
{
    if line.unicode_len() == 0 {
        let mut message = "worker process `".to_owned();
        message.append(worker_id);
        message.append("` exited before reporting an endpoint");
        return Err(error("E_RUNTIME_WORKER_PROCESS", message.as_str()));
    }
    Ok(trim_breaks(line))
}

/// The address that a process wrote, and what is wrong with it if it is none; or why what it wrote
/// could not be parsed.
pub type StartupAddress = Result<(String, Option<String>), String>;

/// What is wrong with what a process wrote.
pub open spec fn startup_problem(startup: StartupAddress) -> Option<ErrorReportView> {
    match startup {
        Err(text) => Some(
            report(
                "E_RUNTIME_WORKER_PROCESS_STARTUP"@,
                "worker process startup line is not valid JSON: "@ + text@,
            ),
        ),
        Ok((addr, Some(text))) => Some(
            report(
                "E_RUNTIME_WORKER_PROCESS_STARTUP"@,
                "worker process startup address `"@ + addr@ + "` is not a socket address: "@
                    + text@,
            ),
        ),
        Ok((_, None)) => None,
    }
}

/// Takes the address that a process wrote.
pub fn parse_worker_startup_addr(startup: StartupAddress) -> (r: Result<String, ErrorReport>)
    ensures
        fails_with(r, startup_problem(startup)),
        r matches Ok(addr) ==> addr@ == startup->Ok_0.0@,
{
    match startup {
        Err(text) => {
            let mut message = "worker process startup line is not valid JSON: ".to_owned();
            message.append(text.as_str());
            Err(error("E_RUNTIME_WORKER_PROCESS_STARTUP", message.as_str()))
        },
        Ok((addr, Some(text))) => {
            let mut message = "worker process startup address `".to_owned();
            message.append(addr.as_str());
            message.append("` is not a socket address: ");
            message.append(text.as_str());
            Err(error("E_RUNTIME_WORKER_PROCESS_STARTUP", message.as_str()))
        },
        Ok((addr, None)) => Ok(addr),
    }
}

/// Reports that a process could not be started, watched or ended.
pub fn worker_process_io_error(text: &str) -> (r: ErrorReport)
    ensures
        r.deep_view() == report(
            "E_RUNTIME_WORKER_PROCESS_IO"@,
            "runtime worker process I/O error: "@ + text@,
        ),
{
    let mut message = "runtime worker process I/O error: ".to_owned();
    message.append(text);
    error("E_RUNTIME_WORKER_PROCESS_IO", message.as_str())
}

// ---------------------------------------------------------------------------
// Life and end
// ---------------------------------------------------------------------------

/// How a process ended.
pub open spec fn exit_of(worker_id: Seq<char>, status: ProcessStatus) -> TcpRuntimeWorkerProcessExitView {
    TcpRuntimeWorkerProcessExitView { worker_id, success: status.success, code: status.code }
}

/// A process of which the system says `polled`. How it ended does not change any more once it is
/// known.
pub open spec fn polled_process(
    process: TcpRuntimeWorkerProcessView,
    polled: Option<ProcessStatus>,
) -> TcpRuntimeWorkerProcessView {
    match polled {
        Some(status) if process.exit is None => TcpRuntimeWorkerProcessView {
            exit: Some(exit_of(process.worker_id, status)),
            ..process
        },
        _ => process,
    }
}

/// The health of a process.
pub open spec fn process_health(process: TcpRuntimeWorkerProcessView) -> TcpRuntimeWorkerProcessHealthView {
    TcpRuntimeWorkerProcessHealthView {
        worker_id: process.worker_id,
        endpoint: process.endpoint,
        running: process.exit is None,
        exit: process.exit,
    }
}

impl TcpRuntimeWorkerProcess {
    /// A process that has just said where it listens.
    pub fn new(worker_id: String, endpoint: String) -> (r: Self)
        ensures
            r.deep_view() == (TcpRuntimeWorkerProcessView {
                worker_id: worker_id@,
                endpoint: endpoint@,
                exit: None,
            }),
    {
        TcpRuntimeWorkerProcess { worker_id, endpoint, exit: None }
    }

    /// The worker that runs in the process.
    pub fn worker_id(&self) -> (r: &str)
        ensures
            r@ == self.deep_view().worker_id,
    {
        self.worker_id.as_str()
    }

    /// Where the process listens.
    pub fn endpoint(&self) -> (r: &str)
        ensures
            r@ == self.deep_view().endpoint,
    {
        self.endpoint.as_str()
    }

    fn poll(&mut self, polled: Option<ProcessStatus>)
        ensures
            final(self).deep_view() == polled_process(old(self).deep_view(), polled),
    {
        if self.exit.is_none() {
            if let Some(status) = polled {
                self.exit = Some(
                    TcpRuntimeWorkerProcessExit {
                        worker_id: self.worker_id.clone(),
                        success: status.success,
                        code: status.code,
                    },
                );
            }
        }
    }

    /// Takes what the system says of a process that is to be killed, and says whether it still has
    /// to be.
    pub fn kill(&mut self, polled: Option<ProcessStatus>) -> (r: bool)
        ensures
            final(self).deep_view() == polled_process(old(self).deep_view(), polled),
            r == (final(self).deep_view().exit is None),
    {
        self.poll(polled);
        self.exit.is_none()
    }

    /// Takes how the system says that the process ended, and reports how it ended.
    pub fn wait(&mut self, status: ProcessStatus) -> (r: TcpRuntimeWorkerProcessExit)
        ensures
            final(self).deep_view() == polled_process(old(self).deep_view(), Some(status)),
            final(self).deep_view().exit == Some(r.deep_view()),
    {
        self.poll(Some(status));
        match &self.exit {
            Some(exit) => exit.clone(),
            None => {
                proof {
                    assert(self.exit.deep_view() is Some);
                }
                TcpRuntimeWorkerProcessExit {
                    worker_id: self.worker_id.clone(),
                    success: status.success,
                    code: status.code,
                }
            },
        }
    }

    /// Takes what the system says of the process, and reports its health.
    pub fn health(&mut self, polled: Option<ProcessStatus>) -> (r: TcpRuntimeWorkerProcessHealth)
        ensures
            final(self).deep_view() == polled_process(old(self).deep_view(), polled),
            r.deep_view() == process_health(final(self).deep_view()),
    {
        self.poll(polled);
        let exit = self.exit.clone();
        proof {
            assert(exit.deep_view() =~= self.exit.deep_view());
        }
        TcpRuntimeWorkerProcessHealth {
            worker_id: self.worker_id.clone(),
            endpoint: self.endpoint.clone(),
            running: self.exit.is_none(),
            exit,
        }
    }
}

impl TcpRuntimeWorkerProcessHealth {
    /// The health as it is reported by a supervisor.
    pub fn telemetry(self) -> (r: TcpRuntimeWorkerProcessTelemetry)
        ensures
            r.deep_view() == (TcpRuntimeWorkerProcessTelemetryView {
                worker_id: self.deep_view().worker_id,
                endpoint: self.deep_view().endpoint,
                running: self.running,
                exit: self.deep_view().exit,
            }),
    {
        TcpRuntimeWorkerProcessTelemetry {
            worker_id: self.worker_id,
            endpoint: self.endpoint,
            running: self.running,
            exit: self.exit,
        }
    }
}

// ---------------------------------------------------------------------------
// All processes of a topology
// ---------------------------------------------------------------------------

/// The processes of all workers of a topology.
#[derive(Debug, PartialEq, Eq)]
pub struct TcpRuntimeWorkerProcessSet {
    pub processes: Vec<TcpRuntimeWorkerProcess>,
}

/// Where some processes listen, in their order.
pub open spec fn process_endpoints(processes: Seq<TcpRuntimeWorkerProcessView>) -> Seq<
    RuntimeTcpEndpointView,
> {
    Seq::new(
        processes.len(),
        |i: int|
            RuntimeTcpEndpointView {
                worker_id: processes[i].worker_id,
                addr: processes[i].endpoint,
            },
    )
}

impl TcpRuntimeWorkerProcessSet {
    /// Where the processes listen.
    pub fn endpoints(&self) -> (r: Vec<RuntimeTcpEndpoint>)
        ensures
            r.deep_view() == process_endpoints(self.processes.deep_view()),
    {
        let ghost processes = self.processes.deep_view();
        let ghost endpoint = |i: int|
            RuntimeTcpEndpointView {
                worker_id: processes[i].worker_id,
                addr: processes[i].endpoint,
            };
        let r = build_items(
            self.processes.len(),
            |i: usize| -> (y: RuntimeTcpEndpoint)
                requires
                    i < self.processes@.len(),
                    processes == self.processes.deep_view(),
                    endpoint == (|i: int|
                        RuntimeTcpEndpointView {
                            worker_id: processes[i].worker_id,
                            addr: processes[i].endpoint,
                        }),
                ensures
                    y.deep_view() == endpoint(i as int)
                {
                    proof {
                        assert(processes[i as int] == self.processes@[i as int].deep_view());
                    }
                    RuntimeTcpEndpoint {
                        worker_id: self.processes[i].worker_id.clone(),
                        addr: self.processes[i].endpoint.clone(),
                    }
                },
            Ghost(endpoint),
        );
        proof {
            assert(r.deep_view() =~= process_endpoints(processes));
        }
        r
    }
}

/// Options of a supervisor.
#[derive(Debug, PartialEq, Eq)]
pub struct TcpRuntimeSupervisorConfig {
    pub process_config: TcpRuntimeWorkerProcessConfig,
    pub runtime_options: DistributedRuntimeOptions,
    pub transport: TcpRuntimeTransportConfig,
}

/// The model of [`TcpRuntimeSupervisorConfig`].
#[verifier::ext_equal]
pub struct TcpRuntimeSupervisorConfigView {
    pub process_config: TcpRuntimeWorkerProcessConfigView,
    pub runtime_options: DistributedRuntimeOptions,
    pub transport: TcpRuntimeTransportConfigView,
}

impl DeepView for TcpRuntimeSupervisorConfig {
    type V = TcpRuntimeSupervisorConfigView;

    open spec fn deep_view(&self) -> TcpRuntimeSupervisorConfigView {
        TcpRuntimeSupervisorConfigView {
            process_config: self.process_config.deep_view(),
            runtime_options: self.runtime_options,
            transport: self.transport.deep_view(),
        }
    }
}

impl TcpRuntimeSupervisorConfig {
    /// The options of processes, with all else by default.
    pub fn new(process_config: TcpRuntimeWorkerProcessConfig) -> (r: Self)
        ensures
            r.deep_view().process_config == process_config.deep_view(),
            r.runtime_options.execution_mode is Serial,
            r.deep_view().transport == default_transport(),
    {
        TcpRuntimeSupervisorConfig {
            process_config,
            runtime_options: DistributedRuntimeOptions::default(),
            transport: TcpRuntimeTransportConfig::default(),
        }
    }
}

// ---------------------------------------------------------------------------
// Laws
// ---------------------------------------------------------------------------

/// How a process ended is known for good: nothing that the system says later changes it.
pub proof fn lemma_exit_is_kept(
    process: TcpRuntimeWorkerProcessView,
    first: ProcessStatus,
    later: Option<ProcessStatus>,
)
    ensures
        polled_process(polled_process(process, Some(first)), later) == polled_process(
            process,
            Some(first),
        ),
        !process_health(polled_process(process, Some(first))).running,
{
}

/// What a process says of an address is that address, once the line break is taken away.
pub proof fn lemma_startup_line(addr: Seq<char>)
    ensures
        silent_start_problem(Seq::empty(), ("{\"addr\":\""@ + addr + "\"}"@).push('\n')) is None,
        without_breaks(("{\"addr\":\""@ + addr + "\"}"@).push('\n')) == "{\"addr\":\""@ + addr
            + "\"}"@,
{
    let content = "{\"addr\":\""@ + addr + "\"}"@;
    reveal_strlit("\"}");
    assert(content.last() == '}');
    lemma_break_ends(content);
}

} // verus!

//! What workers in other processes are told and answer: options, arguments and line frames.

use vstd::prelude::*;

use crate::error::{error, fails_with, report, ErrorReport, ErrorReportView};
use crate::seqs::{no_items, push_item};
use crate::text::{decimal, decimal_text, wide_decimal_text};

verus! {

/// How long something may take: whole seconds, and the nanoseconds beyond them.
#[derive(Clone, Copy, Debug, PartialEq, Eq, Structural)]
pub struct RuntimeTimeout {
    pub secs: u64,
    pub subsec_nanos: u32,
}

impl DeepView for RuntimeTimeout {
    type V = RuntimeTimeout;

    open spec fn deep_view(&self) -> RuntimeTimeout {
        *self
    }
}

/// The timeout of so many seconds.
pub open spec fn timeout_of_secs(secs: u64) -> RuntimeTimeout {
    RuntimeTimeout { secs, subsec_nanos: 0 }
}

/// The timeout of so many milliseconds.
pub open spec fn timeout_of_millis(millis: u64) -> RuntimeTimeout {
    RuntimeTimeout { secs: millis / 1000, subsec_nanos: (millis % 1000 * 1_000_000) as u32 }
}

/// The whole milliseconds of a timeout.
pub open spec fn whole_millis(timeout: RuntimeTimeout) -> nat {
    timeout.secs as nat * 1000 + timeout.subsec_nanos as nat / 1_000_000
}

impl RuntimeTimeout {
    /// Whether less than a second is left beyond the whole ones.
    pub open spec fn well_formed(self) -> bool {
        self.subsec_nanos < 1_000_000_000
    }

    /// The timeout of so many seconds.
    pub fn from_secs(secs: u64) -> (r: Self)
        ensures
            r == timeout_of_secs(secs),
            r.well_formed(),
    {
        RuntimeTimeout { secs, subsec_nanos: 0 }
    }

    /// The timeout of so many milliseconds.
    pub fn from_millis(millis: u64) -> (r: Self)
        ensures
            r == timeout_of_millis(millis),
            r.well_formed(),
            whole_millis(r) == millis,
    {
        RuntimeTimeout {
            secs: millis / 1000,
            subsec_nanos: (millis % 1000) as u32 * 1_000_000,
        }
    }

    /// The whole milliseconds of the timeout.
    pub fn as_millis(self) -> (r: u128)
        ensures
            r == whole_millis(self),
    {
        self.secs as u128 * 1000 + (self.subsec_nanos / 1_000_000) as u128
    }
}

/// Options of a connection to a worker.
#[derive(Debug, PartialEq, Eq)]
pub struct TcpRuntimeTransportConfig {
    pub bind_addr: String,
    pub connect_timeout: RuntimeTimeout,
    pub read_timeout: Option<RuntimeTimeout>,
    pub write_timeout: Option<RuntimeTimeout>,
}

/// The model of [`TcpRuntimeTransportConfig`].
#[verifier::ext_equal]
pub struct TcpRuntimeTransportConfigView {
    pub bind_addr: Seq<char>,
    pub connect_timeout: RuntimeTimeout,
    pub read_timeout: Option<RuntimeTimeout>,
    pub write_timeout: Option<RuntimeTimeout>,
}

impl DeepView for TcpRuntimeTransportConfig {
    type V = TcpRuntimeTransportConfigView;

    open spec fn deep_view(&self) -> TcpRuntimeTransportConfigView {
        TcpRuntimeTransportConfigView {
            bind_addr: self.bind_addr@,
            connect_timeout: self.connect_timeout,
            read_timeout: self.read_timeout,
            write_timeout: self.write_timeout,
        }
    }
}

impl Clone for TcpRuntimeTransportConfig {
    fn clone(&self) -> (r: Self)
        ensures
            r.deep_view() == self.deep_view(),
    {
        TcpRuntimeTransportConfig {
            bind_addr: self.bind_addr.clone(),
            connect_timeout: self.connect_timeout,
            read_timeout: self.read_timeout,
            write_timeout: self.write_timeout,
        }
    }
}

/// Any free port of this machine, five seconds to connect, half a minute to read or write.
pub open spec fn default_transport() -> TcpRuntimeTransportConfigView {
    TcpRuntimeTransportConfigView {
        bind_addr: "127.0.0.1:0"@,
        connect_timeout: timeout_of_secs(5),
        read_timeout: Some(timeout_of_secs(30)),
        write_timeout: Some(timeout_of_secs(30)),
    }
}

impl Default for TcpRuntimeTransportConfig {
    fn default() -> (r: Self)
        ensures
            r.deep_view() == default_transport(),
    {
        TcpRuntimeTransportConfig {
            bind_addr: "127.0.0.1:0".to_owned(),
            connect_timeout: RuntimeTimeout::from_secs(5),
            read_timeout: Some(RuntimeTimeout::from_secs(30)),
            write_timeout: Some(RuntimeTimeout::from_secs(30)),
        }
    }
}

/// Options of a worker process. Its executable is a path, as the bytes that the system has for it.
#[derive(Debug, PartialEq, Eq)]
pub struct TcpRuntimeWorkerProcessConfig {
    pub executable: Vec<u8>,
    pub bind_addr: String,
    pub read_timeout: Option<RuntimeTimeout>,
    pub write_timeout: Option<RuntimeTimeout>,
    pub max_connections: Option<usize>,
}

/// The model of [`TcpRuntimeWorkerProcessConfig`].
#[verifier::ext_equal]
pub struct TcpRuntimeWorkerProcessConfigView {
    pub executable: Seq<u8>,
    pub bind_addr: Seq<char>,
    pub read_timeout: Option<RuntimeTimeout>,
    pub write_timeout: Option<RuntimeTimeout>,
    pub max_connections: Option<usize>,
}

impl DeepView for TcpRuntimeWorkerProcessConfig {
    type V = TcpRuntimeWorkerProcessConfigView;

    open spec fn deep_view(&self) -> TcpRuntimeWorkerProcessConfigView {
        TcpRuntimeWorkerProcessConfigView {
            executable: self.executable@,
            bind_addr: self.bind_addr@,
            read_timeout: self.read_timeout,
            write_timeout: self.write_timeout,
            max_connections: self.max_connections,
        }
    }
}

/// The argument that stands for a timeout.
pub open spec fn timeout_text(timeout: Option<RuntimeTimeout>) -> Seq<char> {
    match timeout {
        Some(timeout) => decimal(whole_millis(timeout)),
        None => "none"@,
    }
}

/// Writes a timeout as an argument: whole milliseconds, or `none`.
pub fn timeout_arg(timeout: Option<RuntimeTimeout>) -> (r: String)
    ensures
        r@ == timeout_text(timeout),
{
    match timeout {
        Some(timeout) => wide_decimal_text(timeout.as_millis()),
        None => "none".to_owned(),
    }
}

/// The arguments of a worker process.
pub open spec fn process_args(config: TcpRuntimeWorkerProcessConfigView) -> Seq<Seq<char>> {
    seq![
        "--bind"@,
        config.bind_addr,
        "--read-timeout-ms"@,
        timeout_text(config.read_timeout),
        "--write-timeout-ms"@,
        timeout_text(config.write_timeout),
    ] + (match config.max_connections {
        Some(connections) => seq!["--max-connections"@, decimal(connections as nat)],
        None => seq![],
    })
}

impl TcpRuntimeWorkerProcessConfig {
    /// A worker process with the options of a default connection, for any number of connections.
    pub fn new(executable: Vec<u8>) -> (r: Self)
        ensures
            r.deep_view() == (TcpRuntimeWorkerProcessConfigView {
                executable: executable@,
                bind_addr: default_transport().bind_addr,
                read_timeout: default_transport().read_timeout,
                write_timeout: default_transport().write_timeout,
                max_connections: None,
            }),
    {
        let transport = TcpRuntimeTransportConfig::default();
        TcpRuntimeWorkerProcessConfig {
            executable,
            bind_addr: transport.bind_addr,
            read_timeout: transport.read_timeout,
            write_timeout: transport.write_timeout,
            max_connections: None,
        }
    }

    /// The arguments with which the process is started.
    pub fn worker_process_command(&self) -> (r: Vec<String>)
        ensures
            r.deep_view() == process_args(self.deep_view()),
    {
        let mut args: Vec<String> = no_items();
        push_item(&mut args, "--bind".to_owned());
        push_item(&mut args, self.bind_addr.clone());
        push_item(&mut args, "--read-timeout-ms".to_owned());
        push_item(&mut args, timeout_arg(self.read_timeout));
        push_item(&mut args, "--write-timeout-ms".to_owned());
        push_item(&mut args, timeout_arg(self.write_timeout));
        if let Some(connections) = self.max_connections {
            push_item(&mut args, "--max-connections".to_owned());
            push_item(&mut args, decimal_text(connections as u64));
        }
        proof {
            assert(args.deep_view() =~= process_args(self.deep_view()));
        }
        args
    }
}

/// Writes the line by which a worker process says where it listens.
pub fn startup_line(addr: &str) -> (r: String)
    ensures
        r@ == "{\"addr\":\""@ + addr@ + "\"}"@,
{
    let mut line = "{\"addr\":\"".to_owned();
    line.append(addr);
    line.append("\"}");
    line
}

// ---------------------------------------------------------------------------
// Line frames
// ---------------------------------------------------------------------------

/// A text without the line breaks at its end.
pub open spec fn without_breaks(text: Seq<char>) -> Seq<char>
    decreases text.len(),
{
    if text.len() > 0 && text.last() == '\n' {
        without_breaks(text.drop_last())
    } else {
        text
    }
}

/// Takes the line breaks off the end of a text.
pub fn trim_breaks(text: &str) -> (r: String)
    ensures
        r@ == without_breaks(text@),
{
    let n: usize = text.unicode_len();
    let mut end: usize = n;
    proof {
        assert(text@.take(n as int) =~= text@);
    }
    while end > 0 && text.get_char(end - 1) == '\n'
        invariant
            end <= n,
            n == text@.len(),
            without_breaks(text@) == without_breaks(text@.take(end as int)),
        decreases end,
    {
        proof {
            assert(text@.take(end as int).drop_last() =~= text@.take(end - 1));
        }
        end = end - 1;
    }
    let content = text.substring_char(0, end);
    proof {
        assert(text@.take(end as int) =~= text@.subrange(0, end as int));
        if end > 0 {
            assert(text@.take(end as int).last() != '\n');
        }
    }
    content.to_owned()
}

/// What is wrong with a line that was read: that it is no whole frame.
pub open spec fn frame_problem(line: Seq<char>, message: Seq<char>) -> Option<ErrorReportView> {
    if line.len() == 0 || line.last() != '\n' {
        Some(report("E_RUNTIME_TCP_EOF"@, message))
    } else {
        None
    }
}

/// Takes the content of a frame out of a line that was read; `eof_message` says what ended before
/// the frame did.
pub fn frame_content(line: &str, eof_message: &str) -> (r: Result<String, ErrorReport>)
    ensures
        fails_with(r, frame_problem(line@, eof_message@)),
        r matches Ok(content) ==> content@ == without_breaks(line@),
{
    let n: usize = line.unicode_len();
    if n == 0 || line.get_char(n - 1) != '\n' {
        return Err(error("E_RUNTIME_TCP_EOF", eof_message));
    }
    Ok(trim_breaks(line))
}

/// Takes the content of a request out of a line that a worker read, or nothing where the client
/// has closed the connection between two requests.
pub fn request_content(line: &str) -> (r: Result<Option<String>, ErrorReport>)
    ensures
        fails_with(
            r,
            if line@.len() == 0 {
                None
            } else {
                frame_problem(
                    line@,
                    "TCP worker request ended before newline frame delimiter"@,
                )
            },
        ),
        r matches Ok(None) ==> line@.len() == 0,
        r matches Ok(Some(content)) ==> line@.len() > 0 && content@ == without_breaks(line@),
{
    if line.unicode_len() == 0 {
        return Ok(None);
    }
    let content = frame_content(line, "TCP worker request ended before newline frame delimiter")?;
    Ok(Some(content))
}

/// Takes the content of a response out of a line that a client read.
pub fn response_content(line: &str) -> (r: Result<String, ErrorReport>)
    ensures
        fails_with(
            r,
            frame_problem(line@, "TCP worker response ended before newline frame delimiter"@),
        ),
        r matches Ok(content) ==> content@ == without_breaks(line@),
{
    frame_content(line, "TCP worker response ended before newline frame delimiter")
}

/// How a connection can fail.
#[derive(Clone, Copy, Debug, PartialEq, Eq, Structural)]
pub enum TransportFailure {
    TimedOut,
    WouldBlock,
    UnexpectedEof,
    Other,
}

/// The code of a failure.
pub open spec fn failure_code(failure: TransportFailure) -> Seq<char> {
    match failure {
        TransportFailure::TimedOut => "E_RUNTIME_TCP_TIMEOUT"@,
        TransportFailure::WouldBlock => "E_RUNTIME_TCP_TIMEOUT"@,
        TransportFailure::UnexpectedEof => "E_RUNTIME_TCP_EOF"@,
        TransportFailure::Other => "E_RUNTIME_TCP_IO"@,
    }
}

/// Reports the failure of a connection.
pub fn tcp_io_error(failure: TransportFailure, text: &str) -> (r: ErrorReport)
    ensures
        r.deep_view() == report(
            failure_code(failure),
            "TCP worker transport I/O error: "@ + text@,
        ),
{
    let mut message = "TCP worker transport I/O error: ".to_owned();
    message.append(text);
    let code = match failure {
        TransportFailure::TimedOut | TransportFailure::WouldBlock => "E_RUNTIME_TCP_TIMEOUT",
        TransportFailure::UnexpectedEof => "E_RUNTIME_TCP_EOF",
        TransportFailure::Other => "E_RUNTIME_TCP_IO",
    };
    error(code, message.as_str())
}

/// Reports a frame that could not be parsed or rendered.
pub fn tcp_json_error(text: &str) -> (r: ErrorReport)
    ensures
        r.deep_view() == report(
            "E_RUNTIME_TCP_JSON"@,
            "TCP worker transport JSON error: "@ + text@,
        ),
{
    let mut message = "TCP worker transport JSON error: ".to_owned();
    message.append(text);
    error("E_RUNTIME_TCP_JSON", message.as_str())
}

/// Picks the first of the addresses that a name stands for.
pub fn first_socket_addr(addrs: &Vec<String>) -> (r: Result<String, ErrorReport>)
    ensures
        fails_with(
            r,
            if addrs@.len() == 0 {
                Some(report("E_RUNTIME_TCP_ADDR"@, "no TCP socket address resolved"@))
            } else {
                None
            },
        ),
        r matches Ok(addr) ==> addr@ == addrs@[0]@,
{
    if addrs.len() == 0 {
        return Err(error("E_RUNTIME_TCP_ADDR", "no TCP socket address resolved"));
    }
    Ok(addrs[0].clone())
}

/// Reports a worker in this process that was left locked by a panic.
pub fn worker_lock_error() -> (r: ErrorReport)
    ensures
        r.deep_view() == report(
            "E_RUNTIME_WORKER_LOCK"@,
            "runtime worker service lock is poisoned"@,
        ),
{
    error("E_RUNTIME_WORKER_LOCK", "runtime worker service lock is poisoned")
}

// ---------------------------------------------------------------------------
// Laws
// ---------------------------------------------------------------------------

/// A text that does not end in a line break is all that is left when one is taken off.
pub proof fn lemma_break_ends(content: Seq<char>)
    requires
        content.len() == 0 || content.last() != '\n',
    ensures
        without_breaks(content.push('\n')) == content,
{
    assert(content.push('\n').drop_last() =~= content);
    reveal_with_fuel(without_breaks, 2);
}

/// The content of a frame is what was framed, where that does not itself end in a line break.
pub proof fn lemma_frame_content(content: Seq<char>)
    requires
        content.len() == 0 || content.last() != '\n',
    ensures
        frame_problem(content.push('\n'), Seq::empty()) is None,
        without_breaks(content.push('\n')) == content,
{
    lemma_break_ends(content);
}

} // verus!

//! The arguments of a worker process.

use vstd::prelude::*;

use crate::text::{decimal, same_text};
use crate::transport::{
    default_transport, process_args, timeout_of_millis, timeout_text, whole_millis, RuntimeTimeout,
    TcpRuntimeTransportConfig, TcpRuntimeTransportConfigView, TcpRuntimeWorkerProcessConfigView,
};

verus! {

/// What a worker process was asked to do.
#[derive(Debug, PartialEq, Eq)]
pub struct WorkerConfig {
    pub transport: TcpRuntimeTransportConfig,
    pub max_connections: Option<usize>,
}

/// The model of [`WorkerConfig`].
#[verifier::ext_equal]
pub struct WorkerConfigView {
    pub transport: TcpRuntimeTransportConfigView,
    pub max_connections: Option<usize>,
}

impl DeepView for WorkerConfig {
    type V = WorkerConfigView;

    open spec fn deep_view(&self) -> WorkerConfigView {
        WorkerConfigView {
            transport: self.transport.deep_view(),
            max_connections: self.max_connections,
        }
    }
}

/// How a worker process is used.
pub open spec fn usage_text() -> Seq<char> {
    "usage: rrtl-runtime-worker [--bind <addr>] [--once|--max-connections <n>] [--read-timeout-ms <ms|none>] [--write-timeout-ms <ms|none>]"@
}

/// How a worker process is used.
pub fn usage() -> (r: String)
    ensures
        r@ == usage_text(),
{
    "usage: rrtl-runtime-worker [--bind <addr>] [--once|--max-connections <n>] [--read-timeout-ms <ms|none>] [--write-timeout-ms <ms|none>]".to_owned()
}

// ---------------------------------------------------------------------------
// Numbers
// ---------------------------------------------------------------------------

/// Whether all characters are decimal digits.
pub open spec fn all_digits(text: Seq<char>) -> bool {
    forall|i: int| 0 <= i < text.len() ==> '0' <= #[trigger] text[i] <= '9'
}

/// The integer that digits stand for.
pub open spec fn digits_value(text: Seq<char>) -> nat
    decreases text.len(),
{
    if text.len() == 0 {
        0
    } else {
        digits_value(text.drop_last()) * 10 + (text.last() as nat - '0' as nat) as nat
    }
}

/// A text without a leading plus sign.
pub open spec fn unsigned_part(text: Seq<char>) -> Seq<char> {
    if text.len() > 0 && text[0] == '+' {
        text.skip(1)
    } else {
        text
    }
}

/// Whether a text is a number of at most `max`.
pub open spec fn is_number(text: Seq<char>, max: nat) -> bool {
    let digits = unsigned_part(text);
    digits.len() > 0 && all_digits(digits) && digits_value(digits) <= max
}

/// What the standard library says of a text that is no `u64`.
pub uninterp spec fn u64_failure(text: Seq<char>) -> Seq<char>;

/// What the standard library says of a text that is no `usize`.
pub uninterp spec fn usize_failure(text: Seq<char>) -> Seq<char>;

/// Calls `str::parse::<u64>`: an optional plus sign and decimal digits are read as their value
/// where it fits, and any other text is refused. The wording of the refusal depends on the text
/// alone and is not spelled out.
#[verifier::external_body]
fn parse_u64(text: &str) -> (r: Result<u64, String>)
    ensures
        r is Ok <==> is_number(text@, u64::MAX as nat),
        r matches Ok(n) ==> n == digits_value(unsigned_part(text@)),
        r matches Err(why) ==> why@ == u64_failure(text@),
{
    text.parse::<u64>().map_err(|err| err.to_string())
}

/// Calls `str::parse::<usize>`: an optional plus sign and decimal digits are read as their value
/// where it fits, and any other text is refused. The wording of the refusal depends on the text
/// alone and is not spelled out.
#[verifier::external_body]
fn parse_usize(text: &str) -> (r: Result<usize, String>)
    ensures
        r is Ok <==> is_number(text@, usize::MAX as nat),
        r matches Ok(n) ==> n == digits_value(unsigned_part(text@)),
        r matches Err(why) ==> why@ == usize_failure(text@),
{
    text.parse::<usize>().map_err(|err| err.to_string())
}

// ---------------------------------------------------------------------------
// Single arguments
// ---------------------------------------------------------------------------

/// A text that was refused, and why.
pub open spec fn refused<T>(r: Result<T, String>, problem: Option<Seq<char>>) -> bool {
    match r {
        Ok(_) => problem is None,
        Err(why) => problem == Some(why@),
    }
}

/// What is wrong with a timeout, of what the standard library says of its text.
pub open spec fn timeout_problem(text: Seq<char>, failure: Seq<char>) -> Option<Seq<char>> {
    if text == "none"@ || is_number(text, u64::MAX as nat) {
        None
    } else {
        Some("invalid timeout value `"@ + text + "`: "@ + failure)
    }
}

/// The timeout that a text stands for.
pub open spec fn timeout_of(text: Seq<char>) -> Option<RuntimeTimeout> {
    if text == "none"@ {
        None
    } else {
        Some(timeout_of_millis(digits_value(unsigned_part(text)) as u64))
    }
}

/// Reads a timeout: milliseconds, or `none`.
pub fn parse_timeout(value: &str) -> (r: Result<Option<RuntimeTimeout>, String>)
    ensures
        refused(r, timeout_problem(value@, u64_failure(value@))),
        r matches Ok(timeout) ==> timeout == timeout_of(value@),
{
    let parsed = if same_text(value, "none") {
        None
    } else {
        Some(parse_u64(value))
    };
    timeout_from(value, parsed)
}

/// Takes a timeout over from what the standard library read in it, where it is not `none`.
pub fn timeout_from(value: &str, parsed: Option<Result<u64, String>>) -> (r: Result<
    Option<RuntimeTimeout>,
    String,
>)
    ensures
        match parsed {
            None => r == Ok::<Option<RuntimeTimeout>, String>(None),
            Some(Ok(millis)) => r == Ok::<Option<RuntimeTimeout>, String>(
                Some(timeout_of_millis(millis)),
            ),
            Some(Err(why)) => refused(
                r,
                Some("invalid timeout value `"@ + value@ + "`: "@ + why@),
            ),
        },
{
    match parsed {
        None => Ok(None),
        Some(Ok(millis)) => Ok(Some(RuntimeTimeout::from_millis(millis))),
        Some(Err(why)) => {
            let mut message = "invalid timeout value `".to_owned();
            message.append(value);
            message.append("`: ");
            message.append(why.as_str());
            Err(message)
        },
    }
}

/// What is wrong with a second bound on connections.
pub open spec fn bound_problem(slot: Option<usize>) -> Option<Seq<char>> {
    if slot is Some {
        Some("--once and --max-connections cannot be used more than once"@)
    } else {
        None
    }
}

/// Bounds the connections; a bound that was there already is replaced, but refused.
pub fn set_max_connections(slot: &mut Option<usize>, value: usize) -> (r: Result<(), String>)
    ensures
        *final(slot) == Some(value),
        refused(r, bound_problem(*old(slot))),
{
    let was_set: bool = slot.is_some();
    *slot = Some(value);
    if was_set {
        return Err("--once and --max-connections cannot be used more than once".to_owned());
    }
    Ok(())
}

/// That a flag stands last.
pub open spec fn value_problem(args: Seq<Seq<char>>, i: int, flag: Seq<char>) -> Option<
    Seq<char>,
> {
    if i < args.len() {
        None
    } else {
        Some(flag + " requires a value\n"@ + usage_text())
    }
}

/// Takes the argument behind a flag.
pub fn next_value(args: &Vec<String>, i: usize, flag: &str) -> (r: Result<String, String>)
    ensures
        refused(r, value_problem(args.deep_view(), i as int, flag@)),
        r matches Ok(value) ==> i < args@.len() && value@ == args.deep_view()[i as int],
{
    proof {
        assert(args.deep_view().len() == args@.len());
    }
    if i < args.len() {
        proof {
            assert(args.deep_view()[i as int] == args@[i as int].deep_view());
        }
        Ok(args[i].clone())
    } else {
        let mut message = flag.to_owned();
        message.append(" requires a value\n");
        message.append(usage().as_str());
        Err(message)
    }
}

// ---------------------------------------------------------------------------
// All arguments
// ---------------------------------------------------------------------------

/// What one flag does: the configuration behind it and the number of arguments it took, or why it
/// is refused.
pub open spec fn flag_effect(
    config: WorkerConfigView,
    args: Seq<Seq<char>>,
    invalid: Seq<Option<Seq<char>>>,
    i: int,
) -> Result<(WorkerConfigView, int), Seq<char>> {
    let flag = args[i];
    let value = args[i + 1];
    if flag == "--bind"@ {
        match value_problem(args, i + 1, flag) {
            Some(why) => Err(why),
            None => match invalid[i + 1] {
                Some(why) => Err("invalid --bind socket address: "@ + why),
                None => Ok(
                    (
                        WorkerConfigView {
                            transport: TcpRuntimeTransportConfigView {
                                bind_addr: value,
                                ..config.transport
                            },
                            ..config
                        },
                        2,
                    ),
                ),
            },
        }
    } else if flag == "--once"@ {
        match bound_problem(config.max_connections) {
            Some(why) => Err(why),
            None => Ok((WorkerConfigView { max_connections: Some(1), ..config }, 1)),
        }
    } else if flag == "--max-connections"@ {
        match value_problem(args, i + 1, flag) {
            Some(why) => Err(why),
            None => if !is_number(value, usize::MAX as nat) {
                Err("invalid --max-connections value: "@ + usize_failure(value))
            } else if digits_value(unsigned_part(value)) == 0 {
                Err("--max-connections must be greater than zero"@)
            } else {
                match bound_problem(config.max_connections) {
                    Some(why) => Err(why),
                    None => Ok(
                        (
                            WorkerConfigView {
                                max_connections: Some(
                                    digits_value(unsigned_part(value)) as usize,
                                ),
                                ..config
                            },
                            2,
                        ),
                    ),
                }
            },
        }
    } else if flag == "--read-timeout-ms"@ {
        match value_problem(args, i + 1, flag) {
            Some(why) => Err(why),
            None => match timeout_problem(value, u64_failure(value)) {
                Some(why) => Err(why),
                None => Ok(
                    (
                        WorkerConfigView {
                            transport: TcpRuntimeTransportConfigView {
                                read_timeout: timeout_of(value),
                                ..config.transport
                            },
                            ..config
                        },
                        2,
                    ),
                ),
            },
        }
    } else if flag == "--write-timeout-ms"@ {
        match value_problem(args, i + 1, flag) {
            Some(why) => Err(why),
            None => match timeout_problem(value, u64_failure(value)) {
                Some(why) => Err(why),
                None => Ok(
                    (
                        WorkerConfigView {
                            transport: TcpRuntimeTransportConfigView {
                                write_timeout: timeout_of(value),
                                ..config.transport
                            },
                            ..config
                        },
                        2,
                    ),
                ),
            },
        }
    } else {
        Err("unknown argument `"@ + flag + "`\n"@ + usage_text())
    }
}

/// What the arguments from `i` on make of a configuration, or why they are refused.
pub open spec fn configured(
    config: WorkerConfigView,
    args: Seq<Seq<char>>,
    invalid: Seq<Option<Seq<char>>>,
    i: int,
) -> Result<WorkerConfigView, Seq<char>>
    decreases args.len() - i,
{
    if i >= args.len() {
        Ok(config)
    } else {
        match flag_effect(config, args, invalid, i) {
            Err(why) => Err(why),
            Ok((next, taken)) => if taken > 0 {
                configured(next, args, invalid, i + taken)
            } else {
                Ok(next)
            },
        }
    }
}

/// The configuration before any argument.
pub open spec fn default_worker() -> WorkerConfigView {
    WorkerConfigView { transport: default_transport(), max_connections: None }
}

impl WorkerConfig {
    fn apply_flag(&mut self, args: &Vec<String>, invalid: &Vec<Option<String>>, i: usize) -> (r:
        Result<usize, String>)
        requires
            i < args@.len(),
            invalid@.len() == args@.len(),
        ensures
            match flag_effect(
                old(self).deep_view(),
                args.deep_view(),
                invalid.deep_view(),
                i as int,
            ) {
                Ok((next, taken)) => {
                    &&& r == Ok::<usize, String>(taken as usize)
                    &&& final(self).deep_view() == next
                    &&& 0 < taken <= args@.len() - i
                },
                Err(why) => refused(r, Some(why)),
            },
    {
        let ghost texts = args.deep_view();
        proof {
            assert(texts.len() == args@.len());
            assert(args@.len() == args.len());
            assert(texts[i as int] == args@[i as int].deep_view());
        }
        let flag = args[i].as_str();
        if same_text(flag, "--bind") {
            let value = next_value(args, i + 1, "--bind")?;
            proof {
                assert(invalid.deep_view()[i + 1] == invalid@[i + 1].deep_view());
            }
            match &invalid[i + 1] {
                Some(why) => {
                    let mut message = "invalid --bind socket address: ".to_owned();
                    message.append(why.as_str());
                    return Err(message);
                },
                None => {
                    self.transport.bind_addr = value;
                },
            }
            return Ok(2);
        }
        if same_text(flag, "--once") {
            set_max_connections(&mut self.max_connections, 1)?;
            return Ok(1);
        }
        if same_text(flag, "--max-connections") {
            let value = next_value(args, i + 1, "--max-connections")?;
            match parse_usize(value.as_str()) {
                Ok(parsed) => {
                    if parsed == 0 {
                        return Err("--max-connections must be greater than zero".to_owned());
                    }
                    set_max_connections(&mut self.max_connections, parsed)?;
                },
                Err(why) => {
                    let mut message = "invalid --max-connections value: ".to_owned();
                    message.append(why.as_str());
                    return Err(message);
                },
            }
            return Ok(2);
        }
        if same_text(flag, "--read-timeout-ms") {
            let value = next_value(args, i + 1, "--read-timeout-ms")?;
            self.transport.read_timeout = parse_timeout(value.as_str())?;
            return Ok(2);
        }
        if same_text(flag, "--write-timeout-ms") {
            let value = next_value(args, i + 1, "--write-timeout-ms")?;
            self.transport.write_timeout = parse_timeout(value.as_str())?;
            return Ok(2);
        }
        let mut message = "unknown argument `".to_owned();
        message.append(flag);
        message.append("`\n");
        message.append(usage().as_str());
        Err(message)
    }

    /// Reads the arguments of a worker process, and stops at the first that is wrong. `invalid`
    /// says of each argument why it is no socket address, or nothing where it is one.
    pub fn parse(args: &Vec<String>, invalid: &Vec<Option<String>>) -> (r: Result<Self, String>)
        requires
            invalid@.len() == args@.len(),
        ensures
            match configured(default_worker(), args.deep_view(), invalid.deep_view(), 0) {
                Ok(config) => r matches Ok(parsed) && parsed.deep_view() == config,
                Err(why) => refused(r, Some(why)),
            },
    {
        let mut config = WorkerConfig {
            transport: TcpRuntimeTransportConfig::default(),
            max_connections: None,
        };
        let ghost texts = args.deep_view();
        let ghost whys = invalid.deep_view();
        proof {
            assert(texts.len() == args@.len());
        }
        let mut i: usize = 0;
        while i < args.len()
            invariant
                i <= args@.len(),
                texts == args.deep_view(),
                whys == invalid.deep_view(),
                texts.len() == args@.len(),
                invalid@.len() == args@.len(),
                configured(default_worker(), texts, whys, 0) == configured(
                    config.deep_view(),
                    texts,
                    whys,
                    i as int,
                ),
            decreases args@.len() - i,
        {
            let taken: usize = config.apply_flag(args, invalid, i)?;
            i = i + taken;
        }
        Ok(config)
    }
}

/// What a worker process does.
#[derive(Debug, PartialEq, Eq)]
pub enum WorkerCommand {
    /// Print how it is used.
    Help(String),
    /// Serve connections.
    Serve(WorkerConfig),
}

/// Whether an argument asks for help.
pub open spec fn asks_for_help(args: Seq<Seq<char>>) -> bool {
    exists|i: int| 0 <= i < args.len() && (#[trigger] args[i] == "--help"@ || args[i] == "-h"@)
}

/// Decides what a worker process does; help is given wherever it is asked for. `invalid` says of
/// each argument why it is no socket address, or nothing where it is one.
pub fn run(args: &Vec<String>, invalid: &Vec<Option<String>>) -> (r: Result<WorkerCommand, String>)
    requires
        invalid@.len() == args@.len(),
    ensures
        asks_for_help(args.deep_view()) ==> (r matches Ok(WorkerCommand::Help(text)) && text@
            == usage_text()),
        !asks_for_help(args.deep_view()) ==> match configured(
            default_worker(),
            args.deep_view(),
            invalid.deep_view(),
            0,
        ) {
            Ok(config) => r matches Ok(WorkerCommand::Serve(found)) && found.deep_view() == config,
            Err(why) => refused(r, Some(why)),
        },
{
    let ghost texts = args.deep_view();
    proof {
        assert(texts.len() == args@.len());
    }
    let mut i: usize = 0;
    while i < args.len()
        invariant
            i <= args@.len(),
            texts == args.deep_view(),
            texts.len() == args@.len(),
            forall|j: int|
                0 <= j < i ==> #[trigger] texts[j] != "--help"@ && texts[j] != "-h"@,
        decreases args@.len() - i,
    {
        proof {
            assert(texts[i as int] == args@[i as int].deep_view());
        }
        if same_text(args[i].as_str(), "--help") || same_text(args[i].as_str(), "-h") {
            return Ok(WorkerCommand::Help(usage()));
        }
        i = i + 1;
    }
    match WorkerConfig::parse(args, invalid) {
        Ok(config) => Ok(WorkerCommand::Serve(config)),
        Err(why) => Err(why),
    }
}

// ---------------------------------------------------------------------------
// Laws
// ---------------------------------------------------------------------------

/// The decimal rendering of a number is read as that number.
pub proof fn lemma_decimal_reads_back(n: nat)
    ensures
        decimal(n).len() > 0,
        all_digits(decimal(n)),
        digits_value(decimal(n)) == n,
        unsigned_part(decimal(n)) == decimal(n),
    decreases n,
{
    let text = decimal(n);
    if n < 10 {
        assert(text.drop_last() =~= Seq::empty());
        assert(digits_value(text.drop_last()) == 0);
    } else {
        lemma_decimal_reads_back(n / 10);
        assert(text.drop_last() =~= decimal(n / 10));
        assert forall|i: int| 0 <= i < text.len() implies '0' <= #[trigger] text[i] <= '9' by {
            if i < text.len() - 1 {
                assert(text[i] == decimal(n / 10)[i]);
            }
        }
    }
    assert('0' <= text[0] <= '9');
}

/// A timeout without what is left beyond its whole milliseconds.
pub open spec fn to_millis(timeout: Option<RuntimeTimeout>) -> Option<RuntimeTimeout> {
    match timeout {
        Some(timeout) => Some(timeout_of_millis(whole_millis(timeout) as u64)),
        None => None,
    }
}

/// Whether the milliseconds of a timeout can be read again.
pub open spec fn millis_fit(timeout: Option<RuntimeTimeout>) -> bool {
    timeout matches Some(t) ==> whole_millis(t) <= u64::MAX
}

/// A timeout that is written as an argument is read as the same timeout, to the millisecond. One
/// of more milliseconds than a `u64` holds is refused.
pub proof fn lemma_timeout_reads_back(timeout: Option<RuntimeTimeout>, failure: Seq<char>)
    ensures
        timeout_problem(timeout_text(timeout), failure) is None <==> millis_fit(timeout),
        millis_fit(timeout) ==> timeout_of(timeout_text(timeout)) == to_millis(timeout),
        timeout matches Some(t) ==> t.well_formed() && t.subsec_nanos % 1_000_000 == 0
            && millis_fit(timeout) ==> timeout_of(timeout_text(timeout)) == timeout,
        timeout is None ==> timeout_of(timeout_text(timeout)) is None,
{
    if timeout is Some {
        let millis = whole_millis(timeout->0);
        lemma_decimal_reads_back(millis);
        reveal_strlit("none");
        assert("none"@[0] == 'n');
        assert(decimal(millis)[0] != 'n');
    }
}

proof fn lemma_flags_differ()
    ensures
        "--once"@ != "--bind"@,
        "--max-connections"@ != "--bind"@,
        "--max-connections"@ != "--once"@,
        "--read-timeout-ms"@ != "--bind"@,
        "--read-timeout-ms"@ != "--once"@,
        "--read-timeout-ms"@ != "--max-connections"@,
        "--write-timeout-ms"@ != "--bind"@,
        "--write-timeout-ms"@ != "--once"@,
        "--write-timeout-ms"@ != "--max-connections"@,
        "--write-timeout-ms"@ != "--read-timeout-ms"@,
{
    reveal_strlit("--bind");
    reveal_strlit("--once");
    reveal_strlit("--max-connections");
    reveal_strlit("--read-timeout-ms");
    reveal_strlit("--write-timeout-ms");
    assert("--bind"@[2] == 'b');
    assert("--once"@[2] == 'o');
    assert("--max-connections"@[2] == 'm');
    assert("--read-timeout-ms"@[2] == 'r');
    assert("--write-timeout-ms"@[2] == 'w');
}

/// A worker process that is started with the arguments of its options takes over those options,
/// with timeouts to the millisecond.
pub proof fn lemma_process_args_read_back(
    config: TcpRuntimeWorkerProcessConfigView,
    invalid: Seq<Option<Seq<char>>>,
)
    requires
        config.max_connections != Some(0usize),
        millis_fit(config.read_timeout),
        millis_fit(config.write_timeout),
        invalid.len() == process_args(config).len(),
        invalid[1] is None,
    ensures
        configured(default_worker(), process_args(config), invalid, 0) == Ok::<
            WorkerConfigView,
            Seq<char>,
        >(
            WorkerConfigView {
                transport: TcpRuntimeTransportConfigView {
                    bind_addr: config.bind_addr,
                    connect_timeout: default_transport().connect_timeout,
                    read_timeout: to_millis(config.read_timeout),
                    write_timeout: to_millis(config.write_timeout),
                },
                max_connections: config.max_connections,
            },
        ),
{
    let args = process_args(config);
    lemma_flags_differ();
    let c0 = default_worker();
    let c1 = WorkerConfigView {
        transport: TcpRuntimeTransportConfigView { bind_addr: config.bind_addr, ..c0.transport },
        ..c0
    };
    assert(args[0] == "--bind"@);
    assert(args[1] == config.bind_addr);
    assert(flag_effect(c0, args, invalid, 0) == Ok::<(WorkerConfigView, int), Seq<char>>((c1, 2)));
    let c2 = WorkerConfigView {
        transport: TcpRuntimeTransportConfigView {
            read_timeout: to_millis(config.read_timeout),
            ..c1.transport
        },
        ..c1
    };
    assert(args[2] == "--read-timeout-ms"@);
    assert(args[3] == timeout_text(config.read_timeout));
    lemma_timeout_reads_back(config.read_timeout, u64_failure(args[3]));
    assert(flag_effect(c1, args, invalid, 2) == Ok::<(WorkerConfigView, int), Seq<char>>((c2, 2)));
    let c3 = WorkerConfigView {
        transport: TcpRuntimeTransportConfigView {
            write_timeout: to_millis(config.write_timeout),
            ..c2.transport
        },
        ..c2
    };
    assert(args[4] == "--write-timeout-ms"@);
    assert(args[5] == timeout_text(config.write_timeout));
    lemma_timeout_reads_back(config.write_timeout, u64_failure(args[5]));
    assert(flag_effect(c2, args, invalid, 4) == Ok::<(WorkerConfigView, int), Seq<char>>((c3, 2)));
    assert(configured(c0, args, invalid, 0) == configured(c1, args, invalid, 2));
    assert(configured(c1, args, invalid, 2) == configured(c2, args, invalid, 4));
    assert(configured(c2, args, invalid, 4) == configured(c3, args, invalid, 6));
    if config.max_connections is Some {
        let n = config.max_connections->0;
        let c4 = WorkerConfigView { max_connections: config.max_connections, ..c3 };
        lemma_decimal_reads_back(n as nat);
        assert(args[6] == "--max-connections"@);
        assert(args[7] == decimal(n as nat));
        assert(flag_effect(c3, args, invalid, 6) == Ok::<(WorkerConfigView, int), Seq<char>>(
            (c4, 2),
        ));
        assert(configured(c3, args, invalid, 6) == configured(c4, args, invalid, 8));
    }
}

} // verus!

//! What the arguments of a worker process do: each flag sets its own part, and nothing else.

use vstd::prelude::*;

use crate::transport::{
    default_transport, failure_code, frame_problem, whole_millis, without_breaks, TransportFailure,
};
use crate::worker_cli::{
    configured, default_worker, digits_value, flag_effect, is_number, unsigned_part,
    WorkerConfigView,
};
use crate::worker_process::{silent_start_problem, startup_problem, StartupAddress};

verus! {

proof fn lemma_flags_differ()
    ensures
        "--bind"@ != "--once"@,
        "--bind"@ != "--max-connections"@,
        "--bind"@ != "--read-timeout-ms"@,
        "--bind"@ != "--write-timeout-ms"@,
        "--once"@ != "--max-connections"@,
        "--once"@ != "--read-timeout-ms"@,
        "--once"@ != "--write-timeout-ms"@,
        "--max-connections"@ != "--read-timeout-ms"@,
        "--max-connections"@ != "--write-timeout-ms"@,
        "--read-timeout-ms"@ != "--write-timeout-ms"@,
{
    reveal_strlit("--bind");
    reveal_strlit("--once");
    reveal_strlit("--max-connections");
    reveal_strlit("--read-timeout-ms");
    reveal_strlit("--write-timeout-ms");
    assert("--bind"@[2] != "--once"@[2]);
    assert("--max-connections"@.len() == 17);
    assert("--read-timeout-ms"@.len() == 17);
    assert("--max-connections"@[2] != "--read-timeout-ms"@[2]);
    assert("--write-timeout-ms"@.len() == 18);
}

/// The address to listen at is the one given last, and it is left alone by all other flags.
pub proof fn lemma_bind_sets_address(
    config: WorkerConfigView,
    args: Seq<Seq<char>>,
    invalid: Seq<Option<Seq<char>>>,
    i: int,
)
    requires
        0 <= i < args.len(),
    ensures
        args[i] == "--bind"@ ==> (flag_effect(config, args, invalid, i) is Ok <==> i + 1
            < args.len() && invalid[i + 1] is None),
        flag_effect(config, args, invalid, i) matches Ok((next, taken))
            ==> next.transport.bind_addr == (if args[i] == "--bind"@ {
            args[i + 1]
        } else {
            config.transport.bind_addr
        }),
{
    lemma_flags_differ();
}

/// Connections are bounded by `--once`, to one, or by `--max-connections`, to a number above zero,
/// once and not twice, and no other flag bounds them.
pub proof fn lemma_connections_are_bounded_once(
    config: WorkerConfigView,
    args: Seq<Seq<char>>,
    invalid: Seq<Option<Seq<char>>>,
    i: int,
)
    requires
        0 <= i < args.len(),
    ensures
        args[i] == "--once"@ ==> (flag_effect(config, args, invalid, i) is Ok
            <==> config.max_connections is None),
        args[i] == "--max-connections"@ ==> (flag_effect(config, args, invalid, i) is Ok <==> {
            &&& config.max_connections is None
            &&& i + 1 < args.len()
            &&& is_number(args[i + 1], usize::MAX as nat)
            &&& digits_value(unsigned_part(args[i + 1])) > 0
        }),
        flag_effect(config, args, invalid, i) matches Ok((next, taken)) ==> {
            &&& args[i] == "--once"@ ==> next.max_connections == Some(1usize)
            &&& args[i] == "--max-connections"@ ==> (next.max_connections matches Some(n) && n
                == digits_value(unsigned_part(args[i + 1])))
            &&& args[i] != "--once"@ && args[i] != "--max-connections"@ ==> next.max_connections
                == config.max_connections
        },
{
    lemma_flags_differ();
}

/// A timeout is set in milliseconds, or to none, each by its own flag, and by no other.
pub proof fn lemma_timeouts_are_set(
    config: WorkerConfigView,
    args: Seq<Seq<char>>,
    invalid: Seq<Option<Seq<char>>>,
    i: int,
)
    requires
        0 <= i < args.len(),
    ensures
        args[i] == "--read-timeout-ms"@ || args[i] == "--write-timeout-ms"@ ==> (flag_effect(
            config,
            args,
            invalid,
            i,
        ) is Ok <==> i + 1 < args.len() && (args[i + 1] == "none"@ || is_number(
            args[i + 1],
            u64::MAX as nat,
        ))),
        flag_effect(config, args, invalid, i) matches Ok((next, taken)) ==> {
            let none = args[i + 1] == "none"@;
            let millis = digits_value(unsigned_part(args[i + 1]));
            &&& args[i] == "--read-timeout-ms"@ ==> (next.transport.read_timeout is None <==> none)
            &&& args[i] == "--read-timeout-ms"@ && !none ==> whole_millis(
                next.transport.read_timeout->0,
            ) == millis
            &&& args[i] == "--write-timeout-ms"@ ==> (next.transport.write_timeout is None
                <==> none)
            &&& args[i] == "--write-timeout-ms"@ && !none ==> whole_millis(
                next.transport.write_timeout->0,
            ) == millis
            &&& args[i] != "--read-timeout-ms"@ ==> next.transport.read_timeout
                == config.transport.read_timeout
            &&& args[i] != "--write-timeout-ms"@ ==> next.transport.write_timeout
                == config.transport.write_timeout
            &&& next.transport.connect_timeout == config.transport.connect_timeout
        },
{
    lemma_flags_differ();
    if i + 1 < args.len() && is_number(args[i + 1], u64::MAX as nat) {
        let millis = digits_value(unsigned_part(args[i + 1])) as int;
        assert(millis % 1000 * 1_000_000 <= u32::MAX);
        assert((millis % 1000 * 1_000_000) / 1_000_000 == millis % 1000);
        assert(millis / 1000 * 1000 + millis % 1000 == millis);
    }
}

/// Nothing but the five flags is taken, and the arguments behind a flag are read in the
/// configuration that it leaves. Without arguments nothing changes.
pub proof fn lemma_arguments_are_read_in_turn(
    config: WorkerConfigView,
    args: Seq<Seq<char>>,
    invalid: Seq<Option<Seq<char>>>,
    i: int,
)
    requires
        0 <= i <= args.len(),
    ensures
        i == args.len() ==> configured(config, args, invalid, i) == Ok::<
            WorkerConfigView,
            Seq<char>,
        >(config),
        i < args.len() && args[i] != "--bind"@ && args[i] != "--once"@ && args[i]
            != "--max-connections"@ && args[i] != "--read-timeout-ms"@ && args[i]
            != "--write-timeout-ms"@ ==> configured(config, args, invalid, i) is Err,
        i < args.len() ==> match flag_effect(config, args, invalid, i) {
            Ok((next, taken)) => {
                &&& taken == (if args[i] == "--once"@ {
                    1int
                } else {
                    2int
                })
                &&& i + taken <= args.len()
                &&& configured(config, args, invalid, i) == configured(
                    next,
                    args,
                    invalid,
                    i + taken,
                )
            },
            Err(_) => configured(config, args, invalid, i) is Err,
        },
{
    lemma_flags_differ();
}

/// A worker process listens at any free port of its machine, waits for five seconds to connect and
/// for thirty to read or write, and takes any number of connections, unless it is told otherwise.
pub proof fn lemma_worker_waits()
    ensures
        whole_millis(default_transport().connect_timeout) == 5000,
        default_transport().read_timeout matches Some(t) && whole_millis(t) == 30000,
        default_transport().write_timeout matches Some(t) && whole_millis(t) == 30000,
        default_worker().max_connections is None,
        default_worker().transport == default_transport(),
{
}

/// A frame is a line that ends in a line break.
pub proof fn lemma_frame_ends_in_break(line: Seq<char>, message: Seq<char>)
    ensures
        frame_problem(line, message) is None <==> line.len() > 0 && line[line.len() - 1] == '\n',
{
}

/// Line breaks at the end of a text are dropped, all of them and nothing else.
pub proof fn lemma_breaks_are_dropped(text: Seq<char>)
    ensures
        ({
            let kept = without_breaks(text);
            &&& kept.len() <= text.len()
            &&& kept == text.take(kept.len() as int)
            &&& kept.len() > 0 ==> kept.last() != '\n'
            &&& forall|i: int| kept.len() <= i < text.len() ==> #[trigger] text[i] == '\n'
        }),
    decreases text.len(),
{
    if text.len() > 0 && text.last() == '\n' {
        let rest = text.drop_last();
        lemma_breaks_are_dropped(rest);
        let kept = without_breaks(rest);
        assert(kept =~= text.take(kept.len() as int));
        assert forall|i: int| kept.len() <= i < text.len() implies #[trigger] text[i] == '\n' by {
            if i < rest.len() {
                assert(rest[i] == text[i]);
            }
        }
    } else {
        assert(text =~= text.take(text.len() as int));
    }
}

/// A failure of a connection is told as a timeout, an end or another failure.
pub proof fn lemma_failures_are_told_apart()
    ensures
        failure_code(TransportFailure::TimedOut) == failure_code(TransportFailure::WouldBlock),
        failure_code(TransportFailure::TimedOut) == "E_RUNTIME_TCP_TIMEOUT"@,
        failure_code(TransportFailure::UnexpectedEof) == "E_RUNTIME_TCP_EOF"@,
        failure_code(TransportFailure::Other) == "E_RUNTIME_TCP_IO"@,
{
}

/// A process has started once it wrote a line with an address that can be reached.
pub proof fn lemma_process_has_started(
    worker_id: Seq<char>,
    line: Seq<char>,
    startup: StartupAddress,
)
    ensures
        silent_start_problem(worker_id, line) is None <==> line.len() > 0,
        startup_problem(startup) is None <==> (startup matches Ok(found) && found.1 is None),
{
}

} // verus!

//! What the ports of a simulator and the processes of workers owe what they stand for.

use vstd::prelude::*;

use crate::collect::{gather, lemma_gather_contains};
use crate::hierarchy::module_named;
use crate::ids::{last_named, lemma_last_named, Named};
use crate::model::design::{CompiledDesign, SignalKind};
use crate::seqs::{lemma_first_index, lemma_first_problem_none};
use crate::sv_gpu::{
    get_problem, layout_of, listed_port, missing_port, port_at, port_dir, port_limbs, port_named,
    ports_of, ports_problem, set_problem, stores_signal, Port, PortDir, SvSignalLayout, SvSimView,
};
use crate::worker_process::{
    polled_process, process_endpoints, process_health, ProcessStatus, TcpRuntimeWorkerProcessView,
};

verus! {

// ---------------------------------------------------------------------------
// Ports
// ---------------------------------------------------------------------------

/// A port takes as many 32-bit words as hold it, and one where it is empty.
pub proof fn lemma_words_hold_port(width: u32)
    ensures
        port_limbs(width) >= 1,
        32 * port_limbs(width) >= width,
        width > 0 ==> 32 * port_limbs(width) < width + 32,
        width == 0 ==> port_limbs(width) == 1,
{
}

/// A port can be read exactly when the simulator has it, and set exactly when it is an input
/// besides and there is one value for each lane.
pub proof fn lemma_ports_are_checked(sim: SvSimView, name: Seq<char>, count: nat, p: int)
    requires
        0 <= p < sim.ports.len(),
        sim.ports[p].name == name,
        forall|j: int| p < j < sim.ports.len() ==> (#[trigger] sim.ports[j]).name != name,
    ensures
        get_problem(sim, name) is None,
        set_problem(sim, name, count) is None <==> sim.ports[p].dir == PortDir::Input && count
            == sim.lanes,
{
    lemma_last_named::<Port>(sim.ports, name);
    let l = port_named(sim, name);
    assert(Port::name_of(sim.ports[p]) == name);
    assert(l is Some);
    if l->0 > p {
        assert(sim.ports[l->0].name != name);
    }
}

/// A port that the simulator does not have can neither be read nor set.
pub proof fn lemma_unknown_ports_are_refused(sim: SvSimView, name: Seq<char>, count: nat)
    requires
        forall|j: int| 0 <= j < sim.ports.len() ==> (#[trigger] sim.ports[j]).name != name,
    ensures
        get_problem(sim, name) is Some,
        set_problem(sim, name, count) is Some,
{
    lemma_last_named::<Port>(sim.ports, name);
    if port_named(sim, name) is Some {
        assert(sim.ports[port_named(sim, name)->0].name != name);
    }
}

/// Every input and output of a module whose name does not repeat is a port of that direction and
/// width, stored where the program stores the signal.
pub proof fn lemma_inputs_and_outputs_are_ports(
    design: CompiledDesign,
    top: Seq<char>,
    layout: Seq<SvSignalLayout>,
    i: int,
) -> (p: int)
    requires
        ports_problem(design, top, layout) is None,
        module_named(design, top) is Some,
        ({
            let signals = design.modules@[module_named(design, top)->0].signals@;
            &&& 0 <= i < signals.len()
            &&& signals[i].kind is Input || signals[i].kind is Output
            &&& forall|j: int|
                0 <= j < signals.len() && j != i ==> (#[trigger] signals[j]).name@
                    != signals[i].name@
        }),
    ensures
        ({
            let signals = design.modules@[module_named(design, top)->0].signals@;
            let ports = ports_of(design, top, layout);
            &&& 0 <= p < ports.len()
            &&& ports[p].name == signals[i].name@
            &&& ports[p].width == signals[i].width
            &&& ports[p].dir == PortDir::Input <==> signals[i].kind is Input
            &&& ports[p].dir == PortDir::Output <==> signals[i].kind is Output
            &&& exists|k: int|
                0 <= k < layout.len() && (#[trigger] layout[k]).handle == signals[i].handle
                    && layout[k].offset == ports[p].offset
        }),
{
    let signals = design.modules@[module_named(design, top)->0].signals@;
    let g = port_at(signals, layout);
    let found = gather(signals.len(), g);
    let ports = ports_of(design, top, layout);
    let missing = missing_port(signals, layout);
    lemma_first_problem_none(signals.len(), missing);
    assert(missing(i) is None);
    lemma_first_index(layout.len(), stores_signal(layout, signals[i].handle));
    let k = layout_of(layout, signals[i].handle)->0;
    assert(stores_signal(layout, signals[i].handle)(k));
    assert(layout[k].handle == signals[i].handle);
    let port = g(i)->0;
    assert(g(i) == Some(port));
    lemma_gather_contains(signals.len(), g, port);
    let x = choose|x: int| 0 <= x < found.len() && found[x] == port;
    // No later port that was found has the name.
    lemma_last_named::<Port>(found, port.name);
    let l = last_named::<Port>(found, port.name);
    assert(Port::name_of(found[x]) == port.name);
    assert(found.contains(found[l->0]));
    lemma_gather_contains(signals.len(), g, found[l->0]);
    let j = choose|j: int| 0 <= j < signals.len() && #[trigger] g(j) == Some(found[l->0]);
    assert(signals[j].name@ == port.name);
    assert(j == i);
    assert(found[l->0] == port);
    let h = listed_port(found);
    assert(h(l->0) == Some(port));
    lemma_gather_contains(found.len(), h, port);
    let p = choose|p: int| 0 <= p < ports.len() && ports[p] == port;
    p
}

/// Only inputs and outputs are ports.
pub proof fn lemma_nothing_else_is_a_port(kind: SignalKind)
    ensures
        port_dir(kind) is Some <==> kind is Input || kind is Output,
{
}

// ---------------------------------------------------------------------------
// Processes
// ---------------------------------------------------------------------------

/// A process runs until the system says how it ended, and then tells that.
pub proof fn lemma_process_runs_until_it_ends(
    process: TcpRuntimeWorkerProcessView,
    status: ProcessStatus,
)
    ensures
        process_health(process).running <==> process.exit is None,
        process_health(process).exit == process.exit,
        process_health(process).worker_id == process.worker_id,
        process_health(process).endpoint == process.endpoint,
        polled_process(process, None) == process,
        process.exit is None ==> (polled_process(process, Some(status)).exit matches Some(exit)
            && exit.worker_id == process.worker_id && exit.success == status.success && exit.code
            == status.code),
        polled_process(process, Some(status)).endpoint == process.endpoint,
        polled_process(process, Some(status)).worker_id == process.worker_id,
{
}

/// The endpoints of processes are where they listen, each under its worker.
pub proof fn lemma_processes_are_endpoints(processes: Seq<TcpRuntimeWorkerProcessView>, i: int)
    requires
        0 <= i < processes.len(),
    ensures
        process_endpoints(processes).len() == processes.len(),
        process_endpoints(processes)[i].worker_id == processes[i].worker_id,
        process_endpoints(processes)[i].addr == processes[i].endpoint,
{
}

} // verus!

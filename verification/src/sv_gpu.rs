//! Named ports of a simulator that runs many independent lanes.

use vstd::arithmetic::div_mod::{lemma_mod_breakdown, lemma_mod_mod, lemma_small_mod};
use vstd::arithmetic::power2::{
    lemma2_to64, lemma_pow2_adds, lemma_pow2_pos, lemma_pow2_strictly_increases, pow2,
};
use vstd::prelude::*;

use crate::collect::{gather, gather_items, lemma_gather_contains};
use crate::error::{error, fails_with, report, ErrorReport, ErrorReportView};
use crate::hierarchy::module_named;
use crate::ids::{distinct_names, find_last_named, last_named, lemma_last_named, Named};
use crate::model::design::{CompiledDesign, Signal, SignalInfo, SignalKind};
use crate::seqs::{
    first_index, first_problem, lemma_first_index, lemma_first_index_is, lemma_first_problem_stays,
    no_items, push_item,
};
use crate::text::{append_decimal, decimal};
use crate::words::{
    decode_u128_limbs, lemma_pow2_128, lemma_words_bound, truncated, words_value,
};

verus! {

/// The report of a simulator problem.
pub open spec fn sv_report(message: Seq<char>) -> ErrorReportView {
    report("E_SV_SIM"@, message)
}

/// The number of storage words of a port.
pub open spec fn port_limbs(width: u32) -> nat {
    if width == 0 {
        1
    } else {
        ((width + 31) / 32) as nat
    }
}

/// Counts the storage words of a port.
pub fn limbs_of(width: u32) -> (r: usize)
    requires
        width + 31 <= u32::MAX,
    ensures
        r == port_limbs(width),
{
    let words: u32 = (width + 31) / 32;
    if words < 1 {
        1
    } else {
        words as usize
    }
}

proof fn lemma_shl_is_pow2(width: u32)
    requires
        width < 128,
    ensures
        1u128 << width == pow2(width as nat),
    decreases width,
{
    if width == 0 {
        lemma2_to64();
        assert(1u128 << 0u32 == 1) by (bit_vector);
    } else {
        let w = (width - 1) as u32;
        lemma_shl_is_pow2(w);
        lemma_pow2_adds(1, w as nat);
        lemma2_to64();
        assert(1u128 << width == 2 * (1u128 << w)) by (bit_vector)
            requires
                w == width - 1,
                0 < width < 128,
        ;
    }
}

/// The mask of the bits of a width, of at most 128.
pub fn mask_u128(width: u32) -> (r: u128)
    ensures
        r + 1 == pow2(if width >= 128 { 128 } else { width as nat }),
{
    proof {
        lemma_pow2_128();
    }
    if width >= 128 {
        u128::MAX
    } else {
        proof {
            lemma_shl_is_pow2(width);
            lemma_pow2_pos(width as nat);
        }
        (1u128 << width) - 1
    }
}

/// Direction of a top-level port.
#[derive(Clone, Copy, Debug, PartialEq, Eq, Structural)]
pub enum PortDir {
    Input,
    Output,
}

/// A top-level port: its name, direction, width, and the offset of its first storage word.
#[derive(Debug, PartialEq, Eq)]
pub struct Port {
    pub name: String,
    pub dir: PortDir,
    pub width: u32,
    pub offset: usize,
}

/// The model of [`Port`].
#[verifier::ext_equal]
pub struct PortView {
    pub name: Seq<char>,
    pub dir: PortDir,
    pub width: u32,
    pub offset: usize,
}

impl DeepView for Port {
    type V = PortView;

    open spec fn deep_view(&self) -> PortView {
        PortView { name: self.name@, dir: self.dir, width: self.width, offset: self.offset }
    }
}

impl Clone for Port {
    fn clone(&self) -> (r: Self)
        ensures
            r.deep_view() == self.deep_view(),
    {
        Port { name: self.name.clone(), dir: self.dir, width: self.width, offset: self.offset }
    }
}

impl Named for Port {
    open spec fn name_of(v: PortView) -> Seq<char> {
        v.name
    }

    fn name(&self) -> (r: &str) {
        self.name.as_str()
    }
}

/// Where a signal is stored.
#[derive(Clone, Copy, Debug, PartialEq, Eq, Structural)]
pub struct SvSignalLayout {
    pub handle: Signal,
    pub offset: usize,
}

// ---------------------------------------------------------------------------
// Finding the ports
// ---------------------------------------------------------------------------

/// The direction of a port of some kind.
pub open spec fn port_dir(kind: SignalKind) -> Option<PortDir> {
    match kind {
        SignalKind::Input => Some(PortDir::Input),
        SignalKind::Output => Some(PortDir::Output),
        _ => None,
    }
}

/// Whether a signal is stored in a place.
pub open spec fn stores_signal(layout: Seq<SvSignalLayout>, handle: Signal) -> spec_fn(
    int,
) -> bool {
    |k: int| layout[k].handle == handle
}

/// The first place of a signal.
pub open spec fn layout_of(layout: Seq<SvSignalLayout>, handle: Signal) -> Option<int> {
    first_index(layout.len(), stores_signal(layout, handle))
}

/// The port of a signal, if it is one.
pub open spec fn port_at(signals: Seq<SignalInfo>, layout: Seq<SvSignalLayout>) -> spec_fn(
    int,
) -> Option<PortView> {
    |i: int|
        match port_dir(signals[i].kind) {
            Some(dir) => Some(
                PortView {
                    name: signals[i].name@,
                    dir,
                    width: signals[i].width,
                    offset: layout[layout_of(layout, signals[i].handle)->0].offset,
                },
            ),
            None => None,
        }
}

/// What is wrong with a port: that it is stored nowhere.
pub open spec fn missing_port(signals: Seq<SignalInfo>, layout: Seq<SvSignalLayout>) -> spec_fn(
    int,
) -> Option<ErrorReportView> {
    |i: int|
        if port_dir(signals[i].kind) is Some && layout_of(layout, signals[i].handle) is None {
            Some(
                sv_report("port `"@ + signals[i].name@ + "` missing from packed program"@),
            )
        } else {
            None
        }
}

/// What keeps the ports of a module from being found.
pub open spec fn ports_problem(
    design: CompiledDesign,
    top: Seq<char>,
    layout: Seq<SvSignalLayout>,
) -> Option<ErrorReportView> {
    match module_named(design, top) {
        None => Some(sv_report("top module `"@ + top + "` not found after compile"@)),
        Some(m) => first_problem(
            design.modules@[m].signals@.len(),
            missing_port(design.modules@[m].signals@, layout),
        ),
    }
}

/// Port `i`, unless a later one has its name.
pub open spec fn listed_port(found: Seq<PortView>) -> spec_fn(int) -> Option<PortView> {
    |i: int|
        if last_named::<Port>(found, found[i].name) == Some(i) {
            Some(found[i])
        } else {
            None
        }
}

/// The ports that stay of those that were found: of a name that repeats, the last.
pub open spec fn listed_ports(found: Seq<PortView>) -> Seq<PortView> {
    gather(found.len(), listed_port(found))
}

/// The ports of a module, each name once.
pub open spec fn ports_of(
    design: CompiledDesign,
    top: Seq<char>,
    layout: Seq<SvSignalLayout>,
) -> Seq<PortView> {
    let signals = design.modules@[module_named(design, top)->0].signals@;
    listed_ports(gather(signals.len(), port_at(signals, layout)))
}

proof fn lemma_listed_below(found: Seq<PortView>, n: nat)
    requires
        n <= found.len(),
    ensures
        distinct_names::<Port>(gather(n, listed_port(found))),
    decreases n,
{
    let g = listed_port(found);
    if n > 0 {
        let before = gather((n - 1) as nat, g);
        lemma_listed_below(found, (n - 1) as nat);
        if g(n - 1) is Some {
            assert forall|i: int| 0 <= i < before.len() implies (#[trigger] before[i]).name
                != found[n - 1].name by {
                lemma_gather_contains((n - 1) as nat, g, before[i]);
                assert(before.contains(before[i]));
                let j = choose|j: int| 0 <= j < n - 1 && #[trigger] g(j) == Some(before[i]);
                assert(found[j] == before[i]);
            }
        }
    }
}

/// No two listed ports share a name, and under each name stands the last port that was found
/// with it.
pub proof fn lemma_listed_ports(found: Seq<PortView>, name: Seq<char>)
    ensures
        distinct_names::<Port>(listed_ports(found)),
        match last_named::<Port>(found, name) {
            Some(i) => {
                let p = last_named::<Port>(listed_ports(found), name);
                p is Some && listed_ports(found)[p->0] == found[i]
            },
            None => last_named::<Port>(listed_ports(found), name) is None,
        },
{
    let listed = listed_ports(found);
    let g = listed_port(found);
    lemma_listed_below(found, found.len());
    lemma_last_named::<Port>(found, name);
    lemma_last_named::<Port>(listed, name);
    match last_named::<Port>(found, name) {
        Some(i) => {
            assert(Port::name_of(found[i]) == name);
            assert(g(i) == Some(found[i]));
            lemma_gather_contains(found.len(), g, found[i]);
            let k = choose|k: int| 0 <= k < listed.len() && listed[k] == found[i];
            assert(Port::name_of(listed[k]) == name);
            let p = last_named::<Port>(listed, name)->0;
            assert(Port::name_of(listed[p]) == name);
            if p < k {
                assert(Port::name_of(listed[p]) != Port::name_of(listed[k]));
            } else if k < p {
                assert(Port::name_of(listed[k]) != Port::name_of(listed[p]));
            }
        },
        None => {
            if last_named::<Port>(listed, name) is Some {
                let p = last_named::<Port>(listed, name)->0;
                lemma_gather_contains(found.len(), g, listed[p]);
                assert(listed.contains(listed[p]));
                let j = choose|j: int| 0 <= j < found.len() && #[trigger] g(j) == Some(listed[p]);
                assert(Port::name_of(found[j]) == name);
            }
        },
    }
}

/// Keeps of the ports of each name the last.
fn list_ports(found: &Vec<Port>) -> (r: Vec<Port>)
    ensures
        r.deep_view() == listed_ports(found.deep_view()),
{
    let ghost all = found.deep_view();
    let ghost g = listed_port(all);
    proof {
        assert(all.len() == found@.len());
    }
    gather_items(
        found.len(),
        |i: usize| -> (y: Option<Port>)
            requires i < found@.len(), all == found.deep_view(), g == listed_port(all),
            ensures y.deep_view() == g(i as int)
        {
            proof {
                assert(all[i as int] == found@[i as int].deep_view());
            }
            match find_last_named(found, found[i].name.as_str()) {
                Some(k) => if k == i {
                    Some(found[i].clone())
                } else {
                    None
                },
                None => None,
            }
        },
        Ghost(g),
    )
}

fn find_layout(layout: &Vec<SvSignalLayout>, handle: Signal) -> (r: Option<usize>)
    ensures
        match r {
            Some(k) => k < layout@.len() && layout_of(layout@, handle) == Some(k as int),
            None => layout_of(layout@, handle) is None,
        },
{
    let ghost p = stores_signal(layout@, handle);
    let mut k: usize = 0;
    while k < layout.len()
        invariant
            k <= layout@.len(),
            p == stores_signal(layout@, handle),
            forall|j: int| 0 <= j < k ==> !#[trigger] p(j),
        decreases layout@.len() - k,
    {
        if layout[k].handle == handle {
            proof {
                assert(p(k as int));
                lemma_first_index_is(layout@.len(), p, k as int);
            }
            return Some(k);
        }
        k = k + 1;
    }
    proof {
        lemma_first_index(layout@.len(), p);
        assert(layout_of(layout@, handle) is None);
    }
    None
}

/// Finds the input and output ports of a compiled module; of ports with the same name, the last.
pub fn lower_sv(compiled: &CompiledDesign, top: &str, layout: &Vec<SvSignalLayout>) -> (r: Result<
    Vec<Port>,
    ErrorReport,
>)
    ensures
        fails_with(r, ports_problem(*compiled, top@, layout@)),
        r matches Ok(ports) ==> {
            &&& ports.deep_view() == ports_of(*compiled, top@, layout@)
            &&& distinct_names::<Port>(ports.deep_view())
        },
{
    let m: usize = match compiled.find_module(top) {
        Some(m) => m,
        None => {
            let mut message = "top module `".to_owned();
            message.append(top);
            message.append("` not found after compile");
            return Err(error("E_SV_SIM", message.as_str()));
        },
    };
    let signals = &compiled.modules[m].signals;
    let ghost check = missing_port(signals@, layout@);
    let ghost port = port_at(signals@, layout@);
    let mut ports: Vec<Port> = no_items();
    let mut i: usize = 0;
    while i < signals.len()
        invariant
            i <= signals@.len(),
            check == missing_port(signals@, layout@),
            port == port_at(signals@, layout@),
            m < compiled.modules@.len(),
            module_named(*compiled, top@) == Some(m as int),
            signals@ == compiled.modules@[m as int].signals@,
            first_problem(i as nat, check) is None,
            ports.deep_view() == gather(i as nat, port),
        decreases signals@.len() - i,
    {
        let signal = &signals[i];
        let dir = match signal.kind {
            SignalKind::Input => Some(PortDir::Input),
            SignalKind::Output => Some(PortDir::Output),
            _ => None,
        };
        if let Some(dir) = dir {
            match find_layout(layout, signal.handle) {
                Some(k) => {
                    push_item(
                        &mut ports,
                        Port {
                            name: signal.name.clone(),
                            dir,
                            width: signal.width,
                            offset: layout[k].offset,
                        },
                    );
                },
                None => {
                    let mut message = "port `".to_owned();
                    message.append(signal.name.as_str());
                    message.append("` missing from packed program");
                    proof {
                        assert(check(i as int) is Some);
                        lemma_first_problem_stays((i + 1) as nat, signals@.len(), check);
                    }
                    return Err(error("E_SV_SIM", message.as_str()));
                },
            }
        }
        i = i + 1;
    }
    proof {
        lemma_listed_ports(ports.deep_view(), seq![]);
    }
    Ok(list_ports(&ports))
}

// ---------------------------------------------------------------------------
// Lane values as storage words
// ---------------------------------------------------------------------------

/// One storage word of every lane.
#[derive(Debug, PartialEq, Eq)]
pub struct SvWords {
    pub offset: usize,
    pub values: Vec<u32>,
}

/// The model of [`SvWords`].
#[verifier::ext_equal]
pub struct SvWordsView {
    pub offset: usize,
    pub values: Seq<u32>,
}

impl DeepView for SvWords {
    type V = SvWordsView;

    open spec fn deep_view(&self) -> SvWordsView {
        SvWordsView { offset: self.offset, values: self.values@ }
    }
}

/// Word `l` of a value.
pub open spec fn word_of(value: u128, l: nat) -> u32 {
    ((value as nat / pow2(32 * l)) % 0x1_0000_0000) as u32
}

/// Word `l` of every lane.
pub open spec fn lane_words(lane_values: Seq<u128>, l: nat) -> Seq<u32> {
    Seq::new(lane_values.len(), |lane: int| word_of(lane_values[lane], l))
}

/// What is stored of the values of a port.
pub open spec fn port_words(port: PortView, lane_values: Seq<u128>) -> Seq<SvWordsView> {
    Seq::new(
        port_limbs(port.width),
        |l: int|
            SvWordsView {
                offset: (port.offset + l) as usize,
                values: lane_words(lane_values, l as nat),
            },
    )
}

/// The words of a lane.
pub open spec fn lane_column(words: Seq<Seq<u32>>, lane: int) -> Seq<u32> {
    Seq::new(words.len(), |l: int| words[l][lane])
}

/// What a port holds on every lane.
pub open spec fn port_values(port: PortView, words: Seq<Seq<u32>>, lanes: usize) -> Seq<u128> {
    Seq::new(
        lanes as nat,
        |lane: int| truncated(words_value(lane_column(words, lane)), port.width) as u128,
    )
}

/// Whether the words of a port can be told apart: what is wider than 128 bits has no lane value.
pub open spec fn port_fits(port: PortView) -> bool {
    &&& port.width <= 128
    &&& port.offset + port_limbs(port.width) <= usize::MAX
}

proof fn lemma_word_shift(value: u128, l: u32)
    requires
        l < 4,
    ensures
        (value >> (32 * l) as u32) == value as nat / pow2((32 * l) as nat),
{
    lemma_pow2_128();
    if l == 0 {
        assert(value >> 0u32 == value) by (bit_vector);
        assert(value as nat / 1 == value);
    } else if l == 1 {
        assert(value >> 32u32 == value / 0x1_0000_0000u128) by (bit_vector);
    } else if l == 2 {
        assert(value >> 64u32 == value / 0x1_0000_0000_0000_0000u128) by (bit_vector);
    } else {
        assert(value >> 96u32 == value / 0x1_0000_0000_0000_0000_0000_0000u128) by (bit_vector);
    }
}

fn word_at(value: u128, l: u32) -> (r: u32)
    requires
        l < 4,
    ensures
        r == word_of(value, l as nat),
{
    let shifted: u128 = value >> (32 * l);
    proof {
        lemma_word_shift(value, l);
        assert(shifted as u32 == shifted % 0x1_0000_0000u128) by (bit_vector);
    }
    #[verifier::truncate]
    (shifted as u32)
}

/// A simulator of a module: its ports by name, over independent lanes.
#[derive(Debug, PartialEq, Eq)]
pub struct SvSim {
    pub ports: Vec<Port>,
    pub top: String,
    pub lanes: usize,
}

/// The model of [`SvSim`].
#[verifier::ext_equal]
pub struct SvSimView {
    pub ports: Seq<PortView>,
    pub top: Seq<char>,
    pub lanes: usize,
}

impl DeepView for SvSim {
    type V = SvSimView;

    open spec fn deep_view(&self) -> SvSimView {
        SvSimView { ports: self.ports.deep_view(), top: self.top@, lanes: self.lanes }
    }
}

/// The port of a name; the last one where a name repeats.
pub open spec fn port_named(sim: SvSimView, name: Seq<char>) -> Option<int> {
    last_named::<Port>(sim.ports, name)
}

/// What keeps a name from being read.
pub open spec fn get_problem(sim: SvSimView, name: Seq<char>) -> Option<ErrorReportView> {
    if port_named(sim, name) is None {
        Some(sv_report("no port `"@ + name + "`"@))
    } else {
        None
    }
}

/// What keeps a name from being set to `count` lane values.
pub open spec fn set_problem(sim: SvSimView, name: Seq<char>, count: nat) -> Option<
    ErrorReportView,
> {
    match port_named(sim, name) {
        None => Some(sv_report("no port `"@ + name + "`"@)),
        Some(p) => if sim.ports[p].dir != PortDir::Input {
            Some(sv_report("port `"@ + name + "` is not an input"@))
        } else if count != sim.lanes {
            Some(
                sv_report(
                    "port `"@ + name + "`: expected "@ + decimal(sim.lanes as nat)
                        + " lane values, got "@ + decimal(count),
                ),
            )
        } else {
            None
        },
    }
}

fn no_port(name: &str) -> (r: ErrorReport)
    ensures
        r.deep_view() == sv_report("no port `"@ + name@ + "`"@),
{
    let mut message = "no port `".to_owned();
    message.append(name);
    message.append("`");
    error("E_SV_SIM", message.as_str())
}

impl SvSim {
    /// A simulator of a compiled module.
    pub fn new(
        compiled: &CompiledDesign,
        top: &str,
        layout: &Vec<SvSignalLayout>,
        lanes: usize,
    ) -> (r: Result<Self, ErrorReport>)
        ensures
            fails_with(r, ports_problem(*compiled, top@, layout@)),
            r matches Ok(sim) ==> sim.deep_view() == (SvSimView {
                ports: ports_of(*compiled, top@, layout@),
                top: top@,
                lanes,
            }),
            r matches Ok(sim) ==> distinct_names::<Port>(sim.deep_view().ports),
    {
        let ports = lower_sv(compiled, top, layout)?;
        Ok(SvSim { ports, top: top.to_owned(), lanes })
    }

    /// The name of the module.
    pub fn top(&self) -> (r: &str)
        ensures
            r@ == self.deep_view().top,
    {
        self.top.as_str()
    }

    /// The number of lanes.
    pub fn lanes(&self) -> (r: usize)
        ensures
            r == self.deep_view().lanes,
    {
        self.lanes
    }

    /// The port of a name.
    pub fn port(&self, name: &str) -> (r: Option<&Port>)
        ensures
            match r {
                Some(port) => port_named(self.deep_view(), name@) is Some && port.deep_view()
                    == self.deep_view().ports[port_named(self.deep_view(), name@)->0],
                None => port_named(self.deep_view(), name@) is None,
            },
    {
        match find_last_named(&self.ports, name) {
            Some(p) => {
                proof {
                    assert(self.ports.deep_view()[p as int] == self.ports@[p as int].deep_view());
                }
                Some(&self.ports[p])
            },
            None => None,
        }
    }

    /// All ports, each name once.
    pub fn ports(&self) -> (r: &Vec<Port>)
        ensures
            r.deep_view() == self.deep_view().ports,
    {
        &self.ports
    }

    /// The words to store so that an input port has one value per lane.
    pub fn set(&self, name: &str, lane_values: &Vec<u128>) -> (r: Result<Vec<SvWords>, ErrorReport>)
        requires
            set_problem(self.deep_view(), name@, lane_values@.len()) is None ==> port_fits(
                self.deep_view().ports[port_named(self.deep_view(), name@)->0],
            ),
        ensures
            fails_with(r, set_problem(self.deep_view(), name@, lane_values@.len())),
            r matches Ok(words) ==> words.deep_view() == port_words(
                self.deep_view().ports[port_named(self.deep_view(), name@)->0],
                lane_values@,
            ),
    {
        let port = match self.port(name) {
            Some(port) => port,
            None => {
                return Err(no_port(name));
            },
        };
        if port.dir != PortDir::Input {
            let mut message = "port `".to_owned();
            message.append(name);
            message.append("` is not an input");
            return Err(error("E_SV_SIM", message.as_str()));
        }
        if lane_values.len() != self.lanes {
            let mut message = "port `".to_owned();
            message.append(name);
            message.append("`: expected ");
            append_decimal(&mut message, self.lanes as u64);
            message.append(" lane values, got ");
            append_decimal(&mut message, lane_values.len() as u64);
            return Err(error("E_SV_SIM", message.as_str()));
        }
        let count: usize = limbs_of(port.width);
        let ghost all = port_words(port.deep_view(), lane_values@);
        let mut words: Vec<SvWords> = no_items();
        let mut l: usize = 0;
        proof {
            assert(all.take(0) =~= Seq::empty());
        }
        while l < count
            invariant
                l <= count <= 4,
                count == port_limbs(port.deep_view().width),
                port_fits(port.deep_view()),
                all == port_words(port.deep_view(), lane_values@),
                words.deep_view() == all.take(l as int),
            decreases count - l,
        {
            let mut values: Vec<u32> = Vec::new();
            let ghost row = lane_words(lane_values@, l as nat);
            let mut lane: usize = 0;
            while lane < lane_values.len()
                invariant
                    lane <= lane_values@.len(),
                    l < 4,
                    row == lane_words(lane_values@, l as nat),
                    values@ == row.take(lane as int),
                decreases lane_values@.len() - lane,
            {
                values.push(word_at(lane_values[lane], l as u32));
                proof {
                    assert(row.take(lane + 1) =~= row.take(lane as int).push(row[lane as int]));
                }
                lane = lane + 1;
            }
            proof {
                assert(row.take(lane as int) =~= row);
            }
            push_item(&mut words, SvWords { offset: port.offset + l, values });
            proof {
                assert(all.take(l + 1) =~= all.take(l as int).push(all[l as int]));
            }
            l = l + 1;
        }
        proof {
            assert(all.take(l as int) =~= all);
        }
        Ok(words)
    }

    /// The words to store so that an input port has the same value on every lane.
    pub fn set_all(&self, name: &str, value: u128) -> (r: Result<Vec<SvWords>, ErrorReport>)
        requires
            set_problem(self.deep_view(), name@, self.lanes as nat) is None ==> port_fits(
                self.deep_view().ports[port_named(self.deep_view(), name@)->0],
            ),
        ensures
            fails_with(r, set_problem(self.deep_view(), name@, self.lanes as nat)),
            r matches Ok(words) ==> words.deep_view() == port_words(
                self.deep_view().ports[port_named(self.deep_view(), name@)->0],
                Seq::new(self.lanes as nat, |lane: int| value),
            ),
    {
        let mut values: Vec<u128> = Vec::new();
        let mut lane: usize = 0;
        while lane < self.lanes
            invariant
                lane <= self.lanes,
                values@ == Seq::new(lane as nat, |lane: int| value),
            decreases self.lanes - lane,
        {
            values.push(value);
            proof {
                assert(values@ =~= Seq::new((lane + 1) as nat, |lane: int| value));
            }
            lane = lane + 1;
        }
        self.set(name, &values)
    }

    /// The offsets of the words of a port.
    pub fn word_offsets(&self, name: &str) -> (r: Result<Vec<usize>, ErrorReport>)
        requires
            get_problem(self.deep_view(), name@) is None ==> port_fits(
                self.deep_view().ports[port_named(self.deep_view(), name@)->0],
            ),
        ensures
            fails_with(r, get_problem(self.deep_view(), name@)),
            r matches Ok(offsets) ==> {
                let port = self.deep_view().ports[port_named(self.deep_view(), name@)->0];
                offsets@ == Seq::new(
                    port_limbs(port.width),
                    |l: int| (port.offset + l) as usize,
                )
            },
    {
        let port = match self.port(name) {
            Some(port) => port,
            None => {
                return Err(no_port(name));
            },
        };
        let count: usize = limbs_of(port.width);
        let mut offsets: Vec<usize> = Vec::new();
        let ghost all = Seq::new(count as nat, |l: int| (port.offset + l) as usize);
        let mut l: usize = 0;
        while l < count
            invariant
                l <= count,
                port.offset + count <= usize::MAX,
                all == Seq::new(count as nat, |l: int| (port.offset + l) as usize),
                offsets@ == all.take(l as int),
            decreases count - l,
        {
            offsets.push(port.offset + l);
            proof {
                assert(all.take(l + 1) =~= all.take(l as int).push(all[l as int]));
            }
            l = l + 1;
        }
        proof {
            assert(all.take(l as int) =~= all);
        }
        Ok(offsets)
    }

    /// The value of a port on every lane, of the words that are stored.
    pub fn get(&self, name: &str, words: &Vec<Vec<u32>>) -> (r: Result<Vec<u128>, ErrorReport>)
        requires
            get_problem(self.deep_view(), name@) is None ==> {
                let port = self.deep_view().ports[port_named(self.deep_view(), name@)->0];
                &&& port_fits(port)
                &&& words@.len() == port_limbs(port.width)
                &&& forall|l: int| 0 <= l < words@.len() ==> (#[trigger] words@[l])@.len() == self.lanes
            },
        ensures
            fails_with(r, get_problem(self.deep_view(), name@)),
            r matches Ok(values) ==> values@ == port_values(
                self.deep_view().ports[port_named(self.deep_view(), name@)->0],
                words.deep_view(),
                self.lanes,
            ),
    {
        let port = match self.port(name) {
            Some(port) => port,
            None => {
                return Err(no_port(name));
            },
        };
        let m: u128 = mask_u128(port.width);
        let ghost all = port_values(port.deep_view(), words.deep_view(), self.lanes);
        let mut values: Vec<u128> = Vec::new();
        let mut lane: usize = 0;
        proof {
            assert(all.take(0) =~= Seq::empty());
        }
        while lane < self.lanes
            invariant
                lane <= self.lanes,
                port_fits(port.deep_view()),
                m + 1 == pow2(port.width as nat),
                words@.len() == port_limbs(port.width),
                forall|l: int| 0 <= l < words@.len() ==> (#[trigger] words@[l])@.len() == self.lanes,
                all == port_values(port.deep_view(), words.deep_view(), self.lanes),
                values@ == all.take(lane as int),
            decreases self.lanes - lane,
        {
            let mut column: Vec<u32> = Vec::new();
            let ghost full = lane_column(words.deep_view(), lane as int);
            let mut l: usize = 0;
            while l < words.len()
                invariant
                    l <= words@.len(),
                    lane < self.lanes,
                    forall|l: int|
                        0 <= l < words@.len() ==> (#[trigger] words@[l])@.len() == self.lanes,
                    full == lane_column(words.deep_view(), lane as int),
                    column@ == full.take(l as int),
                decreases words@.len() - l,
            {
                proof {
                    assert(words.deep_view()[l as int] =~= words@[l as int]@);
                    assert(full.take(l + 1) =~= full.take(l as int).push(full[l as int]));
                }
                column.push(words[l][lane]);
                l = l + 1;
            }
            proof {
                assert(full.take(l as int) =~= full);
                assert(column@.take(column@.len() as int) =~= column@);
            }
            let whole: u128 = decode_u128_limbs(&column);
            proof {
                lemma_pow2_128();
                lemma_words_bound(column@);
                assert(all[lane as int] == truncated(whole as nat, port.width) as u128);
            }
            if m == u128::MAX {
                proof {
                    lemma_small_mod(whole as nat, pow2(128));
                    lemma_full_mask(port.width, m);
                }
                values.push(whole);
            } else {
                values.push(whole % (m + 1));
            }
            proof {
                assert(all.take(lane + 1) =~= all.take(lane as int).push(all[lane as int]));
            }
            lane = lane + 1;
        }
        proof {
            assert(all.take(lane as int) =~= all);
        }
        Ok(values)
    }
}

proof fn lemma_full_mask(width: u32, m: u128)
    requires
        width <= 128,
        m + 1 == pow2(width as nat),
        m == u128::MAX,
    ensures
        width == 128,
{
    lemma_pow2_128();
    if width < 128 {
        lemma_pow2_strictly_increases(width as nat, 128);
    }
}

/// The words of a value, taken together, are its low bits.
pub proof fn lemma_words_of_value(value: u128, n: nat)
    ensures
        words_value(Seq::new(n, |l: int| word_of(value, l as nat))) == value as nat % pow2(32 * n),
    decreases n,
{
    let words = Seq::new(n, |l: int| word_of(value, l as nat));
    if n == 0 {
        lemma2_to64();
    } else {
        let m = (n - 1) as nat;
        lemma_words_of_value(value, m);
        assert(words.drop_last() =~= Seq::new(m, |l: int| word_of(value, l as nat)));
        lemma2_to64();
        lemma_pow2_pos(32 * m);
        lemma_pow2_adds(32 * m, 32);
        assert(32 * m + 32 == 32 * n);
        let p = pow2(32 * m) as int;
        lemma_mod_breakdown(value as int, p, 0x1_0000_0000);
        let w = (value as int / p) % 0x1_0000_0000;
        assert(p * w == w * p) by (nonlinear_arith);
    }
}

/// A port gives back on every lane what was stored for it, as far as its width holds it.
pub proof fn lemma_port_reads_back(port: PortView, lane_values: Seq<u128>, lanes: usize, lane: int)
    requires
        port_fits(port),
        lane_values.len() == lanes,
        0 <= lane < lanes,
    ensures
        ({
            let words = Seq::new(
                port_limbs(port.width),
                |l: int| port_words(port, lane_values)[l].values,
            );
            port_values(port, words, lanes)[lane] == truncated(
                lane_values[lane] as nat,
                port.width,
            )
        }),
{
    let n = port_limbs(port.width);
    let words = Seq::new(n, |l: int| port_words(port, lane_values)[l].values);
    let value = lane_values[lane];
    assert(lane_column(words, lane) =~= Seq::new(n, |l: int| word_of(value, l as nat)));
    lemma_words_of_value(value, n);
    let rest = (32 * n - port.width) as nat;
    lemma_pow2_adds(port.width as nat, rest);
    lemma_pow2_pos(port.width as nat);
    lemma_pow2_pos(rest);
    lemma_mod_mod(value as int, pow2(port.width as nat) as int, pow2(rest) as int);
    lemma_pow2_128();
    if port.width < 128 {
        lemma_pow2_strictly_increases(port.width as nat, 128);
    }
}

} // verus!

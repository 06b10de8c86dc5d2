//! What is done to measure one candidate of a tuning: the stimulus is set up, cycles are made to
//! warm up, the counters are cleared, and the measured cycles follow.

use vstd::prelude::*;

use crate::autotune::{autotune_cycle_step, cycle_step, drives_cycles};
use crate::collect::{append_items, build_items};
use crate::conservation::{lemma_sum_by_concat, lemma_sum_by_one};
use crate::model::autotune::{
    RuntimeAutotuneConfig, RuntimeAutotuneConfigView, RuntimeAutotuneStimulusView,
    RuntimeMemoryLimbs, RuntimeMemoryLimbsView, RuntimeMemoryValue, RuntimeMemoryValueView,
    RuntimeSignalLimbs, RuntimeSignalLimbsView, RuntimeSignalValue, RuntimeSignalValueView,
    RuntimeStimulusSetup, RuntimeStimulusSetupView, RuntimeStimulusStep, RuntimeStimulusStepView,
};
use crate::seqs::sum_by;

verus! {

// ---------------------------------------------------------------------------
// What a stimulus sets
// ---------------------------------------------------------------------------

/// Something that a stimulus sets.
#[derive(Debug, PartialEq, Eq)]
pub enum RuntimeStimulusAction {
    SetInput(RuntimeSignalValue),
    SetInputLimbs(RuntimeSignalLimbs),
    SetMemory(RuntimeMemoryValue),
    SetMemoryLimbs(RuntimeMemoryLimbs),
}

/// The model of [`RuntimeStimulusAction`].
#[verifier::ext_equal]
pub enum RuntimeStimulusActionView {
    SetInput(RuntimeSignalValueView),
    SetInputLimbs(RuntimeSignalLimbsView),
    SetMemory(RuntimeMemoryValueView),
    SetMemoryLimbs(RuntimeMemoryLimbsView),
}

impl DeepView for RuntimeStimulusAction {
    type V = RuntimeStimulusActionView;

    open spec fn deep_view(&self) -> RuntimeStimulusActionView {
        match self {
            RuntimeStimulusAction::SetInput(v) => RuntimeStimulusActionView::SetInput(
                v.deep_view(),
            ),
            RuntimeStimulusAction::SetInputLimbs(v) => RuntimeStimulusActionView::SetInputLimbs(
                v.deep_view(),
            ),
            RuntimeStimulusAction::SetMemory(v) => RuntimeStimulusActionView::SetMemory(
                v.deep_view(),
            ),
            RuntimeStimulusAction::SetMemoryLimbs(v) => RuntimeStimulusActionView::SetMemoryLimbs(
                v.deep_view(),
            ),
        }
    }
}

/// The inputs that are set, scalar values first.
pub open spec fn input_actions(
    inputs: Seq<RuntimeSignalValueView>,
    limbs: Seq<RuntimeSignalLimbsView>,
) -> Seq<RuntimeStimulusActionView> {
    Seq::new(inputs.len(), |i: int| RuntimeStimulusActionView::SetInput(inputs[i])) + Seq::new(
        limbs.len(),
        |i: int| RuntimeStimulusActionView::SetInputLimbs(limbs[i]),
    )
}

/// The memories that are set, scalar words first.
pub open spec fn memory_actions(
    memories: Seq<RuntimeMemoryValueView>,
    limbs: Seq<RuntimeMemoryLimbsView>,
) -> Seq<RuntimeStimulusActionView> {
    Seq::new(memories.len(), |i: int| RuntimeStimulusActionView::SetMemory(memories[i])) + Seq::new(
        limbs.len(),
        |i: int| RuntimeStimulusActionView::SetMemoryLimbs(limbs[i]),
    )
}

/// What a setup sets: inputs, then memories.
pub open spec fn setup_actions(setup: RuntimeStimulusSetupView) -> Seq<RuntimeStimulusActionView> {
    input_actions(setup.inputs, setup.input_limbs) + memory_actions(
        setup.memories,
        setup.memory_limbs,
    )
}

/// What a step sets.
pub open spec fn step_actions(step: RuntimeStimulusStepView) -> Seq<RuntimeStimulusActionView> {
    input_actions(step.inputs, step.input_limbs)
}

/// Lists the inputs that are set.
fn list_inputs(inputs: &Vec<RuntimeSignalValue>, limbs: &Vec<RuntimeSignalLimbs>) -> (r: Vec<
    RuntimeStimulusAction,
>)
    ensures
        r.deep_view() == input_actions(inputs.deep_view(), limbs.deep_view()),
{
    proof {
        assert(inputs.deep_view().len() == inputs@.len());
        assert(limbs.deep_view().len() == limbs@.len());
    }
    let mut r: Vec<RuntimeStimulusAction> = build_items(
        inputs.len(),
        |i: usize| -> (a: RuntimeStimulusAction)
            requires
                i < inputs@.len(),
            ensures
                a.deep_view() == RuntimeStimulusActionView::SetInput(inputs.deep_view()[i as int])
            { RuntimeStimulusAction::SetInput(inputs[i].clone()) },
        Ghost(|i: int| RuntimeStimulusActionView::SetInput(inputs.deep_view()[i])),
    );
    let more: Vec<RuntimeStimulusAction> = build_items(
        limbs.len(),
        |i: usize| -> (a: RuntimeStimulusAction)
            requires
                i < limbs@.len(),
            ensures
                a.deep_view() == RuntimeStimulusActionView::SetInputLimbs(
                    limbs.deep_view()[i as int],
                )
            { RuntimeStimulusAction::SetInputLimbs(limbs[i].clone()) },
        Ghost(|i: int| RuntimeStimulusActionView::SetInputLimbs(limbs.deep_view()[i])),
    );
    append_items(&mut r, more);
    r
}

/// Lists the memories that are set.
fn list_memories(memories: &Vec<RuntimeMemoryValue>, limbs: &Vec<RuntimeMemoryLimbs>) -> (r: Vec<
    RuntimeStimulusAction,
>)
    ensures
        r.deep_view() == memory_actions(memories.deep_view(), limbs.deep_view()),
{
    proof {
        assert(memories.deep_view().len() == memories@.len());
        assert(limbs.deep_view().len() == limbs@.len());
    }
    let mut r: Vec<RuntimeStimulusAction> = build_items(
        memories.len(),
        |i: usize| -> (a: RuntimeStimulusAction)
            requires
                i < memories@.len(),
            ensures
                a.deep_view() == RuntimeStimulusActionView::SetMemory(
                    memories.deep_view()[i as int],
                )
            { RuntimeStimulusAction::SetMemory(memories[i].clone()) },
        Ghost(|i: int| RuntimeStimulusActionView::SetMemory(memories.deep_view()[i])),
    );
    let more: Vec<RuntimeStimulusAction> = build_items(
        limbs.len(),
        |i: usize| -> (a: RuntimeStimulusAction)
            requires
                i < limbs@.len(),
            ensures
                a.deep_view() == RuntimeStimulusActionView::SetMemoryLimbs(
                    limbs.deep_view()[i as int],
                )
            { RuntimeStimulusAction::SetMemoryLimbs(limbs[i].clone()) },
        Ghost(|i: int| RuntimeStimulusActionView::SetMemoryLimbs(limbs.deep_view()[i])),
    );
    append_items(&mut r, more);
    r
}

/// Lists what a setup sets, in the order in which it is set.
pub fn apply_stimulus_setup(setup: &RuntimeStimulusSetup) -> (r: Vec<RuntimeStimulusAction>)
    ensures
        r.deep_view() == setup_actions(setup.deep_view()),
{
    let mut r = list_inputs(&setup.inputs, &setup.input_limbs);
    append_items(&mut r, list_memories(&setup.memories, &setup.memory_limbs));
    r
}

/// Lists what a step sets, in the order in which it is set.
pub fn apply_stimulus_step(step: &RuntimeStimulusStep) -> (r: Vec<RuntimeStimulusAction>)
    ensures
        r.deep_view() == step_actions(step.deep_view()),
{
    list_inputs(&step.inputs, &step.input_limbs)
}

// ---------------------------------------------------------------------------
// The measurement
// ---------------------------------------------------------------------------

/// What a measurement does next.
#[derive(Clone, Copy, Debug, PartialEq, Eq, Structural)]
pub enum RuntimeAutotuneStep {
    /// Set what the setup of the stimulus sets.
    Setup,
    /// Set what a step of the stimulus sets.
    Apply(usize),
    /// Make one cycle.
    Tick,
    /// Make so many cycles.
    TickMany(usize),
    /// Clear the counters of the runtime.
    ResetStats,
    /// The counters of the runtime hold the measurement.
    Done,
}

/// A measurement.
#[derive(Clone, Copy, Debug, PartialEq, Eq, Structural)]
pub struct RuntimeAutotuneRun {
    /// Whether the stimulus is set up.
    pub ready: bool,
    /// Whether the counters are cleared.
    pub measuring: bool,
    /// How many cycles were made, to warm up or measured.
    pub cycles: usize,
    /// Whether the step of the stimulus for the next cycle is applied.
    pub applied: bool,
}

/// How many cycles are made before the counters are cleared, or after.
pub open spec fn wanted_cycles(run: RuntimeAutotuneRun, config: RuntimeAutotuneConfigView) -> usize {
    if run.measuring {
        config.measure_steps
    } else {
        config.warmup_steps
    }
}

/// What a measurement does next.
pub open spec fn next_action(
    run: RuntimeAutotuneRun,
    config: RuntimeAutotuneConfigView,
) -> RuntimeAutotuneStep {
    let wanted = wanted_cycles(run, config);
    if !run.ready && config.stimulus is Some {
        RuntimeAutotuneStep::Setup
    } else if run.cycles < wanted {
        match cycle_step(config.stimulus, run.cycles) {
            Some(step) if !run.applied => RuntimeAutotuneStep::Apply(step),
            Some(_) => RuntimeAutotuneStep::Tick,
            None => RuntimeAutotuneStep::TickMany((wanted - run.cycles) as usize),
        }
    } else if !run.measuring {
        RuntimeAutotuneStep::ResetStats
    } else {
        RuntimeAutotuneStep::Done
    }
}

/// A measurement after its next step.
pub open spec fn after_action(
    run: RuntimeAutotuneRun,
    config: RuntimeAutotuneConfigView,
) -> RuntimeAutotuneRun {
    match next_action(run, config) {
        RuntimeAutotuneStep::Setup => RuntimeAutotuneRun { ready: true, ..run },
        RuntimeAutotuneStep::Apply(_) => RuntimeAutotuneRun { applied: true, ..run },
        RuntimeAutotuneStep::Tick => RuntimeAutotuneRun {
            cycles: (run.cycles + 1) as usize,
            applied: false,
            ..run
        },
        RuntimeAutotuneStep::TickMany(_) => RuntimeAutotuneRun {
            cycles: wanted_cycles(run, config),
            ..run
        },
        RuntimeAutotuneStep::ResetStats => RuntimeAutotuneRun { measuring: true, cycles: 0, ..run },
        RuntimeAutotuneStep::Done => run,
    }
}

impl RuntimeAutotuneRun {
    /// What holds of a measurement at all times: a step is applied only before a cycle that is
    /// still to be made.
    pub open spec fn well_formed(&self, config: RuntimeAutotuneConfigView) -> bool {
        &&& self.cycles <= wanted_cycles(*self, config)
        &&& self.applied ==> self.cycles < wanted_cycles(*self, config) && drives_cycles(
            config.stimulus,
        )
        &&& !self.ready && config.stimulus is Some ==> *self == unmeasured()
    }

    /// A measurement before its first step.
    pub fn begin() -> (r: Self)
        ensures
            r == unmeasured(),
            forall|config: RuntimeAutotuneConfigView| #[trigger] r.well_formed(config),
    {
        RuntimeAutotuneRun { ready: false, measuring: false, cycles: 0, applied: false }
    }

    /// Says what is done next, and takes it as done.
    pub fn advance(&mut self, config: &RuntimeAutotuneConfig) -> (r: RuntimeAutotuneStep)
        requires
            old(self).well_formed(config.deep_view()),
        ensures
            r == next_action(*old(self), config.deep_view()),
            *final(self) == after_action(*old(self), config.deep_view()),
            final(self).well_formed(config.deep_view()),
            r matches RuntimeAutotuneStep::Apply(k) ==> k < config.stimulus->0.steps@.len(),
    {
        if !self.ready && config.stimulus.is_some() {
            self.ready = true;
            return RuntimeAutotuneStep::Setup;
        }
        let wanted: usize = if self.measuring {
            config.measure_steps
        } else {
            config.warmup_steps
        };
        if self.cycles < wanted {
            match autotune_cycle_step(&config.stimulus, self.cycles) {
                Some(step) => {
                    if !self.applied {
                        self.applied = true;
                        RuntimeAutotuneStep::Apply(step)
                    } else {
                        self.applied = false;
                        self.cycles = self.cycles + 1;
                        RuntimeAutotuneStep::Tick
                    }
                },
                None => {
                    let more: usize = wanted - self.cycles;
                    self.cycles = wanted;
                    RuntimeAutotuneStep::TickMany(more)
                },
            }
        } else if !self.measuring {
            self.measuring = true;
            self.cycles = 0;
            RuntimeAutotuneStep::ResetStats
        } else {
            RuntimeAutotuneStep::Done
        }
    }
}

/// A measurement before its first step.
pub open spec fn unmeasured() -> RuntimeAutotuneRun {
    RuntimeAutotuneRun { ready: false, measuring: false, cycles: 0, applied: false }
}

// ---------------------------------------------------------------------------
// The whole measurement
// ---------------------------------------------------------------------------

/// How the cycles from `from` up to `total` are made: each after its step of the stimulus, or all
/// at once where no step drives them.
pub open spec fn cycle_actions(
    stimulus: Option<RuntimeAutotuneStimulusView>,
    from: nat,
    total: usize,
) -> Seq<RuntimeAutotuneStep>
    decreases total - from,
{
    if from >= total {
        Seq::empty()
    } else {
        match cycle_step(stimulus, from as usize) {
            Some(step) => seq![RuntimeAutotuneStep::Apply(step), RuntimeAutotuneStep::Tick]
                + cycle_actions(stimulus, from + 1, total),
            None => seq![RuntimeAutotuneStep::TickMany((total - from) as usize)],
        }
    }
}

/// All that a measurement does.
pub open spec fn whole_measurement(config: RuntimeAutotuneConfigView) -> Seq<RuntimeAutotuneStep> {
    (if config.stimulus is Some {
        seq![RuntimeAutotuneStep::Setup]
    } else {
        Seq::empty()
    }) + cycle_actions(config.stimulus, 0, config.warmup_steps)
        + seq![RuntimeAutotuneStep::ResetStats] + cycle_actions(
        config.stimulus,
        0,
        config.measure_steps,
    )
}

/// How much a measurement still has to do, at most.
pub open spec fn to_do(run: RuntimeAutotuneRun, config: RuntimeAutotuneConfigView) -> int {
    (if run.ready {
        0int
    } else {
        1
    }) + 2 * (wanted_cycles(run, config) - run.cycles) - (if run.applied {
        1int
    } else {
        0
    }) + (if run.measuring {
        0
    } else {
        1 + 2 * config.measure_steps
    })
}

/// The next `n` steps of a measurement, without its end.
pub open spec fn actions_made(
    run: RuntimeAutotuneRun,
    config: RuntimeAutotuneConfigView,
    n: nat,
) -> Seq<RuntimeAutotuneStep>
    decreases n,
{
    if n == 0 || next_action(run, config) is Done {
        Seq::empty()
    } else {
        seq![next_action(run, config)] + actions_made(
            after_action(run, config),
            config,
            (n - 1) as nat,
        )
    }
}

/// What is left of the cycles that a measurement is making.
spec fn cycles_left(run: RuntimeAutotuneRun, config: RuntimeAutotuneConfigView) -> Seq<
    RuntimeAutotuneStep,
> {
    let wanted = wanted_cycles(run, config);
    if run.applied {
        seq![RuntimeAutotuneStep::Tick] + cycle_actions(config.stimulus, run.cycles as nat + 1, wanted)
    } else {
        cycle_actions(config.stimulus, run.cycles as nat, wanted)
    }
}

/// What is left of a measurement.
spec fn measurement_left(run: RuntimeAutotuneRun, config: RuntimeAutotuneConfigView) -> Seq<
    RuntimeAutotuneStep,
> {
    if !run.ready && config.stimulus is Some {
        whole_measurement(config)
    } else if run.measuring {
        cycles_left(run, config)
    } else {
        cycles_left(run, config) + seq![RuntimeAutotuneStep::ResetStats] + cycle_actions(
            config.stimulus,
            0,
            config.measure_steps,
        )
    }
}

/// Every step leaves less to do, until nothing is left.
pub proof fn lemma_action_shrinks(run: RuntimeAutotuneRun, config: RuntimeAutotuneConfigView)
    requires
        run.well_formed(config),
    ensures
        0 <= to_do(run, config),
        next_action(run, config) !is Done ==> to_do(after_action(run, config), config) < to_do(
            run,
            config,
        ),
        after_action(run, config).well_formed(config),
{
}

/// A measurement makes what is left of it.
proof fn lemma_measurement_left(
    run: RuntimeAutotuneRun,
    config: RuntimeAutotuneConfigView,
    n: nat,
)
    requires
        run.well_formed(config),
        to_do(run, config) <= n,
    ensures
        actions_made(run, config, n) == measurement_left(run, config),
    decreases n,
{
    lemma_action_shrinks(run, config);
    let next = next_action(run, config);
    if next is Done {
        assert(measurement_left(run, config) =~= Seq::empty());
    } else {
        let after = after_action(run, config);
        lemma_measurement_left(after, config, (n - 1) as nat);
        assert(measurement_left(run, config) =~= seq![next] + measurement_left(after, config));
    }
}

/// A measurement sets up its stimulus, makes all cycles that warm up, clears the counters, and
/// makes all measured cycles, and nothing else.
pub proof fn lemma_whole_measurement(config: RuntimeAutotuneConfigView, n: nat)
    requires
        to_do(unmeasured(), config) <= n,
    ensures
        actions_made(unmeasured(), config, n) == whole_measurement(config),
{
    lemma_measurement_left(unmeasured(), config, n);
    assert(measurement_left(unmeasured(), config) =~= whole_measurement(config));
}

/// How many cycles a step of a measurement makes.
pub open spec fn cycles_of() -> spec_fn(RuntimeAutotuneStep) -> int {
    |step: RuntimeAutotuneStep|
        match step {
            RuntimeAutotuneStep::Tick => 1,
            RuntimeAutotuneStep::TickMany(n) => n as int,
            _ => 0,
        }
}

proof fn lemma_cycles_made(
    stimulus: Option<RuntimeAutotuneStimulusView>,
    from: nat,
    total: usize,
)
    requires
        from <= total,
    ensures
        sum_by(cycle_actions(stimulus, from, total), cycles_of()) == total - from,
    decreases total - from,
{
    let made = cycle_actions(stimulus, from, total);
    let f = cycles_of();
    if from < total {
        match cycle_step(stimulus, from as usize) {
            Some(step) => {
                let first = seq![RuntimeAutotuneStep::Apply(step), RuntimeAutotuneStep::Tick];
                lemma_cycles_made(stimulus, from + 1, total);
                lemma_sum_by_concat(first, cycle_actions(stimulus, from + 1, total), f);
                lemma_sum_by_one(RuntimeAutotuneStep::Apply(step), f);
                lemma_sum_by_one(RuntimeAutotuneStep::Tick, f);
                lemma_sum_by_concat(
                    seq![RuntimeAutotuneStep::Apply(step)],
                    seq![RuntimeAutotuneStep::Tick],
                    f,
                );
                assert(first =~= seq![RuntimeAutotuneStep::Apply(step)]
                    + seq![RuntimeAutotuneStep::Tick]);
            },
            None => {
                lemma_sum_by_one(RuntimeAutotuneStep::TickMany((total - from) as usize), f);
            },
        }
    }
}

proof fn lemma_cycle_actions_clear_nothing(
    stimulus: Option<RuntimeAutotuneStimulusView>,
    from: nat,
    total: usize,
)
    ensures
        forall|i: int|
            0 <= i < cycle_actions(stimulus, from, total).len() ==> !((#[trigger] cycle_actions(
                stimulus,
                from,
                total,
            )[i]) is ResetStats) && !(cycle_actions(stimulus, from, total)[i] is Setup),
    decreases total - from,
{
    if from < total {
        lemma_cycle_actions_clear_nothing(stimulus, from + 1, total);
        if cycle_step(stimulus, from as usize) is Some {
            let step = cycle_step(stimulus, from as usize)->0;
            let first = seq![RuntimeAutotuneStep::Apply(step), RuntimeAutotuneStep::Tick];
            let rest = cycle_actions(stimulus, from + 1, total);
            let all = cycle_actions(stimulus, from, total);
            assert(all == first + rest);
            assert forall|i: int| 0 <= i < all.len() implies !((#[trigger] all[i]) is ResetStats)
                && !(all[i] is Setup) by {
                if i >= 2 {
                    assert(all[i] == rest[i - 2]);
                }
            }
        }
    }
}

/// The counters are cleared once, after as many cycles as warm up and before as many as are
/// measured: no cycle is left out, and none is made twice.
pub proof fn lemma_cycles_are_measured(config: RuntimeAutotuneConfigView, n: nat) -> (at: int)
    requires
        to_do(unmeasured(), config) <= n,
    ensures
        ({
            let made = actions_made(unmeasured(), config, n);
            &&& 0 <= at < made.len()
            &&& made[at] is ResetStats
            &&& forall|i: int|
                0 <= i < made.len() && i != at ==> !((#[trigger] made[i]) is ResetStats)
            &&& sum_by(made.take(at), cycles_of()) == config.warmup_steps
            &&& sum_by(made.skip(at + 1), cycles_of()) == config.measure_steps
            &&& config.stimulus is Some ==> made[0] is Setup
            &&& forall|i: int|
                0 <= i < made.len() && (#[trigger] made[i]) is Setup ==> i == 0
                    && config.stimulus is Some
        }),
{
    lemma_whole_measurement(config, n);
    let made = whole_measurement(config);
    let f = cycles_of();
    let setup: Seq<RuntimeAutotuneStep> = if config.stimulus is Some {
        seq![RuntimeAutotuneStep::Setup]
    } else {
        Seq::empty()
    };
    let warm = cycle_actions(config.stimulus, 0, config.warmup_steps);
    let clear = seq![RuntimeAutotuneStep::ResetStats];
    let measured = cycle_actions(config.stimulus, 0, config.measure_steps);
    assert(made =~= setup + warm + clear + measured);
    let at = (setup.len() + warm.len()) as int;
    assert(made.take(at) =~= setup + warm);
    assert(made.skip(at + 1) =~= measured);
    lemma_sum_by_concat(setup, warm, f);
    lemma_sum_by_one(RuntimeAutotuneStep::Setup, f);
    lemma_cycles_made(config.stimulus, 0, config.warmup_steps);
    lemma_cycles_made(config.stimulus, 0, config.measure_steps);
    lemma_cycle_actions_clear_nothing(config.stimulus, 0, config.warmup_steps);
    lemma_cycle_actions_clear_nothing(config.stimulus, 0, config.measure_steps);
    assert forall|i: int| 0 <= i < made.len() && i != at implies !((
    #[trigger] made[i]) is ResetStats) && (made[i] is Setup ==> i == 0 && config.stimulus is Some) by {
        if i < setup.len() {
            assert(made[i] == setup[i]);
        } else if i < at {
            assert(made[i] == warm[i - setup.len()]);
        } else {
            assert(made[i] == measured[i - at - 1]);
        }
    }
    at
}

/// A setup sets every value that it lists, inputs before memories, and sets nothing else.
pub proof fn lemma_setup_sets_everything(setup: RuntimeStimulusSetupView)
    ensures
        ({
            let set = setup_actions(setup);
            let a = setup.inputs.len() as int;
            let b = a + setup.input_limbs.len();
            let c = b + setup.memories.len();
            &&& set.len() == c + setup.memory_limbs.len()
            &&& forall|i: int|
                0 <= i < setup.inputs.len() ==> #[trigger] set[i]
                    == RuntimeStimulusActionView::SetInput(setup.inputs[i])
            &&& forall|i: int|
                a <= i < b ==> #[trigger] set[i] == RuntimeStimulusActionView::SetInputLimbs(
                    setup.input_limbs[i - a],
                )
            &&& forall|i: int|
                b <= i < c ==> #[trigger] set[i] == RuntimeStimulusActionView::SetMemory(
                    setup.memories[i - b],
                )
            &&& forall|i: int|
                c <= i < set.len() ==> #[trigger] set[i]
                    == RuntimeStimulusActionView::SetMemoryLimbs(setup.memory_limbs[i - c])
        }),
{
}

/// A step sets what a setup with the same inputs and no memories would set.
pub proof fn lemma_step_sets_inputs(step: RuntimeStimulusStepView, setup: RuntimeStimulusSetupView)
    requires
        setup.inputs == step.inputs,
        setup.input_limbs == step.input_limbs,
        setup.memories.len() == 0,
        setup.memory_limbs.len() == 0,
    ensures
        step_actions(step) == setup_actions(setup),
{
    assert(step_actions(step) =~= setup_actions(setup));
}

} // verus!

//! Candidates, stimuli and reports of topology tuning.

use vstd::prelude::*;

use crate::error::{Diagnostic, DiagnosticView};
use crate::model::design::Signal;
use crate::model::runtime::{DistributedRuntimeOptions, RuntimeStats, RuntimeStatsView};
use crate::model::topology::{RuntimeTopology, RuntimeTopologyView};

verus! {

/// A topology to be measured.
#[derive(Debug, PartialEq, Eq)]
pub struct RuntimeAutotuneCandidate {
    pub name: String,
    pub topology: RuntimeTopology,
    pub options: DistributedRuntimeOptions,
}

/// The model of [`RuntimeAutotuneCandidate`].
#[verifier::ext_equal]
pub struct RuntimeAutotuneCandidateView {
    pub name: Seq<char>,
    pub topology: RuntimeTopologyView,
    pub options: DistributedRuntimeOptions,
}

impl DeepView for RuntimeAutotuneCandidate {
    type V = RuntimeAutotuneCandidateView;

    open spec fn deep_view(&self) -> RuntimeAutotuneCandidateView {
        RuntimeAutotuneCandidateView {
            name: self.name@,
            topology: self.topology.deep_view(),
            options: self.options,
        }
    }
}

impl Clone for RuntimeAutotuneCandidate {
    fn clone(&self) -> (r: Self)
        ensures
            r.deep_view() == self.deep_view(),
    {
        RuntimeAutotuneCandidate {
            name: self.name.clone(),
            topology: self.topology.clone(),
            options: self.options,
        }
    }
}

/// Values of a signal, one per lane.
#[derive(Debug, PartialEq, Eq)]
pub struct RuntimeSignalValue {
    pub signal: Signal,
    pub lane_values: Vec<u128>,
}

/// The model of [`RuntimeSignalValue`].
#[verifier::ext_equal]
pub struct RuntimeSignalValueView {
    pub signal: Signal,
    pub lane_values: Seq<u128>,
}

impl DeepView for RuntimeSignalValue {
    type V = RuntimeSignalValueView;

    open spec fn deep_view(&self) -> RuntimeSignalValueView {
        RuntimeSignalValueView {
            signal: self.signal,
            lane_values: self.lane_values@,
        }
    }
}

impl Clone for RuntimeSignalValue {
    fn clone(&self) -> (r: Self)
        ensures
            r.deep_view() == self.deep_view(),
    {
        let r = RuntimeSignalValue {
            signal: self.signal,
            lane_values: self.lane_values.clone(),
        };
        proof {
            assert(r.lane_values@ =~= self.lane_values@);
        }
        r
    }
}

/// Values of a signal in limbs, one per lane.
#[derive(Debug, PartialEq, Eq)]
pub struct RuntimeSignalLimbs {
    pub signal: Signal,
    pub lane_values: Vec<Vec<u32>>,
}

/// The model of [`RuntimeSignalLimbs`].
#[verifier::ext_equal]
pub struct RuntimeSignalLimbsView {
    pub signal: Signal,
    pub lane_values: Seq<Seq<u32>>,
}

impl DeepView for RuntimeSignalLimbs {
    type V = RuntimeSignalLimbsView;

    open spec fn deep_view(&self) -> RuntimeSignalLimbsView {
        RuntimeSignalLimbsView {
            signal: self.signal,
            lane_values: self.lane_values.deep_view(),
        }
    }
}

impl Clone for RuntimeSignalLimbs {
    fn clone(&self) -> (r: Self)
        ensures
            r.deep_view() == self.deep_view(),
    {
        let r = RuntimeSignalLimbs {
            signal: self.signal,
            lane_values: self.lane_values.clone(),
        };
        proof {
            assert(r.lane_values.deep_view() =~= self.lane_values.deep_view());
        }
        r
    }
}

/// Contents of a memory, one list of words per lane.
#[derive(Debug, PartialEq, Eq)]
pub struct RuntimeMemoryValue {
    pub memory: Signal,
    pub lane_words: Vec<Vec<u128>>,
}

/// The model of [`RuntimeMemoryValue`].
#[verifier::ext_equal]
pub struct RuntimeMemoryValueView {
    pub memory: Signal,
    pub lane_words: Seq<Seq<u128>>,
}

impl DeepView for RuntimeMemoryValue {
    type V = RuntimeMemoryValueView;

    open spec fn deep_view(&self) -> RuntimeMemoryValueView {
        RuntimeMemoryValueView {
            memory: self.memory,
            lane_words: self.lane_words.deep_view(),
        }
    }
}

impl Clone for RuntimeMemoryValue {
    fn clone(&self) -> (r: Self)
        ensures
            r.deep_view() == self.deep_view(),
    {
        let r = RuntimeMemoryValue {
            memory: self.memory,
            lane_words: self.lane_words.clone(),
        };
        proof {
            assert(r.lane_words.deep_view() =~= self.lane_words.deep_view());
        }
        r
    }
}

/// Contents of a memory in limbs, one list of words per lane.
#[derive(Debug, PartialEq, Eq)]
pub struct RuntimeMemoryLimbs {
    pub memory: Signal,
    pub lane_words: Vec<Vec<Vec<u32>>>,
}

/// The model of [`RuntimeMemoryLimbs`].
#[verifier::ext_equal]
pub struct RuntimeMemoryLimbsView {
    pub memory: Signal,
    pub lane_words: Seq<Seq<Seq<u32>>>,
}

impl DeepView for RuntimeMemoryLimbs {
    type V = RuntimeMemoryLimbsView;

    open spec fn deep_view(&self) -> RuntimeMemoryLimbsView {
        RuntimeMemoryLimbsView {
            memory: self.memory,
            lane_words: self.lane_words.deep_view(),
        }
    }
}

impl Clone for RuntimeMemoryLimbs {
    fn clone(&self) -> (r: Self)
        ensures
            r.deep_view() == self.deep_view(),
    {
        let r = RuntimeMemoryLimbs {
            memory: self.memory,
            lane_words: self.lane_words.clone(),
        };
        proof {
            assert(r.lane_words.deep_view() =~= self.lane_words.deep_view());
        }
        r
    }
}

/// What is set before the first step.
#[derive(Debug, PartialEq, Eq)]
pub struct RuntimeStimulusSetup {
    pub inputs: Vec<RuntimeSignalValue>,
    pub input_limbs: Vec<RuntimeSignalLimbs>,
    pub memories: Vec<RuntimeMemoryValue>,
    pub memory_limbs: Vec<RuntimeMemoryLimbs>,
}

/// The model of [`RuntimeStimulusSetup`].
#[verifier::ext_equal]
pub struct RuntimeStimulusSetupView {
    pub inputs: Seq<RuntimeSignalValueView>,
    pub input_limbs: Seq<RuntimeSignalLimbsView>,
    pub memories: Seq<RuntimeMemoryValueView>,
    pub memory_limbs: Seq<RuntimeMemoryLimbsView>,
}

impl DeepView for RuntimeStimulusSetup {
    type V = RuntimeStimulusSetupView;

    open spec fn deep_view(&self) -> RuntimeStimulusSetupView {
        RuntimeStimulusSetupView {
            inputs: self.inputs.deep_view(),
            input_limbs: self.input_limbs.deep_view(),
            memories: self.memories.deep_view(),
            memory_limbs: self.memory_limbs.deep_view(),
        }
    }
}

impl Clone for RuntimeStimulusSetup {
    fn clone(&self) -> (r: Self)
        ensures
            r.deep_view() == self.deep_view(),
    {
        let r = RuntimeStimulusSetup {
            inputs: self.inputs.clone(),
            input_limbs: self.input_limbs.clone(),
            memories: self.memories.clone(),
            memory_limbs: self.memory_limbs.clone(),
        };
        proof {
            assert(r.inputs.deep_view() =~= self.inputs.deep_view());
            assert(r.input_limbs.deep_view() =~= self.input_limbs.deep_view());
            assert(r.memories.deep_view() =~= self.memories.deep_view());
            assert(r.memory_limbs.deep_view() =~= self.memory_limbs.deep_view());
        }
        r
    }
}

/// What is set before one step.
#[derive(Debug, PartialEq, Eq)]
pub struct RuntimeStimulusStep {
    pub inputs: Vec<RuntimeSignalValue>,
    pub input_limbs: Vec<RuntimeSignalLimbs>,
}

/// The model of [`RuntimeStimulusStep`].
#[verifier::ext_equal]
pub struct RuntimeStimulusStepView {
    pub inputs: Seq<RuntimeSignalValueView>,
    pub input_limbs: Seq<RuntimeSignalLimbsView>,
}

impl DeepView for RuntimeStimulusStep {
    type V = RuntimeStimulusStepView;

    open spec fn deep_view(&self) -> RuntimeStimulusStepView {
        RuntimeStimulusStepView {
            inputs: self.inputs.deep_view(),
            input_limbs: self.input_limbs.deep_view(),
        }
    }
}

impl Clone for RuntimeStimulusStep {
    fn clone(&self) -> (r: Self)
        ensures
            r.deep_view() == self.deep_view(),
    {
        let r = RuntimeStimulusStep {
            inputs: self.inputs.clone(),
            input_limbs: self.input_limbs.clone(),
        };
        proof {
            assert(r.inputs.deep_view() =~= self.inputs.deep_view());
            assert(r.input_limbs.deep_view() =~= self.input_limbs.deep_view());
        }
        r
    }
}

/// The stimulus of a measurement.
#[derive(Debug, PartialEq, Eq)]
pub struct RuntimeAutotuneStimulus {
    pub setup: RuntimeStimulusSetup,
    pub steps: Vec<RuntimeStimulusStep>,
}

/// The model of [`RuntimeAutotuneStimulus`].
#[verifier::ext_equal]
pub struct RuntimeAutotuneStimulusView {
    pub setup: RuntimeStimulusSetupView,
    pub steps: Seq<RuntimeStimulusStepView>,
}

impl DeepView for RuntimeAutotuneStimulus {
    type V = RuntimeAutotuneStimulusView;

    open spec fn deep_view(&self) -> RuntimeAutotuneStimulusView {
        RuntimeAutotuneStimulusView {
            setup: self.setup.deep_view(),
            steps: self.steps.deep_view(),
        }
    }
}

impl Clone for RuntimeAutotuneStimulus {
    fn clone(&self) -> (r: Self)
        ensures
            r.deep_view() == self.deep_view(),
    {
        let r = RuntimeAutotuneStimulus {
            setup: self.setup.clone(),
            steps: self.steps.clone(),
        };
        proof {
            assert(r.steps.deep_view() =~= self.steps.deep_view());
        }
        r
    }
}

/// How candidates are measured.
#[derive(Debug, PartialEq, Eq)]
pub struct RuntimeAutotuneConfig {
    pub warmup_steps: usize,
    pub measure_steps: usize,
    pub stimulus: Option<RuntimeAutotuneStimulus>,
}

/// The model of [`RuntimeAutotuneConfig`].
#[verifier::ext_equal]
pub struct RuntimeAutotuneConfigView {
    pub warmup_steps: usize,
    pub measure_steps: usize,
    pub stimulus: Option<RuntimeAutotuneStimulusView>,
}

impl DeepView for RuntimeAutotuneConfig {
    type V = RuntimeAutotuneConfigView;

    open spec fn deep_view(&self) -> RuntimeAutotuneConfigView {
        RuntimeAutotuneConfigView {
            warmup_steps: self.warmup_steps,
            measure_steps: self.measure_steps,
            stimulus: self.stimulus.deep_view(),
        }
    }
}

impl Clone for RuntimeAutotuneConfig {
    fn clone(&self) -> (r: Self)
        ensures
            r.deep_view() == self.deep_view(),
    {
        let r = RuntimeAutotuneConfig {
            warmup_steps: self.warmup_steps,
            measure_steps: self.measure_steps,
            stimulus: self.stimulus.clone(),
        };
        proof {
            assert(r.stimulus.deep_view() =~= self.stimulus.deep_view());
        }
        r
    }
}

/// What was measured of a candidate.
#[derive(Debug, PartialEq, Eq)]
pub struct RuntimeAutotuneCandidateReport {
    pub name: String,
    pub topology: RuntimeTopology,
    pub options: DistributedRuntimeOptions,
    pub stats: Option<RuntimeStats>,
    pub diagnostics: Vec<Diagnostic>,
    pub score_ns: Option<u128>,
}

/// The model of [`RuntimeAutotuneCandidateReport`].
#[verifier::ext_equal]
pub struct RuntimeAutotuneCandidateReportView {
    pub name: Seq<char>,
    pub topology: RuntimeTopologyView,
    pub options: DistributedRuntimeOptions,
    pub stats: Option<RuntimeStatsView>,
    pub diagnostics: Seq<DiagnosticView>,
    pub score_ns: Option<u128>,
}

impl DeepView for RuntimeAutotuneCandidateReport {
    type V = RuntimeAutotuneCandidateReportView;

    open spec fn deep_view(&self) -> RuntimeAutotuneCandidateReportView {
        RuntimeAutotuneCandidateReportView {
            name: self.name@,
            topology: self.topology.deep_view(),
            options: self.options,
            stats: self.stats.deep_view(),
            diagnostics: self.diagnostics.deep_view(),
            score_ns: self.score_ns,
        }
    }
}

impl Clone for RuntimeAutotuneCandidateReport {
    fn clone(&self) -> (r: Self)
        ensures
            r.deep_view() == self.deep_view(),
    {
        let r = RuntimeAutotuneCandidateReport {
            name: self.name.clone(),
            topology: self.topology.clone(),
            options: self.options,
            stats: self.stats.clone(),
            diagnostics: self.diagnostics.clone(),
            score_ns: self.score_ns,
        };
        proof {
            assert(r.stats.deep_view() =~= self.stats.deep_view());
            assert(r.diagnostics.deep_view() =~= self.diagnostics.deep_view());
        }
        r
    }
}

/// All measured candidates and the best of them.
#[derive(Debug, PartialEq, Eq)]
pub struct RuntimeAutotuneReport {
    pub candidates: Vec<RuntimeAutotuneCandidateReport>,
    pub best_index: usize,
}

/// The model of [`RuntimeAutotuneReport`].
#[verifier::ext_equal]
pub struct RuntimeAutotuneReportView {
    pub candidates: Seq<RuntimeAutotuneCandidateReportView>,
    pub best_index: usize,
}

impl DeepView for RuntimeAutotuneReport {
    type V = RuntimeAutotuneReportView;

    open spec fn deep_view(&self) -> RuntimeAutotuneReportView {
        RuntimeAutotuneReportView {
            candidates: self.candidates.deep_view(),
            best_index: self.best_index,
        }
    }
}

impl Clone for RuntimeAutotuneReport {
    fn clone(&self) -> (r: Self)
        ensures
            r.deep_view() == self.deep_view(),
    {
        let r = RuntimeAutotuneReport {
            candidates: self.candidates.clone(),
            best_index: self.best_index,
        };
        proof {
            assert(r.candidates.deep_view() =~= self.candidates.deep_view());
        }
        r
    }
}

} // verus!

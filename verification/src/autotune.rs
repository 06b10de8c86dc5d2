//! Choosing the topology on which a design runs fastest.

use vstd::prelude::*;

use crate::collect::{append_items, build_items, concat_below, concat_items};
use crate::error::{
    error, fails_with, report, Diagnostic, DiagnosticView, ErrorReport, ErrorReportView,
};
use crate::model::autotune::{
    RuntimeAutotuneCandidate, RuntimeAutotuneCandidateReport, RuntimeAutotuneCandidateReportView,
    RuntimeAutotuneCandidateView, RuntimeAutotuneConfig, RuntimeAutotuneConfigView,
    RuntimeAutotuneReport, RuntimeAutotuneStimulus, RuntimeAutotuneStimulusView,
    RuntimeStimulusSetup, RuntimeStimulusStep,
};
use crate::model::runtime::{RuntimeStats, RuntimeStatsView};
use crate::seqs::or_problem;

verus! {

impl Default for RuntimeAutotuneConfig {
    fn default() -> (r: Self)
        ensures
            r.warmup_steps == 1,
            r.measure_steps == 16,
            r.stimulus is None,
    {
        RuntimeAutotuneConfig { warmup_steps: 1, measure_steps: 16, stimulus: None }
    }
}

impl Default for RuntimeStimulusStep {
    fn default() -> (r: Self)
        ensures
            r.inputs@.len() == 0,
            r.input_limbs@.len() == 0,
    {
        RuntimeStimulusStep { inputs: Vec::new(), input_limbs: Vec::new() }
    }
}

impl Default for RuntimeStimulusSetup {
    fn default() -> (r: Self)
        ensures
            r.inputs@.len() == 0,
            r.input_limbs@.len() == 0,
            r.memories@.len() == 0,
            r.memory_limbs@.len() == 0,
    {
        RuntimeStimulusSetup {
            inputs: Vec::new(),
            input_limbs: Vec::new(),
            memories: Vec::new(),
            memory_limbs: Vec::new(),
        }
    }
}

impl Default for RuntimeAutotuneStimulus {
    fn default() -> (r: Self)
        ensures
            r.setup.inputs@.len() == 0,
            r.setup.input_limbs@.len() == 0,
            r.setup.memories@.len() == 0,
            r.setup.memory_limbs@.len() == 0,
            r.steps@.len() == 0,
    {
        RuntimeAutotuneStimulus { setup: RuntimeStimulusSetup::default(), steps: Vec::new() }
    }
}

// ---------------------------------------------------------------------------
// One candidate
// ---------------------------------------------------------------------------

/// Whether a stimulus drives every cycle by itself.
pub open spec fn drives_cycles(stimulus: Option<RuntimeAutotuneStimulusView>) -> bool {
    stimulus matches Some(s) && s.steps.len() > 0
}

/// The step of a stimulus that is applied before a cycle: all cycles are made at once where there
/// is none, and the steps repeat where there are fewer than cycles.
pub open spec fn cycle_step(stimulus: Option<RuntimeAutotuneStimulusView>, cycle: usize) -> Option<
    usize,
> {
    if drives_cycles(stimulus) {
        Some((cycle as int % stimulus->0.steps.len() as int) as usize)
    } else {
        None
    }
}

/// Finds the step of a stimulus that is applied before a cycle.
pub fn autotune_cycle_step(stimulus: &Option<RuntimeAutotuneStimulus>, cycle: usize) -> (r: Option<
    usize,
>)
    ensures
        r == cycle_step(stimulus.deep_view(), cycle),
        r matches Some(k) ==> k < stimulus->0.steps@.len(),
{
    match stimulus {
        Some(s) => {
            proof {
                assert(s.deep_view().steps.len() == s.steps@.len());
            }
            if s.steps.len() > 0 {
                Some(cycle % s.steps.len())
            } else {
                None
            }
        },
        None => None,
    }
}

/// The steps of a stimulus are applied in turn, one before each cycle, and from the first again
/// after the last: cycle `c` takes step `c` while there is one, and the cycle that comes as many
/// cycles later as there are steps takes the same step.
pub proof fn lemma_steps_repeat(stimulus: RuntimeAutotuneStimulusView, c: int, n: int)
    requires
        n == stimulus.steps.len(),
        n > 0,
        0 <= c,
        c + n <= usize::MAX,
    ensures
        c < n ==> cycle_step(Some(stimulus), c as usize) == Some(c as usize),
        cycle_step(Some(stimulus), (c + n) as usize) == cycle_step(Some(stimulus), c as usize),
        cycle_step(Some(stimulus), c as usize) is Some,
        cycle_step(Some(stimulus), c as usize)->0 < n,
{
    if c < n {
        vstd::arithmetic::div_mod::lemma_small_mod(c as nat, n as nat);
    }
    vstd::arithmetic::div_mod::lemma_mod_add_multiples_vanish(c, n);
    vstd::arithmetic::div_mod::lemma_mod_bound(c, n);
    assert((n + c) % n == c % n);
    assert(c + n == n + c);
}

/// Where a stimulus has no steps, no cycle takes one.
pub proof fn lemma_no_steps_to_apply(stimulus: Option<RuntimeAutotuneStimulusView>, cycle: usize)
    requires
        stimulus matches Some(s) ==> s.steps.len() == 0,
    ensures
        cycle_step(stimulus, cycle) is None,
{
}

/// How long the measured cycles took.
pub open spec fn score_of(
    stats: RuntimeStatsView,
    stimulus: Option<RuntimeAutotuneStimulusView>,
) -> u128 {
    if drives_cycles(stimulus) {
        stats.operations.tick.total_ns
    } else {
        stats.operations.tick_many.total_ns
    }
}

/// How long the measured cycles took.
pub fn autotune_score(stats: &RuntimeStats, stimulus: &Option<RuntimeAutotuneStimulus>) -> (r: u128)
    ensures
        r == score_of(stats.deep_view(), stimulus.deep_view()),
{
    if autotune_cycle_step(stimulus, 0).is_some() {
        stats.operations.tick.total_ns
    } else {
        stats.operations.tick_many.total_ns
    }
}

/// What is reported of a candidate whose measurement gave `outcome`.
pub open spec fn candidate_report(
    candidate: RuntimeAutotuneCandidateView,
    config: RuntimeAutotuneConfigView,
    outcome: Result<RuntimeStats, ErrorReport>,
) -> RuntimeAutotuneCandidateReportView {
    match outcome {
        Ok(stats) => RuntimeAutotuneCandidateReportView {
            name: candidate.name,
            topology: candidate.topology,
            options: candidate.options,
            stats: Some(stats.deep_view()),
            diagnostics: Seq::empty(),
            score_ns: Some(score_of(stats.deep_view(), config.stimulus)),
        },
        Err(e) => RuntimeAutotuneCandidateReportView {
            name: candidate.name,
            topology: candidate.topology,
            options: candidate.options,
            stats: None,
            diagnostics: e.deep_view().diagnostics,
            score_ns: None,
        },
    }
}

/// Reports a candidate whose measurement gave `outcome`.
pub fn evaluate_runtime_autotune_candidate(
    candidate: &RuntimeAutotuneCandidate,
    config: &RuntimeAutotuneConfig,
    outcome: &Result<RuntimeStats, ErrorReport>,
) -> (r: RuntimeAutotuneCandidateReport)
    ensures
        r.deep_view() == candidate_report(candidate.deep_view(), config.deep_view(), *outcome),
{
    match outcome {
        Ok(stats) => {
            let diagnostics: Vec<Diagnostic> = Vec::new();
            proof {
                assert(diagnostics.deep_view() =~= Seq::empty());
            }
            RuntimeAutotuneCandidateReport {
                name: candidate.name.clone(),
                topology: candidate.topology.clone(),
                options: candidate.options,
                stats: Some(stats.clone()),
                diagnostics,
                score_ns: Some(autotune_score(stats, &config.stimulus)),
            }
        },
        Err(e) => {
            let diagnostics = e.diagnostics.clone();
            proof {
                assert(diagnostics.deep_view() =~= e.diagnostics.deep_view());
            }
            RuntimeAutotuneCandidateReport {
                name: candidate.name.clone(),
                topology: candidate.topology.clone(),
                options: candidate.options,
                stats: None,
                diagnostics,
                score_ns: None,
            }
        },
    }
}

// ---------------------------------------------------------------------------
// All candidates
// ---------------------------------------------------------------------------

/// What is wrong with a request.
pub open spec fn autotune_problem(candidates: nat, config: RuntimeAutotuneConfigView) -> Option<
    ErrorReportView,
> {
    if candidates == 0 {
        Some(
            report(
                "E_RUNTIME_AUTOTUNE_CANDIDATES"@,
                "runtime topology autotune requires at least one candidate"@,
            ),
        )
    } else if config.measure_steps == 0 {
        Some(
            report(
                "E_RUNTIME_AUTOTUNE_STEPS"@,
                "runtime topology autotune measure_steps must be greater than zero"@,
            ),
        )
    } else {
        None
    }
}

/// Checks that there are candidates, and steps to measure.
pub fn validate_autotune_request(
    candidates: &Vec<RuntimeAutotuneCandidate>,
    config: &RuntimeAutotuneConfig,
) -> (r: Result<(), ErrorReport>)
    ensures
        fails_with(r, autotune_problem(candidates@.len(), config.deep_view())),
{
    if candidates.len() == 0 {
        return Err(
            error(
                "E_RUNTIME_AUTOTUNE_CANDIDATES",
                "runtime topology autotune requires at least one candidate",
            ),
        );
    }
    if config.measure_steps == 0 {
        return Err(
            error(
                "E_RUNTIME_AUTOTUNE_STEPS",
                "runtime topology autotune measure_steps must be greater than zero",
            ),
        );
    }
    Ok(())
}

/// What is reported of all candidates.
pub open spec fn candidate_reports(
    candidates: Seq<RuntimeAutotuneCandidateView>,
    config: RuntimeAutotuneConfigView,
    outcomes: Seq<Result<RuntimeStats, ErrorReport>>,
) -> Seq<RuntimeAutotuneCandidateReportView> {
    Seq::new(candidates.len(), |i: int| candidate_report(candidates[i], config, outcomes[i]))
}

/// Whether a candidate is the best: the first of those with the lowest score.
pub open spec fn is_best(reports: Seq<RuntimeAutotuneCandidateReportView>, best: int) -> bool {
    &&& 0 <= best < reports.len()
    &&& reports[best].score_ns is Some
    &&& forall|j: int|
        0 <= j < reports.len() && (#[trigger] reports[j]).score_ns is Some ==> {
            &&& reports[best].score_ns->0 <= reports[j].score_ns->0
            &&& j < best ==> reports[best].score_ns->0 < reports[j].score_ns->0
        }
}

/// Whether any of the candidates has a score.
pub open spec fn any_scored(reports: Seq<RuntimeAutotuneCandidateReportView>) -> bool {
    exists|j: int| 0 <= j < reports.len() && (#[trigger] reports[j]).score_ns is Some
}

/// The diagnostics of candidates.
pub open spec fn report_diagnostics(
    reports: Seq<RuntimeAutotuneCandidateReportView>,
) -> spec_fn(int) -> Seq<DiagnosticView> {
    |i: int| reports[i].diagnostics
}

/// That no candidate has a score.
pub open spec fn no_candidate_problem(
    reports: Seq<RuntimeAutotuneCandidateReportView>,
) -> Option<ErrorReportView> {
    if any_scored(reports) {
        None
    } else {
        Some(
            ErrorReportView {
                diagnostics: seq![
                    DiagnosticView {
                        code: "E_RUNTIME_AUTOTUNE_NO_CANDIDATE"@,
                        message: "runtime topology autotune found no successful candidate"@,
                    },
                ] + concat_below(reports.len(), report_diagnostics(reports)),
            },
        )
    }
}

fn best_report(reports: &Vec<RuntimeAutotuneCandidateReport>) -> (r: Option<usize>)
    ensures
        match r {
            Some(best) => is_best(reports.deep_view(), best as int) && any_scored(
                reports.deep_view(),
            ),
            None => !any_scored(reports.deep_view()),
        },
{
    let ghost rs = reports.deep_view();
    let mut best: Option<usize> = None;
    let mut i: usize = 0;
    proof {
        assert(rs.len() == reports@.len());
    }
    while i < reports.len()
        invariant
            i <= reports@.len(),
            rs == reports.deep_view(),
            rs.len() == reports@.len(),
            best matches Some(b) ==> b < i && is_best(rs.take(i as int), b as int)
                && reports@[b as int].score_ns == rs[b as int].score_ns,
            best is None ==> forall|j: int| 0 <= j < i ==> (#[trigger] rs[j]).score_ns is None,
        decreases reports@.len() - i,
    {
        let ghost seen = rs.take(i as int);
        let ghost next = rs.take(i + 1);
        proof {
            assert(rs[i as int] == reports@[i as int].deep_view());
            assert(next =~= seen.push(rs[i as int]));
        }
        if let Some(score) = reports[i].score_ns {
            let better: bool = match best {
                Some(b) => {
                    proof {
                        assert(rs[b as int] == reports@[b as int].deep_view());
                    }
                    match reports[b].score_ns {
                        Some(lowest) => score < lowest,
                        None => true,
                    }
                },
                None => true,
            };
            if better {
                proof {
                    assert forall|j: int|
                        0 <= j < next.len() && (#[trigger] next[j]).score_ns is Some implies {
                        &&& next[i as int].score_ns->0 <= next[j].score_ns->0
                        &&& j < i ==> next[i as int].score_ns->0 < next[j].score_ns->0
                    } by {
                        if j < i {
                            assert(next[j] == seen[j]);
                            assert(rs[j] == seen[j]);
                        }
                    }
                }
                best = Some(i);
            } else {
                proof {
                    let b = best->0 as int;
                    assert(next[b] == seen[b]);
                    assert forall|j: int|
                        0 <= j < next.len() && (#[trigger] next[j]).score_ns is Some implies {
                        &&& next[b].score_ns->0 <= next[j].score_ns->0
                        &&& j < b ==> next[b].score_ns->0 < next[j].score_ns->0
                    } by {
                        if j < i {
                            assert(next[j] == seen[j]);
                        }
                    }
                }
            }
        } else {
            proof {
                if best is Some {
                    let b = best->0 as int;
                    assert(next[b] == seen[b]);
                    assert forall|j: int|
                        0 <= j < next.len() && (#[trigger] next[j]).score_ns is Some implies {
                        &&& next[b].score_ns->0 <= next[j].score_ns->0
                        &&& j < b ==> next[b].score_ns->0 < next[j].score_ns->0
                    } by {
                        if j < i {
                            assert(next[j] == seen[j]);
                        }
                    }
                }
            }
        }
        i = i + 1;
    }
    proof {
        assert(rs.take(i as int) =~= rs);
    }
    best
}

/// Recommends the topology of the candidate with the lowest score. `outcomes` are what the
/// measurements of the candidates gave.
pub fn recommend_runtime_topology(
    candidates: &Vec<RuntimeAutotuneCandidate>,
    config: &RuntimeAutotuneConfig,
    outcomes: &Vec<Result<RuntimeStats, ErrorReport>>,
) -> (r: Result<RuntimeAutotuneReport, ErrorReport>)
    requires
        outcomes@.len() == candidates@.len(),
    ensures
        ({
            let reports = candidate_reports(
                candidates.deep_view(),
                config.deep_view(),
                outcomes@,
            );
            &&& fails_with(
                r,
                or_problem(
                    autotune_problem(candidates@.len(), config.deep_view()),
                    no_candidate_problem(reports),
                ),
            )
            &&& (r matches Ok(found) ==> {
                &&& found.deep_view().candidates == reports
                &&& is_best(reports, found.best_index as int)
            })
        }),
{
    validate_autotune_request(candidates, config)?;
    let ghost cs = candidates.deep_view();
    let ghost c = config.deep_view();
    let ghost g = |i: int| candidate_report(cs[i], c, outcomes@[i]);
    proof {
        assert(cs.len() == candidates@.len());
    }
    let reports = build_items(
        candidates.len(),
        |i: usize| -> (y: RuntimeAutotuneCandidateReport)
            requires
                i < candidates@.len(),
                outcomes@.len() == candidates@.len(),
                cs == candidates.deep_view(),
                c == config.deep_view(),
                g == (|i: int| candidate_report(cs[i], c, outcomes@[i])),
            ensures
                y.deep_view() == g(i as int)
            {
                proof {
                    assert(cs[i as int] == candidates@[i as int].deep_view());
                }
                evaluate_runtime_autotune_candidate(&candidates[i], config, &outcomes[i])
            },
        Ghost(g),
    );
    let ghost rs = reports.deep_view();
    proof {
        assert(rs =~= candidate_reports(cs, c, outcomes@));
    }
    match best_report(&reports) {
        Some(best_index) => Ok(RuntimeAutotuneReport { candidates: reports, best_index }),
        None => {
            let mut found = error(
                "E_RUNTIME_AUTOTUNE_NO_CANDIDATE",
                "runtime topology autotune found no successful candidate",
            );
            let ghost d = report_diagnostics(rs);
            proof {
                assert(rs.len() == reports@.len());
            }
            let more = concat_items(
                reports.len(),
                |i: usize| -> (y: Vec<Diagnostic>)
                    requires
                        i < reports@.len(),
                        rs == reports.deep_view(),
                        d == report_diagnostics(rs),
                    ensures
                        y.deep_view() == d(i as int)
                    {
                        proof {
                            assert(rs[i as int] == reports@[i as int].deep_view());
                        }
                        let y = reports[i].diagnostics.clone();
                        proof {
                            assert(y.deep_view() =~= reports@[i as int].diagnostics.deep_view());
                        }
                        y
                    },
                Ghost(d),
            );
            append_items(&mut found.diagnostics, more);
            Err(found)
        },
    }
}

/// There is at most one best candidate.
pub proof fn lemma_best_is_unique(
    reports: Seq<RuntimeAutotuneCandidateReportView>,
    a: int,
    b: int,
)
    requires
        is_best(reports, a),
        is_best(reports, b),
    ensures
        a == b,
{
    assert(reports[a].score_ns is Some);
    assert(reports[b].score_ns is Some);
}

/// The recommended candidate was measured, and no measured candidate took less time: the time of
/// its single cycles where the steps of a stimulus drive them, and of its batches otherwise. Of
/// candidates that took the same time the first is recommended.
pub proof fn lemma_best_is_fastest(
    candidates: Seq<RuntimeAutotuneCandidateView>,
    config: RuntimeAutotuneConfigView,
    outcomes: Seq<Result<RuntimeStats, ErrorReport>>,
    best: int,
    j: int,
)
    requires
        is_best(candidate_reports(candidates, config, outcomes), best),
        0 <= j < candidates.len(),
        outcomes[j] is Ok,
    ensures
        outcomes[best] is Ok,
        ({
            let fastest = outcomes[best]->Ok_0.deep_view().operations;
            let other = outcomes[j]->Ok_0.deep_view().operations;
            let stepped = config.stimulus is Some && config.stimulus->0.steps.len() > 0;
            &&& stepped ==> fastest.tick.total_ns <= other.tick.total_ns
            &&& stepped && j < best ==> fastest.tick.total_ns < other.tick.total_ns
            &&& !stepped ==> fastest.tick_many.total_ns <= other.tick_many.total_ns
            &&& !stepped && j < best ==> fastest.tick_many.total_ns < other.tick_many.total_ns
        }),
{
    let reports = candidate_reports(candidates, config, outcomes);
    assert(reports[j].score_ns is Some);
    assert(reports[best].score_ns is Some);
}

/// The report of a candidate is about that candidate, and holds its statistics or what went
/// wrong, never both.
pub proof fn lemma_candidate_is_reported(
    candidates: Seq<RuntimeAutotuneCandidateView>,
    config: RuntimeAutotuneConfigView,
    outcomes: Seq<Result<RuntimeStats, ErrorReport>>,
    i: int,
)
    requires
        0 <= i < candidates.len(),
    ensures
        ({
            let reports = candidate_reports(candidates, config, outcomes);
            &&& reports.len() == candidates.len()
            &&& reports[i].name == candidates[i].name
            &&& reports[i].topology == candidates[i].topology
            &&& reports[i].options == candidates[i].options
            &&& reports[i].stats is Some <==> outcomes[i] is Ok
            &&& reports[i].score_ns is Some <==> outcomes[i] is Ok
            &&& outcomes[i] is Ok ==> reports[i].diagnostics.len() == 0 && reports[i].stats == Some(
                outcomes[i]->Ok_0.deep_view(),
            )
            &&& outcomes[i] is Err ==> reports[i].diagnostics
                == outcomes[i]->Err_0.deep_view().diagnostics
        }),
{
}

} // verus!

use rrtl_runtime::model::surrogate::{
    ArtifactFormat, EVENT_RUNTIME_PLAN_SCHEMA, EventPolicyDecision, EventRuntimePlan,
    EventRuntimePlanItem, GEMM_RUNTIME_PLAN_SCHEMA, GemmPolicyDecision, GemmRuntimePlan,
    GemmRuntimePlanItem, GemmRuntimeSourceResult, GemmRuntimeWorkerSummary, ModelFamily, PolicyMode,
    Provenance, RUNTIME_SURROGATE_ATTACHMENT_FORMAT_VERSION, RuntimeSurrogateActionKind,
    RuntimeSurrogateExecutionReport,
};
use rrtl_runtime::model::topology::{RuntimeTopology, RuntimeWorker};
use rrtl_runtime::runtime::{DistributedRuntime, RuntimeProgram};

fn counter_runtime(topology: &RuntimeTopology) -> DistributedRuntime {
    let program = RuntimeProgram {
        top: "Counter".to_string(),
        total_signal_words: 5,
        total_memory_words_per_lane: 0,
        memories: Vec::new(),
    };
    let engines = topology.workers.iter().map(|_| Ok(())).collect();
    DistributedRuntime::new(Ok(program), topology, &engines).unwrap()
}

fn two_cpu_topology() -> RuntimeTopology {
    let mut topology = RuntimeTopology::new();
    topology.push(RuntimeWorker::local_cpu("cpu-a", 2).on_node("node-a"));
    topology.push(RuntimeWorker::local_cpu("cpu-b", 3).on_node("node-b"));
    topology
}

fn surrogate_provenance(exact: bool) -> Provenance {
    Provenance {
        tag: if exact {
            "exact_fallback".to_string()
        } else {
            "surrogate".to_string()
        },
        exact,
        surrogate_id: "gemm_mock".to_string(),
        model_family: ModelFamily::MockGemm,
        artifact_format: ArtifactFormat::MockGemm,
        artifact_hash: "artifact-hash".to_string(),
        source_hash: "source-hash".to_string(),
        policy: PolicyMode::ApproximateWithTolerance,
    }
}

fn single_worker_surrogate_plan() -> GemmRuntimePlan {
    GemmRuntimePlan {
        schema: GEMM_RUNTIME_PLAN_SCHEMA.to_string(),
        ok: true,
        total_lanes: 2,
        workers: vec![GemmRuntimeWorkerSummary {
            worker_id: "worker0".to_string(),
            start_lane: 0,
            lanes: 2,
            assigned_items: 2,
            used_surrogate: 1,
            exact_fallbacks: 1,
        }],
        items: vec![
            GemmRuntimePlanItem {
                index: 0,
                lane: 0,
                worker_id: "worker0".to_string(),
                decision: GemmPolicyDecision::SurrogateUsed,
                provenance: surrogate_provenance(false),
                source_result: GemmRuntimeSourceResult::Surrogate,
                shadow_ok: None,
                shadow_error: None,
                shadow_max_abs_error: None,
                shadow_latency_error_cycles: None,
                shadow_first_divergence: None,
            },
            GemmRuntimePlanItem {
                index: 1,
                lane: 1,
                worker_id: "worker0".to_string(),
                decision: GemmPolicyDecision::ExactFallback,
                provenance: surrogate_provenance(true),
                source_result: GemmRuntimeSourceResult::Exact,
                shadow_ok: None,
                shadow_error: None,
                shadow_max_abs_error: None,
                shadow_latency_error_cycles: None,
                shadow_first_divergence: None,
            },
        ],
        errors: Vec::new(),
    }
}

fn multi_worker_surrogate_plan() -> GemmRuntimePlan {
    GemmRuntimePlan {
        schema: GEMM_RUNTIME_PLAN_SCHEMA.to_string(),
        ok: true,
        total_lanes: 5,
        workers: vec![
            GemmRuntimeWorkerSummary {
                worker_id: "cpu-a".to_string(),
                start_lane: 0,
                lanes: 2,
                assigned_items: 1,
                used_surrogate: 1,
                exact_fallbacks: 0,
            },
            GemmRuntimeWorkerSummary {
                worker_id: "cpu-b".to_string(),
                start_lane: 2,
                lanes: 3,
                assigned_items: 1,
                used_surrogate: 0,
                exact_fallbacks: 1,
            },
        ],
        items: vec![
            GemmRuntimePlanItem {
                index: 0,
                lane: 1,
                worker_id: "cpu-a".to_string(),
                decision: GemmPolicyDecision::SurrogateUsed,
                provenance: surrogate_provenance(false),
                source_result: GemmRuntimeSourceResult::Surrogate,
                shadow_ok: None,
                shadow_error: None,
                shadow_max_abs_error: None,
                shadow_latency_error_cycles: None,
                shadow_first_divergence: None,
            },
            GemmRuntimePlanItem {
                index: 1,
                lane: 4,
                worker_id: "cpu-b".to_string(),
                decision: GemmPolicyDecision::ExactFallback,
                provenance: surrogate_provenance(true),
                source_result: GemmRuntimeSourceResult::Exact,
                shadow_ok: None,
                shadow_error: None,
                shadow_max_abs_error: None,
                shadow_latency_error_cycles: None,
                shadow_first_divergence: None,
            },
        ],
        errors: Vec::new(),
    }
}

fn multi_worker_event_plan() -> EventRuntimePlan {
    EventRuntimePlan {
        schema: EVENT_RUNTIME_PLAN_SCHEMA.to_string(),
        ok: true,
        total_lanes: 5,
        workers: vec![
            GemmRuntimeWorkerSummary {
                worker_id: "cpu-a".to_string(),
                start_lane: 0,
                lanes: 2,
                assigned_items: 1,
                used_surrogate: 1,
                exact_fallbacks: 0,
            },
            GemmRuntimeWorkerSummary {
                worker_id: "cpu-b".to_string(),
                start_lane: 2,
                lanes: 3,
                assigned_items: 1,
                used_surrogate: 0,
                exact_fallbacks: 1,
            },
        ],
        items: vec![
            EventRuntimePlanItem {
                index: 0,
                sample_id: 10,
                lane: 1,
                target: "cache_miss".to_string(),
                worker_id: "cpu-a".to_string(),
                decision: EventPolicyDecision::SurrogateUsed,
                provenance: surrogate_provenance(false),
                source_result: GemmRuntimeSourceResult::Surrogate,
                predicted: None,
                expected: None,
                shadow_ok: None,
                shadow_error: None,
            },
            EventRuntimePlanItem {
                index: 1,
                sample_id: 11,
                lane: 4,
                target: "cache_miss".to_string(),
                worker_id: "cpu-b".to_string(),
                decision: EventPolicyDecision::ExactFallback,
                provenance: surrogate_provenance(true),
                source_result: GemmRuntimeSourceResult::Exact,
                predicted: None,
                expected: None,
                shadow_ok: None,
                shadow_error: None,
            },
        ],
        errors: Vec::new(),
    }
}

#[test]
fn runtime_surrogate_attachment_maps_single_worker_plan() {
    let mut topology = RuntimeTopology::new();
    topology.push(RuntimeWorker::local_cpu("worker0", 2));

    let attachment = topology
        .attach_gemm_runtime_plan(&single_worker_surrogate_plan())
        .unwrap();

    assert_eq!(
        attachment.format_version,
        RUNTIME_SURROGATE_ATTACHMENT_FORMAT_VERSION
    );
    assert!(attachment.health.ready);
    assert_eq!(attachment.total_lanes, 2);
    assert_eq!(attachment.workers.len(), 1);
    assert_eq!(attachment.workers[0].worker_id, "worker0");
    assert_eq!(attachment.workers[0].used_surrogate, 1);
    assert_eq!(attachment.workers[0].exact_fallbacks, 1);
    assert_eq!(attachment.items.len(), 2);
    assert_eq!(
        attachment.items[0].source_result,
        GemmRuntimeSourceResult::Surrogate
    );
    assert_eq!(
        attachment.items[1].source_result,
        GemmRuntimeSourceResult::Exact
    );
}

#[test]
fn runtime_surrogate_attachment_maps_multi_worker_plan() {
    let attachment = two_cpu_topology()
        .attach_gemm_runtime_plan(&multi_worker_surrogate_plan())
        .unwrap();

    assert_eq!(attachment.total_lanes, 5);
    assert_eq!(attachment.health.worker_count, 2);
    assert_eq!(attachment.workers[0].worker_id, "cpu-a");
    assert_eq!(attachment.workers[0].start_lane, 0);
    assert_eq!(attachment.workers[1].worker_id, "cpu-b");
    assert_eq!(attachment.workers[1].start_lane, 2);
    assert_eq!(attachment.health.used_surrogate, 1);
    assert_eq!(attachment.health.exact_fallbacks, 1);
}

#[test]
fn runtime_surrogate_attachment_maps_event_plan() {
    let attachment = two_cpu_topology()
        .attach_event_runtime_plan(&multi_worker_event_plan())
        .unwrap();

    assert_eq!(attachment.plan_schema, EVENT_RUNTIME_PLAN_SCHEMA);
    assert_eq!(attachment.total_lanes, 5);
    assert_eq!(attachment.health.worker_count, 2);
    assert_eq!(attachment.health.item_count, 2);
    assert_eq!(attachment.health.used_surrogate, 1);
    assert_eq!(attachment.health.exact_fallbacks, 1);
    assert_eq!(
        attachment.items[0].decision,
        GemmPolicyDecision::SurrogateUsed
    );
    assert_eq!(attachment.items[0].sample_id, Some(10));
    assert_eq!(attachment.items[0].target.as_deref(), Some("cache_miss"));
    assert_eq!(
        attachment.items[1].decision,
        GemmPolicyDecision::ExactFallback
    );
}

#[test]
fn runtime_surrogate_attachment_reports_event_shadow_counters() {
    let mut plan = multi_worker_event_plan();
    plan.items[1].decision = EventPolicyDecision::ShadowCompare;
    plan.items[1].predicted = Some(1);
    plan.items[1].expected = Some(0);
    plan.items[1].shadow_ok = Some(false);
    plan.items[1].shadow_error = Some("event shadow prediction diverged".to_string());

    let attachment = two_cpu_topology().attach_event_runtime_plan(&plan).unwrap();
    let report = RuntimeSurrogateExecutionReport::inspect_attachment(&attachment);

    assert_eq!(
        attachment.items[1].decision,
        GemmPolicyDecision::ShadowCompare
    );
    assert_eq!(attachment.items[1].shadow_predicted, Some(1));
    assert_eq!(attachment.items[1].shadow_expected, Some(0));
    assert_eq!(report.shadow_compared_items, 1);
    assert_eq!(report.shadow_passed_items, 0);
    assert_eq!(report.shadow_failed_items, 1);
    assert_eq!(report.shadow_unavailable_items, 0);
    assert_eq!(report.exact_fallback_items, 1);
    assert!(report.ready);
    assert!(report.executed);
    assert_eq!(report.event_workers.len(), 2);
    assert_eq!(report.event_workers[1].shadow_failed, 1);
    assert_eq!(report.event_lanes.len(), 2);
    assert_eq!(report.event_items.len(), 2);
    assert_eq!(report.event_items[1].sample_id, Some(11));
    assert_eq!(report.event_items[1].target.as_deref(), Some("cache_miss"));
    assert_eq!(report.event_items[1].predicted, Some(1));
    assert_eq!(report.event_items[1].expected, Some(0));
    assert_eq!(report.event_items[1].shadow_ok, Some(false));
}

#[test]
fn runtime_surrogate_attachment_reports_gemm_shadow_counters() {
    let mut plan = single_worker_surrogate_plan();
    plan.items[1].decision = GemmPolicyDecision::ShadowCompare;
    plan.items[1].shadow_ok = Some(true);
    plan.items[1].shadow_max_abs_error = Some(0);
    plan.items[1].shadow_latency_error_cycles = Some(0);

    let mut topology = RuntimeTopology::new();
    topology.push(RuntimeWorker::local_cpu("worker0", 2));
    let attachment = topology.attach_gemm_runtime_plan(&plan).unwrap();
    let report = RuntimeSurrogateExecutionReport::inspect_attachment(&attachment);

    assert_eq!(
        attachment.items[1].decision,
        GemmPolicyDecision::ShadowCompare
    );
    assert_eq!(attachment.items[1].shadow_max_abs_error, Some(0));
    assert_eq!(report.shadow_compared_items, 1);
    assert_eq!(report.shadow_passed_items, 1);
    assert_eq!(report.shadow_failed_items, 0);
    assert_eq!(report.shadow_unavailable_items, 0);
    assert_eq!(report.exact_fallback_items, 1);
}

#[test]
fn runtime_surrogate_attachment_rejects_unknown_worker() {
    let mut plan = single_worker_surrogate_plan();
    plan.workers[0].worker_id = "missing".to_string();
    plan.items[0].worker_id = "missing".to_string();
    plan.items[1].worker_id = "missing".to_string();

    let err = RuntimeTopology::local_cpu(2)
        .attach_gemm_runtime_plan(&plan)
        .unwrap_err();

    assert_eq!(
        err.diagnostics[0].code,
        "E_RUNTIME_SURROGATE_ATTACHMENT_WORKER"
    );
}

#[test]
fn runtime_surrogate_attachment_rejects_lane_outside_worker_range() {
    let mut plan = multi_worker_surrogate_plan();
    plan.items[0].lane = 3;

    let err = two_cpu_topology()
        .attach_gemm_runtime_plan(&plan)
        .unwrap_err();

    assert_eq!(
        err.diagnostics[0].code,
        "E_RUNTIME_SURROGATE_ATTACHMENT_ITEM"
    );
}

#[test]
fn runtime_surrogate_attachment_rejects_event_lane_outside_worker_range() {
    let mut plan = multi_worker_event_plan();
    plan.items[0].lane = 3;

    let err = two_cpu_topology()
        .attach_event_runtime_plan(&plan)
        .unwrap_err();

    assert_eq!(
        err.diagnostics[0].code,
        "E_RUNTIME_SURROGATE_ATTACHMENT_ITEM"
    );
}

#[test]
fn runtime_surrogate_attachment_rejects_invalid_plan() {
    let mut topology = RuntimeTopology::new();
    topology.push(RuntimeWorker::local_cpu("worker0", 2));
    let mut plan = single_worker_surrogate_plan();
    plan.ok = false;
    plan.errors.push("fail closed".to_string());

    let err = topology.attach_gemm_runtime_plan(&plan).unwrap_err();

    assert_eq!(
        err.diagnostics[0].code,
        "E_RUNTIME_SURROGATE_ATTACHMENT_PLAN"
    );
}

#[test]
fn distributed_runtime_attaches_surrogate_plan() {
    let mut topology = RuntimeTopology::new();
    topology.push(RuntimeWorker::local_cpu("worker0", 2));
    let mut runtime = counter_runtime(&topology);

    runtime
        .attach_surrogate_plan(&single_worker_surrogate_plan())
        .unwrap();

    let attachment = runtime.surrogate_attachment().unwrap();
    assert_eq!(attachment.health.item_count, 2);
    assert_eq!(attachment.health.used_surrogate, 1);
}

#[test]
fn distributed_runtime_records_surrogate_execution_report() {
    let mut topology = RuntimeTopology::new();
    topology.push(RuntimeWorker::local_cpu("worker0", 2));
    let mut runtime = counter_runtime(&topology);

    runtime
        .attach_surrogate_plan(&single_worker_surrogate_plan())
        .unwrap();

    let attached = runtime.surrogate_execution().unwrap();
    assert!(attached.ready);
    assert_eq!(attached.action_count, 0);
    assert_eq!(attached.latest_action_kind, None);
    assert_eq!(attached.surrogate_eligible_items, 1);
    assert_eq!(attached.exact_fallback_items, 1);

    runtime.tick_many(3, &vec![Ok(())], &vec![Some(7)], 9).unwrap();

    let report = runtime.stats().surrogate_execution.unwrap();
    assert_eq!(report.action_count, 1);
    assert_eq!(
        report.latest_action_kind,
        Some(RuntimeSurrogateActionKind::TickMany)
    );
    assert_eq!(report.attached_items, 2);
    assert_eq!(report.surrogate_eligible_items, 1);
    assert_eq!(report.exact_fallback_items, 1);

    runtime.reset_stats();

    let reset = runtime.surrogate_execution().unwrap();
    assert_eq!(reset.action_count, 0);
    assert_eq!(reset.latest_action_kind, None);
}

#[test]
fn distributed_runtime_records_event_surrogate_execution_report() {
    let mut runtime = counter_runtime(&two_cpu_topology());

    runtime
        .attach_event_surrogate_plan(&multi_worker_event_plan())
        .unwrap();
    runtime.tick(&vec![Ok(()), Ok(())], &vec![Some(7), Some(8)], 9).unwrap();

    let report = runtime.stats().surrogate_execution.unwrap();
    assert_eq!(report.plan_schema, EVENT_RUNTIME_PLAN_SCHEMA);
    assert_eq!(report.action_count, 1);
    assert_eq!(
        report.latest_action_kind,
        Some(RuntimeSurrogateActionKind::Tick)
    );
    assert_eq!(report.surrogate_eligible_items, 1);
    assert_eq!(report.exact_fallback_items, 1);
}


#[test]
fn attachments_of_another_version_are_refused() {
    let mut attachment = two_cpu_topology()
        .attach_gemm_runtime_plan(&multi_worker_surrogate_plan())
        .unwrap();
    assert!(attachment.validate_format_version().is_ok());
    attachment.format_version += 1;
    let err = attachment.validate_format_version().unwrap_err();
    assert_eq!(err.diagnostics[0].code, "E_RUNTIME_SURROGATE_ATTACHMENT_VERSION");
    assert_eq!(
        err.diagnostics[0].message,
        "unsupported runtime surrogate attachment format version 2, expected 1"
    );
}

#[test]
fn plans_of_another_schema_are_refused() {
    let mut plan = multi_worker_surrogate_plan();
    plan.schema = "other".to_string();
    let err = two_cpu_topology().attach_gemm_runtime_plan(&plan).unwrap_err();
    assert_eq!(err.diagnostics[0].code, "E_RUNTIME_SURROGATE_ATTACHMENT_SCHEMA");
}

#[test]
fn plans_of_other_lanes_are_refused() {
    let mut plan = multi_worker_surrogate_plan();
    plan.total_lanes = 6;
    let err = two_cpu_topology().attach_gemm_runtime_plan(&plan).unwrap_err();
    assert_eq!(err.diagnostics[0].code, "E_RUNTIME_SURROGATE_ATTACHMENT_LANES");
}

#[test]
fn every_item_is_counted_once() {
    let attachment = two_cpu_topology()
        .attach_event_runtime_plan(&multi_worker_event_plan())
        .unwrap();
    let assigned: usize = attachment.workers.iter().map(|worker| worker.assigned_items).sum();
    assert_eq!(assigned, attachment.items.len());
    assert_eq!(
        attachment.health.used_surrogate + attachment.health.exact_fallbacks,
        attachment.items.len()
    );
    let report = RuntimeSurrogateExecutionReport::from_attachment(
        &attachment,
        Some(RuntimeSurrogateActionKind::Tick),
        4,
    );
    assert_eq!(report.action_count, 4);
    assert_eq!(report.latest_action_kind, Some(RuntimeSurrogateActionKind::Tick));
    assert_eq!(
        report.surrogate_eligible_items + report.exact_fallback_items + report.invalid_items,
        report.attached_items
    );
}

#[test]
fn failed_action_is_counted_but_not_reported() {
    let mut runtime = counter_runtime(&two_cpu_topology());
    runtime.attach_event_surrogate_plan(&multi_worker_event_plan()).unwrap();
    let failure = rrtl_runtime::error::error("E_TEST", "shard failed");
    let err = runtime.tick(&vec![Ok(()), Err(failure)], &vec![Some(1), Some(2)], 3).unwrap_err();
    assert_eq!(err.diagnostics[0].code, "E_TEST");
    let stats = runtime.stats();
    assert_eq!(stats.operations.tick.calls, 1);
    assert_eq!(stats.surrogate_execution.unwrap().action_count, 0);
}

#[test]
fn earlier_problems_come_before_the_lanes_of_workers() {
    let mut plan = multi_worker_surrogate_plan();
    plan.workers[1].start_lane = usize::MAX;
    plan.ok = false;
    let err = two_cpu_topology().attach_gemm_runtime_plan(&plan).unwrap_err();
    assert_eq!(err.diagnostics[0].code, "E_RUNTIME_SURROGATE_ATTACHMENT_PLAN");
    plan.ok = true;
    plan.workers[0].worker_id = "missing".to_string();
    let err = two_cpu_topology().attach_gemm_runtime_plan(&plan).unwrap_err();
    assert!(err.diagnostics[0].message.contains("unknown runtime worker `missing`"));
}

#[test]
fn actions_without_surrogates_are_not_reported() {
    let mut runtime = counter_runtime(&two_cpu_topology());
    runtime.tick(&vec![Ok(()), Ok(())], &vec![Some(1), Some(2)], 3).unwrap();
    assert!(runtime.surrogate_execution().is_none());
    assert_eq!(runtime.stats().operations.tick.calls, 1);
}

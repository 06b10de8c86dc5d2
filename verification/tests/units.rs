use rrtl_runtime::autotune::{
    autotune_cycle_step, autotune_score, evaluate_runtime_autotune_candidate,
    recommend_runtime_topology,
};
use rrtl_runtime::autotune_run::{RuntimeAutotuneRun, RuntimeAutotuneStep};
use rrtl_runtime::checkpoint_run::{RuntimeCheckpointRun, RuntimeCheckpointStep};
use rrtl_runtime::documents::{RuntimeDocument, document_io_error, document_json_error};
use rrtl_runtime::error::{ErrorReport, error};
use rrtl_runtime::model::autotune::{
    RuntimeAutotuneCandidate, RuntimeAutotuneConfig, RuntimeAutotuneStimulus, RuntimeStimulusSetup,
    RuntimeStimulusStep,
};
use rrtl_runtime::model::design::{ModuleId, Signal, SignalId};
use rrtl_runtime::model::protocol::{RuntimeWorkerRequest, RuntimeWorkerResponse};
use rrtl_runtime::model::runtime::{
    DistributedRuntimeOptions, RUNTIME_CHECKPOINT_FORMAT_VERSION, RUNTIME_TELEMETRY_FORMAT_VERSION,
    RuntimeCheckpointCadence, RuntimeCheckpointEvent, RuntimeCheckpointReason,
    RuntimeOperationStats, RuntimeShardHealthStatus, RuntimeShardSnapshot, RuntimeShardStats,
    RuntimeTcpEndpoint, RuntimeWorkerHealth, TcpRuntimeWorkerProcessExit,
    TcpRuntimeWorkerProcessTelemetry,
};
use rrtl_runtime::model::topology::{
    GpuBatchOptions, RuntimeBackend, RuntimeShardInfo, RuntimeTopology, RuntimeWorker,
};
use rrtl_runtime::operations::RuntimeShardAction;
use rrtl_runtime::recovery::tcp_endpoint_list;
use rrtl_runtime::runtime::{DistributedRuntime, RuntimeMemory, RuntimeProgram};
use rrtl_runtime::runtime_actions::{merge_ordered_results, parallel_panic_error};
use rrtl_runtime::runtime_lanes::{check_lane_values, gpu_lane_values, scalar_lane_value};
use rrtl_runtime::runtime_storage::RuntimeShardStorage;
use rrtl_runtime::shard_client::{
    action_request, expect_memory_limbs, expect_signal_limbs, expect_worker_health, restore_storage,
    snapshot_storage,
};
use rrtl_runtime::supervisor::{TcpRuntimeSupervisor, TcpRuntimeSupervisorHealth};
use rrtl_runtime::transport::{
    RuntimeTimeout, TcpRuntimeTransportConfig, TcpRuntimeWorkerProcessConfig, TransportFailure,
    first_socket_addr, frame_content, request_content, response_content, startup_line, tcp_io_error,
    tcp_json_error, worker_lock_error,
};
use rrtl_runtime::words::{decode_u128_limbs, encode_u128_limbs};
use rrtl_runtime::worker_cli::WorkerConfig;
use rrtl_runtime::worker_process::{
    ProcessStatus, TcpRuntimeSupervisorConfig, TcpRuntimeWorkerProcess, TcpRuntimeWorkerProcessSet,
    parse_worker_startup_addr, startup_content, worker_process_io_error,
};

fn program() -> RuntimeProgram {
    RuntimeProgram {
        top: "Counter".to_string(),
        total_signal_words: 2,
        total_memory_words_per_lane: 1,
        memories: vec![RuntimeMemory {
            source: signal(9),
            width: 40,
        }],
    }
}

fn signal(id: u32) -> Signal {
    Signal {
        module: ModuleId(0),
        id: SignalId(id),
    }
}

fn topology() -> RuntimeTopology {
    let mut topology = RuntimeTopology::new();
    topology.push(RuntimeWorker::local_cpu("cpu-a", 2));
    topology.push(RuntimeWorker::local_cpu("cpu-b", 1));
    topology
}

fn runtime() -> DistributedRuntime {
    DistributedRuntime::new(Ok(program()), &topology(), &vec![Ok(()), Ok(())]).unwrap()
}

fn storages() -> Vec<RuntimeShardStorage> {
    vec![
        RuntimeShardStorage {
            values: vec![1, 2, 3, 4],
            memories: vec![5, 6],
        },
        RuntimeShardStorage {
            values: vec![7, 8],
            memories: vec![9],
        },
    ]
}

fn endpoint(worker_id: &str, addr: &str) -> RuntimeTcpEndpoint {
    RuntimeTcpEndpoint {
        worker_id: worker_id.to_string(),
        addr: addr.to_string(),
    }
}

fn endpoints() -> Vec<RuntimeTcpEndpoint> {
    vec![
        endpoint("cpu-b", "127.0.0.1:2"),
        endpoint("cpu-a", "127.0.0.1:1"),
    ]
}

fn supervisor() -> TcpRuntimeSupervisor {
    TcpRuntimeSupervisor::new("Counter".to_string(), topology(), runtime(), endpoints())
}

#[test]
fn limbs_hold_the_bits_of_their_width() {
    assert_eq!(encode_u128_limbs(0x1_0000_0002, 64), vec![2, 1]);
    assert_eq!(encode_u128_limbs(u128::MAX, 36), vec![u32::MAX, 15]);
    assert_eq!(encode_u128_limbs(5, 0), Vec::<u32>::new());
    assert_eq!(encode_u128_limbs(u128::MAX, 160), vec![u32::MAX, u32::MAX, u32::MAX, u32::MAX, 0]);
    assert_eq!(decode_u128_limbs(&vec![2, 1]), 0x1_0000_0002);
    assert_eq!(decode_u128_limbs(&vec![1, 0, 0, 0, 77]), 1);
    assert_eq!(decode_u128_limbs(&Vec::new()), 0);
    for value in [0, 1, 0xdead_beef_0000_0001, u128::MAX] {
        assert_eq!(decode_u128_limbs(&encode_u128_limbs(value, 128)), value);
    }
}

#[test]
fn frames_are_whole_lines() {
    let ended = "worker closed the connection";
    assert_eq!(frame_content("{}\n", ended).unwrap(), "{}");
    assert_eq!(frame_content("\n", ended).unwrap(), "");
    assert_eq!(frame_content("a\nb\n\n", ended).unwrap(), "a\nb");
    for line in ["", "{}"] {
        let err = frame_content(line, ended).unwrap_err();
        assert_eq!(err.diagnostics[0].code, "E_RUNTIME_TCP_EOF");
        assert_eq!(err.diagnostics[0].message, ended);
    }
}

#[test]
fn failures_of_a_connection_have_codes() {
    for (failure, code) in [
        (TransportFailure::TimedOut, "E_RUNTIME_TCP_TIMEOUT"),
        (TransportFailure::WouldBlock, "E_RUNTIME_TCP_TIMEOUT"),
        (TransportFailure::UnexpectedEof, "E_RUNTIME_TCP_EOF"),
        (TransportFailure::Other, "E_RUNTIME_TCP_IO"),
    ] {
        let err = tcp_io_error(failure, "gone");
        assert_eq!(err.diagnostics[0].code, code);
        assert_eq!(err.diagnostics[0].message, "TCP worker transport I/O error: gone");
    }
}

#[test]
fn worker_processes_are_told_their_options() {
    let mut config = TcpRuntimeWorkerProcessConfig::new(b"worker".to_vec());
    assert_eq!(
        config.worker_process_command(),
        vec![
            "--bind",
            "127.0.0.1:0",
            "--read-timeout-ms",
            "30000",
            "--write-timeout-ms",
            "30000",
        ]
    );
    config.read_timeout = None;
    config.max_connections = Some(3);
    let args = config.worker_process_command();
    assert_eq!(args[3], "none");
    assert_eq!(args[6..], ["--max-connections".to_string(), "3".to_string()]);
    let invalid = args.iter().map(|_| None).collect();
    let parsed = WorkerConfig::parse(&args, &invalid).unwrap();
    assert_eq!(parsed.transport.read_timeout, None);
    assert_eq!(parsed.transport.write_timeout, Some(RuntimeTimeout::from_secs(30)));

    // What is shorter than a millisecond is held, but not told.
    config.read_timeout = Some(RuntimeTimeout { secs: 2, subsec_nanos: 3_999_999 });
    config.write_timeout = Some(RuntimeTimeout { secs: 0, subsec_nanos: 1 });
    let args = config.worker_process_command();
    assert_eq!(args[3], "2003");
    assert_eq!(args[5], "0");
    let parsed = WorkerConfig::parse(&args, &args.iter().map(|_| None).collect()).unwrap();
    assert_eq!(parsed.transport.read_timeout, Some(RuntimeTimeout::from_millis(2003)));
    config.read_timeout = Some(RuntimeTimeout { secs: u64::MAX, subsec_nanos: 999_999_999 });
    let args = config.worker_process_command();
    assert_eq!(args[3], "18446744073709551615999");
    WorkerConfig::parse(&args, &args.iter().map(|_| None).collect()).unwrap_err();

    // A path need not be text.
    let path = vec![b'/', 0xff, b'w'];
    assert_eq!(TcpRuntimeWorkerProcessConfig::new(path.clone()).executable, path);

    assert_eq!(startup_line("127.0.0.1:7"), "{\"addr\":\"127.0.0.1:7\"}");
    assert_eq!(TcpRuntimeTransportConfig::default().connect_timeout, RuntimeTimeout::from_secs(5));
}

#[test]
fn document_failures_name_the_document() {
    let err = document_io_error(RuntimeDocument::PartitionPlan, "denied");
    assert_eq!(err.diagnostics[0].code, "E_RUNTIME_PARTITION_PLAN_IO");
    assert_eq!(
        err.diagnostics[0].message,
        "runtime partition plan I/O error: denied"
    );
    let err = document_json_error(RuntimeDocument::SurrogateAttachment, "eof");
    assert_eq!(err.diagnostics[0].code, "E_RUNTIME_SURROGATE_ATTACHMENT_JSON");
    assert_eq!(
        err.diagnostics[0].message,
        "runtime surrogate attachment JSON error: eof"
    );
}

#[test]
fn supervisors_recover_only_from_a_checkpoint() {
    let mut supervisor = supervisor();
    assert_eq!(supervisor.module_name(), "Counter");
    assert_eq!(supervisor.latest_checkpoint(), None);
    let err = supervisor.recovery_checkpoint().unwrap_err();
    assert_eq!(err.diagnostics[0].code, "E_RUNTIME_SUPERVISOR_CHECKPOINT");

    supervisor.checkpoint(&storages()).unwrap();
    let checkpoint = supervisor.recovery_checkpoint().unwrap();
    assert_eq!(checkpoint.module_name, "Counter");
    assert_eq!(checkpoint.snapshot.shards[1].values, vec![7, 8]);
    assert_eq!(supervisor.latest_checkpoint_event(), None);

    let event = RuntimeCheckpointEvent {
        completed_steps: 4,
        reason: RuntimeCheckpointReason::Cadence,
    };
    supervisor.keep_checkpoint(None);
    assert_eq!(supervisor.latest_checkpoint_event(), None);
    supervisor.keep_checkpoint(Some((event, checkpoint)));
    assert_eq!(supervisor.latest_checkpoint_event(), Some(event));
}

#[test]
fn supervisors_take_over_restarted_workers() {
    let mut supervisor = supervisor();
    supervisor.checkpoint(&storages()).unwrap();
    let fresh = vec![
        endpoint("cpu-a", "127.0.0.1:11"),
        endpoint("cpu-b", "127.0.0.1:12"),
    ];
    let exits = vec![TcpRuntimeWorkerProcessExit {
        worker_id: "cpu-a".to_string(),
        success: false,
        code: Some(9),
    }];
    let report = supervisor
        .recover_from_latest_checkpoint(fresh.clone(), exits.clone(), &storages())
        .unwrap();
    assert_eq!(report.restarted_workers, exits);
    assert_eq!(
        report.runtime_recovery.recovered_workers,
        vec!["cpu-a".to_string(), "cpu-b".to_string()]
    );
    assert_eq!(supervisor.endpoints(), &fresh);
    assert_eq!(supervisor.last_recovery(), Some(&report));
    assert_eq!(supervisor.latest_checkpoint().unwrap().tcp_endpoints, fresh);

    let err = supervisor
        .recover_from_latest_checkpoint(vec![endpoint("other", "127.0.0.1:1")], exits, &storages())
        .unwrap_err();
    assert_eq!(err.diagnostics[0].code, "E_RUNTIME_CHECKPOINT_ENDPOINT");
}

#[test]
fn supervisors_report_health_or_why_there_is_none() {
    let mut supervisor = supervisor();
    let telemetry = supervisor.telemetry(Vec::new(), Err(error("E_RUNTIME_TCP_IO", "gone")));
    assert_eq!(telemetry.format_version, RUNTIME_TELEMETRY_FORMAT_VERSION);
    assert_eq!(telemetry.topology, topology());
    assert_eq!(telemetry.endpoints[0], endpoint("cpu-a", "127.0.0.1:1"));
    assert_eq!(telemetry.endpoints[1], endpoint("cpu-b", "127.0.0.1:2"));
    assert_eq!(telemetry.runtime_health, None);
    assert_eq!(
        telemetry.runtime_health_error.unwrap().diagnostics[0].code,
        "E_RUNTIME_TCP_IO"
    );
    assert_eq!(telemetry.latest_checkpoint, None);

    supervisor.checkpoint(&storages()).unwrap();
    let health = runtime().health(&vec![None, None]);
    let processes = vec![TcpRuntimeWorkerProcessTelemetry {
        worker_id: "cpu-a".to_string(),
        endpoint: "127.0.0.1:1".to_string(),
        running: true,
        exit: None,
    }];
    let telemetry = supervisor.telemetry(processes.clone(), Ok(health.clone()));
    assert_eq!(telemetry.processes, processes);
    assert_eq!(telemetry.runtime_health, Some(health));
    assert_eq!(telemetry.runtime_health_error, None);
    assert_eq!(telemetry.latest_checkpoint.unwrap().event, None);
}

#[test]
fn workers_that_do_not_answer_are_unhealthy() {
    let worker = |initialized: bool, shard: Option<RuntimeShardInfo>| RuntimeWorkerHealth {
        worker_id: "cpu-a".to_string(),
        initialized,
        shard,
        operations: None,
    };
    let plan = runtime().shard_plan();
    let replies = vec![Some(worker(false, None)), None];
    let health = runtime().health(&replies);
    assert_eq!(health.total_lanes, 3);
    assert_ne!(health.shards[0].status, RuntimeShardHealthStatus::Healthy);
    assert_eq!(health.shards[1].status, RuntimeShardHealthStatus::Healthy);
    let replies = vec![Some(worker(true, Some(plan[0].clone()))), None];
    let health = runtime().health(&replies);
    assert_eq!(health.shards[0].status, RuntimeShardHealthStatus::Healthy);
}

#[test]
fn checkpoints_keep_topology_and_endpoints() {
    let checkpoint = runtime()
        .checkpoint_with_tcp_endpoints(&endpoints(), &storages())
        .unwrap();
    assert_eq!(checkpoint.format_version, RUNTIME_CHECKPOINT_FORMAT_VERSION);
    assert_eq!(checkpoint.module_name, "Counter");
    assert_eq!(checkpoint.topology, topology());
    let sorted = vec![
        endpoint("cpu-a", "127.0.0.1:1"),
        endpoint("cpu-b", "127.0.0.1:2"),
    ];
    assert_eq!(checkpoint.tcp_endpoints, sorted);
    assert_eq!(checkpoint.tcp_endpoint_map(&vec![None, None]).unwrap(), sorted);
    assert_eq!(tcp_endpoint_list(&endpoints()), sorted);
    assert_eq!(runtime().restore_checkpoint(&checkpoint).unwrap(), storages());
}

#[test]
fn lanes_are_split_by_shard_and_come_back_in_order() {
    let runtime = runtime();
    let parts = runtime.set_input(signal(1), &vec![10, 20, 30]).unwrap();
    assert_eq!(parts[0].lane_values, vec![10, 20]);
    assert_eq!(parts[1].lane_values, vec![30]);
    let limbs = vec![vec![1, 2], vec![3, 0], vec![5, 6]];
    let parts = runtime.set_input_limbs(signal(1), &limbs).unwrap();
    let parts = parts.into_iter().map(|part| part.lane_values).collect();
    assert_eq!(runtime.get_signal_limbs(parts), limbs);
    assert_eq!(
        runtime.get_signal(vec![vec![vec![1], vec![0, 1]], vec![vec![7]]]),
        vec![1, 1 << 32, 7]
    );
}

#[test]
fn memory_words_come_back_masked_to_their_width() {
    let runtime = runtime();
    let words = vec![vec![1, 1 << 39], vec![2, 3], vec![1 << 41, u128::MAX]];
    let parts = runtime.set_memory(signal(9), &words).unwrap();
    assert_eq!(parts[0].lane_words[0], vec![vec![1, 0], vec![0, 128]]);
    let parts = parts.into_iter().map(|part| part.lane_words).collect();
    assert_eq!(
        runtime.get_memory(signal(9), parts).unwrap(),
        vec![vec![1, 1 << 39], vec![2, 3], vec![0, (1 << 40) - 1]]
    );
    assert_eq!(runtime.memory_ty(signal(9)).unwrap(), 40);
    let err = runtime.memory_ty(signal(1)).unwrap_err();
    assert_eq!(err.diagnostics[0].code, "E_RUNTIME_MEMORY");
}

#[test]
fn engines_take_what_they_can_hold() {
    assert_eq!(scalar_lane_value(&vec![5]).unwrap(), 5);
    let err = scalar_lane_value(&vec![5, 6]).unwrap_err();
    assert_eq!(err.diagnostics[0].code, "E_RUNTIME_LANE_VALUES");
    assert_eq!(gpu_lane_values(&vec![1, 2]).unwrap(), vec![1, 2]);
    let err = gpu_lane_values(&vec![1, 1 << 32]).unwrap_err();
    assert_eq!(err.diagnostics[0].code, "E_RUNTIME_WIDE_SIGNAL");
}

#[test]
fn runtimes_start_only_with_what_they_need() {
    let code = |r: Result<DistributedRuntime, ErrorReport>| {
        r.unwrap_err().diagnostics[0].code.clone()
    };
    let started = vec![Ok(()), Ok(())];
    let options = DistributedRuntimeOptions::default();
    let lowered = Err(error("E_UNKNOWN_MODULE", "unknown"));
    assert_eq!(
        code(DistributedRuntime::new(lowered, &topology(), &started)),
        "E_UNKNOWN_MODULE"
    );
    let failed = vec![Ok(()), Err(error("E_GPU", "no adapter"))];
    assert_eq!(
        code(DistributedRuntime::new_loopback_workers(
            Ok(program()),
            &topology(),
            options,
            &failed
        )),
        "E_GPU"
    );
    assert_eq!(
        code(DistributedRuntime::new_tcp_workers(
            Ok(program()),
            &topology(),
            options,
            &vec![endpoint("cpu-a", "127.0.0.1:1")],
            &started
        )),
        "E_RUNTIME_TCP_ENDPOINT"
    );
}

#[test]
fn failed_shards_are_reported_in_order_and_counted() {
    let mut runtime = runtime();
    let results = vec![
        Err(error("E_FIRST", "first")),
        Err(error("E_SECOND", "second")),
    ];
    let err = runtime.tick(&results, &vec![Some(3), Some(4)], 9).unwrap_err();
    assert_eq!(err, merge_ordered_results(&results).unwrap_err());
    assert_eq!(err.diagnostics[0].code, "E_FIRST");
    let stats = runtime.stats();
    assert_eq!(stats.operations.tick.calls, 1);
    assert_eq!(stats.operations.tick.total_ns, 9);
    assert_eq!(stats.shards[1].operations.tick.last_ns, 4);
    assert_eq!(merge_ordered_results(&vec![Ok(()), Ok(())]), Ok(()));

    let panicked = vec![Ok(()), Err(parallel_panic_error(None))];
    let err = runtime.tick(&panicked, &vec![Some(5), None], 6).unwrap_err();
    assert_eq!(err.diagnostics[0].code, "E_RUNTIME_PARALLEL");
    let stats = runtime.stats();
    assert_eq!(stats.operations.tick.calls, 2);
    assert_eq!(stats.shards[0].operations.tick.calls, 2);
    assert_eq!(stats.shards[1].operations.tick.calls, 1);
}

#[test]
fn panics_of_shards_are_reported() {
    let said = parallel_panic_error(Some("boom"));
    assert!(said.diagnostics[0].message.contains("boom"));
    let silent = parallel_panic_error(None);
    assert_eq!(said.diagnostics[0].code, silent.diagnostics[0].code);
    assert_ne!(said.diagnostics[0].message, silent.diagnostics[0].message);
}

#[test]
fn checkpoint_runs_tick_up_to_each_checkpoint() {
    let cadence = RuntimeCheckpointCadence {
        every_steps: 3,
        include_initial: true,
        include_final: true,
    };
    let mut run = RuntimeCheckpointRun::begin(7, cadence).unwrap();
    let mut ticks = Vec::new();
    let mut emitted = Vec::new();
    let report = loop {
        match run.advance() {
            RuntimeCheckpointStep::Tick(steps) => ticks.push(steps),
            RuntimeCheckpointStep::Emit(event) => emitted.push(event.completed_steps),
            RuntimeCheckpointStep::Done(report) => break report,
        }
    };
    assert_eq!(ticks, vec![3, 3, 1]);
    assert_eq!(emitted, vec![0, 3, 6, 7]);
    assert_eq!(report.completed_steps, 7);
    assert_eq!(report.checkpoints_emitted, 4);
}

#[test]
fn measurements_warm_up_then_measure() {
    let mut config = RuntimeAutotuneConfig {
        warmup_steps: 2,
        measure_steps: 5,
        stimulus: None,
    };
    let steps = |config: &RuntimeAutotuneConfig| {
        let mut run = RuntimeAutotuneRun::begin();
        let mut steps = Vec::new();
        loop {
            let step = run.advance(config);
            if step == RuntimeAutotuneStep::Done {
                return steps;
            }
            steps.push(step);
        }
    };
    assert_eq!(
        steps(&config),
        vec![
            RuntimeAutotuneStep::TickMany(2),
            RuntimeAutotuneStep::ResetStats,
            RuntimeAutotuneStep::TickMany(5),
        ]
    );
    config.measure_steps = 3;
    config.warmup_steps = 0;
    config.stimulus = Some(RuntimeAutotuneStimulus {
        setup: RuntimeStimulusSetup::default(),
        steps: vec![RuntimeStimulusStep::default(), RuntimeStimulusStep::default()],
    });
    assert_eq!(
        steps(&config),
        vec![
            RuntimeAutotuneStep::Setup,
            RuntimeAutotuneStep::ResetStats,
            RuntimeAutotuneStep::Apply(0),
            RuntimeAutotuneStep::Tick,
            RuntimeAutotuneStep::Apply(1),
            RuntimeAutotuneStep::Tick,
            RuntimeAutotuneStep::Apply(0),
            RuntimeAutotuneStep::Tick,
        ]
    );
}

#[test]
fn the_first_of_equally_fast_candidates_is_best() {
    let candidates: Vec<RuntimeAutotuneCandidate> = ["slow", "fast", "as-fast"]
        .into_iter()
        .map(|name| RuntimeAutotuneCandidate {
            name: name.to_string(),
            topology: topology(),
            options: DistributedRuntimeOptions::default(),
        })
        .collect();
    let config = RuntimeAutotuneConfig::default();
    let outcome = |elapsed_ns: u128| {
        let mut runtime = runtime();
        runtime.tick_many(16, &vec![Ok(()), Ok(())], &vec![Some(1), Some(1)], elapsed_ns)?;
        Ok(runtime.stats())
    };
    let outcomes = vec![outcome(30), outcome(20), outcome(20)];
    let report = recommend_runtime_topology(&candidates, &config, &outcomes).unwrap();
    assert_eq!(report.best_index, 1);
    assert_eq!(report.candidates[0].score_ns, Some(30));
    let scored = evaluate_runtime_autotune_candidate(&candidates[1], &config, &outcomes[1]);
    assert_eq!(scored, report.candidates[1]);
    assert_eq!(autotune_score(&outcome(7).unwrap(), &None), 7);
    assert_eq!(autotune_cycle_step(&None, 3), None);
}

#[test]
fn requests_and_responses_are_whole_lines() {
    assert_eq!(request_content(""), Ok(None));
    assert_eq!(request_content("{}\n").unwrap(), Some("{}".to_string()));
    let err = request_content("{}").unwrap_err();
    assert_eq!(
        err.diagnostics[0].message,
        "TCP worker request ended before newline frame delimiter"
    );
    assert_eq!(response_content("[]\n").unwrap(), "[]");
    let err = response_content("").unwrap_err();
    assert_eq!(err.diagnostics[0].code, "E_RUNTIME_TCP_EOF");
    assert_eq!(
        err.diagnostics[0].message,
        "TCP worker response ended before newline frame delimiter"
    );
    let err = tcp_json_error("eof");
    assert_eq!(err.diagnostics[0].code, "E_RUNTIME_TCP_JSON");
    assert_eq!(err.diagnostics[0].message, "TCP worker transport JSON error: eof");
    assert_eq!(worker_lock_error().diagnostics[0].code, "E_RUNTIME_WORKER_LOCK");
}

#[test]
fn the_first_address_of_a_name_is_used() {
    let addrs = vec!["127.0.0.1:1".to_string(), "127.0.0.1:2".to_string()];
    assert_eq!(first_socket_addr(&addrs).unwrap(), "127.0.0.1:1");
    let err = first_socket_addr(&Vec::new()).unwrap_err();
    assert_eq!(err.diagnostics[0].code, "E_RUNTIME_TCP_ADDR");
}

#[test]
fn worker_processes_say_where_they_listen() {
    let line = format!("{}\n", startup_line("127.0.0.1:7"));
    assert_eq!(startup_content("cpu-a", &line).unwrap(), "{\"addr\":\"127.0.0.1:7\"}");
    let err = startup_content("cpu-a", "").unwrap_err();
    assert_eq!(err.diagnostics[0].code, "E_RUNTIME_WORKER_PROCESS");
    assert_eq!(
        err.diagnostics[0].message,
        "worker process `cpu-a` exited before reporting an endpoint"
    );
    let found = Ok(("127.0.0.1:7".to_string(), None));
    assert_eq!(parse_worker_startup_addr(found).unwrap(), "127.0.0.1:7");
    let err = parse_worker_startup_addr(Err("expected value".to_string())).unwrap_err();
    assert_eq!(err.diagnostics[0].code, "E_RUNTIME_WORKER_PROCESS_STARTUP");
    assert_eq!(
        err.diagnostics[0].message,
        "worker process startup line is not valid JSON: expected value"
    );
    let bad = Ok(("here".to_string(), Some("invalid syntax".to_string())));
    let err = parse_worker_startup_addr(bad).unwrap_err();
    assert_eq!(
        err.diagnostics[0].message,
        "worker process startup address `here` is not a socket address: invalid syntax"
    );
    let err = worker_process_io_error("denied");
    assert_eq!(err.diagnostics[0].code, "E_RUNTIME_WORKER_PROCESS_IO");
}

#[test]
fn the_end_of_a_process_is_remembered() {
    let failed = ProcessStatus {
        success: false,
        code: Some(9),
    };
    let other = ProcessStatus {
        success: true,
        code: Some(0),
    };
    let mut process =
        TcpRuntimeWorkerProcess::new("cpu-a".to_string(), "127.0.0.1:7".to_string());
    assert_eq!(process.worker_id(), "cpu-a");
    assert_eq!(process.endpoint(), "127.0.0.1:7");
    assert!(process.health(None).running);
    assert!(process.kill(None));
    let exit = process.wait(failed);
    assert_eq!(exit.code, Some(9));
    assert_eq!(process.wait(other), exit);
    assert!(!process.kill(None));
    let health = process.health(Some(other));
    assert!(!health.running);
    assert_eq!(health.exit, Some(exit.clone()));
    let telemetry = health.telemetry();
    assert_eq!(telemetry.exit, Some(exit));
    assert!(!telemetry.running);

    let mut ended = TcpRuntimeWorkerProcess::new("cpu-b".to_string(), "127.0.0.1:8".to_string());
    assert!(!ended.kill(Some(failed)));
    let set = TcpRuntimeWorkerProcessSet {
        processes: vec![process, ended],
    };
    assert_eq!(
        set.endpoints(),
        vec![
            endpoint("cpu-a", "127.0.0.1:7"),
            endpoint("cpu-b", "127.0.0.1:8")
        ]
    );
}

#[test]
fn supervisor_health_has_the_runtime_or_its_failure() {
    let health = runtime().health(&vec![None, None]);
    let found = TcpRuntimeSupervisorHealth::new(Vec::new(), Ok(health.clone()));
    assert_eq!(found.runtime, Some(health));
    assert_eq!(found.runtime_error, None);
    let failure = error("E_RUNTIME_TCP_IO", "gone");
    let found = TcpRuntimeSupervisorHealth::new(Vec::new(), Err(failure.clone()));
    assert_eq!(found.runtime, None);
    assert_eq!(found.runtime_error, Some(failure));
    let config = TcpRuntimeSupervisorConfig::new(TcpRuntimeWorkerProcessConfig::new(b"worker".to_vec()));
    assert_eq!(config.runtime_options, DistributedRuntimeOptions::default());
    assert_eq!(config.transport, TcpRuntimeTransportConfig::default());
}

#[test]
fn shards_elsewhere_answer_what_they_are_asked() {
    let ack = || RuntimeWorkerResponse::Ack;
    let expected = |r: &ErrorReport| r.diagnostics[0].message.clone();
    let err = expect_signal_limbs(ack()).unwrap_err();
    assert_eq!(err.diagnostics[0].code, "E_RUNTIME_WORKER_RESPONSE");
    assert_eq!(expected(&err), "expected worker response GetSignalLimbs, got Ack");
    let err = expect_memory_limbs(ack()).unwrap_err();
    assert_eq!(expected(&err), "expected worker response GetMemoryLimbs, got Ack");
    let err = snapshot_storage(ack()).unwrap_err();
    assert_eq!(expected(&err), "expected worker response Snapshot, got Ack");
    let err = expect_worker_health(ack()).unwrap_err();
    assert_eq!(expected(&err), "expected worker response Health, got Ack");
    let storage = storages().remove(0);
    let err = restore_storage("cpu-a".to_string(), ack(), storage).unwrap_err();
    assert_eq!(expected(&err), "expected worker response Stats, got Ack");

    let storage = storages().remove(0);
    let shard = runtime().shard_plan().remove(0);
    let stats = RuntimeWorkerResponse::Stats(RuntimeShardStats {
        shard: shard.clone(),
        operations: RuntimeOperationStats::default(),
    });
    assert_eq!(
        restore_storage("cpu-a".to_string(), stats, storage).unwrap(),
        RuntimeWorkerRequest::RestoreSnapshot {
            worker_id: "cpu-a".to_string(),
            snapshot: RuntimeShardSnapshot {
                shard,
                values: vec![1, 2, 3, 4],
                memories: vec![5, 6],
            },
        }
    );
    assert_eq!(
        action_request("cpu-a".to_string(), RuntimeShardAction::TickMany(4)),
        RuntimeWorkerRequest::TickMany {
            worker_id: "cpu-a".to_string(),
            steps: 4,
        }
    );
}

#[test]
fn memories_are_checked_before_they_are_read() {
    let runtime = runtime();
    runtime.validate_memory_words(signal(9)).unwrap();
    let err = runtime.validate_memory_words(signal(4)).unwrap_err();
    assert_eq!(err.diagnostics[0].code, "E_RUNTIME_MEMORY");

    let mut wide = program();
    wide.memories[0].width = 129;
    let runtime =
        DistributedRuntime::new(Ok(wide), &topology(), &vec![Ok(()), Ok(())]).unwrap();
    let err = runtime.validate_memory_words(signal(9)).unwrap_err();
    assert_eq!(err.diagnostics[0].code, "E_RUNTIME_WIDE_MEMORY");
    assert_eq!(
        err.diagnostics[0].message,
        "use get_memory_limbs for memories wider than 128 bits"
    );
}

#[test]
fn the_longest_runs_can_be_begun() {
    let cadence = RuntimeCheckpointCadence {
        every_steps: 1 << 20,
        include_initial: true,
        include_final: true,
    };
    let mut run = RuntimeCheckpointRun::begin(usize::MAX, cadence).unwrap();
    assert_eq!(
        run.advance(),
        RuntimeCheckpointStep::Emit(RuntimeCheckpointEvent {
            completed_steps: 0,
            reason: RuntimeCheckpointReason::Initial,
        })
    );
    assert_eq!(run.advance(), RuntimeCheckpointStep::Tick(1 << 20));
    let cadence = RuntimeCheckpointCadence::every_steps(1);
    let mut run = RuntimeCheckpointRun::begin(usize::MAX, cadence).unwrap();
    assert_eq!(run.advance(), RuntimeCheckpointStep::Tick(1));
    let cadence = RuntimeCheckpointCadence::every_steps(0);
    let err = RuntimeCheckpointRun::begin(usize::MAX, cadence).unwrap_err();
    assert_eq!(err.diagnostics[0].code, "E_RUNTIME_CHECKPOINT_CADENCE");
}

#[test]
fn backends_take_the_values_that_suit_them() {
    let wide = vec![1u128 << 32];
    let many = vec![1u128, 2];
    check_lane_values(RuntimeBackend::ScalarCpu, &wide).unwrap();
    let err = check_lane_values(RuntimeBackend::ScalarCpu, &many).unwrap_err();
    assert_eq!(err.diagnostics[0].message, "expected one scalar lane value, got 2");
    let gpu = RuntimeBackend::Gpu(GpuBatchOptions::default());
    check_lane_values(gpu, &many).unwrap();
    let err = check_lane_values(gpu, &wide).unwrap_err();
    assert_eq!(err.diagnostics[0].code, "E_RUNTIME_WIDE_SIGNAL");
    for backend in [RuntimeBackend::PackedCpu, RuntimeBackend::SimdCpu, RuntimeBackend::JitCpu] {
        check_lane_values(backend, &wide).unwrap();
        check_lane_values(backend, &many).unwrap();
    }
}

use rrtl_runtime::communication::plan_runtime_partition_communication;
use rrtl_runtime::deployment::{
    deploy_runtime_partition_launch_local, validate_partition_deployment_launch,
};
use rrtl_runtime::error::{ErrorReport, error};
use rrtl_runtime::launch::plan_runtime_partition_launch;
use rrtl_runtime::loopback::deploy_runtime_partition_launch_loopback;
use rrtl_runtime::model::communication::{
    RUNTIME_PARTITION_COMMUNICATION_FORMAT_VERSION, RuntimePartitionCommunicationDiagnosticCode,
    RuntimePartitionCommunicationPlan, RuntimePartitionCommunicationRecommendationCode,
};
use rrtl_runtime::model::design::{
    CompiledAssignment, CompiledConnection, CompiledDesign, CompiledInstance, CompiledMemoryWrite,
    CompiledModule, CompiledRegister, Expr, ModuleId, PortDirection, Signal, SignalId, SignalInfo,
    SignalKind,
};
use rrtl_runtime::model::launch::{
    RUNTIME_PARTITION_BUNDLE_FORMAT_VERSION, RUNTIME_PARTITION_LAUNCH_FORMAT_VERSION,
    RuntimePartitionBundle, RuntimePartitionBundleSource, RuntimePartitionLaunchDiagnosticSource,
    RuntimePartitionLaunchPlan,
};
use rrtl_runtime::model::partition::{
    RUNTIME_PARTITION_PLAN_FORMAT_VERSION, RuntimePartitionConfig, RuntimePartitionCost,
    RuntimePartitionDiagnosticCode, RuntimePartitionDiagnosticSeverity, RuntimePartitionPlan,
    RuntimePartitionRecommendationCode, RuntimePartitionSignalKind,
};
use rrtl_runtime::model::placement::{
    RUNTIME_PARTITION_PLACEMENT_FORMAT_VERSION, RuntimePartitionPlacementDiagnosticCode,
    RuntimePartitionPlacementPlan, RuntimePartitionPlacementRecommendationCode,
};
use rrtl_runtime::model::protocol::{RuntimeWorkerRequest, RuntimeWorkerResponse, RuntimeWorkerStep};
use rrtl_runtime::model::runtime::{RuntimeOperationStats, RuntimeTcpEndpoint};
use rrtl_runtime::model::session::{
    RuntimePartitionDeploymentReport, RuntimePartitionRouteMailboxReport,
    RuntimePartitionRoutePayload, RuntimePartitionSessionActionReport,
    RuntimePartitionSessionRunEvent, RuntimePartitionSessionRunEventReason,
    RuntimePartitionSessionRunReport, RuntimePartitionSessionRunScript,
    RuntimePartitionWorkerAction, RuntimePartitionWorkerActionKind, RuntimePartitionWorkerInit,
};
use rrtl_runtime::model::topology::{GpuBatchOptions, RuntimeTopology, RuntimeWorker};
use rrtl_runtime::placement::plan_runtime_partition_placement;
use rrtl_runtime::remote_session::{
    deploy_runtime_partition_worker, partition_session_worker_endpoint, report_deployment,
};
use rrtl_runtime::responses::expect_ack;
use rrtl_runtime::script_run::{RuntimePartitionScriptRun, RuntimePartitionScriptStep};
use rrtl_runtime::service::LocalRuntimeWorkerService;
use rrtl_runtime::session::RuntimePartitionSession;
use rrtl_runtime::session_actions::validate_partition_session_ready;
use rrtl_runtime::session_script::{
    RuntimePartitionTelemetryLog, RuntimePartitionTelemetryReplies,
    validate_partition_session_run_script,
};
use rrtl_runtime::slices::slice_groups_for_partition_plan;

// A small design builder: modules, their signals and expressions, in the order of declaration.

fn uint(width: u32) -> u32 {
    width
}

#[derive(Clone, Copy)]
struct Sig(Signal);

enum Ex {
    Lit(u128, u32),
    Sig(Signal),
    Sum(Box<Ex>, Box<Ex>),
    Mux(Box<Ex>, Box<Ex>, Box<Ex>),
    Read(Signal, Box<Ex>),
}

impl From<Sig> for Ex {
    fn from(sig: Sig) -> Ex {
        Ex::Sig(sig.0)
    }
}

impl std::ops::Add<Ex> for Sig {
    type Output = Ex;

    fn add(self, rhs: Ex) -> Ex {
        Ex::Sum(Box::new(Ex::Sig(self.0)), Box::new(rhs))
    }
}

impl std::ops::Add<Ex> for Ex {
    type Output = Ex;

    fn add(self, rhs: Ex) -> Ex {
        Ex::Sum(Box::new(self), Box::new(rhs))
    }
}

fn lit_u(value: u128, width: u32) -> Ex {
    Ex::Lit(value, width)
}

fn mux(cond: impl Into<Ex>, yes: impl Into<Ex>, no: impl Into<Ex>) -> Ex {
    Ex::Mux(Box::new(cond.into()), Box::new(yes.into()), Box::new(no.into()))
}

fn lower(ex: Ex) -> Expr {
    match ex {
        Ex::Lit(value, width) => Expr::Lit { value, width },
        Ex::Sig(signal) => Expr::Signal(signal),
        Ex::Sum(a, b) => Expr::Add(Box::new(lower(*a)), Box::new(lower(*b))),
        Ex::Mux(c, a, b) => Expr::Mux {
            cond: Box::new(lower(*c)),
            then_expr: Box::new(lower(*a)),
            else_expr: Box::new(lower(*b)),
        },
        Ex::Read(memory, addr) => Expr::MemRead { memory, addr: Box::new(lower(*addr)) },
    }
}

struct Design {
    compiled: CompiledDesign,
}

struct Builder<'a> {
    design: &'a mut Design,
    index: usize,
}

impl Design {
    fn new() -> Design {
        Design { compiled: CompiledDesign { modules: Vec::new() } }
    }

    fn add(&mut self, name: &str, is_external: bool) -> Builder<'_> {
        self.compiled.modules.push(CompiledModule {
            name: name.to_string(),
            is_external,
            signals: Vec::new(),
            assignments: Vec::new(),
            registers: Vec::new(),
            memory_writes: Vec::new(),
            assertions: Vec::new(),
            cover_points: Vec::new(),
            instances: Vec::new(),
        });
        let index = self.compiled.modules.len() - 1;
        Builder { design: self, index }
    }

    fn module(&mut self, name: &str) -> Builder<'_> {
        self.add(name, false)
    }

    fn opaque_module(&mut self, name: &str) -> Builder<'_> {
        self.add(name, true)
    }
}

impl Builder<'_> {
    fn this(&mut self) -> &mut CompiledModule {
        &mut self.design.compiled.modules[self.index]
    }

    fn declare(&mut self, name: &str, width: u32, kind: SignalKind) -> Sig {
        let module = ModuleId(self.index as u32);
        let signals = &mut self.this().signals;
        let handle = Signal { module, id: SignalId(signals.len() as u32) };
        signals.push(SignalInfo { handle, name: name.to_string(), width, kind });
        Sig(handle)
    }

    fn input(&mut self, name: &str, width: u32) -> Sig {
        self.declare(name, width, SignalKind::Input)
    }

    fn output(&mut self, name: &str, width: u32) -> Sig {
        self.declare(name, width, SignalKind::Output)
    }

    fn reg(&mut self, name: &str, width: u32) -> Sig {
        self.declare(name, width, SignalKind::Reg)
    }

    fn mem(&mut self, name: &str, addr_width: u32, data_width: u32, depth: usize) -> Sig {
        self.declare(name, data_width, SignalKind::Mem { addr_width, data_width, depth })
    }

    fn clock(&mut self, _reg: Sig, _clk: Sig) {}

    fn reset(&mut self, _reg: Sig, _rst: Sig, _value: u128) {}

    fn next(&mut self, reg: Sig, next: Ex) {
        self.this().registers.push(CompiledRegister { signal: reg.0, next: lower(next) });
    }

    fn assign(&mut self, target: Sig, expr: impl Into<Ex>) {
        let expr = lower(expr.into());
        self.this().assignments.push(CompiledAssignment { target: target.0, expr });
    }

    fn mem_read(&mut self, memory: Sig, addr: Sig) -> Ex {
        Ex::Read(memory.0, Box::new(addr.into()))
    }

    fn mem_write(&mut self, memory: Sig, _clk: Sig, enable: Sig, addr: Sig, data: Sig) {
        self.this().memory_writes.push(CompiledMemoryWrite {
            memory: memory.0,
            enable: Expr::Signal(enable.0),
            addr: Expr::Signal(addr.0),
            data: Expr::Signal(data.0),
        });
    }

    fn instance<const N: usize>(&mut self, name: &str, module: &str, ports: [(&str, Sig); N]) {
        let mut connections = Vec::new();
        for (port, signal) in ports {
            let child = self.design.compiled.modules.iter().find(|m| m.name == module).unwrap();
            let info = child.signals.iter().find(|s| s.name == port).unwrap();
            connections.push(CompiledConnection {
                port: port.to_string(),
                signal: signal.0,
                direction: match info.kind {
                    SignalKind::Input => PortDirection::Input,
                    SignalKind::Output => PortDirection::Output,
                    _ => PortDirection::Inout,
                },
                width: info.width,
            });
        }
        self.this().instances.push(CompiledInstance {
            name: name.to_string(),
            module: module.to_string(),
            connections,
        });
    }
}

fn plan_runtime_partitions(
    design: &Design,
    module_name: &str,
    config: RuntimePartitionConfig,
) -> Result<RuntimePartitionPlan, ErrorReport> {
    rrtl_runtime::partitions::plan_runtime_partitions(&design.compiled, module_name, config)
}

fn plan_runtime_partition_bundle(
    design: &Design,
    module_name: &str,
    config: RuntimePartitionConfig,
    topology: &RuntimeTopology,
) -> Result<RuntimePartitionBundle, ErrorReport> {
    rrtl_runtime::pipeline::plan_runtime_partition_bundle(
        &design.compiled,
        module_name,
        config,
        topology,
    )
}

/// Handles requests that need no engine.
trait HandleNow {
    fn handle_now(
        &mut self,
        request: RuntimeWorkerRequest,
    ) -> Result<RuntimeWorkerResponse, ErrorReport>;
}

impl HandleNow for LocalRuntimeWorkerService {
    fn handle_now(
        &mut self,
        request: RuntimeWorkerRequest,
    ) -> Result<RuntimeWorkerResponse, ErrorReport> {
        match self.handle(request)? {
            RuntimeWorkerStep::Respond(response) => Ok(response),
            RuntimeWorkerStep::Engine(_) => panic!("no engine is asked for"),
        }
    }
}

fn counter_design() -> (Design, Sig, Sig) {
    let mut design = Design::new();
    let en;
    let out;
    {
        let mut m = design.module("Counter");
        let clk = m.input("clk", uint(1));
        let rst = m.input("rst", uint(1));
        en = m.input("en", uint(1));
        out = m.output("out", uint(8));
        let count = m.reg("count", uint(8));

        m.clock(count, clk);
        m.reset(count, rst, 0);
        m.next(count, mux(en, count + lit_u(1, 8), count));
        m.assign(out, count);
    }
    (design, en, out)
}

fn memory_design() -> (Design, Sig, Sig, Sig, Sig, Sig) {
    let mut design = Design::new();
    let (we, addr, data, mem, read);
    {
        let mut m = design.module("MemoryTop");
        let clk = m.input("clk", uint(1));
        we = m.input("we", uint(1));
        addr = m.input("addr", uint(2));
        data = m.input("data", uint(8));
        mem = m.mem("mem", 2, uint(8), 4);
        read = m.output("read", uint(8));
        let read_expr = m.mem_read(mem, addr);
        m.assign(read, read_expr);
        m.mem_write(mem, clk, we, addr, data);
    }
    (design, we, addr, data, mem, read)
}

fn two_child_hierarchy_design() -> (Design, Sig, Sig, Sig, Sig) {
    let mut design = Design::new();
    {
        let mut m = design.module("AddOne");
        let a = m.input("a", uint(8));
        let y = m.output("y", uint(8));
        m.assign(y, a + lit_u(1, 8));
    }

    let (a0, a1, y0, y1);
    {
        let mut m = design.module("Top");
        a0 = m.input("a0", uint(8));
        a1 = m.input("a1", uint(8));
        y0 = m.output("y0", uint(8));
        y1 = m.output("y1", uint(8));
        m.instance("u0", "AddOne", [("a", a0), ("y", y0)]);
        m.instance("u1", "AddOne", [("a", a1), ("y", y1)]);
    }
    (design, a0, a1, y0, y1)
}

fn wide_child_hierarchy_design() -> Design {
    let mut design = Design::new();
    {
        let mut m = design.module("WideChild");
        let a = m.input("a", uint(160));
        let y = m.output("y", uint(160));
        m.assign(y, a);
    }
    {
        let mut m = design.module("WideTop");
        let a = m.input("a", uint(160));
        let y = m.output("y", uint(160));
        m.instance("u_wide", "WideChild", [("a", a), ("y", y)]);
    }
    design
}

fn high_boundary_hierarchy_design() -> Design {
    let mut design = Design::new();
    {
        let mut m = design.module("HighBoundaryChild");
        let a = m.input("a", uint(1024));
        let y = m.output("y", uint(1024));
        m.assign(y, a);
    }
    {
        let mut m = design.module("HighBoundaryTop");
        let a = m.input("a", uint(1024));
        let y = m.output("y", uint(1024));
        m.instance("u_wide", "HighBoundaryChild", [("a", a), ("y", y)]);
    }
    design
}

fn high_cross_worker_boundary_design() -> Design {
    let mut design = Design::new();
    {
        let mut m = design.module("CrossWorkerWideChild");
        let a = m.input("a", uint(1024));
        let y = m.output("y", uint(1024));
        m.assign(y, a);
    }
    {
        let mut m = design.module("CrossWorkerWideTop");
        let a = m.input("a", uint(1024));
        let y = m.output("y", uint(1024));
        let tap = m.output("tap", uint(1));
        m.assign(tap, lit_u(1, 1));
        m.instance("u_wide", "CrossWorkerWideChild", [("a", a), ("y", y)]);
    }
    design
}

fn imbalanced_hierarchy_design() -> Design {
    let mut design = Design::new();
    {
        let mut m = design.module("HeavyChild");
        let a = m.input("a", uint(8));
        let y = m.output("y", uint(8));
        let mut expr = a + lit_u(1, 8);
        for value in 2..32 {
            expr = expr + lit_u(value, 8);
        }
        m.assign(y, expr);
    }
    {
        let mut m = design.module("LightChild");
        let a = m.input("a", uint(8));
        let y = m.output("y", uint(8));
        m.assign(y, a);
    }
    {
        let mut m = design.module("ImbalancedTop");
        let a0 = m.input("a0", uint(8));
        let a1 = m.input("a1", uint(8));
        let a2 = m.input("a2", uint(8));
        let y0 = m.output("y0", uint(8));
        let y1 = m.output("y1", uint(8));
        let y2 = m.output("y2", uint(8));
        m.instance("u_heavy", "HeavyChild", [("a", a0), ("y", y0)]);
        m.instance("u_light0", "LightChild", [("a", a1), ("y", y1)]);
        m.instance("u_light1", "LightChild", [("a", a2), ("y", y2)]);
    }
    design
}

fn empty_partition_hierarchy_design() -> Design {
    let mut design = Design::new();
    {
        let mut m = design.module("EmptyChild");
        m.input("a", uint(8));
    }
    {
        let mut m = design.module("EmptyTop");
        let a = m.input("a", uint(8));
        m.instance("u_empty", "EmptyChild", [("a", a)]);
    }
    design
}

fn external_partition_hierarchy_design() -> Design {
    let mut design = Design::new();
    {
        let mut opaque = design.opaque_module("VendorChild");
        opaque.input("a", uint(8));
        opaque.output("y", uint(8));
    }
    {
        let mut m = design.module("ExternalTop");
        let a = m.input("a", uint(8));
        let y = m.output("y", uint(8));
        m.instance("u_vendor", "VendorChild", [("a", a), ("y", y)]);
    }
    design
}

fn recursive_partition_hierarchy_design() -> Design {
    let mut design = Design::new();
    {
        let mut m = design.module("RecursiveLeaf");
        let a = m.input("a", uint(8));
        let y = m.output("y", uint(8));
        m.assign(y, a + lit_u(1, 8));
    }
    {
        let mut m = design.module("RecursiveMid");
        let a0 = m.input("a0", uint(8));
        let a1 = m.input("a1", uint(8));
        let y0 = m.output("y0", uint(8));
        let y1 = m.output("y1", uint(8));
        let tap = m.output("tap", uint(8));
        m.assign(tap, a0);
        m.instance("u_leaf0", "RecursiveLeaf", [("a", a0), ("y", y0)]);
        m.instance("u_leaf1", "RecursiveLeaf", [("a", a1), ("y", y1)]);
    }
    {
        let mut m = design.module("RecursiveTop");
        let a0 = m.input("a0", uint(8));
        let a1 = m.input("a1", uint(8));
        let y0 = m.output("y0", uint(8));
        let y1 = m.output("y1", uint(8));
        let tap = m.output("tap", uint(8));
        m.instance(
            "u_mid",
            "RecursiveMid",
            [("a0", a0), ("a1", a1), ("y0", y0), ("y1", y1), ("tap", tap)],
        );
    }
    design
}

fn recursive_external_hierarchy_design() -> Design {
    let mut design = Design::new();
    {
        let mut opaque = design.opaque_module("RecursiveVendor");
        opaque.input("a", uint(8));
        opaque.output("y", uint(8));
    }
    {
        let mut m = design.module("RecursiveExternalMid");
        let a = m.input("a", uint(8));
        let y = m.output("y", uint(8));
        let tap = m.output("tap", uint(8));
        m.assign(tap, a);
        m.instance("u_vendor", "RecursiveVendor", [("a", a), ("y", y)]);
    }
    {
        let mut m = design.module("RecursiveExternalTop");
        let a = m.input("a", uint(8));
        let y = m.output("y", uint(8));
        let tap = m.output("tap", uint(8));
        m.instance(
            "u_mid",
            "RecursiveExternalMid",
            [("a", a), ("y", y), ("tap", tap)],
        );
    }
    design
}

fn two_cpu_topology() -> RuntimeTopology {
    let mut topology = RuntimeTopology::new();
    topology.push(RuntimeWorker::local_cpu("cpu-a", 2).on_node("node-a"));
    topology.push(RuntimeWorker::local_cpu("cpu-b", 3).on_node("node-b"));
    topology
}

fn recursive_partition_bundle_parts() -> (
    RuntimePartitionPlan,
    RuntimePartitionPlacementPlan,
    RuntimePartitionCommunicationPlan,
) {
    let design = recursive_partition_hierarchy_design();
    let partition_plan = plan_runtime_partitions(
        &design,
        "RecursiveTop",
        RuntimePartitionConfig {
            target_partitions: 3,
        },
    )
    .unwrap();
    let placement_plan =
        plan_runtime_partition_placement(&partition_plan, &two_cpu_topology()).unwrap();
    let communication_plan =
        plan_runtime_partition_communication(&partition_plan, &placement_plan).unwrap();
    (partition_plan, placement_plan, communication_plan)
}

fn recursive_partition_launch() -> RuntimePartitionLaunchPlan {
    let (partition_plan, placement_plan, communication_plan) =
        recursive_partition_bundle_parts();
    let bundle =
        RuntimePartitionBundle::from_plans(partition_plan, placement_plan, communication_plan)
            .unwrap();
    plan_runtime_partition_launch(&bundle).unwrap()
}

#[test]
fn runtime_partition_planner_reports_single_module_state() {
    let (design, _, _) = counter_design();
    let plan = plan_runtime_partitions(
        &design,
        "Counter",
        RuntimePartitionConfig {
            target_partitions: 4,
        },
    )
    .unwrap();

    assert_eq!(plan.format_version, RUNTIME_PARTITION_PLAN_FORMAT_VERSION);
    assert_eq!(plan.module_name, "Counter");
    assert_eq!(plan.partitions.len(), 1);
    assert!(plan.boundary_signals.is_empty());
    assert!(plan.total_cost.compute_ops > 0);
    assert_eq!(plan.total_cost.state_bits, 8);
    assert!(plan.diagnostics.iter().any(|diagnostic| {
        diagnostic.code == RuntimePartitionDiagnosticCode::TargetUnderfilled
            && diagnostic.severity == RuntimePartitionDiagnosticSeverity::Info
    }));
    assert!(plan.partitions[0]
        .signals
        .iter()
        .any(|signal| signal.signal_name == "count"
            && signal.kind == RuntimePartitionSignalKind::Register));
}

#[test]
fn runtime_partition_planner_reports_child_boundaries() {
    let (design, _, _, _, _) = two_child_hierarchy_design();
    let plan = plan_runtime_partitions(
        &design,
        "Top",
        RuntimePartitionConfig {
            target_partitions: 2,
        },
    )
    .unwrap();

    assert_eq!(plan.partitions.len(), 2);
    assert_eq!(
        plan.partitions
            .iter()
            .map(|partition| partition.instance_path.clone())
            .collect::<Vec<_>>(),
        vec![
            vec!["Top".to_string(), "u0".to_string()],
            vec!["Top".to_string(), "u1".to_string()],
        ]
    );
    assert_eq!(plan.boundary_signals.len(), 4);
    assert_eq!(plan.total_cost.boundary_bits, 32);
    assert!(plan.diagnostics.is_empty());
    assert!(plan.recommendations.is_empty());
    assert!(plan.boundary_signals.iter().any(|boundary| {
        boundary.instance_path == vec!["Top".to_string(), "u0".to_string()]
            && boundary.port_name == "a"
            && boundary.producer_partition.is_none()
            && boundary.consumer_partitions == vec!["p0".to_string()]
    }));
    assert!(plan.boundary_signals.iter().any(|boundary| {
        boundary.instance_path == vec!["Top".to_string(), "u1".to_string()]
            && boundary.port_name == "y"
            && boundary.producer_partition == Some("p1".to_string())
            && boundary.consumer_partitions.is_empty()
    }));
}

#[test]
fn runtime_partition_planner_reports_memory_cost() {
    let (design, _, _, _, _, _) = memory_design();
    let plan = plan_runtime_partitions(
        &design,
        "MemoryTop",
        RuntimePartitionConfig {
            target_partitions: 1,
        },
    )
    .unwrap();

    assert_eq!(plan.partitions.len(), 1);
    assert_eq!(plan.total_cost.memory_bits, 32);
    assert!(plan.partitions[0]
        .signals
        .iter()
        .any(|signal| signal.signal_name == "mem"
            && signal.kind == RuntimePartitionSignalKind::Memory));
}

#[test]
fn runtime_partition_planner_uses_signal_width_for_boundary_cost() {
    let design = wide_child_hierarchy_design();
    let plan = plan_runtime_partitions(
        &design,
        "WideTop",
        RuntimePartitionConfig {
            target_partitions: 2,
        },
    )
    .unwrap();

    let input_boundary = plan
        .boundary_signals
        .iter()
        .find(|boundary| boundary.port_name == "a")
        .unwrap();
    assert_eq!(input_boundary.width, 160);
    assert_eq!(input_boundary.cost.boundary_bits, 160);
}

#[test]
fn runtime_partition_planner_reports_target_underfill() {
    let (design, _, _, _, _) = two_child_hierarchy_design();
    let plan = plan_runtime_partitions(
        &design,
        "Top",
        RuntimePartitionConfig {
            target_partitions: 4,
        },
    )
    .unwrap();

    assert_eq!(plan.partitions.len(), 2);
    assert!(plan.diagnostics.iter().any(|diagnostic| {
        diagnostic.code == RuntimePartitionDiagnosticCode::TargetUnderfilled
            && diagnostic.severity == RuntimePartitionDiagnosticSeverity::Info
    }));
    assert!(plan.recommendations.iter().any(|recommendation| {
        recommendation.code == RuntimePartitionRecommendationCode::IncreaseHierarchy
    }));
}

#[test]
fn runtime_partition_planner_recursively_splits_deep_hierarchy() {
    let design = recursive_partition_hierarchy_design();
    let plan = plan_runtime_partitions(
        &design,
        "RecursiveTop",
        RuntimePartitionConfig {
            target_partitions: 3,
        },
    )
    .unwrap();

    assert_eq!(
        plan.partitions
            .iter()
            .map(|partition| partition.instance_path.clone())
            .collect::<Vec<_>>(),
        vec![
            vec!["RecursiveTop".to_string(), "u_mid".to_string()],
            vec![
                "RecursiveTop".to_string(),
                "u_mid".to_string(),
                "u_leaf0".to_string()
            ],
            vec![
                "RecursiveTop".to_string(),
                "u_mid".to_string(),
                "u_leaf1".to_string()
            ],
        ]
    );
    assert!(plan.diagnostics.is_empty());
    assert!(plan.recommendations.is_empty());
}

#[test]
fn runtime_partition_planner_reports_recursive_boundaries() {
    let design = recursive_partition_hierarchy_design();
    let plan = plan_runtime_partitions(
        &design,
        "RecursiveTop",
        RuntimePartitionConfig {
            target_partitions: 3,
        },
    )
    .unwrap();

    assert!(plan.boundary_signals.iter().any(|boundary| {
        boundary.instance_path == vec!["RecursiveTop".to_string(), "u_mid".to_string()]
            && boundary.port_name == "a0"
            && boundary.consumer_partitions == vec!["p0".to_string()]
    }));
    assert!(plan.boundary_signals.iter().any(|boundary| {
        boundary.instance_path
            == vec![
                "RecursiveTop".to_string(),
                "u_mid".to_string(),
                "u_leaf0".to_string(),
            ]
            && boundary.port_name == "a"
            && boundary.producer_partition == Some("p0".to_string())
            && boundary.consumer_partitions == vec!["p1".to_string()]
    }));
    assert!(plan.boundary_signals.iter().any(|boundary| {
        boundary.instance_path
            == vec![
                "RecursiveTop".to_string(),
                "u_mid".to_string(),
                "u_leaf1".to_string(),
            ]
            && boundary.port_name == "y"
            && boundary.producer_partition == Some("p2".to_string())
            && boundary.consumer_partitions == vec!["p0".to_string()]
    }));
    assert_eq!(plan.total_cost.boundary_bits, 72);
}

#[test]
fn runtime_partition_planner_avoids_recursive_cost_double_counting() {
    let design = recursive_partition_hierarchy_design();
    let plan = plan_runtime_partitions(
        &design,
        "RecursiveTop",
        RuntimePartitionConfig {
            target_partitions: 3,
        },
    )
    .unwrap();

    let mid = plan
        .partitions
        .iter()
        .find(|partition| partition.module_name == "RecursiveMid")
        .unwrap();
    let leaf_costs = plan
        .partitions
        .iter()
        .filter(|partition| partition.module_name == "RecursiveLeaf")
        .map(|partition| partition.cost.compute_ops)
        .collect::<Vec<_>>();
    assert_eq!(mid.cost.compute_ops, 1);
    assert_eq!(leaf_costs, vec![3, 3]);
    assert_eq!(plan.total_cost.compute_ops, 7);
}

#[test]
fn runtime_partition_planner_stops_recursive_split_at_external_module() {
    let design = recursive_external_hierarchy_design();
    let plan = plan_runtime_partitions(
        &design,
        "RecursiveExternalTop",
        RuntimePartitionConfig {
            target_partitions: 3,
        },
    )
    .unwrap();

    assert_eq!(plan.partitions.len(), 2);
    assert!(plan.partitions.iter().any(|partition| {
        partition.external
            && partition.instance_path
                == vec![
                    "RecursiveExternalTop".to_string(),
                    "u_mid".to_string(),
                    "u_vendor".to_string(),
                ]
    }));
    assert!(plan.diagnostics.iter().any(|diagnostic| {
        diagnostic.code == RuntimePartitionDiagnosticCode::ExternalModuleOpaque
    }));
    assert!(plan.diagnostics.iter().any(|diagnostic| {
        diagnostic.code == RuntimePartitionDiagnosticCode::TargetUnderfilled
    }));
}

#[test]
fn runtime_partition_planner_reports_compute_imbalance() {
    let design = imbalanced_hierarchy_design();
    let plan = plan_runtime_partitions(
        &design,
        "ImbalancedTop",
        RuntimePartitionConfig {
            target_partitions: 3,
        },
    )
    .unwrap();

    let heavy = plan
        .partitions
        .iter()
        .find(|partition| partition.module_name == "HeavyChild")
        .unwrap();
    assert!(plan.diagnostics.iter().any(|diagnostic| {
        diagnostic.code == RuntimePartitionDiagnosticCode::PartitionImbalance
            && diagnostic.severity == RuntimePartitionDiagnosticSeverity::Warning
            && diagnostic.partition_id.as_deref() == Some(heavy.id.as_str())
    }));
    assert!(plan.recommendations.iter().any(|recommendation| {
        recommendation.code == RuntimePartitionRecommendationCode::SplitHeavyPartition
            && recommendation.partition_id.as_deref() == Some(heavy.id.as_str())
    }));
}

#[test]
fn runtime_partition_planner_reports_high_boundary_cost() {
    let design = high_boundary_hierarchy_design();
    let plan = plan_runtime_partitions(
        &design,
        "HighBoundaryTop",
        RuntimePartitionConfig {
            target_partitions: 2,
        },
    )
    .unwrap();

    assert!(plan
        .boundary_signals
        .iter()
        .any(|boundary| boundary.width == 1024));
    assert!(plan.diagnostics.iter().any(|diagnostic| {
        diagnostic.code == RuntimePartitionDiagnosticCode::HighBoundaryCost
            && diagnostic.severity == RuntimePartitionDiagnosticSeverity::Warning
            && diagnostic.boundary_index.is_some()
    }));
    assert!(plan.recommendations.iter().any(|recommendation| {
        recommendation.code == RuntimePartitionRecommendationCode::CoLocateBoundary
            && recommendation.boundary_index.is_some()
    }));
}

#[test]
fn runtime_partition_planner_reports_empty_partition() {
    let design = empty_partition_hierarchy_design();
    let plan = plan_runtime_partitions(
        &design,
        "EmptyTop",
        RuntimePartitionConfig {
            target_partitions: 1,
        },
    )
    .unwrap();

    assert_eq!(plan.partitions.len(), 1);
    assert!(plan.diagnostics.iter().any(|diagnostic| {
        diagnostic.code == RuntimePartitionDiagnosticCode::EmptyPartition
            && diagnostic.severity == RuntimePartitionDiagnosticSeverity::Warning
            && diagnostic.partition_id.as_deref() == Some("p0")
    }));
    assert!(plan.recommendations.iter().any(|recommendation| {
        recommendation.code == RuntimePartitionRecommendationCode::ReduceTargetPartitions
            && recommendation.partition_id.as_deref() == Some("p0")
    }));
}

#[test]
fn runtime_partition_planner_reports_external_module_opacity() {
    let design = external_partition_hierarchy_design();
    let plan = plan_runtime_partitions(
        &design,
        "ExternalTop",
        RuntimePartitionConfig {
            target_partitions: 2,
        },
    )
    .unwrap();

    assert!(plan.partitions[0].external);
    assert!(plan.diagnostics.iter().any(|diagnostic| {
        diagnostic.code == RuntimePartitionDiagnosticCode::ExternalModuleOpaque
            && diagnostic.severity == RuntimePartitionDiagnosticSeverity::Info
            && diagnostic.partition_id.as_deref() == Some("p0")
    }));
    assert!(plan.recommendations.iter().any(|recommendation| {
        recommendation.code == RuntimePartitionRecommendationCode::InspectExternalModule
            && recommendation.partition_id.as_deref() == Some("p0")
    }));
    assert!(!plan
        .diagnostics
        .iter()
        .any(|diagnostic| diagnostic.code == RuntimePartitionDiagnosticCode::EmptyPartition));
}

#[test]
fn runtime_partition_planner_validates_inputs() {
    let (design, _, _) = counter_design();
    let err = plan_runtime_partitions(
        &design,
        "Counter",
        RuntimePartitionConfig {
            target_partitions: 0,
        },
    )
    .unwrap_err();
    assert_eq!(err.diagnostics[0].code, "E_RUNTIME_PARTITION_CONFIG");

    let err = plan_runtime_partitions(&design, "Missing", RuntimePartitionConfig::default())
        .unwrap_err();
    assert_eq!(err.diagnostics[0].code, "E_RUNTIME_PARTITION_MODULE");
}

#[test]
fn runtime_partition_placement_maps_recursive_plan_to_cpu_workers() {
    let design = recursive_partition_hierarchy_design();
    let partition_plan = plan_runtime_partitions(
        &design,
        "RecursiveTop",
        RuntimePartitionConfig {
            target_partitions: 3,
        },
    )
    .unwrap();
    let placement =
        plan_runtime_partition_placement(&partition_plan, &two_cpu_topology()).unwrap();

    assert_eq!(
        placement
            .assignments
            .iter()
            .map(|assignment| {
                (
                    assignment.partition_id.as_str(),
                    assignment.worker_id.as_str(),
                )
            })
            .collect::<Vec<_>>(),
        vec![("p0", "cpu-a"), ("p1", "cpu-a"), ("p2", "cpu-b")]
    );
    assert_eq!(placement.worker_summaries.len(), 2);
    assert_eq!(placement.worker_summaries[0].worker_id, "cpu-a");
    assert_eq!(placement.worker_summaries[0].cost.compute_ops, 4);
    assert_eq!(placement.worker_summaries[1].worker_id, "cpu-b");
    assert_eq!(placement.worker_summaries[1].cost.compute_ops, 3);
    assert!(placement.diagnostics.iter().any(|diagnostic| {
        diagnostic.code == RuntimePartitionPlacementDiagnosticCode::UnderProvisionedWorkers
            && diagnostic.severity == RuntimePartitionDiagnosticSeverity::Info
    }));
}

#[test]
fn runtime_partition_placement_balances_heavy_partitions_first() {
    let design = imbalanced_hierarchy_design();
    let partition_plan = plan_runtime_partitions(
        &design,
        "ImbalancedTop",
        RuntimePartitionConfig {
            target_partitions: 3,
        },
    )
    .unwrap();
    let mut topology = RuntimeTopology::new();
    topology.push(RuntimeWorker::local_cpu("cpu-a", 2));
    topology.push(RuntimeWorker::local_cpu("cpu-b", 2));
    topology.push(RuntimeWorker::local_cpu("cpu-c", 2));
    let placement = plan_runtime_partition_placement(&partition_plan, &topology).unwrap();

    let heavy = placement
        .assignments
        .iter()
        .find(|assignment| assignment.instance_path.ends_with(&["u_heavy".to_string()]))
        .unwrap();
    assert_eq!(heavy.worker_id, "cpu-a");
    assert!(placement.diagnostics.iter().any(|diagnostic| {
        diagnostic.code == RuntimePartitionPlacementDiagnosticCode::WorkerImbalance
            && diagnostic.severity == RuntimePartitionDiagnosticSeverity::Warning
            && diagnostic.worker_id.as_deref() == Some("cpu-a")
    }));
    assert!(placement.recommendations.iter().any(|recommendation| {
        recommendation.code == RuntimePartitionPlacementRecommendationCode::MovePartition
            && recommendation.worker_id.as_deref() == Some("cpu-a")
    }));
}

#[test]
fn runtime_partition_placement_counts_cross_worker_boundary_traffic() {
    let design = recursive_partition_hierarchy_design();
    let partition_plan = plan_runtime_partitions(
        &design,
        "RecursiveTop",
        RuntimePartitionConfig {
            target_partitions: 3,
        },
    )
    .unwrap();
    let placement =
        plan_runtime_partition_placement(&partition_plan, &two_cpu_topology()).unwrap();

    let cpu_a = placement
        .worker_summaries
        .iter()
        .find(|summary| summary.worker_id == "cpu-a")
        .unwrap();
    let cpu_b = placement
        .worker_summaries
        .iter()
        .find(|summary| summary.worker_id == "cpu-b")
        .unwrap();
    assert_eq!(cpu_a.inbound_boundary_bits, 8);
    assert_eq!(cpu_a.outbound_boundary_bits, 8);
    assert_eq!(cpu_b.inbound_boundary_bits, 8);
    assert_eq!(cpu_b.outbound_boundary_bits, 8);
}

#[test]
fn runtime_partition_placement_reports_high_cross_worker_boundary_traffic() {
    let design = high_cross_worker_boundary_design();
    let partition_plan = plan_runtime_partitions(
        &design,
        "CrossWorkerWideTop",
        RuntimePartitionConfig {
            target_partitions: 2,
        },
    )
    .unwrap();
    let placement =
        plan_runtime_partition_placement(&partition_plan, &two_cpu_topology()).unwrap();

    assert!(placement.worker_summaries.iter().any(|summary| {
        summary.inbound_boundary_bits == 1024 && summary.outbound_boundary_bits == 1024
    }));
    assert!(placement.diagnostics.iter().any(|diagnostic| {
        diagnostic.code
            == RuntimePartitionPlacementDiagnosticCode::HighCrossWorkerBoundaryTraffic
            && diagnostic.severity == RuntimePartitionDiagnosticSeverity::Warning
            && diagnostic.boundary_index.is_some()
    }));
    assert!(placement.recommendations.iter().any(|recommendation| {
        recommendation.code == RuntimePartitionPlacementRecommendationCode::CoLocatePartitions
            && recommendation.boundary_index.is_some()
    }));
}

#[test]
fn runtime_partition_placement_prefers_cpu_for_gpu_hostile_partitions() {
    let (design, _, _, _, _, _) = memory_design();
    let partition_plan =
        plan_runtime_partitions(&design, "MemoryTop", RuntimePartitionConfig::default())
            .unwrap();
    let mut topology = RuntimeTopology::new();
    topology.push(RuntimeWorker::local_gpu(
        "gpu0",
        8,
        GpuBatchOptions::default(),
    ));
    topology.push(RuntimeWorker::local_cpu("cpu0", 2));

    let placement = plan_runtime_partition_placement(&partition_plan, &topology).unwrap();

    assert_eq!(placement.assignments[0].worker_id, "cpu0");
    assert!(placement.diagnostics.iter().any(|diagnostic| {
        diagnostic.code == RuntimePartitionPlacementDiagnosticCode::CpuFallback
            && diagnostic.severity == RuntimePartitionDiagnosticSeverity::Info
            && diagnostic.partition_id.as_deref() == Some("p0")
    }));
}

#[test]
fn runtime_partition_placement_validates_topology() {
    let (design, _, _) = counter_design();
    let partition_plan =
        plan_runtime_partitions(&design, "Counter", RuntimePartitionConfig::default()).unwrap();

    let err =
        plan_runtime_partition_placement(&partition_plan, &RuntimeTopology::new()).unwrap_err();
    assert_eq!(
        err.diagnostics[0].code,
        "E_RUNTIME_PARTITION_PLACEMENT_TOPOLOGY"
    );

    let mut zero_lane = RuntimeTopology::new();
    zero_lane.push(RuntimeWorker::local_cpu("bad", 0));
    let err = plan_runtime_partition_placement(&partition_plan, &zero_lane).unwrap_err();
    assert_eq!(
        err.diagnostics[0].code,
        "E_RUNTIME_PARTITION_PLACEMENT_TOPOLOGY"
    );

    let mut duplicate = RuntimeTopology::new();
    duplicate.push(RuntimeWorker::local_cpu("dup", 1));
    duplicate.push(RuntimeWorker::local_cpu("dup", 1));
    let err = plan_runtime_partition_placement(&partition_plan, &duplicate).unwrap_err();
    assert_eq!(
        err.diagnostics[0].code,
        "E_RUNTIME_PARTITION_PLACEMENT_TOPOLOGY"
    );
}

#[test]
fn runtime_partition_communication_routes_cross_worker_boundaries() {
    let design = recursive_partition_hierarchy_design();
    let partition_plan = plan_runtime_partitions(
        &design,
        "RecursiveTop",
        RuntimePartitionConfig {
            target_partitions: 3,
        },
    )
    .unwrap();
    let placement =
        plan_runtime_partition_placement(&partition_plan, &two_cpu_topology()).unwrap();
    let communication =
        plan_runtime_partition_communication(&partition_plan, &placement).unwrap();

    assert_eq!(communication.routes.len(), 2);
    assert!(communication.routes.iter().all(|route| {
        route.producer_worker != route.consumer_worker && route.bits_per_transfer == 8
    }));
    assert_eq!(communication.total_cross_worker_boundary_bits, 16);
    let cpu_a = communication
        .worker_summaries
        .iter()
        .find(|summary| summary.worker_id == "cpu-a")
        .unwrap();
    let cpu_b = communication
        .worker_summaries
        .iter()
        .find(|summary| summary.worker_id == "cpu-b")
        .unwrap();
    assert_eq!(cpu_a.outbound_bits, 8);
    assert_eq!(cpu_a.inbound_bits, 8);
    assert_eq!(cpu_b.outbound_bits, 8);
    assert_eq!(cpu_b.inbound_bits, 8);
}

#[test]
fn runtime_partition_communication_omits_same_worker_boundaries() {
    let (design, _, _, _, _) = two_child_hierarchy_design();
    let partition_plan = plan_runtime_partitions(
        &design,
        "Top",
        RuntimePartitionConfig {
            target_partitions: 2,
        },
    )
    .unwrap();
    let placement =
        plan_runtime_partition_placement(&partition_plan, &RuntimeTopology::local_cpu(2))
            .unwrap();
    let communication =
        plan_runtime_partition_communication(&partition_plan, &placement).unwrap();

    assert!(communication.routes.is_empty());
    assert_eq!(communication.total_cross_worker_boundary_bits, 0);
    assert!(communication.diagnostics.is_empty());
    assert!(communication.recommendations.is_empty());
}

#[test]
fn runtime_partition_communication_validates_inputs() {
    let design = recursive_partition_hierarchy_design();
    let partition_plan = plan_runtime_partitions(
        &design,
        "RecursiveTop",
        RuntimePartitionConfig {
            target_partitions: 3,
        },
    )
    .unwrap();
    let mut placement =
        plan_runtime_partition_placement(&partition_plan, &two_cpu_topology()).unwrap();

    let mut module_mismatch = placement.clone();
    module_mismatch.module_name = "Other".to_string();
    let err =
        plan_runtime_partition_communication(&partition_plan, &module_mismatch).unwrap_err();
    assert_eq!(
        err.diagnostics[0].code,
        "E_RUNTIME_PARTITION_COMMUNICATION_MODULE"
    );

    placement
        .assignments
        .retain(|assignment| assignment.partition_id != "p2");
    let err = plan_runtime_partition_communication(&partition_plan, &placement).unwrap_err();
    assert_eq!(
        err.diagnostics[0].code,
        "E_RUNTIME_PARTITION_COMMUNICATION_ASSIGNMENT"
    );
}

#[test]
fn runtime_partition_communication_reports_high_route_width() {
    let design = high_cross_worker_boundary_design();
    let partition_plan = plan_runtime_partitions(
        &design,
        "CrossWorkerWideTop",
        RuntimePartitionConfig {
            target_partitions: 2,
        },
    )
    .unwrap();
    let placement =
        plan_runtime_partition_placement(&partition_plan, &two_cpu_topology()).unwrap();
    let communication =
        plan_runtime_partition_communication(&partition_plan, &placement).unwrap();

    assert_eq!(communication.routes.len(), 2);
    assert_eq!(communication.total_cross_worker_boundary_bits, 2048);
    assert!(communication.diagnostics.iter().any(|diagnostic| {
        diagnostic.code == RuntimePartitionCommunicationDiagnosticCode::HighRouteWidth
            && diagnostic.severity == RuntimePartitionDiagnosticSeverity::Warning
            && diagnostic.route_index.is_some()
            && diagnostic.boundary_index.is_some()
    }));
    assert!(communication.recommendations.iter().any(|recommendation| {
        recommendation.code == RuntimePartitionCommunicationRecommendationCode::CoLocateRoute
            && recommendation.route_index.is_some()
    }));
}

#[test]
fn runtime_partition_bundle_plans_partition_placement_and_communication() {
    let design = recursive_partition_hierarchy_design();
    let bundle = plan_runtime_partition_bundle(
        &design,
        "RecursiveTop",
        RuntimePartitionConfig {
            target_partitions: 3,
        },
        &two_cpu_topology(),
    )
    .unwrap();

    let (partition_plan, placement_plan, communication_plan) =
        recursive_partition_bundle_parts();
    assert_eq!(
        bundle.format_version,
        RUNTIME_PARTITION_BUNDLE_FORMAT_VERSION
    );
    assert_eq!(bundle.module_name, "RecursiveTop");
    assert_eq!(bundle.partition_plan, partition_plan);
    assert_eq!(bundle.placement_plan, placement_plan);
    assert_eq!(bundle.communication_plan, communication_plan);
    assert_eq!(bundle.partition_plan.partitions.len(), 3);
    assert_eq!(bundle.placement_plan.assignments.len(), 3);
    assert_eq!(bundle.communication_plan.routes.len(), 2);
    assert!(bundle.diagnostics.iter().any(|diagnostic| {
        diagnostic.source == RuntimePartitionBundleSource::Placement
            && diagnostic.code == "UnderProvisionedWorkers"
            && diagnostic.severity == RuntimePartitionDiagnosticSeverity::Info
    }));
}

#[test]
fn runtime_partition_bundle_from_plans_validates_module_names() {
    let (partition_plan, mut placement_plan, communication_plan) =
        recursive_partition_bundle_parts();
    placement_plan.module_name = "Other".to_string();

    let err =
        RuntimePartitionBundle::from_plans(partition_plan, placement_plan, communication_plan)
            .unwrap_err();
    assert_eq!(err.diagnostics[0].code, "E_RUNTIME_PARTITION_BUNDLE_MODULE");
}

#[test]
fn runtime_partition_bundle_from_plans_validates_route_assignments() {
    let (partition_plan, mut placement_plan, communication_plan) =
        recursive_partition_bundle_parts();
    placement_plan
        .assignments
        .retain(|assignment| assignment.partition_id != "p2");

    let err =
        RuntimePartitionBundle::from_plans(partition_plan, placement_plan, communication_plan)
            .unwrap_err();
    assert_eq!(
        err.diagnostics[0].code,
        "E_RUNTIME_PARTITION_BUNDLE_ASSIGNMENT"
    );
}

#[test]
fn runtime_partition_bundle_rejects_embedded_bad_versions() {
    let (partition_plan, placement_plan, communication_plan) =
        recursive_partition_bundle_parts();

    let mut bad_partition = partition_plan.clone();
    bad_partition.format_version = RUNTIME_PARTITION_PLAN_FORMAT_VERSION + 1;
    let err = RuntimePartitionBundle::from_plans(
        bad_partition,
        placement_plan.clone(),
        communication_plan.clone(),
    )
    .unwrap_err();
    assert_eq!(err.diagnostics[0].code, "E_RUNTIME_PARTITION_PLAN_VERSION");

    let mut bad_placement = placement_plan.clone();
    bad_placement.format_version = RUNTIME_PARTITION_PLACEMENT_FORMAT_VERSION + 1;
    let err = RuntimePartitionBundle::from_plans(
        partition_plan.clone(),
        bad_placement,
        communication_plan.clone(),
    )
    .unwrap_err();
    assert_eq!(
        err.diagnostics[0].code,
        "E_RUNTIME_PARTITION_PLACEMENT_VERSION"
    );

    let mut bad_communication = communication_plan;
    bad_communication.format_version = RUNTIME_PARTITION_COMMUNICATION_FORMAT_VERSION + 1;
    let err =
        RuntimePartitionBundle::from_plans(partition_plan, placement_plan, bad_communication)
            .unwrap_err();
    assert_eq!(
        err.diagnostics[0].code,
        "E_RUNTIME_PARTITION_COMMUNICATION_VERSION"
    );
}

#[test]
fn runtime_partition_launch_builds_worker_payloads_and_routes() {
    let (partition_plan, placement_plan, communication_plan) =
        recursive_partition_bundle_parts();
    let bundle =
        RuntimePartitionBundle::from_plans(partition_plan, placement_plan, communication_plan)
            .unwrap();
    let launch = plan_runtime_partition_launch(&bundle).unwrap();

    assert_eq!(
        launch.format_version,
        RUNTIME_PARTITION_LAUNCH_FORMAT_VERSION
    );
    assert_eq!(launch.module_name, "RecursiveTop");
    assert_eq!(
        launch
            .workers
            .iter()
            .map(|worker| worker.worker_id.as_str())
            .collect::<Vec<_>>(),
        vec!["cpu-a", "cpu-b"]
    );
    assert_eq!(
        launch
            .workers
            .iter()
            .flat_map(|worker| worker
                .partitions
                .iter()
                .map(|partition| partition.partition_id.as_str()))
            .collect::<Vec<_>>(),
        vec!["p0", "p1", "p2"]
    );
    assert_eq!(launch.routes.len(), 2);
    for route in &launch.routes {
        let producer = launch
            .workers
            .iter()
            .find(|worker| worker.worker_id == route.producer_worker)
            .unwrap();
        let consumer = launch
            .workers
            .iter()
            .find(|worker| worker.worker_id == route.consumer_worker)
            .unwrap();
        assert!(producer.outbound_routes.contains(&route.route_index));
        assert!(consumer.inbound_routes.contains(&route.route_index));
    }
    assert!(launch.diagnostics.iter().any(|diagnostic| {
        diagnostic.source == RuntimePartitionLaunchDiagnosticSource::BundlePlacement
            && diagnostic.code == "UnderProvisionedWorkers"
    }));
}

#[test]
fn runtime_partition_launch_reports_empty_worker_launches() {
    let design = recursive_partition_hierarchy_design();
    let mut topology = RuntimeTopology::new();
    topology.push(RuntimeWorker::local_cpu("cpu-a", 1));
    topology.push(RuntimeWorker::local_cpu("cpu-b", 1));
    topology.push(RuntimeWorker::local_cpu("cpu-c", 1));
    topology.push(RuntimeWorker::local_cpu("cpu-d", 1));
    let bundle = plan_runtime_partition_bundle(
        &design,
        "RecursiveTop",
        RuntimePartitionConfig {
            target_partitions: 3,
        },
        &topology,
    )
    .unwrap();

    let launch = plan_runtime_partition_launch(&bundle).unwrap();

    assert!(launch.workers.iter().any(|worker| {
        worker.worker_id == "cpu-d"
            && worker.partitions.is_empty()
            && worker.inbound_routes.is_empty()
            && worker.outbound_routes.is_empty()
    }));
    assert!(launch.diagnostics.iter().any(|diagnostic| {
        diagnostic.source == RuntimePartitionLaunchDiagnosticSource::Launch
            && diagnostic.code == "EmptyWorkerLaunch"
            && diagnostic.worker_id.as_deref() == Some("cpu-d")
    }));
}

#[test]
fn runtime_partition_launch_validates_assignment_partition_references() {
    let (partition_plan, placement_plan, communication_plan) =
        recursive_partition_bundle_parts();
    let mut bundle =
        RuntimePartitionBundle::from_plans(partition_plan, placement_plan, communication_plan)
            .unwrap();
    bundle
        .partition_plan
        .partitions
        .retain(|partition| partition.id != "p2");

    let err = plan_runtime_partition_launch(&bundle).unwrap_err();
    assert_eq!(
        err.diagnostics[0].code,
        "E_RUNTIME_PARTITION_LAUNCH_PARTITION"
    );
}

#[test]
fn runtime_partition_launch_validates_route_assignments() {
    let (partition_plan, placement_plan, communication_plan) =
        recursive_partition_bundle_parts();
    let mut bundle =
        RuntimePartitionBundle::from_plans(partition_plan, placement_plan, communication_plan)
            .unwrap();
    let producer_partition = bundle.communication_plan.routes[0]
        .producer_partition
        .clone();
    bundle
        .placement_plan
        .assignments
        .retain(|assignment| assignment.partition_id != producer_partition);

    let err = plan_runtime_partition_launch(&bundle).unwrap_err();
    assert_eq!(
        err.diagnostics[0].code,
        "E_RUNTIME_PARTITION_LAUNCH_ASSIGNMENT"
    );
}

#[test]
fn runtime_partition_launch_validates_stale_route_worker_mapping() {
    let (partition_plan, placement_plan, communication_plan) =
        recursive_partition_bundle_parts();
    let mut bundle =
        RuntimePartitionBundle::from_plans(partition_plan, placement_plan, communication_plan)
            .unwrap();
    let route = &mut bundle.communication_plan.routes[0];
    route.consumer_worker = if route.consumer_worker == "cpu-a" {
        "cpu-b".to_string()
    } else {
        "cpu-a".to_string()
    };

    let err = plan_runtime_partition_launch(&bundle).unwrap_err();
    assert_eq!(err.diagnostics[0].code, "E_RUNTIME_PARTITION_LAUNCH_ROUTE");
}

#[test]
fn local_worker_service_initializes_partition_worker_and_reports_health() {
    let launch = recursive_partition_launch();
    let worker_launch = launch
        .workers
        .iter()
        .find(|worker| worker.worker_id == "cpu-a")
        .unwrap()
        .clone();
    let mut service = LocalRuntimeWorkerService::new();

    let RuntimeWorkerResponse::PartitionWorkerHealth(health) = service
        .handle_now(RuntimeWorkerRequest::PartitionWorkerHealth {
            worker_id: "cpu-a".to_string(),
        })
        .unwrap()
    else {
        panic!("expected partition worker health response");
    };
    assert_eq!(health.worker_id, "cpu-a");
    assert!(!health.initialized);
    assert!(health.partitions.is_empty());
    assert_eq!(health.backend, None);

    expect_ack(
        service
            .handle_now(RuntimeWorkerRequest::InitPartitionWorker(
                RuntimePartitionWorkerInit {
                    worker_id: "cpu-a".to_string(),
                    launch: worker_launch.clone(),
                },
            ))
            .unwrap(),
    )
    .unwrap();
    let RuntimeWorkerResponse::PartitionWorkerHealth(health) = service
        .handle_now(RuntimeWorkerRequest::PartitionWorkerHealth {
            worker_id: "cpu-a".to_string(),
        })
        .unwrap()
    else {
        panic!("expected partition worker health response");
    };
    assert!(health.initialized);
    assert_eq!(health.backend, Some(worker_launch.backend));
    assert_eq!(health.node.as_deref(), Some(worker_launch.node.as_str()));
    assert_eq!(health.partitions, worker_launch.partitions);
    assert_eq!(health.outbound_routes, worker_launch.outbound_routes);
    assert_eq!(health.inbound_routes, worker_launch.inbound_routes);
    assert_eq!(health.outbound_bits, worker_launch.outbound_bits);
    assert_eq!(health.inbound_bits, worker_launch.inbound_bits);
}

#[test]
fn local_worker_service_initializes_empty_partition_worker_launch() {
    let design = recursive_partition_hierarchy_design();
    let mut topology = RuntimeTopology::new();
    topology.push(RuntimeWorker::local_cpu("cpu-a", 1));
    topology.push(RuntimeWorker::local_cpu("cpu-b", 1));
    topology.push(RuntimeWorker::local_cpu("cpu-c", 1));
    topology.push(RuntimeWorker::local_cpu("cpu-d", 1));
    let bundle = plan_runtime_partition_bundle(
        &design,
        "RecursiveTop",
        RuntimePartitionConfig {
            target_partitions: 3,
        },
        &topology,
    )
    .unwrap();
    let launch = plan_runtime_partition_launch(&bundle).unwrap();
    let worker_launch = launch
        .workers
        .iter()
        .find(|worker| worker.worker_id == "cpu-d")
        .unwrap()
        .clone();
    let mut service = LocalRuntimeWorkerService::new();

    expect_ack(
        service
            .handle_now(RuntimeWorkerRequest::InitPartitionWorker(
                RuntimePartitionWorkerInit {
                    worker_id: "cpu-d".to_string(),
                    launch: worker_launch.clone(),
                },
            ))
            .unwrap(),
    )
    .unwrap();
    let RuntimeWorkerResponse::PartitionWorkerHealth(health) = service
        .handle_now(RuntimeWorkerRequest::PartitionWorkerHealth {
            worker_id: "cpu-d".to_string(),
        })
        .unwrap()
    else {
        panic!("expected partition worker health response");
    };
    assert!(health.initialized);
    assert!(health.partitions.is_empty());
    assert!(health.inbound_routes.is_empty());
    assert!(health.outbound_routes.is_empty());
}

#[test]
fn local_worker_service_rejects_bad_partition_worker_init() {
    let launch = recursive_partition_launch();
    let worker_launch = launch
        .workers
        .iter()
        .find(|worker| worker.worker_id == "cpu-a")
        .unwrap()
        .clone();
    let mut service = LocalRuntimeWorkerService::new();

    let err = service
        .handle_now(RuntimeWorkerRequest::InitPartitionWorker(
            RuntimePartitionWorkerInit {
                worker_id: "wrong".to_string(),
                launch: worker_launch.clone(),
            },
        ))
        .unwrap_err();
    assert_eq!(err.diagnostics[0].code, "E_RUNTIME_PARTITION_WORKER_INIT");

    expect_ack(
        service
            .handle_now(RuntimeWorkerRequest::InitPartitionWorker(
                RuntimePartitionWorkerInit {
                    worker_id: "cpu-a".to_string(),
                    launch: worker_launch.clone(),
                },
            ))
            .unwrap(),
    )
    .unwrap();
    let err = service
        .handle_now(RuntimeWorkerRequest::InitPartitionWorker(
            RuntimePartitionWorkerInit {
                worker_id: "cpu-a".to_string(),
                launch: worker_launch,
            },
        ))
        .unwrap_err();
    assert_eq!(err.diagnostics[0].code, "E_RUNTIME_PARTITION_WORKER_INIT");
}

#[test]
fn local_worker_service_runs_partition_worker_actions() {
    let launch = recursive_partition_launch();
    let worker_launch = launch
        .workers
        .iter()
        .find(|worker| worker.worker_id == "cpu-a")
        .unwrap()
        .clone();
    let mut service = LocalRuntimeWorkerService::new();

    let err = service
        .handle_now(RuntimeWorkerRequest::RunPartitionWorkerAction(
            RuntimePartitionWorkerAction {
                worker_id: "cpu-a".to_string(),
                kind: RuntimePartitionWorkerActionKind::Tick,
            },
        ))
        .unwrap_err();
    assert_eq!(err.diagnostics[0].code, "E_RUNTIME_PARTITION_WORKER_ACTION");

    expect_ack(
        service
            .handle_now(RuntimeWorkerRequest::InitPartitionWorker(
                RuntimePartitionWorkerInit {
                    worker_id: "cpu-a".to_string(),
                    launch: worker_launch.clone(),
                },
            ))
            .unwrap(),
    )
    .unwrap();

    let RuntimeWorkerResponse::PartitionWorkerAction(report) = service
        .handle_now(RuntimeWorkerRequest::RunPartitionWorkerAction(
            RuntimePartitionWorkerAction {
                worker_id: "cpu-a".to_string(),
                kind: RuntimePartitionWorkerActionKind::EvalCombinational,
            },
        ))
        .unwrap()
    else {
        panic!("expected partition worker action report");
    };
    assert_eq!(report.worker_id, "cpu-a");
    assert_eq!(
        report.kind,
        RuntimePartitionWorkerActionKind::EvalCombinational
    );
    assert_eq!(report.partition_count, worker_launch.partitions.len());
    assert_eq!(
        report.outbound_route_count,
        worker_launch.outbound_routes.len()
    );
    assert_eq!(
        report.inbound_route_count,
        worker_launch.inbound_routes.len()
    );
    assert_eq!(report.outbound_bits, worker_launch.outbound_bits);
    assert_eq!(report.inbound_bits, worker_launch.inbound_bits);
    assert_eq!(report.operations.eval_combinational.calls, 1);
    assert_eq!(report.operations.tick.calls, 0);
    assert_eq!(report.operations.tick_many.calls, 0);

    let RuntimeWorkerResponse::PartitionWorkerAction(report) = service
        .handle_now(RuntimeWorkerRequest::RunPartitionWorkerAction(
            RuntimePartitionWorkerAction {
                worker_id: "cpu-a".to_string(),
                kind: RuntimePartitionWorkerActionKind::Tick,
            },
        ))
        .unwrap()
    else {
        panic!("expected partition worker action report");
    };
    assert_eq!(report.operations.eval_combinational.calls, 1);
    assert_eq!(report.operations.tick.calls, 1);
    assert_eq!(report.operations.tick_many.calls, 0);

    let RuntimeWorkerResponse::PartitionWorkerAction(report) = service
        .handle_now(RuntimeWorkerRequest::RunPartitionWorkerAction(
            RuntimePartitionWorkerAction {
                worker_id: "cpu-a".to_string(),
                kind: RuntimePartitionWorkerActionKind::TickMany(0),
            },
        ))
        .unwrap()
    else {
        panic!("expected partition worker action report");
    };
    assert_eq!(report.operations.tick_many.calls, 0);

    let RuntimeWorkerResponse::PartitionWorkerAction(report) = service
        .handle_now(RuntimeWorkerRequest::RunPartitionWorkerAction(
            RuntimePartitionWorkerAction {
                worker_id: "cpu-a".to_string(),
                kind: RuntimePartitionWorkerActionKind::TickMany(4),
            },
        ))
        .unwrap()
    else {
        panic!("expected partition worker action report");
    };
    assert_eq!(report.operations.eval_combinational.calls, 1);
    assert_eq!(report.operations.tick.calls, 1);
    assert_eq!(report.operations.tick_many.calls, 1);
}

#[test]
fn local_worker_service_manages_partition_route_mailboxes() {
    let launch = recursive_partition_launch();
    let route = launch.routes[0].clone();
    let producer_launch = launch
        .workers
        .iter()
        .find(|worker| worker.worker_id == route.producer_worker)
        .unwrap()
        .clone();
    let consumer_launch = launch
        .workers
        .iter()
        .find(|worker| worker.worker_id == route.consumer_worker)
        .unwrap()
        .clone();
    let payload = RuntimePartitionRoutePayload {
        route_index: route.route_index,
        width: route.width,
        limbs: vec![0x5a],
    };
    let mut service = LocalRuntimeWorkerService::new();
    for worker_launch in [&producer_launch, &consumer_launch] {
        expect_ack(
            service
                .handle_now(RuntimeWorkerRequest::InitPartitionWorker(
                    RuntimePartitionWorkerInit {
                        worker_id: worker_launch.worker_id.clone(),
                        launch: worker_launch.clone(),
                    },
                ))
                .unwrap(),
        )
        .unwrap();
    }

    let RuntimeWorkerResponse::PartitionRouteMailbox(report) = service
        .handle_now(RuntimeWorkerRequest::StorePartitionRouteOutbound {
            worker_id: route.producer_worker.clone(),
            payload: payload.clone(),
        })
        .unwrap()
    else {
        panic!("expected partition route mailbox report");
    };
    assert_eq!(report.worker_id, route.producer_worker);
    assert_eq!(report.outbound_payload_count, 1);
    assert_eq!(report.inbound_payload_count, 0);

    let RuntimeWorkerResponse::PartitionRouteMailbox(report) = service
        .handle_now(RuntimeWorkerRequest::DeliverPartitionRouteInbound {
            worker_id: route.consumer_worker.clone(),
            payload: payload.clone(),
        })
        .unwrap()
    else {
        panic!("expected partition route mailbox report");
    };
    assert_eq!(report.worker_id, route.consumer_worker);
    assert_eq!(report.outbound_payload_count, 0);
    assert_eq!(report.inbound_payload_count, 1);

    let err = service
        .handle_now(RuntimeWorkerRequest::StorePartitionRouteOutbound {
            worker_id: route.consumer_worker.clone(),
            payload: payload.clone(),
        })
        .unwrap_err();
    assert_eq!(err.diagnostics[0].code, "E_RUNTIME_PARTITION_ROUTE_MAILBOX");

    let err = service
        .handle_now(RuntimeWorkerRequest::StorePartitionRouteOutbound {
            worker_id: route.producer_worker.clone(),
            payload: RuntimePartitionRoutePayload {
                route_index: route.route_index,
                width: route.width + 1,
                limbs: vec![0x5a],
            },
        })
        .unwrap_err();
    assert_eq!(err.diagnostics[0].code, "E_RUNTIME_PARTITION_ROUTE_MAILBOX");

    let err = service
        .handle_now(RuntimeWorkerRequest::StorePartitionRouteOutbound {
            worker_id: route.producer_worker.clone(),
            payload: RuntimePartitionRoutePayload {
                route_index: route.route_index,
                width: route.width,
                limbs: vec![0x5a, 0x00],
            },
        })
        .unwrap_err();
    assert_eq!(err.diagnostics[0].code, "E_RUNTIME_PARTITION_ROUTE_MAILBOX");

    let RuntimeWorkerResponse::PartitionRouteMailbox(report) = service
        .handle_now(RuntimeWorkerRequest::ClearPartitionRouteMailboxes {
            worker_id: route.producer_worker,
        })
        .unwrap()
    else {
        panic!("expected partition route mailbox report");
    };
    assert_eq!(report.outbound_payload_count, 0);
    assert_eq!(report.inbound_payload_count, 0);
}

#[test]
fn local_worker_service_runs_empty_partition_worker_actions() {
    let design = recursive_partition_hierarchy_design();
    let mut topology = RuntimeTopology::new();
    topology.push(RuntimeWorker::local_cpu("cpu-a", 1));
    topology.push(RuntimeWorker::local_cpu("cpu-b", 1));
    topology.push(RuntimeWorker::local_cpu("cpu-c", 1));
    topology.push(RuntimeWorker::local_cpu("cpu-d", 1));
    let bundle = plan_runtime_partition_bundle(
        &design,
        "RecursiveTop",
        RuntimePartitionConfig {
            target_partitions: 3,
        },
        &topology,
    )
    .unwrap();
    let launch = plan_runtime_partition_launch(&bundle).unwrap();
    let worker_launch = launch
        .workers
        .iter()
        .find(|worker| worker.worker_id == "cpu-d")
        .unwrap()
        .clone();
    let mut service = LocalRuntimeWorkerService::new();
    expect_ack(
        service
            .handle_now(RuntimeWorkerRequest::InitPartitionWorker(
                RuntimePartitionWorkerInit {
                    worker_id: "cpu-d".to_string(),
                    launch: worker_launch,
                },
            ))
            .unwrap(),
    )
    .unwrap();

    let RuntimeWorkerResponse::PartitionWorkerAction(report) = service
        .handle_now(RuntimeWorkerRequest::RunPartitionWorkerAction(
            RuntimePartitionWorkerAction {
                worker_id: "cpu-d".to_string(),
                kind: RuntimePartitionWorkerActionKind::Tick,
            },
        ))
        .unwrap()
    else {
        panic!("expected partition worker action report");
    };
    assert_eq!(report.partition_count, 0);
    assert_eq!(report.outbound_route_count, 0);
    assert_eq!(report.inbound_route_count, 0);
    assert_eq!(report.operations.tick.calls, 1);
}

#[test]
fn runtime_partition_deployment_local_initializes_all_workers() {
    let launch = recursive_partition_launch();
    let mut service = LocalRuntimeWorkerService::new();

    let report = deploy_runtime_partition_launch_local(&launch, &mut service).unwrap();

    assert_eq!(report.module_name, launch.module_name);
    assert_eq!(report.workers.len(), launch.workers.len());
    assert_eq!(report.diagnostics, launch.diagnostics);
    for worker in &launch.workers {
        let health = report
            .workers
            .iter()
            .find(|health| health.worker_id == worker.worker_id)
            .unwrap();
        assert!(health.initialized);
        assert_eq!(health.partitions, worker.partitions);
        assert_eq!(health.outbound_routes, worker.outbound_routes);
        assert_eq!(health.inbound_routes, worker.inbound_routes);
    }
}

#[test]
fn runtime_partition_deployment_validates_launch_and_endpoints() {
    let launch = recursive_partition_launch();

    let mut duplicate = launch.clone();
    duplicate.workers.push(duplicate.workers[0].clone());
    let err = deploy_runtime_partition_launch_local(
        &duplicate,
        &mut LocalRuntimeWorkerService::new(),
    )
    .unwrap_err();
    assert_eq!(err.diagnostics[0].code, "E_RUNTIME_PARTITION_DEPLOY_WORKER");

    let mut bad_version = launch.clone();
    bad_version.format_version = RUNTIME_PARTITION_LAUNCH_FORMAT_VERSION + 1;
    let err = deploy_runtime_partition_launch_local(
        &bad_version,
        &mut LocalRuntimeWorkerService::new(),
    )
    .unwrap_err();
    assert_eq!(
        err.diagnostics[0].code,
        "E_RUNTIME_PARTITION_LAUNCH_VERSION"
    );

    let err =
        partition_session_worker_endpoint(&launch.workers[0].worker_id, &Vec::new()).unwrap_err();
    assert_eq!(
        err.diagnostics[0].code,
        "E_RUNTIME_PARTITION_DEPLOY_ENDPOINT"
    );
}

#[test]
fn runtime_partition_deployment_reports_duplicate_worker_init() {
    let launch = recursive_partition_launch();
    let mut service = LocalRuntimeWorkerService::new();
    deploy_runtime_partition_launch_local(&launch, &mut service).unwrap();

    let err = deploy_runtime_partition_launch_local(&launch, &mut service).unwrap_err();
    assert_eq!(err.diagnostics[0].code, "E_RUNTIME_PARTITION_WORKER_INIT");
}

#[test]
fn runtime_partition_deployment_reports_unexpected_worker_response() {
    let worker = recursive_partition_launch().workers[0].clone();

    let err = deploy_runtime_partition_worker(
        &worker,
        RuntimeWorkerResponse::Ack,
        RuntimeWorkerResponse::Ack,
    ).unwrap_err();

    assert_eq!(err.diagnostics[0].code, "E_RUNTIME_WORKER_RESPONSE");
}

#[test]
fn runtime_partition_session_local_reports_ready_health() {
    let launch = recursive_partition_launch();
    let mut service = LocalRuntimeWorkerService::new();

    let session = RuntimePartitionSession::deploy_local(launch.clone(), &mut service).unwrap();
    let health = session.health();

    assert_eq!(session.launch(), &launch);
    assert_eq!(session.deployment().workers.len(), launch.workers.len());
    assert!(session.actions().is_empty());
    assert_eq!(session.latest_action(), None);
    assert_eq!(health.module_name, "RecursiveTop");
    assert!(health.ready);
    assert_eq!(health.worker_count, 2);
    assert_eq!(health.initialized_worker_count, 2);
    assert_eq!(health.partition_count, 3);
    assert_eq!(health.route_count, launch.routes.len());
    assert_eq!(health.diagnostics, launch.diagnostics);
    assert!(health.workers.iter().all(|worker| worker.initialized));
}

#[test]
fn runtime_partition_session_propagates_deployment_failures() {
    let launch = recursive_partition_launch();
    let mut service = LocalRuntimeWorkerService::new();
    RuntimePartitionSession::deploy_local(launch.clone(), &mut service).unwrap();

    let err = RuntimePartitionSession::deploy_local(launch, &mut service).unwrap_err();

    assert_eq!(err.diagnostics[0].code, "E_RUNTIME_PARTITION_WORKER_INIT");
}

#[test]
fn runtime_partition_session_local_runs_structural_actions() {
    let launch = recursive_partition_launch();
    let mut service = LocalRuntimeWorkerService::new();
    let mut session =
        RuntimePartitionSession::deploy_local(launch.clone(), &mut service).unwrap();
    assert!(session.actions().is_empty());
    let empty_summary = session.action_summary();
    assert_eq!(empty_summary.module_name, "RecursiveTop");
    assert_eq!(empty_summary.action_count, 0);
    assert_eq!(empty_summary.latest_action_kind, None);
    assert_eq!(empty_summary.operations, RuntimeOperationStats::default());
    assert_eq!(empty_summary.worker_count, launch.workers.len());
    assert_eq!(empty_summary.partition_count, 3);
    assert_eq!(empty_summary.route_count, launch.routes.len());

    let eval = session.eval_combinational_local(&mut service).unwrap();
    assert_eq!(
        eval.kind,
        RuntimePartitionWorkerActionKind::EvalCombinational
    );
    assert_eq!(eval.module_name, "RecursiveTop");
    assert_eq!(eval.workers.len(), launch.workers.len());
    assert_eq!(eval.operations.eval_combinational.calls, 2);
    assert_eq!(eval.operations.tick.calls, 0);
    assert_eq!(eval.operations.tick_many.calls, 0);
    assert_eq!(session.actions(), &vec![eval.clone()]);
    assert_eq!(session.latest_action(), Some(&eval));

    let tick = session.tick_local(&mut service).unwrap();
    assert_eq!(tick.kind, RuntimePartitionWorkerActionKind::Tick);
    assert_eq!(tick.operations.eval_combinational.calls, 2);
    assert_eq!(tick.operations.tick.calls, 2);
    assert_eq!(tick.operations.tick_many.calls, 0);
    assert_eq!(session.actions().len(), 2);
    assert_eq!(session.latest_action(), Some(&tick));

    let tick_many = session.tick_many_local(4, &mut service).unwrap();
    assert_eq!(
        tick_many.kind,
        RuntimePartitionWorkerActionKind::TickMany(4)
    );
    assert_eq!(tick_many.operations.eval_combinational.calls, 2);
    assert_eq!(tick_many.operations.tick.calls, 2);
    assert_eq!(tick_many.operations.tick_many.calls, 2);
    assert!(tick_many.workers.iter().all(|worker| {
        worker.partition_count > 0
            && worker.outbound_route_count + worker.inbound_route_count > 0
    }));
    assert_eq!(session.actions().len(), 3);
    assert_eq!(session.latest_action(), Some(&tick_many));

    let summary = session.action_summary();
    assert_eq!(summary.module_name, "RecursiveTop");
    assert_eq!(summary.action_count, 3);
    assert_eq!(
        summary.latest_action_kind,
        Some(RuntimePartitionWorkerActionKind::TickMany(4))
    );
    assert_eq!(summary.operations.eval_combinational.calls, 6);
    assert_eq!(summary.operations.tick.calls, 4);
    assert_eq!(summary.operations.tick_many.calls, 2);
    assert_eq!(summary.worker_count, launch.workers.len());
    assert_eq!(summary.partition_count, 3);
    assert_eq!(summary.route_count, launch.routes.len());
}

#[test]
fn runtime_partition_session_action_validates_readiness() {
    let launch = recursive_partition_launch();
    let deployment = RuntimePartitionDeploymentReport {
        module_name: launch.module_name.clone(),
        workers: Vec::new(),
        diagnostics: Vec::new(),
    };
    let mut session = RuntimePartitionSession {
        launch,
        deployment,
        route_mailboxes: Vec::new(),
        actions: Vec::new(),
        surrogate_attachment: None,
    };
    let mut service = LocalRuntimeWorkerService::new();

    let err = session.tick_local(&mut service).unwrap_err();

    assert_eq!(
        err.diagnostics[0].code,
        "E_RUNTIME_PARTITION_SESSION_ACTION"
    );
    assert!(session.actions().is_empty());
}

#[test]
fn runtime_partition_session_tick_many_zero_does_not_increment_counters() {
    let launch = recursive_partition_launch();
    let mut service = LocalRuntimeWorkerService::new();
    let mut session =
        RuntimePartitionSession::deploy_local(launch.clone(), &mut service).unwrap();

    let report = session.tick_many_local(0, &mut service).unwrap();

    assert_eq!(report.kind, RuntimePartitionWorkerActionKind::TickMany(0));
    assert_eq!(report.workers.len(), launch.workers.len());
    assert_eq!(report.operations.tick_many.calls, 0);
    assert!(report
        .workers
        .iter()
        .all(|worker| worker.operations.tick_many.calls == 0));
    assert_eq!(session.actions(), &vec![report.clone()]);
}

#[test]
fn runtime_partition_session_clear_actions_preserves_health() {
    let launch = recursive_partition_launch();
    let mut service = LocalRuntimeWorkerService::new();
    let mut session = RuntimePartitionSession::deploy_local(launch, &mut service).unwrap();
    session.tick_local(&mut service).unwrap();
    session.tick_many_local(2, &mut service).unwrap();
    assert_eq!(session.actions().len(), 2);
    assert!(session.health().ready);

    session.clear_actions();

    assert!(session.actions().is_empty());
    assert_eq!(session.latest_action(), None);
    assert!(session.health().ready);
    let summary = session.action_summary();
    assert_eq!(summary.action_count, 0);
    assert_eq!(summary.latest_action_kind, None);
    assert_eq!(summary.operations, RuntimeOperationStats::default());
    let telemetry = session.telemetry();
    assert!(telemetry.actions.is_empty());
    assert_eq!(telemetry.action_summary, summary);
}

#[test]
fn runtime_partition_session_local_manages_route_mailboxes() {
    let launch = recursive_partition_launch();
    let route = launch.routes[0].clone();
    let payload = RuntimePartitionRoutePayload {
        route_index: route.route_index,
        width: route.width,
        limbs: vec![0x33],
    };
    let mut service = LocalRuntimeWorkerService::new();
    let mut session =
        RuntimePartitionSession::deploy_local(launch.clone(), &mut service).unwrap();
    assert_eq!(session.route_mailboxes().len(), launch.workers.len());
    assert!(session
        .route_mailboxes()
        .iter()
        .all(
            |mailbox| mailbox.outbound_payload_count == 0 && mailbox.inbound_payload_count == 0
        ));

    let producer = session
        .publish_route_outbound_local(&route.producer_worker, payload.clone(), &mut service)
        .unwrap();
    assert_eq!(producer.outbound_payload_count, 1);
    let consumer = session
        .deliver_route_inbound_local(&route.consumer_worker, payload, &mut service)
        .unwrap();
    assert_eq!(consumer.inbound_payload_count, 1);

    let telemetry = session.telemetry();
    assert!(telemetry.route_mailboxes.iter().any(|mailbox| {
        mailbox.worker_id == route.producer_worker && mailbox.outbound_payload_count == 1
    }));
    assert!(telemetry.route_mailboxes.iter().any(|mailbox| {
        mailbox.worker_id == route.consumer_worker && mailbox.inbound_payload_count == 1
    }));

    let reports = session.collect_route_mailboxes_local(&mut service).unwrap();
    assert_eq!(reports.len(), launch.workers.len());
    let reports = session.clear_route_mailboxes_local(&mut service).unwrap();
    assert_eq!(reports.len(), launch.workers.len());
    assert!(session
        .route_mailboxes()
        .iter()
        .all(
            |mailbox| mailbox.outbound_payload_count == 0 && mailbox.inbound_payload_count == 0
        ));
}

#[test]
fn runtime_partition_session_local_transfers_route_payload() {
    let launch = recursive_partition_launch();
    let route = launch.routes[0].clone();
    let mut service = LocalRuntimeWorkerService::new();
    let mut session =
        RuntimePartitionSession::deploy_local(launch.clone(), &mut service).unwrap();

    let report = session
        .transfer_route_local(route.route_index, vec![0x66], &mut service)
        .unwrap();

    assert_eq!(report.route_index, route.route_index);
    assert_eq!(report.producer_worker, route.producer_worker);
    assert_eq!(report.consumer_worker, route.consumer_worker);
    assert_eq!(report.width, route.width);
    assert_eq!(report.limb_count, 1);
    assert_eq!(report.producer_mailbox.outbound_payload_count, 1);
    assert_eq!(report.consumer_mailbox.inbound_payload_count, 1);
    let telemetry = session.telemetry();
    assert!(telemetry.route_mailboxes.iter().any(|mailbox| {
        mailbox.worker_id == route.producer_worker && mailbox.outbound_payload_count == 1
    }));
    assert!(telemetry.route_mailboxes.iter().any(|mailbox| {
        mailbox.worker_id == route.consumer_worker && mailbox.inbound_payload_count == 1
    }));
}

#[test]
fn runtime_partition_session_transfer_validates_route_lookup() {
    let launch = recursive_partition_launch();
    let mut service = LocalRuntimeWorkerService::new();
    let mut session = RuntimePartitionSession::deploy_local(launch, &mut service).unwrap();

    let err = session
        .transfer_route_local(usize::MAX, vec![0x66], &mut service)
        .unwrap_err();

    assert_eq!(
        err.diagnostics[0].code,
        "E_RUNTIME_PARTITION_ROUTE_TRANSFER"
    );
}

#[test]
fn runtime_partition_session_transfer_rejects_no_route_launch() {
    let design = recursive_partition_hierarchy_design();
    let mut topology = RuntimeTopology::new();
    topology.push(RuntimeWorker::local_cpu("cpu-a", 1));
    let bundle = plan_runtime_partition_bundle(
        &design,
        "RecursiveTop",
        RuntimePartitionConfig {
            target_partitions: 3,
        },
        &topology,
    )
    .unwrap();
    let launch = plan_runtime_partition_launch(&bundle).unwrap();
    assert!(launch.routes.is_empty());
    let mut service = LocalRuntimeWorkerService::new();
    let mut session = RuntimePartitionSession::deploy_local(launch, &mut service).unwrap();

    let err = session
        .transfer_route_local(0, vec![0x66], &mut service)
        .unwrap_err();

    assert_eq!(
        err.diagnostics[0].code,
        "E_RUNTIME_PARTITION_ROUTE_TRANSFER"
    );
}

#[test]
fn runtime_partition_session_empty_script_emits_initial_telemetry_once() {
    let launch = recursive_partition_launch();
    let mut service = LocalRuntimeWorkerService::new();
    let mut session = RuntimePartitionSession::deploy_local(launch, &mut service).unwrap();
    let script = RuntimePartitionSessionRunScript {
        actions: Vec::new(),
        every_actions: 1,
        emit_initial: true,
        emit_final: true,
    };
    let mut log = RuntimePartitionTelemetryLog::new();

    let report = session.run_local_script(&script, &mut service, &mut log).unwrap();

    for record in &log.records {
        assert_eq!(record.telemetry.action_summary.action_count, 0);
        assert!(record.telemetry.actions.is_empty());
    }
    assert_eq!(report.completed_actions, 0);
    assert_eq!(report.telemetry_emitted, 1);
    assert_eq!(report.action_summary.action_count, 0);
    assert_eq!(
        log.records.iter().map(|record| record.event).collect::<Vec<_>>(),
        vec![RuntimePartitionSessionRunEvent {
            completed_actions: 0,
            reason: RuntimePartitionSessionRunEventReason::Initial,
            latest_action_kind: None,
        }]
    );
    assert!(session.actions().is_empty());
}

#[test]
fn runtime_partition_session_local_runs_script_and_emits_cadence_telemetry() {
    let launch = recursive_partition_launch();
    let mut service = LocalRuntimeWorkerService::new();
    let mut session =
        RuntimePartitionSession::deploy_local(launch.clone(), &mut service).unwrap();
    let script = RuntimePartitionSessionRunScript {
        actions: vec![
            RuntimePartitionWorkerActionKind::EvalCombinational,
            RuntimePartitionWorkerActionKind::Tick,
            RuntimePartitionWorkerActionKind::TickMany(2),
        ],
        every_actions: 2,
        emit_initial: true,
        emit_final: true,
    };
    let mut log = RuntimePartitionTelemetryLog::new();

    let report = session.run_local_script(&script, &mut service, &mut log).unwrap();

    for record in &log.records {
        assert_eq!(
            record.telemetry.action_summary.action_count,
            record.event.completed_actions
        );
    }
    assert_eq!(report.completed_actions, 3);
    assert_eq!(report.telemetry_emitted, 3);
    assert_eq!(report.action_summary.action_count, 3);
    assert_eq!(
        report.action_summary.latest_action_kind,
        Some(RuntimePartitionWorkerActionKind::TickMany(2))
    );
    assert_eq!(
        report.action_summary.operations.eval_combinational.calls,
        launch.workers.len() as u64 * 3
    );
    assert_eq!(
        report.action_summary.operations.tick.calls,
        launch.workers.len() as u64 * 2
    );
    assert_eq!(
        report.action_summary.operations.tick_many.calls,
        launch.workers.len() as u64
    );
    assert_eq!(
        log.records.iter().map(|record| record.event).collect::<Vec<_>>(),
        vec![
            RuntimePartitionSessionRunEvent {
                completed_actions: 0,
                reason: RuntimePartitionSessionRunEventReason::Initial,
                latest_action_kind: None,
            },
            RuntimePartitionSessionRunEvent {
                completed_actions: 2,
                reason: RuntimePartitionSessionRunEventReason::Cadence,
                latest_action_kind: Some(RuntimePartitionWorkerActionKind::Tick),
            },
            RuntimePartitionSessionRunEvent {
                completed_actions: 3,
                reason: RuntimePartitionSessionRunEventReason::Final,
                latest_action_kind: Some(RuntimePartitionWorkerActionKind::TickMany(2)),
            },
        ]
    );
    assert_eq!(session.actions().len(), 3);
}

/// Runs a script with the workers of a service and a callback that may refuse telemetry.
fn run_script_with(
    session: &mut RuntimePartitionSession,
    script: &RuntimePartitionSessionRunScript,
    service: &mut LocalRuntimeWorkerService,
    mut emit: impl FnMut(RuntimePartitionSessionRunEvent) -> Result<(), ErrorReport>,
) -> Result<RuntimePartitionSessionRunReport, ErrorReport> {
    validate_partition_session_run_script(script)?;
    let mut run = RuntimePartitionScriptRun::begin();
    let mut outcome = Ok(());
    loop {
        outcome = match run.advance(script, outcome)? {
            RuntimePartitionScriptStep::Act(kind) => {
                session.run_local_action(kind, service).map(|_| ())
            }
            RuntimePartitionScriptStep::Emit(reason) => emit(run.event(reason, session)),
            RuntimePartitionScriptStep::Done => return Ok(run.report(session)),
        };
    }
}

#[test]
fn runtime_partition_session_script_callback_error_preserves_recorded_action() {
    let launch = recursive_partition_launch();
    let mut service = LocalRuntimeWorkerService::new();
    let mut session = RuntimePartitionSession::deploy_local(launch, &mut service).unwrap();
    let script = RuntimePartitionSessionRunScript::every_actions(
        vec![RuntimePartitionWorkerActionKind::Tick],
        1,
    );

    let mut sink = RuntimePartitionTelemetryReplies::new(vec![Some(error(
        "E_TEST_PARTITION_SESSION_TELEMETRY",
        "partition session telemetry sink failed",
    ))]);

    let err = session
        .run_local_script(&script, &mut service, &mut sink)
        .unwrap_err();

    assert_eq!(
        err.diagnostics[0].code,
        "E_TEST_PARTITION_SESSION_TELEMETRY"
    );
    assert_eq!(session.actions().len(), 1);
    assert_eq!(
        session.latest_action().unwrap().kind,
        RuntimePartitionWorkerActionKind::Tick
    );
}

#[test]
fn sinks_decide_how_far_scripts_run() {
    let script = RuntimePartitionSessionRunScript {
        actions: vec![
            RuntimePartitionWorkerActionKind::EvalCombinational,
            RuntimePartitionWorkerActionKind::Tick,
            RuntimePartitionWorkerActionKind::TickMany(2),
        ],
        every_actions: 2,
        emit_initial: true,
        emit_final: true,
    };
    // The emissions follow no action, two actions and three actions.
    for (refused, completed) in [(0, 0), (1, 2), (2, 3)] {
        let mut refusals: Vec<Option<ErrorReport>> = vec![None; refused];
        refusals.push(Some(error("E_TEST_SINK", "no room")));
        let mut sink = RuntimePartitionTelemetryReplies::new(refusals);
        let mut service = LocalRuntimeWorkerService::new();
        let launch = recursive_partition_launch();
        let mut session = RuntimePartitionSession::deploy_local(launch, &mut service).unwrap();
        let err = session.run_loopback_script(&script, &mut service, &mut sink).unwrap_err();
        assert_eq!(err, error("E_TEST_SINK", "no room"));
        assert_eq!(sink.records.len(), refused + 1);
        assert_eq!(session.actions().len(), completed);
    }

    let mut sink = RuntimePartitionTelemetryReplies::new(vec![None, None]);
    let mut service = LocalRuntimeWorkerService::new();
    let launch = recursive_partition_launch();
    let mut session = RuntimePartitionSession::deploy_local(launch, &mut service).unwrap();
    let report = session.run_local_script(&script, &mut service, &mut sink).unwrap();
    assert_eq!(report.telemetry_emitted, 3);
    assert_eq!(sink.records.len(), 3);
}

#[test]
fn script_runs_end_with_the_error_of_a_step() {
    let script = RuntimePartitionSessionRunScript::every_actions(
        vec![RuntimePartitionWorkerActionKind::Tick],
        1,
    );
    let mut run = RuntimePartitionScriptRun::begin();
    let step = run.advance(&script, Ok(())).unwrap();
    assert_eq!(step, RuntimePartitionScriptStep::Act(RuntimePartitionWorkerActionKind::Tick));
    let before = run;
    let err = run.advance(&script, Err(error("E_TEST_STEP", "lost"))).unwrap_err();
    assert_eq!(err, error("E_TEST_STEP", "lost"));
    assert_eq!(run, before);
}

#[test]
fn runtime_partition_session_script_validates_cadence() {
    let launch = recursive_partition_launch();
    let mut service = LocalRuntimeWorkerService::new();
    let mut session = RuntimePartitionSession::deploy_local(launch, &mut service).unwrap();
    let script = RuntimePartitionSessionRunScript {
        actions: vec![RuntimePartitionWorkerActionKind::Tick],
        every_actions: 0,
        emit_initial: false,
        emit_final: true,
    };

    let err = session
        .run_local_script(&script, &mut service, &mut RuntimePartitionTelemetryLog::new())
        .unwrap_err();

    assert_eq!(
        err.diagnostics[0].code,
        "E_RUNTIME_PARTITION_SESSION_SCRIPT"
    );
    assert!(session.actions().is_empty());
}

// Further properties of plans.

#[test]
fn partitions_share_the_work_of_the_design() {
    let design = recursive_partition_hierarchy_design();
    let mut totals = Vec::new();
    for target_partitions in 1..5 {
        let plan = plan_runtime_partitions(
            &design,
            "RecursiveTop",
            RuntimePartitionConfig { target_partitions },
        )
        .unwrap();
        assert!(!plan.partitions.is_empty());
        assert!(plan.partitions.len() <= target_partitions);
        let compute: u64 = plan.partitions.iter().map(|p| p.cost.compute_ops).sum();
        assert_eq!(compute, plan.total_cost.compute_ops);
        totals.push(compute);
    }
    assert_eq!(totals, vec![7, 7, 7, 7]);
}

#[test]
fn partitions_are_numbered_in_their_order() {
    let design = imbalanced_hierarchy_design();
    let plan = plan_runtime_partitions(
        &design,
        "ImbalancedTop",
        RuntimePartitionConfig { target_partitions: 3 },
    )
    .unwrap();
    let ids: Vec<&str> = plan.partitions.iter().map(|p| p.id.as_str()).collect();
    assert_eq!(ids, vec!["p0", "p1", "p2"]);
}

#[test]
fn every_partition_is_assigned_once() {
    let (plan, placement, communication) = recursive_partition_bundle_parts();
    for partition in &plan.partitions {
        assert_eq!(
            placement.assignments.iter().filter(|a| a.partition_id == partition.id).count(),
            1
        );
    }
    let assigned: u64 = placement.worker_summaries.iter().map(|w| w.cost.compute_ops).sum();
    assert_eq!(assigned, plan.total_cost.compute_ops);
    let outbound: u64 = communication.worker_summaries.iter().map(|w| w.outbound_bits).sum();
    let inbound: u64 = communication.worker_summaries.iter().map(|w| w.inbound_bits).sum();
    assert_eq!(outbound, communication.total_cross_worker_boundary_bits);
    assert_eq!(inbound, communication.total_cross_worker_boundary_bits);
}

#[test]
fn planned_bundles_are_valid_and_launch() {
    let (plan, placement, communication) = recursive_partition_bundle_parts();
    let bundle = RuntimePartitionBundle::from_plans(plan, placement, communication).unwrap();
    assert!(bundle.validate().is_ok());
    let launch = plan_runtime_partition_launch(&bundle).unwrap();
    assert_eq!(launch.routes.len(), bundle.communication_plan.routes.len());
    assert!(deploy_runtime_partition_launch_local(
        &launch,
        &mut LocalRuntimeWorkerService::new()
    )
    .is_ok());
}

#[test]
fn plans_of_another_version_are_refused() {
    let (mut plan, mut placement, mut communication) = recursive_partition_bundle_parts();
    let bundle = RuntimePartitionBundle::from_plans(
        plan.clone(),
        placement.clone(),
        communication.clone(),
    )
    .unwrap();
    let mut launch = plan_runtime_partition_launch(&bundle).unwrap();
    let mut bad_bundle = bundle;

    plan.format_version += 1;
    let err = plan.validate_format_version().unwrap_err();
    assert_eq!(err.diagnostics[0].code, "E_RUNTIME_PARTITION_PLAN_VERSION");
    assert_eq!(
        err.diagnostics[0].message,
        "unsupported runtime partition plan format version 2, expected 1"
    );
    placement.format_version += 1;
    let err = placement.validate_format_version().unwrap_err();
    assert_eq!(err.diagnostics[0].code, "E_RUNTIME_PARTITION_PLACEMENT_VERSION");
    communication.format_version += 1;
    let err = communication.validate_format_version().unwrap_err();
    assert_eq!(err.diagnostics[0].code, "E_RUNTIME_PARTITION_COMMUNICATION_VERSION");
    bad_bundle.format_version += 1;
    let err = bad_bundle.validate_format_version().unwrap_err();
    assert_eq!(err.diagnostics[0].code, "E_RUNTIME_PARTITION_BUNDLE_VERSION");
    launch.format_version += 1;
    let err = launch.validate_format_version().unwrap_err();
    assert_eq!(err.diagnostics[0].code, "E_RUNTIME_PARTITION_LAUNCH_VERSION");
}

#[test]
fn session_telemetry_of_another_version_is_refused() {
    let launch = recursive_partition_launch();
    let mut service = LocalRuntimeWorkerService::new();
    let mut session = RuntimePartitionSession::deploy_local(launch, &mut service).unwrap();
    let action = session.tick_local(&mut service).unwrap();
    let mut telemetry = session.telemetry();
    assert_eq!(telemetry.actions, vec![action]);
    assert!(telemetry.validate_format_version().is_ok());
    telemetry.format_version += 1;
    let err = telemetry.validate_format_version().unwrap_err();
    assert_eq!(err.diagnostics[0].code, "E_RUNTIME_PARTITION_SESSION_TELEMETRY_VERSION");
}

#[test]
fn slice_groups_own_the_paths_of_their_partitions() {
    let design = recursive_partition_hierarchy_design();
    let plan = plan_runtime_partitions(
        &design,
        "RecursiveTop",
        RuntimePartitionConfig { target_partitions: 3 },
    )
    .unwrap();
    let groups = slice_groups_for_partition_plan(&plan);
    assert_eq!(groups.len(), 3);
    assert_eq!(groups[1].id, "p1");
    assert_eq!(groups[1].owned_paths, vec!["RecursiveTop.u_mid.u_leaf0".to_string()]);
}

#[test]
fn requests_touch_only_their_worker() {
    let launch = recursive_partition_launch();
    let mut service = LocalRuntimeWorkerService::new();
    deploy_runtime_partition_launch_local(&launch, &mut service).unwrap();
    let before = service.partition_worker_health("cpu-b".to_string());
    service
        .handle_now(RuntimeWorkerRequest::RunPartitionWorkerAction(
            RuntimePartitionWorkerAction {
                worker_id: "cpu-a".to_string(),
                kind: RuntimePartitionWorkerActionKind::Tick,
            },
        ))
        .unwrap();
    assert_eq!(service.partition_worker_health("cpu-b".to_string()), before);
}

#[test]
fn payloads_without_limbs_are_refused() {
    let launch = recursive_partition_launch();
    let route = launch.routes[0].clone();
    let mut service = LocalRuntimeWorkerService::new();
    deploy_runtime_partition_launch_local(&launch, &mut service).unwrap();
    let err = service
        .handle_now(RuntimeWorkerRequest::StorePartitionRouteOutbound {
            worker_id: route.producer_worker.clone(),
            payload: RuntimePartitionRoutePayload {
                route_index: route.route_index,
                width: route.width,
                limbs: Vec::new(),
            },
        })
        .unwrap_err();
    assert_eq!(
        err.diagnostics[0].message,
        format!(
            "partition worker `{}` outbound route {} payload has no limbs for width 8",
            route.producer_worker, route.route_index
        )
    );
}

#[test]
fn workers_elsewhere_step_like_workers_here() {
    let launch = recursive_partition_launch();
    let mut here = LocalRuntimeWorkerService::new();
    let mut elsewhere = LocalRuntimeWorkerService::new();
    let mut local = RuntimePartitionSession::deploy_local(launch.clone(), &mut here).unwrap();

    let mut health = Vec::new();
    for worker in &launch.workers {
        let init = elsewhere
            .handle_now(RuntimeWorkerRequest::InitPartitionWorker(
                RuntimePartitionWorkerInit {
                    worker_id: worker.worker_id.clone(),
                    launch: worker.clone(),
                },
            ))
            .unwrap();
        let found = elsewhere
            .handle_now(RuntimeWorkerRequest::PartitionWorkerHealth {
                worker_id: worker.worker_id.clone(),
            })
            .unwrap();
        health.push(deploy_runtime_partition_worker(worker, init, found).unwrap());
    }
    let deployment = report_deployment(&launch, health);
    assert_eq!(local.deployment(), &deployment);
    let mut remote = RuntimePartitionSession::from_deployment(launch.clone(), deployment);

    let kind = RuntimePartitionWorkerActionKind::TickMany(3);
    let mut responses = Vec::new();
    for worker in &launch.workers {
        responses.push(
            elsewhere
                .handle_now(RuntimeWorkerRequest::RunPartitionWorkerAction(
                    RuntimePartitionWorkerAction { worker_id: worker.worker_id.clone(), kind },
                ))
                .unwrap(),
        );
    }
    let report = remote.run_client_action(kind, responses).unwrap();
    assert_eq!(report, local.tick_many_local(3, &mut here).unwrap());
    assert_eq!(remote.telemetry(), local.telemetry());

    let route = launch.routes[0].clone();
    let payload = RuntimePartitionRoutePayload {
        route_index: route.route_index,
        width: route.width,
        limbs: vec![0x42],
    };
    let response = elsewhere
        .handle_now(RuntimeWorkerRequest::StorePartitionRouteOutbound {
            worker_id: route.producer_worker.clone(),
            payload: payload.clone(),
        })
        .unwrap();
    let mailbox = remote.take_mailbox_response(&route.producer_worker, response).unwrap();
    assert_eq!(
        mailbox,
        local.publish_route_outbound_local(&route.producer_worker, payload, &mut here).unwrap()
    );
}

#[test]
fn unexpected_responses_are_quoted() {
    let launch = recursive_partition_launch();
    let mut service = LocalRuntimeWorkerService::new();
    let mut session = RuntimePartitionSession::deploy_local(launch, &mut service).unwrap();
    let err = session
        .run_client_action(
            RuntimePartitionWorkerActionKind::Tick,
            vec![RuntimeWorkerResponse::Ack, RuntimeWorkerResponse::Ack],
        )
        .unwrap_err();
    assert_eq!(err.diagnostics[0].code, "E_RUNTIME_WORKER_RESPONSE");
    assert_eq!(
        err.diagnostics[0].message,
        "expected worker response PartitionWorkerAction, got Ack"
    );
    assert!(session.actions().is_empty());
    let err = session.take_mailbox_response("cpu-a", RuntimeWorkerResponse::Ack).unwrap_err();
    assert_eq!(
        err.diagnostics[0].message,
        "expected worker response PartitionRouteMailbox, got Ack"
    );
}

#[test]
fn script_runs_act_and_emit_in_turn() {
    let script = RuntimePartitionSessionRunScript {
        actions: vec![RuntimePartitionWorkerActionKind::Tick; 3],
        every_actions: 2,
        emit_initial: true,
        emit_final: true,
    };
    let mut run = RuntimePartitionScriptRun::begin();
    let mut steps = Vec::new();
    loop {
        let step = run.advance(&script, Ok(())).unwrap();
        steps.push(step);
        if step == RuntimePartitionScriptStep::Done {
            break;
        }
    }
    let act = RuntimePartitionScriptStep::Act(RuntimePartitionWorkerActionKind::Tick);
    assert_eq!(
        steps,
        vec![
            RuntimePartitionScriptStep::Emit(RuntimePartitionSessionRunEventReason::Initial),
            act,
            act,
            RuntimePartitionScriptStep::Emit(RuntimePartitionSessionRunEventReason::Cadence),
            act,
            RuntimePartitionScriptStep::Emit(RuntimePartitionSessionRunEventReason::Final),
            RuntimePartitionScriptStep::Done,
        ]
    );
    assert_eq!(run.completed_actions, 3);
    assert_eq!(run.telemetry_emitted, 3);
}

#[test]
fn routes_within_a_worker_cannot_be_transferred() {
    let mut launch = recursive_partition_launch();
    let index = launch.routes[0].route_index;
    launch.routes[0].consumer_worker = launch.routes[0].producer_worker.clone();
    let mut service = LocalRuntimeWorkerService::new();
    let mut session = RuntimePartitionSession::deploy_local(launch, &mut service).unwrap();
    let err = session.transfer_route_local(index, vec![1], &mut service).unwrap_err();
    assert_eq!(err.diagnostics[0].code, "E_RUNTIME_PARTITION_ROUTE_TRANSFER");
    assert!(err.diagnostics[0].message.contains("cannot be transferred across workers"));
}

#[test]
fn runtime_partition_deployment_loopback_initializes_all_workers() {
    let launch = recursive_partition_launch();
    let mut service = LocalRuntimeWorkerService::new();

    let report = deploy_runtime_partition_launch_loopback(&launch, &mut service).unwrap();

    assert_eq!(report.module_name, "RecursiveTop");
    assert_eq!(
        report
            .workers
            .iter()
            .map(|health| (health.worker_id.as_str(), health.initialized))
            .collect::<Vec<_>>(),
        vec![("cpu-a", true), ("cpu-b", true)]
    );
}

#[test]
fn runtime_partition_session_loopback_reports_launch_counts() {
    let launch = recursive_partition_launch();
    let mut service = LocalRuntimeWorkerService::new();

    let session = RuntimePartitionSession::deploy_loopback(launch.clone(), &mut service).unwrap();
    let health = session.health();

    assert!(health.ready);
    assert_eq!(health.worker_count, launch.workers.len());
    assert_eq!(health.partition_count, 3);
    assert_eq!(health.route_count, launch.routes.len());
}

#[test]
fn runtime_partition_session_loopback_runs_structural_actions() {
    let launch = recursive_partition_launch();
    let mut service = LocalRuntimeWorkerService::new();
    let mut session =
        RuntimePartitionSession::deploy_loopback(launch.clone(), &mut service).unwrap();

    let report = session.tick_loopback(&mut service).unwrap();

    assert_eq!(report.kind, RuntimePartitionWorkerActionKind::Tick);
    assert_eq!(report.workers.len(), launch.workers.len());
    assert_eq!(report.operations.tick.calls, launch.workers.len() as u64);
    assert_eq!(session.actions(), &vec![report]);
}

#[test]
fn runtime_partition_session_loopback_manages_route_mailboxes() {
    let launch = recursive_partition_launch();
    let route = launch.routes[0].clone();
    let payload = RuntimePartitionRoutePayload {
        route_index: route.route_index,
        width: route.width,
        limbs: vec![0x44],
    };
    let mut service = LocalRuntimeWorkerService::new();
    let mut session =
        RuntimePartitionSession::deploy_loopback(launch.clone(), &mut service).unwrap();

    session
        .publish_route_outbound_loopback(
            &route.producer_worker,
            payload.clone(),
            &mut service,
        )
        .unwrap();
    session
        .deliver_route_inbound_loopback(&route.consumer_worker, payload, &mut service)
        .unwrap();
    let reports = session
        .collect_route_mailboxes_loopback(&mut service)
        .unwrap();

    assert_eq!(reports.len(), launch.workers.len());
    assert!(reports.iter().any(|mailbox| {
        mailbox.worker_id == route.producer_worker && mailbox.outbound_payload_count == 1
    }));
    assert!(reports.iter().any(|mailbox| {
        mailbox.worker_id == route.consumer_worker && mailbox.inbound_payload_count == 1
    }));
    session.clear_route_mailboxes_loopback(&mut service).unwrap();
    assert!(session
        .telemetry()
        .route_mailboxes
        .iter()
        .all(
            |mailbox| mailbox.outbound_payload_count == 0 && mailbox.inbound_payload_count == 0
        ));
}

#[test]
fn runtime_partition_session_loopback_transfers_route_payload() {
    let launch = recursive_partition_launch();
    let route = launch.routes[0].clone();
    let mut service = LocalRuntimeWorkerService::new();
    let mut session =
        RuntimePartitionSession::deploy_loopback(launch.clone(), &mut service).unwrap();

    let report = session
        .transfer_route_loopback(route.route_index, vec![0x77], &mut service)
        .unwrap();

    assert_eq!(report.route_index, route.route_index);
    assert_eq!(report.producer_mailbox.outbound_payload_count, 1);
    assert_eq!(report.consumer_mailbox.inbound_payload_count, 1);
}

#[test]
fn runtime_partition_session_loopback_runs_script() {
    let launch = recursive_partition_launch();
    let mut service = LocalRuntimeWorkerService::new();
    let mut session =
        RuntimePartitionSession::deploy_loopback(launch.clone(), &mut service).unwrap();
    let script = RuntimePartitionSessionRunScript::every_actions(
        vec![RuntimePartitionWorkerActionKind::Tick],
        1,
    );
    let mut log = RuntimePartitionTelemetryLog::new();

    let report = session
        .run_loopback_script(&script, &mut service, &mut log)
        .unwrap();
    for record in &log.records {
        assert_eq!(record.telemetry.actions.len(), record.event.completed_actions);
    }
    let events = log.records.iter().map(|record| record.event).collect::<Vec<_>>();

    assert_eq!(report.completed_actions, 1);
    assert_eq!(report.telemetry_emitted, 1);
    assert_eq!(
        report.action_summary.operations.tick.calls,
        launch.workers.len() as u64
    );
    assert_eq!(
        events,
        vec![RuntimePartitionSessionRunEvent {
            completed_actions: 1,
            reason: RuntimePartitionSessionRunEventReason::Cadence,
            latest_action_kind: Some(RuntimePartitionWorkerActionKind::Tick),
        }]
    );
}

#[test]
fn scripts_run_alike_step_by_step() {
    let script = RuntimePartitionSessionRunScript {
        actions: vec![
            RuntimePartitionWorkerActionKind::Tick,
            RuntimePartitionWorkerActionKind::TickMany(2),
            RuntimePartitionWorkerActionKind::EvalCombinational,
        ],
        every_actions: 2,
        emit_initial: true,
        emit_final: true,
    };
    let mut service = LocalRuntimeWorkerService::new();
    let launch = recursive_partition_launch();
    let mut session = RuntimePartitionSession::deploy_local(launch, &mut service).unwrap();
    let mut log = RuntimePartitionTelemetryLog::new();
    let report = session.run_local_script(&script, &mut service, &mut log).unwrap();

    let mut other_service = LocalRuntimeWorkerService::new();
    let launch = recursive_partition_launch();
    let mut other = RuntimePartitionSession::deploy_local(launch, &mut other_service).unwrap();
    let mut events = Vec::new();
    let other_report = run_script_with(&mut other, &script, &mut other_service, |event| {
        events.push(event);
        Ok(())
    })
    .unwrap();
    assert_eq!(other_report, report);
    assert_eq!(events.len(), 3);
    for (event, record) in events.iter().zip(&log.records) {
        assert_eq!(*event, record.event);
    }
    assert_eq!(other.telemetry(), session.telemetry());
}

/// Workers that are reached by their endpoints.
struct Remote {
    endpoints: Vec<RuntimeTcpEndpoint>,
    workers: Vec<(String, LocalRuntimeWorkerService)>,
}

impl Remote {
    fn new(topology: &RuntimeTopology) -> Remote {
        let mut endpoints = Vec::new();
        let mut workers = Vec::new();
        for (port, worker) in topology.workers().iter().enumerate() {
            let addr = format!("127.0.0.1:{}", 9000 + port);
            workers.push((addr.clone(), LocalRuntimeWorkerService::new()));
            endpoints.push(RuntimeTcpEndpoint {
                worker_id: worker.id.clone(),
                addr,
            });
        }
        Remote { endpoints, workers }
    }

    fn request(
        &mut self,
        worker_id: &str,
        request: RuntimeWorkerRequest,
    ) -> Result<RuntimeWorkerResponse, ErrorReport> {
        let addr = partition_session_worker_endpoint(worker_id, &self.endpoints)?;
        let (_, worker) = self.workers.iter_mut().find(|(at, _)| *at == addr).unwrap();
        worker.handle_now(request)
    }

    fn deploy(
        &mut self,
        launch: &RuntimePartitionLaunchPlan,
    ) -> Result<RuntimePartitionDeploymentReport, ErrorReport> {
        validate_partition_deployment_launch(launch)?;
        let mut workers = Vec::new();
        for worker in &launch.workers {
            let id = worker.worker_id.as_str();
            let init = self.request(
                id,
                RuntimeWorkerRequest::InitPartitionWorker(RuntimePartitionWorkerInit {
                    worker_id: id.to_string(),
                    launch: worker.clone(),
                }),
            )?;
            let worker_id = id.to_string();
            let health =
                self.request(id, RuntimeWorkerRequest::PartitionWorkerHealth { worker_id })?;
            workers.push(deploy_runtime_partition_worker(worker, init, health)?);
        }
        Ok(report_deployment(launch, workers))
    }

    fn deploy_session(
        &mut self,
        launch: RuntimePartitionLaunchPlan,
    ) -> Result<RuntimePartitionSession, ErrorReport> {
        let deployment = self.deploy(&launch)?;
        Ok(RuntimePartitionSession::from_deployment(launch, deployment))
    }

    fn act(
        &mut self,
        session: &mut RuntimePartitionSession,
        kind: RuntimePartitionWorkerActionKind,
    ) -> Result<RuntimePartitionSessionActionReport, ErrorReport> {
        validate_partition_session_ready(session)?;
        let mut responses = Vec::new();
        for worker in &session.launch().workers {
            let worker_id = worker.worker_id.clone();
            let action = RuntimePartitionWorkerAction { worker_id, kind };
            let request = RuntimeWorkerRequest::RunPartitionWorkerAction(action);
            responses.push(self.request(&worker.worker_id, request)?);
        }
        session.run_client_action(kind, responses)
    }

    fn mailbox(
        &mut self,
        session: &mut RuntimePartitionSession,
        worker_id: &str,
        request: RuntimeWorkerRequest,
    ) -> Result<RuntimePartitionRouteMailboxReport, ErrorReport> {
        let response = self.request(worker_id, request)?;
        session.take_mailbox_response(worker_id, response)
    }

    fn publish(
        &mut self,
        session: &mut RuntimePartitionSession,
        worker_id: &str,
        payload: RuntimePartitionRoutePayload,
    ) -> Result<RuntimePartitionRouteMailboxReport, ErrorReport> {
        let request = RuntimeWorkerRequest::StorePartitionRouteOutbound {
            worker_id: worker_id.to_string(),
            payload,
        };
        self.mailbox(session, worker_id, request)
    }

    fn deliver(
        &mut self,
        session: &mut RuntimePartitionSession,
        worker_id: &str,
        payload: RuntimePartitionRoutePayload,
    ) -> Result<RuntimePartitionRouteMailboxReport, ErrorReport> {
        let request = RuntimeWorkerRequest::DeliverPartitionRouteInbound {
            worker_id: worker_id.to_string(),
            payload,
        };
        self.mailbox(session, worker_id, request)
    }
}

#[test]
fn runtime_partition_deployment_tcp_initializes_all_workers() {
    let launch = recursive_partition_launch();
    let report = Remote::new(&two_cpu_topology()).deploy(&launch).unwrap();

    assert_eq!(report.workers.len(), launch.workers.len());
    assert!(report.workers.iter().all(|health| health.initialized));
}

#[test]
fn runtime_partition_session_tcp_reports_ready_health() {
    let launch = recursive_partition_launch();
    let session = Remote::new(&two_cpu_topology()).deploy_session(launch.clone()).unwrap();
    let health = session.health();

    assert!(health.ready);
    assert_eq!(health.worker_count, launch.workers.len());
    assert_eq!(health.initialized_worker_count, launch.workers.len());
}

#[test]
fn runtime_partition_session_tcp_runs_structural_actions() {
    let launch = recursive_partition_launch();
    let mut remote = Remote::new(&two_cpu_topology());
    let mut session = remote.deploy_session(launch.clone()).unwrap();

    let kind = RuntimePartitionWorkerActionKind::TickMany(3);
    let report = remote.act(&mut session, kind).unwrap();

    assert_eq!(report.kind, RuntimePartitionWorkerActionKind::TickMany(3));
    assert_eq!(report.workers.len(), launch.workers.len());
    assert_eq!(
        report.operations.tick_many.calls,
        launch.workers.len() as u64
    );
    assert_eq!(session.latest_action(), Some(&report));
}

#[test]
fn runtime_partition_session_tcp_manages_route_mailboxes() {
    let launch = recursive_partition_launch();
    let route = launch.routes[0].clone();
    let payload = RuntimePartitionRoutePayload {
        route_index: route.route_index,
        width: route.width,
        limbs: vec![0x55],
    };
    let mut remote = Remote::new(&two_cpu_topology());
    let mut session = remote.deploy_session(launch.clone()).unwrap();

    remote.publish(&mut session, &route.producer_worker, payload.clone()).unwrap();
    remote.deliver(&mut session, &route.consumer_worker, payload).unwrap();
    let mut reports = Vec::new();
    for worker in &launch.workers {
        let worker_id = worker.worker_id.clone();
        let request = RuntimeWorkerRequest::PartitionRouteMailbox { worker_id };
        reports.push(remote.mailbox(&mut session, &worker.worker_id, request).unwrap());
    }

    assert_eq!(reports.len(), launch.workers.len());
    assert!(reports.iter().any(|mailbox| {
        mailbox.worker_id == route.producer_worker && mailbox.outbound_payload_count == 1
    }));
    assert!(reports.iter().any(|mailbox| {
        mailbox.worker_id == route.consumer_worker && mailbox.inbound_payload_count == 1
    }));
}

#[test]
fn runtime_partition_session_tcp_transfers_route_payload() {
    let launch = recursive_partition_launch();
    let route = launch.routes[0].clone();
    let mut remote = Remote::new(&two_cpu_topology());
    let mut session = remote.deploy_session(launch.clone()).unwrap();

    let found = session.transfer_route(route.route_index).unwrap();
    let payload = RuntimePartitionRoutePayload {
        route_index: found.route_index,
        width: found.width,
        limbs: vec![0x88],
    };
    let producer =
        remote.publish(&mut session, &found.producer_worker, payload.clone()).unwrap();
    let consumer = remote.deliver(&mut session, &found.consumer_worker, payload).unwrap();
    let report = session.route_transfer_report(&found, producer, consumer);

    assert_eq!(report.route_index, route.route_index);
    assert_eq!(report.producer_mailbox.outbound_payload_count, 1);
    assert_eq!(report.consumer_mailbox.inbound_payload_count, 1);
}

#[test]
fn runtime_partition_session_tcp_runs_script() {
    let launch = recursive_partition_launch();
    let mut remote = Remote::new(&two_cpu_topology());
    let mut session = remote.deploy_session(launch.clone()).unwrap();
    let script = RuntimePartitionSessionRunScript::every_actions(
        vec![RuntimePartitionWorkerActionKind::TickMany(3)],
        1,
    );
    let mut events = Vec::new();

    validate_partition_session_run_script(&script).unwrap();
    let mut run = RuntimePartitionScriptRun::begin();
    let report = loop {
        match run.advance(&script, Ok(())).unwrap() {
            RuntimePartitionScriptStep::Act(kind) => {
                remote.act(&mut session, kind).unwrap();
            }
            RuntimePartitionScriptStep::Emit(reason) => {
                let event = run.event(reason, &session);
                events.push(event);
                assert_eq!(
                    session.telemetry().action_summary.action_count,
                    event.completed_actions
                );
            }
            RuntimePartitionScriptStep::Done => break run.report(&session),
        }
    };

    assert_eq!(report.completed_actions, 1);
    assert_eq!(report.telemetry_emitted, 1);
    assert_eq!(
        report.action_summary.operations.tick_many.calls,
        launch.workers.len() as u64
    );
    assert_eq!(
        events,
        vec![RuntimePartitionSessionRunEvent {
            completed_actions: 1,
            reason: RuntimePartitionSessionRunEventReason::Cadence,
            latest_action_kind: Some(RuntimePartitionWorkerActionKind::TickMany(3)),
        }]
    );
}

#[test]
fn traffic_leaves_and_reaches_workers_alike() {
    for (design, module, target) in [
        (recursive_partition_hierarchy_design(), "RecursiveTop", 3),
        (high_cross_worker_boundary_design(), "CrossWorkerWideTop", 2),
    ] {
        let config = RuntimePartitionConfig { target_partitions: target };
        let plan = plan_runtime_partitions(&design, module, config).unwrap();
        let placement = plan_runtime_partition_placement(&plan, &two_cpu_topology()).unwrap();
        let communication = plan_runtime_partition_communication(&plan, &placement).unwrap();
        let summaries = &placement.worker_summaries;
        let leaving: u64 = summaries.iter().map(|summary| summary.outbound_boundary_bits).sum();
        let reaching: u64 = summaries.iter().map(|summary| summary.inbound_boundary_bits).sum();
        assert_eq!(leaving, communication.total_cross_worker_boundary_bits);
        assert_eq!(reaching, communication.total_cross_worker_boundary_bits);
        assert!(leaving > 0);
        let total = communication.total_cross_worker_boundary_bits;
        let routes: u64 = communication.routes.iter().map(|route| route.bits_per_transfer).sum();
        let summaries = &communication.worker_summaries;
        let sent: u64 = summaries.iter().map(|summary| summary.outbound_bits).sum();
        let received: u64 = summaries.iter().map(|summary| summary.inbound_bits).sum();
        assert_eq!((routes, sent, received), (total, total, total));
    }
}

#[test]
fn bundles_of_agreeing_plans_are_valid() {
    let (plan, placement, communication) = recursive_partition_bundle_parts();
    let bundle = RuntimePartitionBundle::from_plans(
        plan.clone(),
        placement.clone(),
        communication.clone(),
    )
    .unwrap();
    bundle.validate().unwrap();
    assert_eq!(bundle.module_name, plan.module_name);
    assert_eq!(bundle.partition_plan, plan);
    assert_eq!(bundle.placement_plan, placement);
    assert_eq!(bundle.communication_plan, communication);

    let code = |change: fn(&mut RuntimePartitionBundle)| {
        let mut changed = bundle.clone();
        change(&mut changed);
        changed.validate().unwrap_err().diagnostics[0].code.clone()
    };
    assert_eq!(code(|b| b.format_version += 1), "E_RUNTIME_PARTITION_BUNDLE_VERSION");
    assert_eq!(
        code(|b| b.partition_plan.format_version += 1),
        "E_RUNTIME_PARTITION_PLAN_VERSION"
    );
    assert_eq!(
        code(|b| b.placement_plan.format_version += 1),
        "E_RUNTIME_PARTITION_PLACEMENT_VERSION"
    );
    assert_eq!(
        code(|b| b.communication_plan.format_version += 1),
        "E_RUNTIME_PARTITION_COMMUNICATION_VERSION"
    );
}

#[test]
fn partition_workers_stay_healthy() {
    let launch = recursive_partition_launch();
    let mut service = LocalRuntimeWorkerService::new();
    let mut session = RuntimePartitionSession::deploy_local(launch.clone(), &mut service).unwrap();
    let worker = &launch.workers[0];
    let health = service.partition_worker_health(worker.worker_id.clone());
    assert!(health.initialized);
    assert_eq!(health.partitions, worker.partitions);
    session.tick_many_local(4, &mut service).unwrap();
    let route = launch.routes[0].route_index;
    session.transfer_route_local(route, vec![7], &mut service).unwrap();
    session.clear_route_mailboxes_local(&mut service).unwrap();
    service
        .handle_now(RuntimeWorkerRequest::InitPartitionWorker(RuntimePartitionWorkerInit {
            worker_id: worker.worker_id.clone(),
            launch: worker.clone(),
        }))
        .unwrap_err();
    assert_eq!(service.partition_worker_health(worker.worker_id.clone()), health);
    assert!(!service.partition_worker_health("other".to_string()).initialized);
}

#[test]
fn placements_without_gpus_are_balanced() {
    let mut topology = RuntimeTopology::new();
    for id in ["cpu-a", "cpu-b", "cpu-c"] {
        topology.push(RuntimeWorker::local_cpu(id, 1));
    }
    let score = |cost: RuntimePartitionCost| cost.compute_ops + cost.state_bits + cost.memory_bits;
    for (design, top) in [
        (recursive_partition_hierarchy_design(), "RecursiveTop"),
        (imbalanced_hierarchy_design(), "ImbalancedTop"),
    ] {
        let config = RuntimePartitionConfig { target_partitions: 5 };
        let plan = plan_runtime_partitions(&design, top, config).unwrap();
        let placement = plan_runtime_partition_placement(&plan, &topology).unwrap();
        for one in &placement.worker_summaries {
            let lightest = placement
                .assignments
                .iter()
                .filter(|assignment| assignment.worker_id == one.worker_id)
                .map(|assignment| score(assignment.cost))
                .min();
            for other in &placement.worker_summaries {
                if let Some(lightest) = lightest {
                    assert!(score(one.cost) - lightest <= score(other.cost));
                }
            }
        }
    }
}

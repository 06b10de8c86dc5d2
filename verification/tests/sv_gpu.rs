use rrtl_runtime::error::ErrorReport;
use rrtl_runtime::model::design::{
    CompiledDesign, CompiledModule, ModuleId, Signal, SignalId, SignalInfo, SignalKind,
};
use rrtl_runtime::sv_gpu::{PortDir, SvSignalLayout, SvSim, SvWords, limbs_of, mask_u128};

// A counter of eight bits that adds `step` on each enabled cycle.
struct Counter {
    sim: SvSim,
    words: Vec<Vec<u32>>,
}

fn handle(id: u32) -> Signal {
    Signal {
        module: ModuleId(0),
        id: SignalId(id),
    }
}

fn counter_module() -> CompiledDesign {
    let ports = [
        ("clk", 1, SignalKind::Input),
        ("rst", 1, SignalKind::Input),
        ("en", 1, SignalKind::Input),
        ("step", 8, SignalKind::Input),
        ("q", 8, SignalKind::Output),
        ("q_r", 8, SignalKind::Reg),
    ];
    let signals = ports
        .into_iter()
        .enumerate()
        .map(|(i, (name, width, kind))| SignalInfo {
            handle: handle(i as u32),
            name: name.to_string(),
            width,
            kind,
        })
        .collect();
    CompiledDesign {
        modules: vec![CompiledModule {
            name: "Counter".to_string(),
            is_external: false,
            signals,
            assignments: Vec::new(),
            registers: Vec::new(),
            memory_writes: Vec::new(),
            assertions: Vec::new(),
            cover_points: Vec::new(),
            instances: Vec::new(),
        }],
    }
}

fn layout(signals: u32) -> Vec<SvSignalLayout> {
    (0..signals)
        .map(|i| SvSignalLayout {
            handle: handle(i),
            offset: i as usize,
        })
        .collect()
}

impl Counter {
    fn new(lanes: usize) -> Counter {
        Counter {
            sim: SvSim::new(&counter_module(), "Counter", &layout(6), lanes).unwrap(),
            words: vec![vec![0; lanes]; 6],
        }
    }

    fn store(&mut self, words: Vec<SvWords>) {
        for word in words {
            self.words[word.offset] = word.values;
        }
    }

    fn set(&mut self, name: &str, values: &[u128]) -> Result<(), ErrorReport> {
        let words = self.sim.set(name, &values.to_vec())?;
        self.store(words);
        Ok(())
    }

    fn set_all(&mut self, name: &str, value: u128) -> Result<(), ErrorReport> {
        let words = self.sim.set_all(name, value)?;
        self.store(words);
        Ok(())
    }

    fn get(&self, name: &str) -> Result<Vec<u128>, ErrorReport> {
        let words = self
            .sim
            .word_offsets(name)?
            .into_iter()
            .map(|offset| self.words[offset].clone())
            .collect();
        self.sim.get(name, &words)
    }

    fn tick(&mut self, steps: usize) {
        for _ in 0..steps {
            for lane in 0..self.sim.lanes() {
                if self.words[1][lane] != 0 {
                    self.words[5][lane] = 0;
                } else if self.words[2][lane] != 0 {
                    self.words[5][lane] = (self.words[5][lane] + self.words[3][lane]) & 255;
                }
                self.words[4][lane] = self.words[5][lane];
            }
        }
    }
}

#[test]
fn rejects_setting_output_port() {
    let mut sim = Counter::new(1);
    assert!(sim.set_all("q", 0).is_err());
    assert!(sim.get("nope").is_err());
}

#[test]
fn lanes_are_independent() {
    let mut sim = Counter::new(4);
    sim.set_all("clk", 1).unwrap();
    sim.set_all("rst", 1).unwrap();
    sim.set_all("en", 0).unwrap();
    sim.set_all("step", 0).unwrap();
    sim.tick(1);
    // distinct per-lane step, enable on, no reset
    sim.set_all("rst", 0).unwrap();
    sim.set_all("en", 1).unwrap();
    sim.set("step", &[1, 2, 3, 4]).unwrap();
    sim.tick(3);
    let q = sim.get("q").unwrap();
    assert_eq!(q, vec![3, 6, 9, 12]);
}

#[test]
fn ports_are_found_by_name() {
    let sim = Counter::new(1).sim;
    assert_eq!(sim.lanes(), 1);
    assert_eq!(sim.top(), "Counter");
    assert_eq!(sim.port("q").unwrap().dir, PortDir::Output);
    assert_eq!(sim.port("step").unwrap().width, 8);
    assert_eq!(sim.port("step").unwrap().offset, 3);
    assert!(sim.port("q_r").is_none());
    assert_eq!(sim.ports().len(), 5);
}

#[test]
fn simulator_problems_are_named() {
    let message = |r: Result<(), ErrorReport>| r.unwrap_err().diagnostics[0].message.clone();
    let mut sim = Counter::new(2);
    assert_eq!(message(sim.set("nope", &[1, 2])), "no port `nope`");
    assert_eq!(message(sim.set("q", &[1, 2])), "port `q` is not an input");
    assert_eq!(
        message(sim.set("step", &[1])),
        "port `step`: expected 2 lane values, got 1"
    );

    let err = SvSim::new(&counter_module(), "Other", &layout(6), 1).unwrap_err();
    assert_eq!(err.diagnostics[0].code, "E_SV_SIM");
    assert_eq!(
        err.diagnostics[0].message,
        "top module `Other` not found after compile"
    );
    let err = SvSim::new(&counter_module(), "Counter", &layout(4), 1).unwrap_err();
    assert_eq!(
        err.diagnostics[0].message,
        "port `q` missing from packed program"
    );
}

#[test]
fn wide_ports_read_back_what_was_set() {
    let mut compiled = counter_module();
    compiled.modules[0].signals[3].width = 70;
    let sim = SvSim::new(&compiled, "Counter", &layout(4), 2);
    assert!(sim.is_err());
    compiled.modules[0].signals.truncate(4);
    let sim = SvSim::new(&compiled, "Counter", &layout(4), 2).unwrap();

    let value = (0x2a_u128 << 64) | (7 << 32) | 9;
    let words = sim.set("step", &vec![value, u128::MAX]).unwrap();
    assert_eq!(
        words,
        vec![
            SvWords {
                offset: 3,
                values: vec![9, u32::MAX]
            },
            SvWords {
                offset: 4,
                values: vec![7, u32::MAX]
            },
            SvWords {
                offset: 5,
                values: vec![0x2a, u32::MAX]
            },
        ]
    );
    assert_eq!(sim.word_offsets("step").unwrap(), vec![3, 4, 5]);
    let stored = words.into_iter().map(|word| word.values).collect();
    assert_eq!(
        sim.get("step", &stored).unwrap(),
        vec![value, mask_u128(70)]
    );
}

#[test]
fn masks_and_limb_counts() {
    assert_eq!(mask_u128(0), 0);
    assert_eq!(mask_u128(8), 255);
    assert_eq!(mask_u128(128), u128::MAX);
    assert_eq!(mask_u128(200), u128::MAX);
    assert_eq!(limbs_of(0), 1);
    assert_eq!(limbs_of(32), 1);
    assert_eq!(limbs_of(33), 2);
}

#[test]
fn repeated_names_are_listed_once() {
    let mut design = counter_module();
    let signals = &mut design.modules[0].signals;
    signals[0].name = "step".to_string();
    signals[5] = SignalInfo {
        handle: handle(5),
        name: "q".to_string(),
        width: 4,
        kind: SignalKind::Input,
    };
    let sim = SvSim::new(&design, "Counter", &layout(6), 1).unwrap();
    let names: Vec<_> = sim.ports().iter().map(|port| port.name.as_str()).collect();
    assert_eq!(names, vec!["rst", "en", "step", "q"]);
    // The last port of a name is the one that is kept.
    assert_eq!(sim.port("step").unwrap().offset, 3);
    assert_eq!(sim.port("q").unwrap().width, 4);
    assert_eq!(sim.port("q").unwrap().dir, PortDir::Input);
}

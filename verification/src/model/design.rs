//! The compiled hardware design, as far as planning reads it.

use vstd::prelude::*;

verus! {

/// Width of a signal in bits.
pub type Width = u32;

/// Identifier of a module of a compiled design.
#[derive(Clone, Copy, Debug, PartialEq, Eq, Structural)]
pub struct ModuleId(pub u32);

impl DeepView for ModuleId {
    type V = ModuleId;

    open spec fn deep_view(&self) -> ModuleId {
        *self
    }
}

/// Identifier of a signal within its module.
#[derive(Clone, Copy, Debug, PartialEq, Eq, Structural)]
pub struct SignalId(pub u32);

impl DeepView for SignalId {
    type V = SignalId;

    open spec fn deep_view(&self) -> SignalId {
        *self
    }
}

/// Handle of a signal.
#[derive(Clone, Copy, Debug, PartialEq, Eq, Structural)]
pub struct Signal {
    pub module: ModuleId,
    pub id: SignalId,
}

impl DeepView for Signal {
    type V = Signal;

    open spec fn deep_view(&self) -> Signal {
        *self
    }
}

/// What a signal is.
#[derive(Clone, Copy, Debug, PartialEq, Eq, Structural)]
pub enum SignalKind {
    Input,
    Output,
    Inout,
    Wire,
    Reg,
    /// A memory of `depth` words of `data_width` bits.
    Mem { addr_width: Width, data_width: Width, depth: usize },
}

impl DeepView for SignalKind {
    type V = SignalKind;

    open spec fn deep_view(&self) -> SignalKind {
        *self
    }
}

/// Direction of a port, seen from the instance that has it.
#[derive(Clone, Copy, Debug, PartialEq, Eq, Structural)]
pub enum PortDirection {
    Input,
    Output,
    Inout,
}

impl DeepView for PortDirection {
    type V = PortDirection;

    open spec fn deep_view(&self) -> PortDirection {
        *self
    }
}

/// A signal of a compiled module.
#[derive(Debug, PartialEq, Eq)]
pub struct SignalInfo {
    pub handle: Signal,
    pub name: String,
    pub width: Width,
    pub kind: SignalKind,
}

/// An expression over signals.
#[derive(Debug, PartialEq, Eq)]
pub enum Expr {
    Lit { value: u128, width: Width },
    Signal(Signal),
    Not(Box<Expr>),
    Slice { expr: Box<Expr>, hi: Width, lo: Width },
    Zext { expr: Box<Expr>, width: Width },
    Sext { expr: Box<Expr>, width: Width },
    Trunc { expr: Box<Expr>, width: Width },
    Cast { expr: Box<Expr>, width: Width },
    And(Box<Expr>, Box<Expr>),
    Or(Box<Expr>, Box<Expr>),
    Xor(Box<Expr>, Box<Expr>),
    Add(Box<Expr>, Box<Expr>),
    Sub(Box<Expr>, Box<Expr>),
    Mul(Box<Expr>, Box<Expr>),
    Eq(Box<Expr>, Box<Expr>),
    Ne(Box<Expr>, Box<Expr>),
    Lt(Box<Expr>, Box<Expr>),
    Mux { cond: Box<Expr>, then_expr: Box<Expr>, else_expr: Box<Expr> },
    Concat(Vec<Expr>),
    MemRead { memory: Signal, addr: Box<Expr> },
}

/// A combinational assignment.
#[derive(Debug, PartialEq, Eq)]
pub struct CompiledAssignment {
    pub target: Signal,
    pub expr: Expr,
}

/// A register and the expression of its next value.
#[derive(Debug, PartialEq, Eq)]
pub struct CompiledRegister {
    pub signal: Signal,
    pub next: Expr,
}

/// A write port of a memory.
#[derive(Debug, PartialEq, Eq)]
pub struct CompiledMemoryWrite {
    pub memory: Signal,
    pub enable: Expr,
    pub addr: Expr,
    pub data: Expr,
}

/// An assertion or a cover point.
#[derive(Debug, PartialEq, Eq)]
pub struct CompiledCheck {
    pub condition: Expr,
    pub enable: Option<Expr>,
}

/// The connection of an instance port to a signal of the parent module.
#[derive(Debug, PartialEq, Eq)]
pub struct CompiledConnection {
    pub port: String,
    pub signal: Signal,
    pub direction: PortDirection,
    pub width: Width,
}

/// An instance of a module.
#[derive(Debug, PartialEq, Eq)]
pub struct CompiledInstance {
    pub name: String,
    pub module: String,
    pub connections: Vec<CompiledConnection>,
}

/// A module of a compiled design.
#[derive(Debug, PartialEq, Eq)]
pub struct CompiledModule {
    pub name: String,
    pub is_external: bool,
    pub signals: Vec<SignalInfo>,
    pub assignments: Vec<CompiledAssignment>,
    pub registers: Vec<CompiledRegister>,
    pub memory_writes: Vec<CompiledMemoryWrite>,
    pub assertions: Vec<CompiledCheck>,
    pub cover_points: Vec<CompiledCheck>,
    pub instances: Vec<CompiledInstance>,
}

/// A compiled design: its modules, each under its name.
#[derive(Debug, PartialEq, Eq)]
pub struct CompiledDesign {
    pub modules: Vec<CompiledModule>,
}

} // verus!

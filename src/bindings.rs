//! The capability surface: the host functions the script reaches by name
//! under one global table.
use vstd::prelude::*;
use crate::sys::LogLevel;

verus! {

/// Global name under which the script finds the host functions.
pub const BINDINGS_GLOBAL: &'static str = "__polymer_sys";

/// Registry key of the internal function that turns a native surface into a
/// script drawing context; it is not among the script's capabilities.
pub const CONTEXT_FROM_SURFACE_KEY: &'static str = "POLYMER_CONTEXT_FROM_SURFACE";

/// A host function exposed to the script.
#[derive(Clone, Copy, Debug, PartialEq, Eq, Structural)]
pub enum Binding {
    RequestRedraw,
    AddTimer,
    ConnectSignal,
    EmitSignal,
    Trace,
    Info,
    Warn,
    Error,
}

/// The name the script calls a binding by.
pub open spec fn binding_name(b: Binding) -> Seq<char> {
    match b {
        Binding::RequestRedraw => "request_redraw"@,
        Binding::AddTimer => "add_timer"@,
        Binding::ConnectSignal => "connect_signal"@,
        Binding::EmitSignal => "emit_signal"@,
        Binding::Trace => "trace"@,
        Binding::Info => "info"@,
        Binding::Warn => "warn"@,
        Binding::Error => "error"@,
    }
}

/// The severity a logging binding writes at; other bindings do not log.
pub open spec fn binding_level(b: Binding) -> Option<LogLevel> {
    match b {
        Binding::Trace => Some(LogLevel::Trace),
        Binding::Info => Some(LogLevel::Info),
        Binding::Warn => Some(LogLevel::Warn),
        Binding::Error => Some(LogLevel::Error),
        _ => None,
    }
}

/// Every binding, in the order the table is filled.
pub open spec fn all_bindings() -> Seq<Binding> {
    seq![
        Binding::RequestRedraw,
        Binding::AddTimer,
        Binding::ConnectSignal,
        Binding::EmitSignal,
        Binding::Trace,
        Binding::Info,
        Binding::Warn,
        Binding::Error,
    ]
}

impl Binding {
    pub fn name(&self) -> (r: &'static str)
        ensures
            r@ == binding_name(*self),
    {
        match self {
            Binding::RequestRedraw => "request_redraw",
            Binding::AddTimer => "add_timer",
            Binding::ConnectSignal => "connect_signal",
            Binding::EmitSignal => "emit_signal",
            Binding::Trace => "trace",
            Binding::Info => "info",
            Binding::Warn => "warn",
            Binding::Error => "error",
        }
    }

    pub fn log_level(&self) -> (r: Option<LogLevel>)
        ensures
            r == binding_level(*self),
    {
        match self {
            Binding::Trace => Some(LogLevel::Trace),
            Binding::Info => Some(LogLevel::Info),
            Binding::Warn => Some(LogLevel::Warn),
            Binding::Error => Some(LogLevel::Error),
            _ => None,
        }
    }
}

/// The set of host functions to install under `BINDINGS_GLOBAL`.
pub fn create_bindings() -> (r: Vec<Binding>)
    ensures
        r@ == all_bindings(),
{
    let r = vec![
        Binding::RequestRedraw,
        Binding::AddTimer,
        Binding::ConnectSignal,
        Binding::EmitSignal,
        Binding::Trace,
        Binding::Info,
        Binding::Warn,
        Binding::Error,
    ];
    assert(r@ =~= all_bindings());
    r
}

/// No two bindings share a name, so every name reaches one host function.
pub proof fn lemma_binding_names_distinct(a: Binding, b: Binding)
    ensures
        binding_name(a) == binding_name(b) ==> a == b,
{
    reveal_strlit("request_redraw");
    reveal_strlit("add_timer");
    reveal_strlit("connect_signal");
    reveal_strlit("emit_signal");
    reveal_strlit("trace");
    reveal_strlit("info");
    reveal_strlit("warn");
    reveal_strlit("error");
    if binding_name(a) == binding_name(b) {
        assert(binding_name(a).len() == binding_name(b).len());
        assert(binding_name(a)[0] == binding_name(b)[0]);
    }
}

} // verus!

//! The script interpreter: handing it values, running it and resuming it.

use std::sync::mpsc::channel;

use tokio::runtime::{Builder, Handle};
use zapcode_core::Value as VmValue;
use vstd::prelude::*;

use crate::entries::{collect, collect_keeps_distinct, entry_views};
use crate::error::{AgentError, ErrorData};
use crate::host::Number;
use crate::limits::Limits;
use crate::text::{concat, views};
use crate::zap::{plain, zap_container_views, zap_views, ZapData, ZapValue};

verus! {

/// A value of the interpreter.
#[verifier::external_type_specification]
#[verifier::external_body]
pub struct ExVmValue(zapcode_core::Value);

/// A script with its declarations and limits, ready to run.
#[verifier::external_type_specification]
#[verifier::external_body]
pub struct ExVmRun(zapcode_core::ZapcodeRun);

/// The state of an interpreter that waits for the result of a host call.
#[verifier::external_type_specification]
#[verifier::external_body]
pub struct ExVmSnapshot(zapcode_core::ZapcodeSnapshot);

/// The state in which an interpreter stopped.
#[verifier::external_type_specification]
#[verifier::external_body]
pub struct ExVmState(zapcode_core::VmState);

/// An error of the interpreter.
#[verifier::external_type_specification]
#[verifier::external_body]
pub struct ExVmError(zapcode_core::ZapcodeError);

/// What a `zapcode_core::Value` holds. Floating point numbers are told by
/// their bit patterns, every NaN by the same one.
pub uninterp spec fn vm_tree(v: zapcode_core::Value) -> ZapData;

/// What a `zapcode_core::ZapcodeRun` was made with.
pub uninterp spec fn run_setup(run: zapcode_core::ZapcodeRun) -> Setup;

/// The host functions that a `zapcode_core::ZapcodeSnapshot` was taken with.
pub uninterp spec fn snapshot_externals(s: zapcode_core::ZapcodeSnapshot) -> Set<Seq<char>>;

/// What a `zapcode_core::VmState` holds.
pub uninterp spec fn state_data(s: zapcode_core::VmState) -> StepData;

/// Whether `zapcode_core::ZapcodeRun::run`, called in a task of its own, can
/// end like this. Scripts can ask for random numbers and are stopped by the
/// clock, so one run may end in more than one way.
pub uninterp spec fn run_may_end(
    setup: Setup,
    inputs: Seq<(Seq<char>, ZapData)>,
    end: Result<(StepData, Seq<char>), FailureData>,
) -> bool;

/// Whether `zapcode_core::ZapcodeSnapshot::resume`, called in a task of its
/// own, can end like this.
pub uninterp spec fn resume_may_end(
    snapshot: zapcode_core::ZapcodeSnapshot,
    reply: ZapData,
    end: Result<StepData, FailureData>,
) -> bool;

/// The variant of a `zapcode_core::ZapcodeError`.
pub uninterp spec fn failure_kind(e: zapcode_core::ZapcodeError) -> FailureKind;

/// The text that a `zapcode_core::ZapcodeError` is displayed with.
pub uninterp spec fn failure_text(e: zapcode_core::ZapcodeError) -> Seq<char>;

/// What a script is run with, apart from the values of its inputs.
pub struct Setup {
    pub source: Seq<char>,
    pub input_names: Seq<Seq<char>>,
    pub externals: Seq<Seq<char>>,
    pub limits: Limits,
}

/// What a script is run with.
pub open spec fn setup(
    source: Seq<char>,
    input_names: Seq<Seq<char>>,
    externals: Seq<Seq<char>>,
    limits: Limits,
) -> Setup {
    Setup { source, input_names, externals, limits }
}

/// One level of an interpreter value.
enum VmNode {
    Undefined,
    Null,
    Bool(bool),
    Int(i64),
    Float(Number),
    String(String),
    Array(Vec<zapcode_core::Value>),
    Object(Vec<(String, zapcode_core::Value)>),
    Function,
    Generator,
    BuiltinMethod,
}

/// One level of an interpreter value that is plain data.
enum PlainNode {
    Null,
    Bool(bool),
    Int(i64),
    Float(Number),
    String(String),
    Array(Vec<zapcode_core::Value>),
    Object(Vec<(String, zapcode_core::Value)>),
}

/// The trees of a list of interpreter values.
pub open spec fn vm_trees(items: Seq<zapcode_core::Value>) -> Seq<ZapData> {
    items.map_values(|v: zapcode_core::Value| vm_tree(v))
}

/// The trees of a list of entries with interpreter values.
pub open spec fn vm_entry_trees(items: Seq<(String, zapcode_core::Value)>) -> Seq<
    (Seq<char>, ZapData),
> {
    items.map_values(|e: (String, zapcode_core::Value)| (e.0@, vm_tree(e.1)))
}

spec fn node_tree(n: VmNode) -> ZapData {
    match n {
        VmNode::Undefined => ZapData::Undefined,
        VmNode::Null => ZapData::Null,
        VmNode::Bool(b) => ZapData::Bool(b),
        VmNode::Int(i) => ZapData::Int(i),
        VmNode::Float(x) => ZapData::Float(x@),
        VmNode::String(s) => ZapData::String(s@),
        VmNode::Array(items) => ZapData::Array(vm_trees(items@)),
        VmNode::Object(items) => ZapData::Object(vm_entry_trees(items@)),
        VmNode::Function => ZapData::Function,
        VmNode::Generator => ZapData::Generator,
        VmNode::BuiltinMethod => ZapData::BuiltinMethod,
    }
}

spec fn plain_tree(n: PlainNode) -> ZapData {
    match n {
        PlainNode::Null => ZapData::Null,
        PlainNode::Bool(b) => ZapData::Bool(b),
        PlainNode::Int(i) => ZapData::Int(i),
        PlainNode::Float(x) => ZapData::Float(x@),
        PlainNode::String(s) => ZapData::String(s@),
        PlainNode::Array(items) => ZapData::Array(vm_trees(items@)),
        PlainNode::Object(items) => ZapData::Object(collect(vm_entry_trees(items@))),
    }
}

/// Takes one level of a `zapcode_core::Value` apart. The contract claims that
/// the level is that of the tree the value holds; objects hand out their
/// entries in order. What is inside a callable is left unsaid.
#[verifier::external_body]
fn vm_node(v: zapcode_core::Value) -> (r: VmNode)
    ensures
        node_tree(r) == vm_tree(v),
{
    match v {
        VmValue::Undefined => VmNode::Undefined,
        VmValue::Null => VmNode::Null,
        VmValue::Bool(b) => VmNode::Bool(b),
        VmValue::Int(i) => VmNode::Int(i),
        VmValue::Float(x) => VmNode::Float(Number::new(&modular_agent_core::Value::number(x))),
        VmValue::String(s) => VmNode::String(s.to_string()),
        VmValue::Array(items) => VmNode::Array(items),
        VmValue::Object(m) => VmNode::Object(
            m.into_iter().map(|(k, x)| (k.to_string(), x)).collect(),
        ),
        VmValue::Function(_) => VmNode::Function,
        VmValue::Generator(_) => VmNode::Generator,
        VmValue::BuiltinMethod { .. } => VmNode::BuiltinMethod,
    }
}

/// Builds one level of a `zapcode_core::Value`. The contract claims that the
/// value holds the tree of that level; an object stores its entries one after
/// the other.
#[verifier::external_body]
fn build_vm(n: PlainNode) -> (r: zapcode_core::Value)
    ensures
        vm_tree(r) == plain_tree(n),
{
    match n {
        PlainNode::Null => VmValue::Null,
        PlainNode::Bool(b) => VmValue::Bool(b),
        PlainNode::Int(i) => VmValue::Int(i),
        PlainNode::Float(x) => VmValue::Float(x.to_host().as_f64().unwrap_or_default()),
        PlainNode::String(s) => VmValue::String(s.into()),
        PlainNode::Array(items) => VmValue::Array(items),
        PlainNode::Object(items) => VmValue::Object(
            items.into_iter().map(|(k, x)| (k.into(), x)).collect(),
        ),
    }
}

/// Reads a value of the interpreter.
pub fn from_vm(v: zapcode_core::Value) -> (r: ZapValue)
    ensures
        r@ == vm_tree(v),
    decreases vm_tree(v),
{
    broadcast use zap_container_views;

    let ghost tree = vm_tree(v);
    match vm_node(v) {
        VmNode::Undefined => ZapValue::Undefined,
        VmNode::Null => ZapValue::Null,
        VmNode::Bool(b) => ZapValue::Bool(b),
        VmNode::Int(i) => ZapValue::Int(i),
        VmNode::Float(x) => ZapValue::Float(x),
        VmNode::String(s) => ZapValue::String(s),
        VmNode::Array(items) => {
            let ghost all = items@;
            let mut out: Vec<ZapValue> = Vec::new();
            for item in it: items
                invariant
                    it.seq() == all,
                    out.len() == it.index(),
                    tree == vm_tree(v),
                    tree == ZapData::Array(vm_trees(all)),
                    forall|i: int| 0 <= i < out.len() ==> (#[trigger] out@[i])@ == vm_tree(all[i]),
            {
                assert(vm_tree(item) == vm_trees(all)[it.index()]);
                assert(decreases_to!(tree => tree->Array_0[it.index()]));
                out.push(from_vm(item));
            }
            assert(zap_views(out@) =~= vm_trees(all));
            ZapValue::Array(out)
        },
        VmNode::Object(items) => {
            let ghost all = items@;
            let mut out: Vec<(String, ZapValue)> = Vec::new();
            for item in it: items
                invariant
                    it.seq() == all,
                    out.len() == it.index(),
                    tree == vm_tree(v),
                    tree == ZapData::Object(vm_entry_trees(all)),
                    forall|i: int|
                        0 <= i < out.len() ==> (#[trigger] out@[i]).0@ == all[i].0@ && out@[i].1@
                            == vm_tree(all[i].1),
            {
                assert((item.0@, vm_tree(item.1)) == vm_entry_trees(all)[it.index()]);
                assert(decreases_to!(tree => tree->Object_0[it.index()].1));
                let (k, x) = item;
                out.push((k, from_vm(x)));
            }
            assert(entry_views(out@) =~= vm_entry_trees(all));
            ZapValue::Object(out)
        },
        VmNode::Function => ZapValue::Function,
        VmNode::Generator => ZapValue::Generator,
        VmNode::BuiltinMethod => ZapValue::BuiltinMethod,
    }
}

/// Builds a value of the interpreter from plain data.
pub(crate) fn to_vm(value: &ZapValue) -> (r: zapcode_core::Value)
    requires
        plain(value@),
    ensures
        vm_tree(r) == value@,
    decreases *value,
{
    broadcast use zap_container_views;

    match value {
        ZapValue::Bool(b) => build_vm(PlainNode::Bool(*b)),
        ZapValue::Int(i) => build_vm(PlainNode::Int(*i)),
        ZapValue::Float(x) => build_vm(PlainNode::Float(x.copy())),
        ZapValue::String(s) => build_vm(PlainNode::String(s.clone())),
        ZapValue::Array(items) => {
            let mut out: Vec<zapcode_core::Value> = Vec::new();
            let mut i: usize = 0;
            while i < items.len()
                invariant
                    i <= items.len(),
                    out.len() == i,
                    *value == ZapValue::Array(*items),
                    plain(value@),
                    value@ == ZapData::Array(zap_views(items@)),
                    forall|k: int| 0 <= k < i ==> vm_tree(#[trigger] out@[k]) == items@[k]@,
                decreases items.len() - i,
            {
                assert(decreases_to!(*value => value->Array_0@[i as int]));
                assert(value@->Array_0[i as int] == items@[i as int]@);
                out.push(to_vm(&items[i]));
                i = i + 1;
            }
            assert(vm_trees(out@) =~= zap_views(items@));
            build_vm(PlainNode::Array(out))
        },
        ZapValue::Object(items) => {
            let mut out: Vec<(String, zapcode_core::Value)> = Vec::new();
            let mut i: usize = 0;
            while i < items.len()
                invariant
                    i <= items.len(),
                    out.len() == i,
                    *value == ZapValue::Object(*items),
                    plain(value@),
                    value@ == ZapData::Object(entry_views(items@)),
                    forall|k: int|
                        0 <= k < i ==> (#[trigger] out@[k]).0@ == items@[k].0@ && vm_tree(out@[k].1)
                            == items@[k].1@,
                decreases items.len() - i,
            {
                assert(decreases_to!(*value => value->Object_0@[i as int].1));
                assert(entry_views(items@)[i as int].1 == items@[i as int].1@);
                out.push((items[i].0.clone(), to_vm(&items[i].1)));
                i = i + 1;
            }
            proof {
                assert(vm_entry_trees(out@) =~= entry_views(items@));
                collect_keeps_distinct(entry_views(items@));
            }
            build_vm(PlainNode::Object(out))
        },
        // Plain data has no other kind left.
        _ => build_vm(PlainNode::Null),
    }
}

/// What the interpreter stopped with.
#[derive(Debug)]
pub enum VmStep {
    /// The script is done and has this value.
    Complete(zapcode_core::Value),
    /// The script waits for the result of a host call.
    Suspended {
        function_name: String,
        args: Vec<zapcode_core::Value>,
        snapshot: zapcode_core::ZapcodeSnapshot,
    },
}

/// What the interpreter stopped with, as contracts speak of it.
pub enum StepData {
    Complete(ZapData),
    Suspended {
        function_name: Seq<char>,
        args: Seq<ZapData>,
        snapshot: zapcode_core::ZapcodeSnapshot,
    },
}

impl View for VmStep {
    type V = StepData;

    open spec fn view(&self) -> StepData {
        match *self {
            VmStep::Complete(v) => StepData::Complete(vm_tree(v)),
            VmStep::Suspended { function_name, args, snapshot } => StepData::Suspended {
                function_name: function_name@,
                args: vm_trees(args@),
                snapshot,
            },
        }
    }
}

/// Why the interpreter did not stop in a state.
#[derive(Debug)]
pub enum VmFailure {
    /// It reported an error.
    Error(zapcode_core::ZapcodeError),
    /// It panicked, or its task could not be run. The text says how.
    Crashed(String),
}

/// Why the interpreter did not stop in a state, as contracts speak of it.
pub enum FailureData {
    Error(zapcode_core::ZapcodeError),
    Crashed(Seq<char>),
}

impl View for VmFailure {
    type V = FailureData;

    open spec fn view(&self) -> FailureData {
        match *self {
            VmFailure::Error(e) => FailureData::Error(e),
            VmFailure::Crashed(text) => FailureData::Crashed(text@),
        }
    }
}

/// What a finished call of `run` left.
pub open spec fn run_end(r: Result<(zapcode_core::VmState, String), VmFailure>) -> Result<
    (StepData, Seq<char>),
    FailureData,
> {
    match r {
        Ok((state, stdout)) => Ok((state_data(state), stdout@)),
        Err(f) => Err(f@),
    }
}

/// What a finished call of `resume` left.
pub open spec fn resume_end(r: Result<zapcode_core::VmState, VmFailure>) -> Result<
    StepData,
    FailureData,
> {
    match r {
        Ok(state) => Ok(state_data(state)),
        Err(f) => Err(f@),
    }
}

/// Whether a script waits, if it does, for one of these host functions, and
/// was declared no others.
pub open spec fn waits_for(step: StepData, externals: Set<Seq<char>>) -> bool {
    step matches StepData::Suspended { function_name, snapshot, .. } ==> externals.contains(
        function_name,
    ) && snapshot_externals(snapshot) == externals
}

/// Takes a `zapcode_core::VmState` apart. The contract claims that the parts
/// are those of the state.
#[verifier::external_body]
pub(crate) fn vm_step(state: zapcode_core::VmState) -> (r: VmStep)
    ensures
        r@ == state_data(state),
{
    match state {
        zapcode_core::VmState::Complete(v) => VmStep::Complete(v),
        zapcode_core::VmState::Suspended { function_name, args, snapshot } => {
            VmStep::Suspended { function_name, args, snapshot }
        },
    }
}

/// Calls `zapcode_core::ZapcodeRun::new`. The contract claims that the run
/// keeps what it was given.
#[verifier::external_body]
pub(crate) fn vm_prepare(
    source: String,
    input_names: Vec<String>,
    externals: Vec<String>,
    limits: Limits,
) -> (r: Result<zapcode_core::ZapcodeRun, zapcode_core::ZapcodeError>)
    ensures
        r is Ok,
        run_setup(r->Ok_0) == setup(
            source@,
            views(input_names@),
            views(externals@),
            limits,
        ),
{
    zapcode_core::ZapcodeRun::new(
        source,
        input_names,
        externals,
        zapcode_core::ResourceLimits {
            memory_limit_bytes: limits.memory_limit_bytes,
            time_limit_ms: limits.time_limit_ms,
            max_stack_depth: limits.max_stack_depth,
            max_allocations: limits.max_allocations,
        },
    )
}

/// Calls `zapcode_core::ZapcodeRun::run` in a blocking task of
/// `tokio::runtime`, which catches a panic of the interpreter, and waits for
/// the task in a second one: the caller may be in a place where it must not
/// wait for a task itself. The contract names the ways in which the call can
/// end, a panic among them, and claims that a script waits only for a host
/// function that was declared. Which of these ways it is, and how long the
/// script runs, is left unsaid.
#[verifier::external_body]
pub(crate) fn vm_run(
    run: zapcode_core::ZapcodeRun,
    inputs: Vec<(String, zapcode_core::Value)>,
) -> (r: Result<(zapcode_core::VmState, String), VmFailure>)
    ensures
        run_may_end(run_setup(run), vm_entry_trees(inputs@), run_end(r)),
        r matches Ok((state, _)) ==> waits_for(
            state_data(state),
            run_setup(run).externals.to_set(),
        ),
{
    let build = Builder::new_current_thread().build();
    let tasks = build.map_err(|e| VmFailure::Crashed(e.to_string()))?;
    let task = tasks.spawn_blocking(move || run.run(inputs));
    let (tell, told) = channel();
    tasks.spawn_blocking(move || tell.send(Handle::current().block_on(task)));
    let end = told.recv();
    tasks.shutdown_background();
    match end {
        Ok(Ok(Ok(end))) => Ok((end.state, end.stdout)),
        Ok(Ok(Err(e))) => Err(VmFailure::Error(e)),
        Ok(Err(e)) => Err(VmFailure::Crashed(e.to_string())),
        Err(e) => Err(VmFailure::Crashed(e.to_string())),
    }
}

/// Calls `zapcode_core::ZapcodeSnapshot::resume` in a blocking task, in the
/// same way as a script is started. The contract names the ways in which the
/// call can end, a panic among them, and claims that the script still waits
/// only for host functions that were declared when it was started.
#[verifier::external_body]
pub(crate) fn vm_resume(
    snapshot: zapcode_core::ZapcodeSnapshot,
    reply: zapcode_core::Value,
) -> (r: Result<zapcode_core::VmState, VmFailure>)
    ensures
        resume_may_end(snapshot, vm_tree(reply), resume_end(r)),
        r matches Ok(state) ==> waits_for(state_data(state), snapshot_externals(snapshot)),
{
    let build = Builder::new_current_thread().build();
    let tasks = build.map_err(|e| VmFailure::Crashed(e.to_string()))?;
    let task = tasks.spawn_blocking(move || snapshot.resume(reply));
    let (tell, told) = channel();
    tasks.spawn_blocking(move || tell.send(Handle::current().block_on(task)));
    let end = told.recv();
    tasks.shutdown_background();
    match end {
        Ok(Ok(Ok(state))) => Ok(state),
        Ok(Ok(Err(e))) => Err(VmFailure::Error(e)),
        Ok(Err(e)) => Err(VmFailure::Crashed(e.to_string())),
        Err(e) => Err(VmFailure::Crashed(e.to_string())),
    }
}

/// The kinds of interpreter errors.
#[derive(Debug)]
pub enum FailureKind {
    Parse,
    UnsupportedSyntax,
    Compile,
    Runtime,
    Type,
    Reference,
    UnknownExternalFunction,
    MemoryLimit,
    TimeLimit,
    StackOverflow,
    AllocationLimit,
    Snapshot,
    Sandbox,
}

/// Tells the variants of `zapcode_core::ZapcodeError` apart. The contract
/// names the variant.
#[verifier::external_body]
fn kind_of_failure(e: &zapcode_core::ZapcodeError) -> (r: FailureKind)
    ensures
        r == failure_kind(*e),
{
    match e {
        zapcode_core::ZapcodeError::ParseError(_) => FailureKind::Parse,
        zapcode_core::ZapcodeError::UnsupportedSyntax { .. } => FailureKind::UnsupportedSyntax,
        zapcode_core::ZapcodeError::CompileError(_) => FailureKind::Compile,
        zapcode_core::ZapcodeError::RuntimeError(_) => FailureKind::Runtime,
        zapcode_core::ZapcodeError::TypeError(_) => FailureKind::Type,
        zapcode_core::ZapcodeError::ReferenceError(_) => FailureKind::Reference,
        zapcode_core::ZapcodeError::UnknownExternalFunction(_) => FailureKind::UnknownExternalFunction,
        zapcode_core::ZapcodeError::MemoryLimitExceeded(_) => FailureKind::MemoryLimit,
        zapcode_core::ZapcodeError::TimeLimitExceeded => FailureKind::TimeLimit,
        zapcode_core::ZapcodeError::StackOverflow(_) => FailureKind::StackOverflow,
        zapcode_core::ZapcodeError::AllocationLimitExceeded => FailureKind::AllocationLimit,
        zapcode_core::ZapcodeError::SnapshotError(_) => FailureKind::Snapshot,
        zapcode_core::ZapcodeError::SandboxViolation(_) => FailureKind::Sandbox,
    }
}

/// Displays a `zapcode_core::ZapcodeError`. The contract names the text.
#[verifier::external_body]
fn text_of_failure(e: &zapcode_core::ZapcodeError) -> (r: String)
    ensures
        r@ == failure_text(*e),
{
    format!("{e}")
}

/// The error that an interpreter error of this kind, with this text, is
/// reported as: what is wrong before the script runs is a compile error, all
/// else a runtime error.
pub open spec fn failure_report(kind: FailureKind, text: Seq<char>) -> ErrorData {
    match kind {
        FailureKind::Parse | FailureKind::UnsupportedSyntax | FailureKind::Compile => {
            ErrorData::InvalidValue("ZapCode compile error: "@ + text)
        },
        _ => ErrorData::InvalidValue("ZapCode runtime error: "@ + text),
    }
}

/// Reports an interpreter error of a kind, with its text.
pub fn report_failure(kind: FailureKind, text: &str) -> (r: AgentError)
    ensures
        r@ == failure_report(kind, text@),
{
    match kind {
        FailureKind::Parse | FailureKind::UnsupportedSyntax | FailureKind::Compile => {
            AgentError::InvalidValue(concat("ZapCode compile error: ", text))
        },
        _ => AgentError::InvalidValue(concat("ZapCode runtime error: ", text)),
    }
}

/// The error that an interpreter error is reported as.
pub open spec fn mapped_failure(e: zapcode_core::ZapcodeError) -> ErrorData {
    failure_report(failure_kind(e), failure_text(e))
}

/// Reports an interpreter error.
pub fn map_zapcode_error(e: zapcode_core::ZapcodeError) -> (r: AgentError)
    ensures
        r@ == mapped_failure(e),
{
    report_failure(kind_of_failure(&e), text_of_failure(&e).as_str())
}

/// The error for a task of the interpreter that died with `reason`.
pub open spec fn task_error(reason: Seq<char>) -> ErrorData {
    ErrorData::IoError("ZapCode task error: "@ + reason)
}

/// The error for a task of the interpreter that died with `reason`.
pub fn task_failed(reason: &str) -> (r: AgentError)
    ensures
        r@ == task_error(reason@),
{
    AgentError::IoError(concat("ZapCode task error: ", reason))
}

/// The error that an interpreter which did not stop in a state is reported
/// with.
pub open spec fn stop_error(f: FailureData) -> ErrorData {
    match f {
        FailureData::Error(e) => mapped_failure(e),
        FailureData::Crashed(text) => task_error(text),
    }
}

/// Reports an interpreter that did not stop in a state.
pub fn report_stop(f: VmFailure) -> (r: AgentError)
    ensures
        r@ == stop_error(f@),
{
    match f {
        VmFailure::Error(e) => map_zapcode_error(e),
        VmFailure::Crashed(text) => task_failed(text.as_str()),
    }
}

/// What is wrong before a script runs is reported as a compile error, and all
/// that goes wrong while it runs as a runtime error, each with the text of the
/// interpreter.
pub proof fn failures_say_when_they_happened(kind: FailureKind, text: Seq<char>)
    ensures
        kind is Parse || kind is UnsupportedSyntax || kind is Compile ==> failure_report(kind, text)
            == ErrorData::InvalidValue("ZapCode compile error: "@ + text),
        kind is Runtime || kind is Type || kind is Reference || kind is UnknownExternalFunction
            || kind is MemoryLimit || kind is TimeLimit || kind is StackOverflow
            || kind is AllocationLimit || kind is Snapshot || kind is Sandbox ==> failure_report(
            kind,
            text,
        ) == ErrorData::InvalidValue("ZapCode runtime error: "@ + text),
{
}

/// An error of the interpreter is reported by its kind and its text, and a
/// task that died as one that failed.
pub proof fn stops_are_reported(f: FailureData)
    ensures
        f matches FailureData::Error(e) ==> stop_error(f) == failure_report(
            failure_kind(e),
            failure_text(e),
        ),
        f matches FailureData::Crashed(text) ==> stop_error(f) == ErrorData::IoError(
            "ZapCode task error: "@ + text,
        ),
{
}

/// A run is set up with exactly what it is given.
pub proof fn runs_keep_what_they_are_given(
    source: Seq<char>,
    input_names: Seq<Seq<char>>,
    externals: Seq<Seq<char>>,
    limits: Limits,
)
    ensures
        setup(source, input_names, externals, limits).source == source,
        setup(source, input_names, externals, limits).input_names == input_names,
        setup(source, input_names, externals, limits).externals == externals,
        setup(source, input_names, externals, limits).limits == limits,
{
}

} // verus!

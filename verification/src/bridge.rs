//! The bridge between a running script and the host: a run goes from host
//! call to host call until the script is done.

use vstd::prelude::*;

use crate::entries::{entry_views, keys_of, map_entries};
use crate::error::{AgentError, ErrorData};
use crate::limits::Limits;
use crate::pictures::{script_ready, scriptable, scriptable_values_are_writable};
use crate::text::{concat, concat3, views};
use crate::value::{value_views, AgentValue, Data};
use crate::vm::{
    from_vm, map_zapcode_error, report_stop, resume_may_end, run_may_end, setup,
    snapshot_externals, stop_error, task_error, task_failed, to_vm, vm_entry_trees, vm_prepare,
    vm_resume, vm_run, vm_step, vm_tree, vm_trees, FailureData, Setup, StepData, VmStep,
};
use crate::zap::{
    callable_error, callable_free, callables_are_refused_anywhere, checked_value_to_zapcode,
    first_callable, first_callable_item, inputs_are_plain, script_of, value_of, zapcode_to_value, ZapData,
};

verus! {

/// What a finished run yields.
#[derive(Debug)]
pub struct ZapOutcome {
    /// The value of the last expression of the script.
    pub value: AgentValue,
    /// Console output up to completion or the first host call. What is
    /// written after that is lost.
    pub console: String,
}

/// A call that a script makes to the host.
#[derive(Debug)]
pub struct HostCall {
    pub name: String,
    pub args: Vec<AgentValue>,
}

/// A run that waits for the result of a host call.
#[derive(Debug)]
pub struct Paused {
    pub snapshot: zapcode_core::ZapcodeSnapshot,
    pub console: String,
}

/// How far a run has come.
#[derive(Debug)]
pub enum Progress {
    /// The script is done.
    Done(ZapOutcome),
    /// The script waits for the result of a call.
    Waiting(HostCall, Paused),
}

/// How far a run has come, as contracts speak of it.
pub enum ProgressData {
    Done { value: Data, console: Seq<char> },
    Waiting {
        name: Seq<char>,
        args: Seq<Data>,
        snapshot: zapcode_core::ZapcodeSnapshot,
        console: Seq<char>,
    },
}

impl View for Progress {
    type V = ProgressData;

    open spec fn view(&self) -> ProgressData {
        match *self {
            Progress::Done(outcome) => ProgressData::Done {
                value: outcome.value@,
                console: outcome.console@,
            },
            Progress::Waiting(call, paused) => ProgressData::Waiting {
                name: call.name@,
                args: value_views(call.args@),
                snapshot: paused.snapshot,
                console: paused.console@,
            },
        }
    }
}

/// The view of how a stretch of a run ended.
pub open spec fn progress_view(r: Result<Progress, AgentError>) -> Result<ProgressData, ErrorData> {
    match r {
        Ok(p) => Ok(p@),
        Err(e) => Err(e@),
    }
}

/// Where a run stands after the interpreter stopped: a result or an argument
/// without a data representation ends it with an error.
pub open spec fn progress_of(step: StepData, console: Seq<char>) -> Result<ProgressData, ErrorData> {
    match step {
        StepData::Complete(z) => match first_callable(z) {
            None => Ok(ProgressData::Done { value: value_of(z), console }),
            Some(c) => Err(callable_error(c)),
        },
        StepData::Suspended { function_name, args, snapshot } => match first_callable_item(args) {
            None => Ok(
                ProgressData::Waiting {
                    name: function_name,
                    args: args.map_values(|z: ZapData| value_of(z)),
                    snapshot,
                    console,
                },
            ),
            Some(c) => Err(callable_error(c)),
        },
    }
}

/// Where a run stands after its first stretch.
pub open spec fn after_start(
    end: Result<(StepData, Seq<char>), FailureData>,
) -> Result<ProgressData, ErrorData> {
    match end {
        Ok((step, stdout)) => progress_of(step, stdout),
        Err(f) => Err(stop_error(f)),
    }
}

/// Where a run stands after a further stretch.
pub open spec fn after_resume(
    end: Result<StepData, FailureData>,
    console: Seq<char>,
) -> Result<ProgressData, ErrorData> {
    match end {
        Ok(step) => progress_of(step, console),
        Err(f) => Err(stop_error(f)),
    }
}

/// Whether a run waits, if it does, for one of the declared functions, and
/// will do so from here on.
pub open spec fn calls_only(p: ProgressData, externals: Set<Seq<char>>) -> bool {
    p matches ProgressData::Waiting { name, snapshot, .. } ==> externals.contains(name)
        && snapshot_externals(snapshot) == externals
}

/// The inputs as the script sees them.
pub open spec fn script_inputs(inputs: Seq<(Seq<char>, Data)>) -> Seq<(Seq<char>, ZapData)> {
    map_entries(inputs, |d: Data| script_of(d))
}

/// Reads the arguments of a host call; the first one without a data
/// representation fails the call.
fn read_args(args: Vec<zapcode_core::Value>) -> (r: Result<Vec<AgentValue>, AgentError>)
    ensures
        match first_callable_item(vm_trees(args@)) {
            None => r matches Ok(vs) && value_views(vs@) == vm_trees(args@).map_values(
                |z: ZapData| value_of(z),
            ),
            Some(c) => r matches Err(e) && e@ == callable_error(c),
        },
{
    let ghost all = args@;
    let ghost trees = vm_trees(all);
    let mut out: Vec<AgentValue> = Vec::new();
    assert(trees.subrange(0, trees.len() as int) =~= trees);
    for arg in it: args
        invariant
            it.seq() == all,
            trees == vm_trees(all),
            trees == vm_trees(args@),
            out.len() == it.index(),
            first_callable_item(trees) == first_callable_item(
                trees.subrange(it.index() as int, trees.len() as int),
            ),
            forall|i: int| 0 <= i < out.len() ==> (#[trigger] out@[i])@ == value_of(trees[i]),
    {
        proof {
            let at = it.index() as int;
            let rest = trees.subrange(at, trees.len() as int);
            assert(rest[0] == vm_tree(arg));
            assert(rest.subrange(1, rest.len() as int) =~= trees.subrange(
                at + 1,
                trees.len() as int,
            ));
        }
        match zapcode_to_value(from_vm(arg)) {
            Ok(v) => {
                out.push(v);
            },
            Err(e) => {
                return Err(e);
            },
        }
    }
    assert(value_views(out@) =~= trees.map_values(|z: ZapData| value_of(z)));
    Ok(out)
}

/// Turns what the interpreter stopped with into the progress of the run.
pub fn settle(step: VmStep, console: String) -> (r: Result<Progress, AgentError>)
    ensures
        progress_view(r) == progress_of(step@, console@),
{
    match step {
        VmStep::Complete(v) => match zapcode_to_value(from_vm(v)) {
            Ok(value) => Ok(Progress::Done(ZapOutcome { value, console })),
            Err(e) => Err(e),
        },
        VmStep::Suspended { function_name, args, snapshot } => match read_args(args) {
            Ok(args) => Ok(
                Progress::Waiting(
                    HostCall { name: function_name, args },
                    Paused { snapshot, console },
                ),
            ),
            Err(e) => Err(e),
        },
    }
}

/// Whether a script can be handed all the inputs.
pub open spec fn inputs_ready(inputs: Seq<(Seq<char>, Data)>) -> bool {
    forall|i: int| 0 <= i < inputs.len() ==> script_ready((#[trigger] inputs[i]).1)
}

/// The error for a value that a script cannot be handed.
pub open spec fn unready() -> ErrorData {
    task_error("a message holds an image that cannot be encoded"@)
}

fn not_ready() -> (r: AgentError)
    ensures
        r@ == unready(),
{
    task_failed("a message holds an image that cannot be encoded")
}

/// The names and the interpreter values of the inputs, if a script can be
/// handed all of them.
fn bind_inputs(inputs: &Vec<(String, AgentValue)>) -> (r: Option<
    (Vec<String>, Vec<(String, zapcode_core::Value)>),
>)
    ensures
        match r {
            Some((names, bound)) => {
                &&& inputs_ready(entry_views(inputs@))
                &&& views(names@) == keys_of(entry_views(inputs@))
                &&& vm_entry_trees(bound@) == script_inputs(entry_views(inputs@))
            },
            None => !inputs_ready(entry_views(inputs@)),
        },
{
    let mut names: Vec<String> = Vec::new();
    let mut bound: Vec<(String, zapcode_core::Value)> = Vec::new();
    let mut i: usize = 0;
    while i < inputs.len()
        invariant
            i <= inputs.len(),
            names.len() == i,
            bound.len() == i,
            forall|k: int| 0 <= k < i ==> script_ready((#[trigger] inputs@[k]).1@),
            forall|k: int| 0 <= k < i ==> (#[trigger] names@[k])@ == inputs@[k].0@,
            forall|k: int|
                0 <= k < i ==> (#[trigger] bound@[k]).0@ == inputs@[k].0@ && vm_tree(bound@[k].1)
                    == script_of(inputs@[k].1@),
        decreases inputs.len() - i,
    {
        assert(entry_views(inputs@)[i as int].1 == inputs@[i as int].1@);
        let z = match checked_value_to_zapcode(&inputs[i].1) {
            Some(z) => z,
            None => {
                return None;
            },
        };
        proof {
            inputs_are_plain(inputs@[i as int].1@);
        }
        names.push(inputs[i].0.clone());
        bound.push((inputs[i].0.clone(), to_vm(&z)));
        i = i + 1;
    }
    assert forall|k: int| 0 <= k < entry_views(inputs@).len() implies script_ready(
        (#[trigger] entry_views(inputs@)[k]).1,
    ) by {
        assert(script_ready(inputs@[k].1@));
    }
    assert(views(names@) =~= keys_of(entry_views(inputs@)));
    assert(vm_entry_trees(bound@) =~= script_inputs(entry_views(inputs@)));
    Some((names, bound))
}

/// Compiles a script and runs it up to its end or its first host call. Inputs
/// that the script cannot be handed are reported as a failed task, and so is a
/// panic of the interpreter.
pub fn start_zapcode(
    source: String,
    inputs: &Vec<(String, AgentValue)>,
    externals: Vec<String>,
    limits: Limits,
) -> (r: Result<Progress, AgentError>)
    ensures
        !inputs_ready(entry_views(inputs@)) ==> (r matches Err(e) && e@ == unready()),
        inputs_ready(entry_views(inputs@)) ==> exists|
            end: Result<(StepData, Seq<char>), FailureData>,
        | #[trigger]
            run_may_end(
                setup(source@, keys_of(entry_views(inputs@)), views(externals@), limits),
                script_inputs(entry_views(inputs@)),
                end,
            ) && progress_view(r) == after_start(end),
        r matches Ok(p) ==> calls_only(p@, views(externals@).to_set()),
{
    let (names, bound) = match bind_inputs(inputs) {
        Some(x) => x,
        None => {
            return Err(not_ready());
        },
    };
    match vm_prepare(source, names, externals, limits) {
        Ok(run) => {
            let end = vm_run(run, bound);
            match end {
                Ok((state, stdout)) => settle(vm_step(state), stdout),
                Err(f) => Err(report_stop(f)),
            }
        },
        Err(e) => Err(map_zapcode_error(e)),
    }
}

/// Resumes a run with the result of the call that it waits for. A failed call
/// aborts the run with the error of the call. A result that the script cannot
/// be handed is reported as a failed task, and so is a panic of the
/// interpreter.
pub fn resume_zapcode(paused: Paused, reply: Result<AgentValue, AgentError>) -> (r: Result<
    Progress,
    AgentError,
>)
    ensures
        reply matches Err(e) ==> r == Err::<Progress, AgentError>(e),
        reply matches Ok(v) ==> (!script_ready(v@) ==> (r matches Err(e) && e@ == unready())),
        reply matches Ok(v) ==> (script_ready(v@) ==> exists|
            end: Result<StepData, FailureData>,
        | #[trigger]
            resume_may_end(paused.snapshot, script_of(v@), end) && progress_view(r) == after_resume(
                end,
                paused.console@,
            )),
        r matches Ok(p) ==> calls_only(p@, snapshot_externals(paused.snapshot)),
{
    match reply {
        Ok(v) => {
            let z = match checked_value_to_zapcode(&v) {
                Some(z) => z,
                None => {
                    return Err(not_ready());
                },
            };
            proof {
                inputs_are_plain(v@);
            }
            let end = vm_resume(paused.snapshot, to_vm(&z));
            match end {
                Ok(state) => settle(vm_step(state), paused.console),
                Err(f) => Err(report_stop(f)),
            }
        },
        Err(e) => Err(e),
    }
}

/// The error for a host that went away in the middle of a run.
pub fn bridge_closed() -> (r: AgentError)
    ensures
        r@ == ErrorData::IoError("ZapCode host bridge closed"@),
{
    AgentError::IoError("ZapCode host bridge closed".to_string())
}

/// The error for a call to a host function that the caller does not offer.
pub open spec fn unavailable(name: Seq<char>) -> ErrorData {
    ErrorData::InvalidValue(
        "ZapCode runtime error: external function `"@ + name + "` is not available here"@,
    )
}

/// The error for a call to a host function that the caller does not offer.
pub fn not_available(name: &str) -> (r: AgentError)
    ensures
        r@ == unavailable(name@),
{
    AgentError::InvalidValue(
        concat3("ZapCode runtime error: external function `", name, "` is not available here"),
    )
}

/// The console output that a run has.
pub open spec fn console_of(p: ProgressData) -> Seq<char> {
    match p {
        ProgressData::Done { console, .. } => console,
        ProgressData::Waiting { console, .. } => console,
    }
}

/// Console output is captured up to the first host call: however a later
/// stretch ends, the output of the run stays what it was.
pub proof fn console_stops_at_the_first_call(
    end: Result<StepData, FailureData>,
    console: Seq<char>,
)
    ensures
        after_resume(end, console) matches Ok(p) ==> console_of(p) == console,
{
}

/// A script to which no functions are declared never waits for the host.
pub proof fn without_functions_no_run_waits(p: ProgressData)
    requires
        calls_only(p, Set::empty()),
    ensures
        p is Done,
{
}

/// A script that ends with plain data is done with that data, and one that
/// calls the host with plain data waits for the named function with these
/// arguments, in their order. The console output is what was captured. A
/// callable in the result or in an argument fails the run.
pub proof fn runs_yield_what_the_script_hands_over(step: StepData, console: Seq<char>)
    ensures
        match step {
            StepData::Complete(z) => if callable_free(z) {
                progress_of(step, console) matches Ok(ProgressData::Done { value, console: c })
                    && value == value_of(z) && c == console
            } else {
                progress_of(step, console) is Err
            },
            StepData::Suspended { function_name, args, snapshot } => if forall|i: int|
                0 <= i < args.len() ==> callable_free(#[trigger] args[i]) {
                progress_of(step, console) matches Ok(
                    ProgressData::Waiting { name, args: values, snapshot: s, console: c },
                ) && name == function_name && s == snapshot && c == console && values.len()
                    == args.len() && forall|i: int|
                    0 <= i < args.len() ==> #[trigger] values[i] == value_of(args[i])
            } else {
                progress_of(step, console) is Err
            },
        },
{
    match step {
        StepData::Complete(z) => {
            callables_are_refused_anywhere(z);
        },
        StepData::Suspended { function_name, args, snapshot } => {
            callables_are_refused_anywhere(ZapData::Array(args));
        },
    }
}

/// The first stretch of a run goes on with its own console output, a later one
/// with that of the first; a stretch that fails ends the run with its error.
pub proof fn stretches_follow_one_another(
    start: Result<(StepData, Seq<char>), FailureData>,
    next: Result<StepData, FailureData>,
    console: Seq<char>,
)
    ensures
        start matches Ok((step, stdout)) ==> after_start(start) == progress_of(step, stdout),
        start matches Err(f) ==> after_start(start) == Err::<ProgressData, _>(stop_error(f)),
        next matches Ok(step) ==> after_resume(next, console) == progress_of(step, console),
        next matches Err(f) ==> after_resume(next, console) == Err::<ProgressData, _>(
            stop_error(f),
        ),
{
}

/// A script gets every input, in order, under its name.
pub proof fn inputs_keep_their_names(inputs: Seq<(Seq<char>, Data)>, i: int)
    requires
        0 <= i < inputs.len(),
    ensures
        script_inputs(inputs).len() == inputs.len(),
        script_inputs(inputs)[i].0 == inputs[i].0,
        script_inputs(inputs)[i].1 == script_of(inputs[i].1),
{
}

/// A run that waits names one of its functions, and its snapshot is good for
/// the same functions again.
pub proof fn waiting_runs_name_their_functions(p: ProgressData, externals: Set<Seq<char>>)
    requires
        calls_only(p, externals),
    ensures
        p matches ProgressData::Waiting { name, snapshot, .. } ==> externals.contains(name)
            && snapshot_externals(snapshot) == externals,
{
}

/// A script gets its inputs unless one of them holds a message that cannot be
/// written: plain values never stand in the way.
pub proof fn inputs_are_handed_over(inputs: Seq<(Seq<char>, Data)>, i: int)
    ensures
        (forall|k: int| 0 <= k < inputs.len() ==> scriptable((#[trigger] inputs[k]).1))
            ==> inputs_ready(inputs),
        0 <= i < inputs.len() && !script_ready(inputs[i].1) ==> !inputs_ready(inputs),
        unready() == ErrorData::IoError(
            "ZapCode task error: "@ + "a message holds an image that cannot be encoded"@,
        ),
{
    if forall|k: int| 0 <= k < inputs.len() ==> scriptable((#[trigger] inputs[k]).1) {
        assert forall|k: int| 0 <= k < inputs.len() implies script_ready(
            (#[trigger] inputs[k]).1,
        ) by {
            scriptable_values_are_writable(inputs[k].1);
        }
    }
}

/// A script that is done has the value of its last expression, and one that
/// waits names the function and hands over its arguments in order. The console
/// output is kept.
pub proof fn stops_are_settled(step: VmStep, console: String, r: Result<Progress, AgentError>)
    requires
        call_ensures(settle, (step, console), r),
    ensures
        match step@ {
            StepData::Complete(z) => if callable_free(z) {
                r matches Ok(Progress::Done(outcome)) && outcome.value@ == value_of(z)
                    && outcome.console@ == console@
            } else {
                r is Err
            },
            StepData::Suspended { function_name, args, snapshot } => if forall|i: int|
                0 <= i < args.len() ==> callable_free(#[trigger] args[i]) {
                r matches Ok(Progress::Waiting(call, paused)) && call.name@ == function_name
                    && paused.snapshot == snapshot && paused.console@ == console@ && value_views(
                    call.args@,
                ) == args.map_values(|z: ZapData| value_of(z))
            } else {
                r is Err
            },
        },
{
    runs_yield_what_the_script_hands_over(step@, console@);
    if let StepData::Suspended { function_name, args, snapshot } = step@ {
        if let Ok(Progress::Waiting(call, paused)) = r {
            assert(value_views(call.args@) =~= args.map_values(|z: ZapData| value_of(z)));
        }
    }
}

/// A failed host call ends the run with the error of the call; a run that goes
/// on keeps the console output it had.
pub proof fn failed_calls_end_the_run(
    paused: Paused,
    reply: Result<AgentValue, AgentError>,
    r: Result<Progress, AgentError>,
)
    requires
        call_ensures(resume_zapcode, (paused, reply), r),
    ensures
        reply matches Err(e) ==> r == Err::<Progress, AgentError>(e),
        r matches Ok(p) ==> {
            &&& reply is Ok
            &&& console_of(p@) == paused.console@
            &&& p@ matches ProgressData::Waiting { name, .. } ==> snapshot_externals(
                paused.snapshot,
            ).contains(name)
        },
{
}

/// A run gets the source, the inputs under their names, the functions and the
/// limits that are asked for. It goes on from where the interpreter stopped,
/// and fails with the error that the interpreter failed with.
pub proof fn scripts_run_as_asked(
    source: String,
    inputs: &Vec<(String, AgentValue)>,
    externals: Vec<String>,
    limits: Limits,
    r: Result<Progress, AgentError>,
)
    requires
        call_ensures(start_zapcode, (source, inputs, externals, limits), r),
        inputs_ready(entry_views(inputs@)),
    ensures
        exists|asked: Setup, end: Result<(StepData, Seq<char>), FailureData>|
            {
                &&& #[trigger] run_may_end(asked, script_inputs(entry_views(inputs@)), end)
                &&& asked.source == source@
                &&& asked.input_names == keys_of(entry_views(inputs@))
                &&& asked.externals == views(externals@)
                &&& asked.limits == limits
                &&& match end {
                    Ok((step, stdout)) => progress_view(r) == progress_of(step, stdout),
                    Err(f) => r is Err && r->Err_0@ == stop_error(f),
                }
            },
        r matches Ok(p) ==> (p@ matches ProgressData::Waiting { name, .. } ==> views(
            externals@,
        ).contains(name)),
{
    let asked = setup(source@, keys_of(entry_views(inputs@)), views(externals@), limits);
    let end = choose|end: Result<(StepData, Seq<char>), FailureData>| #[trigger]
        run_may_end(asked, script_inputs(entry_views(inputs@)), end) && progress_view(r)
            == after_start(end);
    assert(run_may_end(asked, script_inputs(entry_views(inputs@)), end));
}

/// A script that waits goes on with the result of its call, as it would see
/// any other value.
pub proof fn replies_reach_the_script(
    paused: Paused,
    reply: Result<AgentValue, AgentError>,
    r: Result<Progress, AgentError>,
)
    requires
        call_ensures(resume_zapcode, (paused, reply), r),
        reply matches Ok(v) && script_ready(v@),
    ensures
        exists|end: Result<StepData, FailureData>| #[trigger]
            resume_may_end(paused.snapshot, script_of(reply->Ok_0@), end) && match end {
                Ok(step) => progress_view(r) == progress_of(step, paused.console@),
                Err(f) => r is Err && r->Err_0@ == stop_error(f),
            },
{
    let end = choose|end: Result<StepData, FailureData>| #[trigger]
        resume_may_end(paused.snapshot, script_of(reply->Ok_0@), end) && progress_view(r)
            == after_resume(end, paused.console@);
    assert(resume_may_end(paused.snapshot, script_of(reply->Ok_0@), end));
}

} // verus!

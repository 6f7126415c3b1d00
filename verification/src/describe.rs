//! Describing a node: evaluating the declaration of a script and rebuilding
//! the shape of the node from it.

use vstd::prelude::*;

use crate::configs::{config_entries, integer_or, set_config, stored_value, string_or_default};
use crate::declaration::{
    built_in, declaration_view, declared, default_declaration, name_flaw, parse_declaration,
    Declaration, DeclarationData,
};
use crate::entries::{
    distinct, entry_views, lookup, lookup_at, lookup_finds, put,
    put_appends,
};
use crate::error::{AgentError, ErrorData};
use crate::exchange::{host_value, value_tree};
use crate::host::truncated;
use crate::limits::{default_limits, Limits};
use crate::shape::{AgentSpec, ConfigSpec, ConfigSpecData, ConfigSpecs, SpecData};
use crate::text::{concat, concat3, copy_list, is_blank, trim, views};
use crate::value::{integer_in, tidy, AgentValue, Data};
use crate::vm::{
    from_vm, map_zapcode_error, report_stop, run_end, run_may_end, setup, stop_error,
    failure_kind, failure_report, failure_text, vm_entry_trees, vm_prepare, vm_run, vm_step,
    FailureData, Setup, StepData, VmStep,
};
use crate::zap::{
    callable_error, callable_free, callables_are_refused_anywhere, first_callable, value_of,
    zapcode_to_value,
};

verus! {

/// The limits of a describe run. It only evaluates a declaration, and the
/// short time doubles as a check that top-level code has no side effects.
pub open spec fn describe_limits() -> Limits {
    Limits {
        memory_limit_bytes: 33_554_432,
        time_limit_ms: 500,
        max_stack_depth: 512,
        max_allocations: 100_000,
    }
}

/// What is run to evaluate the declaration of a script: the script and then
/// `AGENT`, without inputs or host functions.
pub open spec fn describe_setup(script: Seq<char>) -> Setup {
    setup(script + "\nAGENT"@, Seq::empty(), Seq::empty(), describe_limits())
}

/// Whether a describe run of the script can end like this. Without declared
/// functions it does not wait for the host.
pub open spec fn describe_may_end(
    script: Seq<char>,
    end: Result<(StepData, Seq<char>), FailureData>,
) -> bool {
    &&& run_may_end(describe_setup(script), Seq::empty(), end)
    &&& !(end matches Ok((StepData::Suspended { .. }, _)))
}

/// The value of `AGENT` after a describe run.
pub open spec fn described_value(
    end: Result<(StepData, Seq<char>), FailureData>,
) -> Result<Data, ErrorData> {
    match end {
        Err(f) => Err(stop_error(f)),
        Ok((StepData::Complete(z), _)) => match first_callable(z) {
            None => Ok(value_of(z)),
            Some(c) => Err(callable_error(c)),
        },
        Ok((StepData::Suspended { function_name, .. }, _)) => Err(
            ErrorData::InvalidValue(
                "ZapCode runtime error: external function `"@ + function_name
                    + "` is not available while evaluating AGENT"@,
            ),
        ),
    }
}

/// The declaration that a describe run yields.
pub open spec fn described(
    end: Result<(StepData, Seq<char>), FailureData>,
) -> Result<DeclarationData, ErrorData> {
    match described_value(end) {
        Ok(d) => declared(d),
        Err(x) => Err(x),
    }
}

/// Takes the value of `AGENT` out of what the interpreter stopped with.
pub fn agent_value(step: VmStep) -> (r: Result<AgentValue, AgentError>)
    ensures
        match described_value(Ok((step@, Seq::empty()))) {
            Ok(d) => r matches Ok(v) && v@ == d,
            Err(x) => r matches Err(e) && e@ == x,
        },
{
    match step {
        VmStep::Complete(v) => zapcode_to_value(from_vm(v)),
        // Without declared functions a script does not wait for the host:
        // calling an unknown function is an error.
        VmStep::Suspended { function_name, .. } => Err(
            AgentError::InvalidValue(
                concat3(
                    "ZapCode runtime error: external function `",
                    function_name.as_str(),
                    "` is not available while evaluating AGENT",
                ),
            ),
        ),
    }
}

/// Evaluates `AGENT` after the script.
fn run_describe_script(script: &str) -> (r: Result<AgentValue, AgentError>)
    ensures
        exists|end: Result<(StepData, Seq<char>), FailureData>| #[trigger]
            describe_may_end(script@, end) && (match described_value(end) {
                Ok(d) => r matches Ok(v) && v@ == d,
                Err(x) => r matches Err(e) && e@ == x,
            }),
{
    let defaults = default_limits();
    let limits = Limits {
        memory_limit_bytes: defaults.memory_limit_bytes,
        time_limit_ms: 500,
        max_stack_depth: defaults.max_stack_depth,
        max_allocations: defaults.max_allocations,
    };
    let none: Vec<String> = Vec::new();
    let nothing: Vec<String> = Vec::new();
    let inputs: Vec<(String, zapcode_core::Value)> = Vec::new();
    proof {
        assert(views(none@) =~= Seq::empty());
        assert(views(nothing@) =~= Seq::empty());
        assert(vm_entry_trees(inputs@) =~= Seq::empty());
    }
    match vm_prepare(concat(script, "\nAGENT"), none, nothing, limits) {
        Ok(run) => {
            let end = vm_run(run, inputs);
            assert(describe_may_end(script@, run_end(end)));
            match end {
                Ok((state, _)) => agent_value(vm_step(state)),
                Err(f) => Err(report_stop(f)),
            }
        },
        Err(e) => Err(map_zapcode_error(e)),
    }
}

/// Whether describing the script can yield this. An empty script declares the
/// default ports and nothing else.
pub open spec fn may_describe(
    script: Seq<char>,
    found: Result<DeclarationData, ErrorData>,
) -> bool {
    if trim(script).len() == 0 {
        found == Ok::<DeclarationData, ErrorData>(default_declaration())
    } else {
        exists|end: Result<(StepData, Seq<char>), FailureData>| #[trigger]
            describe_may_end(script, end) && found == described(end)
    }
}

/// Evaluates the declaration of a script. An empty script declares nothing
/// and has the default ports.
pub fn describe(script: &str) -> (r: Result<Declaration, AgentError>)
    ensures
        may_describe(script@, declaration_view(r)),
{
    if is_blank(script) {
        return Ok(Declaration::default_ports());
    }
    match run_describe_script(script) {
        Ok(value) => parse_declaration(&value),
        Err(e) => Err(e),
    }
}

/// The description that a shape holds of a built-in configuration value.
pub open spec fn base_spec(s: SpecData, name: Seq<char>) -> Option<ConfigSpecData> {
    match s.config_specs {
        Some(es) => lookup(es, name),
        None => None,
    }
}

/// The configuration values of a shape.
pub open spec fn old_configs(s: SpecData) -> Seq<(Seq<char>, Data)> {
    match s.configs {
        Some(es) => es,
        None => Seq::empty(),
    }
}

/// The name under which the host parks a value that the definition of a
/// module does not declare.
pub open spec fn parked_name(name: Seq<char>) -> Seq<char> {
    seq!['_'] + name
}

/// The value that a declared configuration value has: the stored one, else
/// the parked one, else the declared default.
pub open spec fn kept_value(stored: Seq<(Seq<char>, Data)>, name: Seq<char>, default: Data) -> Data {
    match lookup(stored, name) {
        Some(v) => v,
        None => match lookup(stored, parked_name(name)) {
            Some(v) => v,
            None => tidy(default),
        },
    }
}

/// The entries after the declared configuration values were stored one after
/// the other.
pub open spec fn with_declared(
    es: Seq<(Seq<char>, Data)>,
    stored: Seq<(Seq<char>, Data)>,
    decls: Seq<(Seq<char>, ConfigSpecData)>,
) -> Seq<(Seq<char>, Data)>
    decreases decls.len(),
{
    if decls.len() == 0 {
        es
    } else {
        put(
            with_declared(es, stored, decls.drop_last()),
            decls.last().0,
            kept_value(stored, decls.last().0, decls.last().1.value),
        )
    }
}

/// The entries after the declared descriptions were stored one after the
/// other.
pub open spec fn with_specs(
    es: Seq<(Seq<char>, ConfigSpecData)>,
    decls: Seq<(Seq<char>, ConfigSpecData)>,
) -> Seq<(Seq<char>, ConfigSpecData)>
    decreases decls.len(),
{
    if decls.len() == 0 {
        es
    } else {
        put(with_specs(es, decls.drop_last()), decls.last().0, decls.last().1)
    }
}

/// The limit under `name`, by default that of its description.
pub open spec fn kept_limit(
    stored: Seq<(Seq<char>, Data)>,
    name: Seq<char>,
    spec: ConfigSpecData,
) -> Data {
    Data::Integer(
        integer_or(
            stored,
            name,
            match integer_in(spec.value) {
                Some(i) => i,
                None => 0,
            },
        ),
    )
}

/// The configuration values after a declaration was applied: the script, the
/// declared values, the limits.
pub open spec fn applied_configs(
    stored: Seq<(Seq<char>, Data)>,
    decl: DeclarationData,
    time: ConfigSpecData,
    memory: ConfigSpecData,
) -> Seq<(Seq<char>, Data)> {
    let script = put(
        Seq::empty(),
        "script"@,
        Data::String(string_or_default(stored, "script"@)),
    );
    put(
        put(
            with_declared(script, stored, decl.configs),
            "time_limit_ms"@,
            kept_limit(stored, "time_limit_ms"@, time),
        ),
        "memory_limit_mb"@,
        kept_limit(stored, "memory_limit_mb"@, memory),
    )
}

/// The descriptions after a declaration was applied, in the same order.
pub open spec fn applied_specs(
    decl: DeclarationData,
    script: ConfigSpecData,
    time: ConfigSpecData,
    memory: ConfigSpecData,
) -> Seq<(Seq<char>, ConfigSpecData)> {
    put(
        put(
            with_specs(put(Seq::empty(), "script"@, script), decl.configs),
            "time_limit_ms"@,
            time,
        ),
        "memory_limit_mb"@,
        memory,
    )
}

/// The error for a missing built-in description.
pub open spec fn missing_base(name: Seq<char>) -> ErrorData {
    ErrorData::InvalidConfig("config "@ + name + " must be present"@)
}

/// The shape after a declaration was applied to it.
pub open spec fn applied(s: SpecData, decl: DeclarationData) -> Result<SpecData, ErrorData> {
    match base_spec(s, "script"@) {
        None => Err(missing_base("script"@)),
        Some(script) => match base_spec(s, "time_limit_ms"@) {
            None => Err(missing_base("time_limit_ms"@)),
            Some(time) => match base_spec(s, "memory_limit_mb"@) {
                None => Err(missing_base("memory_limit_mb"@)),
                Some(memory) => Ok(
                    SpecData {
                        inputs: Some(decl.inputs),
                        outputs: Some(decl.outputs),
                        configs: Some(applied_configs(old_configs(s), decl, time, memory)),
                        config_specs: Some(applied_specs(decl, script, time, memory)),
                    },
                ),
            },
        },
    }
}

/// A copy of the description of a built-in configuration value.
fn get_base_spec(spec: &AgentSpec, name: &str) -> (r: Result<ConfigSpec, AgentError>)
    ensures
        match base_spec(spec@, name@) {
            Some(d) => r matches Ok(s) && s@ == d,
            None => r matches Err(e) && e@ == missing_base(name@),
        },
{
    if let Some(specs) = &spec.config_specs {
        if let Some(found) = specs.get(name) {
            return Ok(found.copy());
        }
    }
    Err(AgentError::InvalidConfig(concat3("config ", name, " must be present")))
}

/// Stores the limit under `name`, by default that of its description.
fn keep_limit(
    configs: &mut modular_agent_core::ModuleConfigs,
    old_values: &modular_agent_core::ModuleConfigs,
    name: &str,
    spec: &ConfigSpec,
)
    ensures
        config_entries(*final(configs)) == put(
            config_entries(*old(configs)),
            name@,
            kept_limit(config_entries(*old_values), name@, spec@),
        ),
{
    let default: i64 = match spec.value.as_i64() {
        Some(i) => i,
        None => 0,
    };
    let limit: i64 = old_values.get_integer_or(name, default);
    set_config(configs, name, &AgentValue::Integer(limit));
}

/// The host value that a declared configuration value has.
fn keep_value(old_values: &modular_agent_core::ModuleConfigs, name: &str, default: &AgentValue) -> (r:
    modular_agent_core::Value)
    ensures
        value_tree(r) == kept_value(config_entries(*old_values), name@, default@),
{
    if let Some(v) = stored_value(old_values, name) {
        return v;
    }
    let stale = concat("_", name);
    proof {
        reveal_strlit("_");
        assert(stale@ =~= parked_name(name@));
    }
    if let Some(v) = stored_value(old_values, stale.as_str()) {
        return v;
    }
    host_value(default)
}

/// Rebuilds the ports, the configuration values and their descriptions from a
/// declaration, keeping the built-in values and what is stored of the declared
/// ones. On failure the shape stays as it was.
pub fn apply_declaration(spec: &mut AgentSpec, decl: &Declaration) -> (r: Result<(), AgentError>)
    ensures
        match applied(old(spec)@, decl@) {
            Ok(s) => r is Ok && final(spec)@ == s,
            Err(x) => r matches Err(e) && e@ == x && *final(spec) == *old(spec),
        },
{
    let script_spec = match get_base_spec(spec, "script") {
        Ok(s) => s,
        Err(e) => {
            return Err(e);
        },
    };
    let time_spec = match get_base_spec(spec, "time_limit_ms") {
        Ok(s) => s,
        Err(e) => {
            return Err(e);
        },
    };
    let memory_spec = match get_base_spec(spec, "memory_limit_mb") {
        Ok(s) => s,
        Err(e) => {
            return Err(e);
        },
    };

    let old_values = match &spec.configs {
        Some(c) => c.clone(),
        None => modular_agent_core::ModuleConfigs::new(),
    };
    let ghost before = config_entries(old_values);
    let mut configs = modular_agent_core::ModuleConfigs::new();
    let mut config_specs = ConfigSpecs::new();

    // The order determines how the values are shown: the script on top, the
    // declared values next, the limits last.
    let text = old_values.get_string_or_default("script");
    set_config(&mut configs, "script", &AgentValue::String(text));
    config_specs.insert("script".to_string(), script_spec);

    let ghost first_values = config_entries(configs);
    let ghost first_specs = config_specs@;
    let ghost decls = entry_views(decl.configs@);
    let mut i: usize = 0;
    assert(decls.take(0) =~= Seq::empty());
    while i < decl.configs.len()
        invariant
            i <= decl.configs.len(),
            before == config_entries(old_values),
            decls == entry_views(decl.configs@),
            config_entries(configs) == with_declared(first_values, before, decls.take(i as int)),
            config_specs@ == with_specs(first_specs, decls.take(i as int)),
        decreases decl.configs.len() - i,
    {
        proof {
            assert(decls.take(i + 1).drop_last() =~= decls.take(i as int));
            assert(decls.take(i + 1).last() == decls[i as int]);
        }
        let value = keep_value(
            &old_values,
            decl.configs[i].0.as_str(),
            &decl.configs[i].1.value,
        );
        configs.set(decl.configs[i].0.clone(), value);
        config_specs.insert(decl.configs[i].0.clone(), decl.configs[i].1.copy());
        i = i + 1;
    }
    assert(decls.take(i as int) =~= decls);

    keep_limit(&mut configs, &old_values, "time_limit_ms", &time_spec);
    config_specs.insert("time_limit_ms".to_string(), time_spec);
    keep_limit(&mut configs, &old_values, "memory_limit_mb", &memory_spec);
    config_specs.insert("memory_limit_mb".to_string(), memory_spec);

    spec.configs = Some(configs);
    spec.config_specs = Some(config_specs);
    spec.inputs = Some(copy_list(&decl.inputs));
    spec.outputs = Some(copy_list(&decl.outputs));
    Ok(())
}

/// What describing and applying yields, where describing yields `found`: the
/// declaration, unless either step fails.
pub open spec fn described_and_applied(
    found: Result<DeclarationData, ErrorData>,
    s: SpecData,
) -> Result<DeclarationData, ErrorData> {
    match found {
        Err(x) => Err(x),
        Ok(decl) => match applied(s, decl) {
            Err(x) => Err(x),
            Ok(_) => Ok(decl),
        },
    }
}

/// Evaluates the declaration of a script and applies it. On failure, wherever
/// it happens, the shape stays as it was.
pub fn describe_and_apply(script: &str, spec: &mut AgentSpec) -> (r: Result<
    Declaration,
    AgentError,
>)
    ensures
        exists|found: Result<DeclarationData, ErrorData>| #[trigger]
            may_describe(script@, found) && declaration_view(r) == described_and_applied(
                found,
                old(spec)@,
            ),
        r matches Ok(decl) ==> applied(old(spec)@, decl@) == Ok::<SpecData, ErrorData>(final(spec)@),
        r is Err ==> *final(spec) == *old(spec),
{
    let decl = match describe(script) {
        Ok(d) => d,
        Err(e) => {
            return Err(e);
        },
    };
    match apply_declaration(spec, &decl) {
        Ok(_) => Ok(decl),
        Err(e) => Err(e),
    }
}

/// The declared configuration values with the values they keep.
pub open spec fn kept_values(
    stored: Seq<(Seq<char>, Data)>,
    decls: Seq<(Seq<char>, ConfigSpecData)>,
) -> Seq<(Seq<char>, Data)> {
    decls.map_values(
        |e: (Seq<char>, ConfigSpecData)| (e.0, kept_value(stored, e.0, e.1.value)),
    )
}

proof fn absent_from_both<T>(a: Seq<(Seq<char>, T)>, b: Seq<(Seq<char>, T)>, k: Seq<char>)
    requires
        forall|i: int| 0 <= i < a.len() ==> (#[trigger] a[i]).0 != k,
        forall|i: int| 0 <= i < b.len() ==> (#[trigger] b[i]).0 != k,
    ensures
        lookup(a + b, k) is None,
{
    lookup_finds(a + b, k);
    if lookup(a + b, k) is Some {
        let i = choose|i: int| 0 <= i < (a + b).len() && (#[trigger] (a + b)[i]).0 == k;
        if i < a.len() {
            assert((a + b)[i] == a[i]);
        } else {
            assert((a + b)[i] == b[i - a.len()]);
        }
    }
}

/// New names come behind the entries, in their own order.
proof fn declared_come_behind(
    es: Seq<(Seq<char>, Data)>,
    specs: Seq<(Seq<char>, ConfigSpecData)>,
    stored: Seq<(Seq<char>, Data)>,
    decls: Seq<(Seq<char>, ConfigSpecData)>,
)
    requires
        distinct(decls),
        forall|i: int, j: int|
            0 <= i < es.len() && 0 <= j < decls.len() ==> (#[trigger] es[i]).0 != (
            #[trigger] decls[j]).0,
        forall|i: int, j: int|
            0 <= i < specs.len() && 0 <= j < decls.len() ==> (#[trigger] specs[i]).0 != (
            #[trigger] decls[j]).0,
    ensures
        with_declared(es, stored, decls) == es + kept_values(stored, decls),
        with_specs(specs, decls) == specs + decls,
    decreases decls.len(),
{
    if decls.len() == 0 {
        assert(es + kept_values(stored, decls) =~= es);
        assert(specs + decls =~= specs);
    } else {
        let init = decls.drop_last();
        let (k, d) = decls.last();
        assert(decls[decls.len() - 1] == (k, d));
        assert forall|i: int| 0 <= i < init.len() implies (#[trigger] init[i]).0 != k && init[i]
            == decls[i] by {
            assert(decls[i].0 != decls[decls.len() - 1].0);
        }
        assert(distinct(init));
        declared_come_behind(es, specs, stored, init);
        let values = kept_values(stored, init);
        assert forall|i: int| 0 <= i < values.len() implies (#[trigger] values[i]).0 != k by {
            assert(values[i].0 == init[i].0);
        }
        absent_from_both(es, values, k);
        put_appends(es + values, k, kept_value(stored, k, d.value));
        absent_from_both(specs, init, k);
        put_appends(specs + init, k, d);
        assert((es + values).push((k, kept_value(stored, k, d.value))) =~= es + kept_values(
            stored,
            decls,
        ));
        assert((specs + init).push((k, d)) =~= specs + decls);
    }
}

proof fn built_ins_differ()
    ensures
        "script"@ != "time_limit_ms"@,
        "script"@ != "memory_limit_mb"@,
        "time_limit_ms"@ != "memory_limit_mb"@,
{
    reveal_strlit("script");
    reveal_strlit("time_limit_ms");
    reveal_strlit("memory_limit_mb");
    assert("script"@.len() == 6);
    assert("time_limit_ms"@.len() == 13);
    assert("memory_limit_mb"@.len() == 15);
}

/// Applying the declaration of a script shows the script on top, the declared
/// values next, in the order of the declaration and each with the value it
/// keeps, and the two limits last.
pub proof fn shown_order(s: SpecData, decl: DeclarationData)
    requires
        applied(s, decl) is Ok,
        distinct(decl.configs),
        forall|i: int|
            0 <= i < decl.configs.len() ==> name_flaw((#[trigger] decl.configs[i]).0) is None,
    ensures
        applied(s, decl)->Ok_0.configs == Some(
            seq![("script"@, Data::String(string_or_default(old_configs(s), "script"@)))]
                + kept_values(old_configs(s), decl.configs) + seq![
                (
                    "time_limit_ms"@,
                    kept_limit(
                        old_configs(s),
                        "time_limit_ms"@,
                        base_spec(s, "time_limit_ms"@)->0,
                    ),
                ),
                (
                    "memory_limit_mb"@,
                    kept_limit(
                        old_configs(s),
                        "memory_limit_mb"@,
                        base_spec(s, "memory_limit_mb"@)->0,
                    ),
                ),
            ],
        ),
        applied(s, decl)->Ok_0.config_specs == Some(
            seq![("script"@, base_spec(s, "script"@)->0)] + decl.configs + seq![
                ("time_limit_ms"@, base_spec(s, "time_limit_ms"@)->0),
                ("memory_limit_mb"@, base_spec(s, "memory_limit_mb"@)->0),
            ],
        ),
{
    built_ins_differ();
    let stored = old_configs(s);
    let text = Data::String(string_or_default(stored, "script"@));
    let script = base_spec(s, "script"@)->0;
    let time = base_spec(s, "time_limit_ms"@)->0;
    let memory = base_spec(s, "memory_limit_mb"@)->0;
    let es = seq![("script"@, text)];
    let specs = seq![("script"@, script)];
    declared_come_behind(es, specs, stored, decl.configs);
    let values = kept_values(stored, decl.configs);
    let t = ("time_limit_ms"@, kept_limit(stored, "time_limit_ms"@, time));
    let m = ("memory_limit_mb"@, kept_limit(stored, "memory_limit_mb"@, memory));
    assert forall|i: int| 0 <= i < values.len() implies !built_in((#[trigger] values[i]).0) by {
        assert(values[i].0 == decl.configs[i].0);
    }
    assert forall|i: int| 0 <= i < decl.configs.len() implies !built_in(
        (#[trigger] decl.configs[i]).0,
    ) by {}
    absent_from_both(es, values, t.0);
    put_appends(es + values, t.0, t.1);
    absent_from_both((es + values), seq![t], m.0);
    assert((es + values).push(t) =~= (es + values) + seq![t]);
    put_appends((es + values) + seq![t], m.0, m.1);
    assert(((es + values) + seq![t]).push(m) =~= es + values + seq![t, m]);
    let ts = ("time_limit_ms"@, time);
    let ms = ("memory_limit_mb"@, memory);
    absent_from_both(specs, decl.configs, ts.0);
    put_appends(specs + decl.configs, ts.0, ts.1);
    absent_from_both((specs + decl.configs), seq![ts], ms.0);
    assert((specs + decl.configs).push(ts) =~= (specs + decl.configs) + seq![ts]);
    put_appends((specs + decl.configs) + seq![ts], ms.0, ms.1);
    assert(((specs + decl.configs) + seq![ts]).push(ms) =~= specs + decl.configs + seq![ts, ms]);
}

proof fn framed_is_distinct<T>(
    a: (Seq<char>, T),
    es: Seq<(Seq<char>, T)>,
    b: (Seq<char>, T),
    c: (Seq<char>, T),
)
    requires
        distinct(es),
        a.0 == "script"@,
        b.0 == "time_limit_ms"@,
        c.0 == "memory_limit_mb"@,
        forall|i: int| 0 <= i < es.len() ==> !built_in((#[trigger] es[i]).0),
    ensures
        distinct(seq![a] + es + seq![b, c]),
{
    built_ins_differ();
    let all = seq![a] + es + seq![b, c];
    let n = es.len();
    assert forall|i: int, j: int| 0 <= i < j < all.len() implies (#[trigger] all[i]).0 != (
    #[trigger] all[j]).0 by {
        if 1 <= i <= n {
            assert(all[i] == es[i - 1]);
        }
        if 1 <= j <= n {
            assert(all[j] == es[j - 1]);
        }
        if 1 <= i && j <= n {
            assert(es[i - 1].0 != es[j - 1].0);
        }
    }
}

/// Applying a declaration a second time changes nothing: every value that was
/// kept is kept again.
pub proof fn applying_again_changes_nothing(s: SpecData, decl: DeclarationData)
    requires
        applied(s, decl) is Ok,
        distinct(decl.configs),
        forall|i: int|
            0 <= i < decl.configs.len() ==> name_flaw((#[trigger] decl.configs[i]).0) is None,
    ensures
        applied(applied(s, decl)->Ok_0, decl) == applied(s, decl),
{
    let t = applied(s, decl)->Ok_0;
    let decls = decl.configs;
    let n = decls.len() as int;
    let c = t.configs->0;
    let p = t.config_specs->0;
    shown_order(s, decl);
    let values = kept_values(old_configs(s), decls);
    assert forall|i: int, j: int| 0 <= i < j < values.len() implies (#[trigger] values[i]).0 != (
    #[trigger] values[j]).0 by {
        assert(decls[i].0 != decls[j].0);
    }
    assert forall|i: int| 0 <= i < values.len() implies !built_in((#[trigger] values[i]).0) by {
        assert(values[i].0 == decls[i].0);
    }
    framed_is_distinct(c[0], values, c[n + 1], c[n + 2]);
    framed_is_distinct(p[0], decls, p[n + 1], p[n + 2]);
    assert(c =~= seq![c[0]] + values + seq![c[n + 1], c[n + 2]]);
    assert(p =~= seq![p[0]] + decls + seq![p[n + 1], p[n + 2]]);
    lookup_at(p, 0);
    lookup_at(p, n + 1);
    lookup_at(p, n + 2);
    lookup_at(c, 0);
    lookup_at(c, n + 1);
    lookup_at(c, n + 2);
    shown_order(t, decl);
    assert forall|i: int| 0 <= i < n implies kept_values(c, decls)[i] == #[trigger] values[i] by {
        assert(c[i + 1] == values[i]);
        lookup_at(c, i + 1);
    }
    assert(kept_values(c, decls) =~= values);
    let again = applied(t, decl)->Ok_0;
    assert(again.configs->0 =~= c);
    assert(again.config_specs->0 =~= p);
}

/// A declaration can be applied wherever the three built-in descriptions are
/// there; otherwise the error names the first that is missing.
pub proof fn built_ins_must_be_described(s: SpecData, decl: DeclarationData)
    ensures
        ({
            let there = |name: Seq<char>|
                s.config_specs matches Some(es) && lookup(es, name) is Some;
            let fails = |name: Seq<char>|
                applied(s, decl) == Err::<SpecData, ErrorData>(
                    ErrorData::InvalidConfig("config "@ + name + " must be present"@),
                );
            &&& applied(s, decl) is Ok <==> there("script"@) && there("time_limit_ms"@) && there(
                "memory_limit_mb"@,
            )
            &&& !there("script"@) ==> fails("script"@)
            &&& there("script"@) && !there("time_limit_ms"@) ==> fails("time_limit_ms"@)
            &&& there("script"@) && there("time_limit_ms"@) && !there("memory_limit_mb"@) ==> fails(
                "memory_limit_mb"@,
            )
        }),
{
}

/// Whenever a declaration is applied, the ports of the node are exactly the
/// declared ones, whatever ports it had before.
pub proof fn ports_are_the_declared_ones(s: SpecData, decl: DeclarationData)
    ensures
        applied(s, decl) matches Ok(t) ==> t.inputs == Some(decl.inputs) && t.outputs == Some(
            decl.outputs,
        ),
{
}

proof fn applied_lookups(s: SpecData, decl: DeclarationData, name: Seq<char>) -> (at: int)
    requires
        applied(s, decl) is Ok,
        distinct(decl.configs),
        forall|i: int|
            0 <= i < decl.configs.len() ==> name_flaw((#[trigger] decl.configs[i]).0) is None,
    ensures
        ({
            let c = applied(s, decl)->Ok_0.configs->0;
            let p = applied(s, decl)->Ok_0.config_specs->0;
            let n = decl.configs.len() as int;
            &&& c.len() == n + 3 && p.len() == n + 3
            &&& distinct(c) && distinct(p)
            &&& 0 <= at < n + 3 ==> c[at].0 == name && p[at].0 == name
            &&& !(0 <= at < n + 3) ==> lookup(c, name) is None && lookup(p, name) is None
        }),
{
    let t = applied(s, decl)->Ok_0;
    let decls = decl.configs;
    let n = decls.len() as int;
    let c = t.configs->0;
    let p = t.config_specs->0;
    shown_order(s, decl);
    let values = kept_values(old_configs(s), decls);
    assert forall|i: int, j: int| 0 <= i < j < values.len() implies (#[trigger] values[i]).0 != (
    #[trigger] values[j]).0 by {
        assert(decls[i].0 != decls[j].0);
    }
    assert forall|i: int| 0 <= i < values.len() implies !built_in((#[trigger] values[i]).0) by {
        assert(values[i].0 == decls[i].0);
    }
    framed_is_distinct(c[0], values, c[n + 1], c[n + 2]);
    framed_is_distinct(p[0], decls, p[n + 1], p[n + 2]);
    assert(c =~= seq![c[0]] + values + seq![c[n + 1], c[n + 2]]);
    assert(p =~= seq![p[0]] + decls + seq![p[n + 1], p[n + 2]]);
    assert forall|i: int| 0 <= i < n + 3 implies (#[trigger] c[i]).0 == p[i].0 by {
        if 1 <= i <= n {
            assert(c[i] == values[i - 1]);
            assert(p[i] == decls[i - 1]);
        }
    }
    lookup_finds(c, name);
    lookup_finds(p, name);
    if lookup(c, name) is Some {
        choose|i: int| 0 <= i < c.len() && (#[trigger] c[i]).0 == name
    } else {
        if lookup(p, name) is Some {
            let i = choose|i: int| 0 <= i < p.len() && (#[trigger] p[i]).0 == name;
            assert(c[i].0 == name);
        }
        -1
    }
}

/// A declared configuration value keeps what the user has stored under its
/// name, else what the host has parked under its name with an underscore in
/// front, else it starts with the declared default. It is described as
/// declared.
pub proof fn declared_values_are_kept(s: SpecData, decl: DeclarationData, i: int)
    requires
        applied(s, decl) is Ok,
        distinct(decl.configs),
        forall|k: int|
            0 <= k < decl.configs.len() ==> name_flaw((#[trigger] decl.configs[k]).0) is None,
        0 <= i < decl.configs.len(),
    ensures
        ({
            let t = applied(s, decl)->Ok_0;
            let (name, spec) = decl.configs[i];
            let stored = match s.configs {
                Some(es) => es,
                None => Seq::empty(),
            };
            let now = lookup(t.configs->0, name);
            &&& lookup(stored, name) is Some ==> now == lookup(stored, name)
            &&& lookup(stored, name) is None && lookup(stored, seq!['_'] + name) is Some ==> now
                == lookup(stored, seq!['_'] + name)
            &&& lookup(stored, name) is None && lookup(stored, seq!['_'] + name) is None ==> now
                == Some(tidy(spec.value))
            &&& lookup(t.config_specs->0, name) == Some(spec)
        }),
{
    let name = decl.configs[i].0;
    let t = applied(s, decl)->Ok_0;
    let c = t.configs->0;
    let p = t.config_specs->0;
    shown_order(s, decl);
    let at = applied_lookups(s, decl, name);
    let values = kept_values(old_configs(s), decl.configs);
    assert(c[i + 1] == values[i]);
    assert(p[i + 1] == decl.configs[i]);
    lookup_at(c, i + 1);
    lookup_at(p, i + 1);
}

/// Applying a declaration keeps the script and the limits of the node and how
/// they are described. A limit that is not stored, or no number, starts with
/// that of its description.
pub proof fn built_in_values_are_kept(s: SpecData, decl: DeclarationData)
    requires
        applied(s, decl) is Ok,
        distinct(decl.configs),
        forall|k: int|
            0 <= k < decl.configs.len() ==> name_flaw((#[trigger] decl.configs[k]).0) is None,
    ensures
        ({
            let t = applied(s, decl)->Ok_0;
            let now = |name: Seq<char>| lookup(t.configs->0, name);
            let stored = |name: Seq<char>|
                match s.configs {
                    Some(es) => lookup(es, name),
                    None => None,
                };
            let described = |name: Seq<char>| lookup(s.config_specs->0, name);
            let limit = |name: Seq<char>|
                match stored(name) {
                    Some(Data::Integer(i)) => i,
                    Some(Data::Number(bits)) => truncated(bits),
                    _ => match described(name)->0.value {
                        Data::Integer(i) => i,
                        Data::Number(bits) => truncated(bits),
                        _ => 0,
                    },
                };
            &&& stored("script"@) matches Some(Data::String(text)) ==> now("script"@) == Some(
                Data::String(text),
            )
            &&& !(stored("script"@) matches Some(Data::String(_))) ==> now("script"@) == Some(
                Data::String(Seq::empty()),
            )
            &&& now("time_limit_ms"@) == Some(Data::Integer(limit("time_limit_ms"@)))
            &&& now("memory_limit_mb"@) == Some(Data::Integer(limit("memory_limit_mb"@)))
            &&& lookup(t.config_specs->0, "script"@) == described("script"@)
            &&& lookup(t.config_specs->0, "time_limit_ms"@) == described("time_limit_ms"@)
            &&& lookup(t.config_specs->0, "memory_limit_mb"@) == described("memory_limit_mb"@)
        }),
{
    let t = applied(s, decl)->Ok_0;
    let c = t.configs->0;
    let p = t.config_specs->0;
    let n = decl.configs.len() as int;
    shown_order(s, decl);
    let at = applied_lookups(s, decl, "script"@);
    let values = kept_values(old_configs(s), decl.configs);
    assert(c[0].0 == "script"@ && c[n + 1].0 == "time_limit_ms"@ && c[n + 2].0
        == "memory_limit_mb"@);
    assert(p[0].0 == "script"@ && p[n + 1].0 == "time_limit_ms"@ && p[n + 2].0
        == "memory_limit_mb"@);
    lookup_at(c, 0);
    lookup_at(c, n + 1);
    lookup_at(c, n + 2);
    lookup_at(p, 0);
    lookup_at(p, n + 1);
    lookup_at(p, n + 2);
}

/// After a declaration was applied the node has the built-in configuration
/// values and the declared ones, and no others: what an earlier script has
/// declared is gone.
pub proof fn nothing_else_is_configured(s: SpecData, decl: DeclarationData, name: Seq<char>)
    requires
        applied(s, decl) is Ok,
        distinct(decl.configs),
        forall|k: int|
            0 <= k < decl.configs.len() ==> name_flaw((#[trigger] decl.configs[k]).0) is None,
        name != "script"@,
        name != "time_limit_ms"@,
        name != "memory_limit_mb"@,
        forall|k: int| 0 <= k < decl.configs.len() ==> (#[trigger] decl.configs[k]).0 != name,
    ensures
        lookup(applied(s, decl)->Ok_0.configs->0, name) is None,
        lookup(applied(s, decl)->Ok_0.config_specs->0, name) is None,
{
    let c = applied(s, decl)->Ok_0.configs->0;
    let n = decl.configs.len() as int;
    shown_order(s, decl);
    let at = applied_lookups(s, decl, name);
    let values = kept_values(old_configs(s), decl.configs);
    if 1 <= at <= n {
        assert(c[at] == values[at - 1]);
        assert(values[at - 1].0 == decl.configs[at - 1].0);
    }
}

/// Describing and applying succeeds if both steps do, and yields what was
/// declared; the error of the step that fails is the error of the whole.
pub proof fn either_step_can_fail(found: Result<DeclarationData, ErrorData>, s: SpecData)
    ensures
        found matches Err(x) ==> described_and_applied(found, s) == Err::<DeclarationData, _>(x),
        found matches Ok(decl) ==> {
            &&& applied(s, decl) is Ok ==> described_and_applied(found, s) == found
            &&& applied(s, decl) matches Err(x) ==> described_and_applied(found, s) == Err::<
                DeclarationData,
                _,
            >(x)
        },
{
}

/// A declaration is evaluated by running the whole script and then `AGENT`,
/// with no inputs, no host functions, half a second and the default limits
/// otherwise.
pub proof fn declarations_are_evaluated_alone(script: Seq<char>)
    ensures
        describe_setup(script).source == script + "\nAGENT"@,
        describe_setup(script).input_names.len() == 0,
        describe_setup(script).externals.len() == 0,
        describe_setup(script).limits.time_limit_ms == 500,
        describe_setup(script).limits.memory_limit_bytes == 32 * 1024 * 1024,
        describe_setup(script).limits.max_stack_depth == 512,
        describe_setup(script).limits.max_allocations == 100_000,
{
}

/// A blank script is described without running it: it has one input and one
/// output, both called `value`, and declares no configuration values.
pub proof fn blank_scripts_have_default_ports(
    script: Seq<char>,
    found: Result<DeclarationData, ErrorData>,
)
    requires
        trim(script).len() == 0,
        may_describe(script, found),
    ensures
        found matches Ok(decl) && decl.inputs == seq!["value"@] && decl.outputs == seq!["value"@]
            && decl.configs.len() == 0,
{
}

/// Any other script is described by a run of it: a declaration is read from
/// the plain data that the run ends with, and a failure of the run is the
/// error.
pub proof fn declarations_come_from_a_run(
    script: Seq<char>,
    found: Result<DeclarationData, ErrorData>,
)
    requires
        trim(script).len() > 0,
        may_describe(script, found),
    ensures
        exists|end: Result<(StepData, Seq<char>), FailureData>| #[trigger]
            run_may_end(describe_setup(script), Seq::empty(), end) && match end {
                Err(FailureData::Error(e)) => found == Err::<DeclarationData, _>(
                    failure_report(failure_kind(e), failure_text(e)),
                ),
                Err(FailureData::Crashed(text)) => found == Err::<DeclarationData, _>(
                    ErrorData::IoError("ZapCode task error: "@ + text),
                ),
                Ok((StepData::Complete(z), _)) => if callable_free(z) {
                    found == declared(value_of(z))
                } else {
                    found is Err
                },
                Ok((StepData::Suspended { .. }, _)) => false,
            },
{
    let end = choose|end: Result<(StepData, Seq<char>), FailureData>| #[trigger]
        describe_may_end(script, end) && found == described(end);
    assert(run_may_end(describe_setup(script), Seq::empty(), end));
    if let Ok((StepData::Complete(z), _)) = end {
        callables_are_refused_anywhere(z);
    }
}

/// The value of `AGENT` is the plain data that the script ends with. A script
/// that waits for the host instead has no declaration, and the error names the
/// function it asked for.
pub proof fn agents_are_plain_data(step: StepData, stdout: Seq<char>)
    ensures
        step matches StepData::Complete(z) ==> {
            &&& callable_free(z) ==> described_value(Ok((step, stdout))) == Ok::<_, ErrorData>(
                value_of(z),
            )
            &&& !callable_free(z) ==> described_value(Ok((step, stdout))) == Err::<Data, _>(
                callable_error(first_callable(z)->0),
            )
        },
        step matches StepData::Suspended { function_name, .. } ==> described_value(
            Ok((step, stdout)),
        ) == Err::<Data, _>(
            ErrorData::InvalidValue(
                "ZapCode runtime error: external function `"@ + function_name
                    + "` is not available while evaluating AGENT"@,
            ),
        ),
{
    if let StepData::Complete(z) = step {
        callables_are_refused_anywhere(z);
    }
}

/// Applying a declaration gives a shape exactly the declared ports, or leaves
/// it as it was.
pub proof fn applying_sets_the_ports(
    spec: &mut AgentSpec,
    decl: &Declaration,
    r: Result<(), AgentError>,
)
    requires
        call_ensures(apply_declaration, (spec, decl), r),
    ensures
        r is Ok ==> final(spec)@.inputs == Some(views(decl.inputs@)) && final(spec)@.outputs == Some(
            views(decl.outputs@),
        ),
        r is Err ==> final(spec)@ == old(spec)@,
        r is Ok <==> (old(spec)@.config_specs matches Some(es) && lookup(es, "script"@) is Some
            && lookup(es, "time_limit_ms"@) is Some && lookup(es, "memory_limit_mb"@) is Some),
{
}

/// Applying a declaration gives each declared name its stored value, else the
/// parked one, else the declared default, and keeps the description.
pub proof fn applying_keeps_stored_values(
    spec: &mut AgentSpec,
    decl: &Declaration,
    r: Result<(), AgentError>,
    i: int,
)
    requires
        call_ensures(apply_declaration, (spec, decl), r),
        r is Ok,
        distinct(decl@.configs),
        forall|k: int|
            0 <= k < decl@.configs.len() ==> name_flaw((#[trigger] decl@.configs[k]).0) is None,
        0 <= i < decl@.configs.len(),
    ensures
        ({
            let (name, spec_data) = decl@.configs[i];
            let stored = match old(spec)@.configs {
                Some(es) => es,
                None => Seq::empty(),
            };
            let now = lookup(final(spec)@.configs->0, name);
            &&& lookup(stored, name) is Some ==> now == lookup(stored, name)
            &&& lookup(stored, name) is None && lookup(stored, seq!['_'] + name) is Some ==> now
                == lookup(stored, seq!['_'] + name)
            &&& lookup(stored, name) is None && lookup(stored, seq!['_'] + name) is None ==> now
                == Some(tidy(spec_data.value))
            &&& lookup(final(spec)@.config_specs->0, name) == Some(spec_data)
        }),
{
    declared_values_are_kept(old(spec)@, decl@, i);
}

/// Describing a script and applying what it declares gives a shape the ports of
/// that declaration, or leaves it as it was.
pub proof fn described_ports_are_applied(
    script: &str,
    spec: &mut AgentSpec,
    r: Result<Declaration, AgentError>,
)
    requires
        call_ensures(describe_and_apply, (script, spec), r),
    ensures
        r matches Ok(decl) ==> {
            &&& may_describe(script@, Ok(decl@))
            &&& final(spec)@.inputs == Some(decl@.inputs)
            &&& final(spec)@.outputs == Some(decl@.outputs)
        },
        r is Err ==> final(spec)@ == old(spec)@,
{
    let found = choose|found: Result<DeclarationData, ErrorData>| #[trigger]
        may_describe(script@, found) && declaration_view(r) == described_and_applied(
            found,
            old(spec)@,
        );
    if r is Ok {
        assert(found == Ok::<DeclarationData, ErrorData>(r->Ok_0@));
    }
}

/// A blank script is described as one with the default ports.
pub proof fn blank_scripts_are_described(script: &str, r: Result<Declaration, AgentError>)
    requires
        call_ensures(describe, (script,), r),
        trim(script@).len() == 0,
    ensures
        r is Ok,
        views(r->Ok_0.inputs@) == seq!["value"@],
        views(r->Ok_0.outputs@) == seq!["value"@],
        r->Ok_0.configs@.len() == 0,
{
    blank_scripts_have_default_ports(script@, declaration_view(r));
    assert(entry_views(r->Ok_0.configs@).len() == 0);
}

} // verus!

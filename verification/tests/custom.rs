use modular_agent_core::{ModuleConfigs, PhotonImage, Value};
use modular_agent_zapcode::bridge::{resume_zapcode, start_zapcode, Progress, ZapOutcome};
use modular_agent_zapcode::configs::config_value;
use modular_agent_zapcode::declaration::{
    default_for_type, infer_type, parse_config_decl, parse_declaration, parse_port_list,
    validate_config_name, Declaration,
};
use modular_agent_zapcode::describe::{agent_value, apply_declaration, describe, describe_and_apply};
use modular_agent_zapcode::error::AgentError;
use modular_agent_zapcode::exchange::{host_value, read_value};
use modular_agent_zapcode::host::Number;
use modular_agent_zapcode::limits::Limits;
use modular_agent_zapcode::node::{HostAction, Node, NodeRun, NodeState, ProcessHandler};
use modular_agent_zapcode::shape::{AgentSpec, ConfigSpec, ConfigSpecs};
use modular_agent_zapcode::stale::restore_stale_configs;
use modular_agent_zapcode::value::AgentValue;
use modular_agent_zapcode::vm::VmStep;

fn base_config_specs() -> ConfigSpecs {
    let mut specs = ConfigSpecs::new();
    specs.insert(
        "script".to_string(),
        ConfigSpec::new(AgentValue::String(String::new()), "text"),
    );
    specs.insert(
        "time_limit_ms".to_string(),
        ConfigSpec::new(AgentValue::Integer(5000), "integer"),
    );
    specs.insert(
        "memory_limit_mb".to_string(),
        ConfigSpec::new(AgentValue::Integer(32), "integer"),
    );
    specs
}

fn spec_with_configs(configs: ModuleConfigs) -> AgentSpec {
    AgentSpec {
        inputs: Some(vec!["value".to_string()]),
        outputs: Some(vec!["value".to_string()]),
        configs: Some(configs),
        config_specs: Some(base_config_specs()),
    }
}

fn shown(spec: &AgentSpec) -> String {
    format!("{spec:?}")
}

fn object(entries: Vec<(&str, AgentValue)>) -> AgentValue {
    AgentValue::Object(
        entries
            .into_iter()
            .map(|(k, v)| (k.to_string(), v))
            .collect(),
    )
}

fn text(s: &str) -> AgentValue {
    AgentValue::String(s.to_string())
}

fn default_limits() -> Limits {
    let limits = zapcode_core::ResourceLimits::default();
    Limits {
        memory_limit_bytes: limits.memory_limit_bytes,
        time_limit_ms: limits.time_limit_ms,
        max_stack_depth: limits.max_stack_depth,
        max_allocations: limits.max_allocations,
    }
}

static MOVING_AVERAGE_SCRIPT: &str = r#"
const AGENT = {
  inputs: ["value", "reset"],
  outputs: ["avg"],
  configs: {
    window: { type: "integer", value: 5, title: "Window" },
  },
  api: 1,
};
"#;

#[test]
fn describe_extracts_agent_declaration() {
    let decl = describe(MOVING_AVERAGE_SCRIPT).unwrap();
    assert_eq!(decl.inputs, vec!["value", "reset"]);
    assert_eq!(decl.outputs, vec!["avg"]);
    assert_eq!(decl.configs.len(), 1);
    let (name, spec) = &decl.configs[0];
    assert_eq!(name, "window");
    assert_eq!(spec.type_.as_deref(), Some("integer"));
    assert!(matches!(spec.value, AgentValue::Integer(5)));
    assert_eq!(spec.title.as_deref(), Some("Window"));
}

#[test]
fn describe_defaults_when_keys_missing() {
    let decl = describe(r#"const AGENT = { api: 1, name: "x", title: "y" };"#).unwrap();
    assert_eq!(decl.inputs, vec!["value"]);
    assert_eq!(decl.outputs, vec!["value"]);
    assert!(decl.configs.is_empty());
}

#[test]
fn describe_empty_script_gives_default_ports() {
    let decl = describe("  \n ").unwrap();
    assert_eq!(decl.inputs, vec!["value"]);
    assert_eq!(decl.outputs, vec!["value"]);
    assert!(decl.configs.is_empty());
}

#[test]
fn describe_broken_script_errors() {
    let err = describe("const = ;").unwrap_err().message();
    assert!(err.contains("ZapCode compile error"), "{err}");

    let err = describe("const x = 1;").unwrap_err().message();
    assert!(err.contains("must declare"), "{err}");

    let err = describe("const AGENT = 42;").unwrap_err().message();
    assert!(err.contains("AGENT must be an object"), "{err}");
}

#[test]
fn failed_describe_leaves_spec_untouched() {
    let mut configs = ModuleConfigs::new();
    configs.set("script".to_string(), Value::string("const = ;"));
    configs.set("window".to_string(), Value::integer(7));
    let mut spec = spec_with_configs(configs);
    spec.inputs = Some(vec!["value".to_string(), "reset".to_string()]);
    spec.outputs = Some(vec!["avg".to_string()]);
    let before = shown(&spec);

    let err = describe_and_apply("const = ;", &mut spec)
        .unwrap_err()
        .message();
    assert!(err.contains("ZapCode compile error"), "{err}");
    assert_eq!(shown(&spec), before);

    let err = describe_and_apply("const x = 1;", &mut spec)
        .unwrap_err()
        .message();
    assert!(err.contains("must declare"), "{err}");
    assert_eq!(shown(&spec), before);
}

#[test]
fn restore_stale_configs_renames_back_without_clobbering() {
    let mut configs = ModuleConfigs::new();
    configs.set("_window".to_string(), Value::integer(7));
    configs.set("kept".to_string(), Value::integer(1));
    configs.set("_kept".to_string(), Value::integer(2));
    let mut spec = spec_with_configs(configs);

    restore_stale_configs(&mut spec);

    let configs = spec.configs.as_ref().unwrap();
    assert!(matches!(
        configs.get("window").unwrap(),
        Value::Integer(7)
    ));
    assert!(!configs.contains_key("_window"));
    assert!(matches!(configs.get("kept").unwrap(), Value::Integer(1)));
    assert!(!configs.contains_key("_kept"));
}

fn process_handler(outputs: &[&str], configs: ModuleConfigs) -> ProcessHandler {
    ProcessHandler {
        configs,
        outputs: outputs.iter().map(|s| s.to_string()).collect(),
        emits: Vec::new(),
    }
}

fn run_process(
    handler: &mut ProcessHandler,
    state: &mut NodeState,
    script: &str,
    value: AgentValue,
) -> Result<ZapOutcome, AgentError> {
    let source = format!("{script}\nawait onInput(__port__, __value__)");
    let inputs = vec![
        ("__port__".to_string(), text("value")),
        ("__value__".to_string(), value),
    ];
    let externals = [
        "emit",
        "getConfig",
        "getState",
        "setState",
        "log",
        "callTool",
    ]
    .iter()
    .map(|s| s.to_string())
    .collect();
    let mut progress = start_zapcode(source, &inputs, externals, default_limits())?;
    loop {
        match progress {
            Progress::Done(outcome) => return Ok(outcome),
            Progress::Waiting(call, paused) => {
                let reply = match handler.call(state, &call.name, &call.args) {
                    HostAction::Answer(answer) => answer,
                    HostAction::Log(_) => Ok(AgentValue::Unit),
                    HostAction::CallTool(_, args) => Ok(args),
                };
                progress = resume_zapcode(paused, reply)?;
            }
        }
    }
}

static MOVING_AVERAGE_NODE: &str = r#"
const AGENT = {
  inputs: ["value", "reset"],
  outputs: ["avg"],
  configs: {
    window: { type: "integer", value: 5, title: "Window" },
  },
  api: 1,
};
function onInput(port, value) {
  if (port === "reset") { setState("samples", []); return; }
  const n = getConfig("window");
  const samples = (getState("samples") ?? []).concat([value]).slice(-n);
  setState("samples", samples);
  emit("avg", samples.reduce((a, b) => a + b) / samples.length);
}
"#;

#[test]
fn doc_example_moving_average_emits_averages() {
    let number = |x: f64| AgentValue::Number(Number::new(&Value::number(x)));
    let mut configs = ModuleConfigs::new();
    configs.set("window".to_string(), Value::integer(5));
    let mut state = NodeState::new();
    let mut handler = process_handler(&["avg"], configs);

    run_process(&mut handler, &mut state, MOVING_AVERAGE_NODE, number(10.0)).unwrap();
    run_process(&mut handler, &mut state, MOVING_AVERAGE_NODE, number(20.0)).unwrap();

    let avgs: Vec<f64> = handler
        .emits
        .iter()
        .map(|(port, v)| {
            assert_eq!(port, "avg");
            host_value(v).as_f64().expect("avg must be a number")
        })
        .collect();
    assert_eq!(avgs, vec![10.0, 15.0]);
}

#[test]
fn declared_configs_are_sorted_by_name() {
    let decl = describe(r#"const AGENT = { configs: { zebra: { value: 1 }, apple: { value: 2 } } };"#)
        .unwrap();
    let names: Vec<&str> = decl.configs.iter().map(|(n, _)| n.as_str()).collect();
    assert_eq!(names, vec!["apple", "zebra"]);
}

#[test]
fn declared_config_name_may_not_shadow_builtin() {
    let err = describe(r#"const AGENT = { configs: { script: { value: "x" } } };"#)
        .unwrap_err()
        .message();
    assert!(err.contains("built-in config"), "{err}");
}

#[test]
fn apply_declaration_rebuilds_spec_and_reads_stale_fallback() {
    let mut configs = ModuleConfigs::new();
    configs.set("script".to_string(), Value::string(MOVING_AVERAGE_SCRIPT));
    configs.set("time_limit_ms".to_string(), Value::integer(1234));
    configs.set("_window".to_string(), Value::integer(7));
    let mut spec = spec_with_configs(configs);

    let decl = describe(MOVING_AVERAGE_SCRIPT).unwrap();
    apply_declaration(&mut spec, &decl).unwrap();

    assert_eq!(spec.inputs.as_ref().unwrap(), &["value", "reset"]);
    assert_eq!(spec.outputs.as_ref().unwrap(), &["avg"]);

    let configs = spec.configs.as_ref().unwrap();
    assert!(matches!(
        configs.get("window").unwrap(),
        Value::Integer(7)
    ));
    assert!(!configs.contains_key("_window"));
    assert_eq!(configs.get_integer_or("time_limit_ms", 0), 1234);
    assert_eq!(
        configs.get_string_or_default("script"),
        MOVING_AVERAGE_SCRIPT
    );

    let config_specs = spec.config_specs.as_ref().unwrap();
    assert_eq!(
        config_specs.keys(),
        vec!["script", "window", "time_limit_ms", "memory_limit_mb"]
    );
    assert_eq!(
        config_specs.get("window").unwrap().title.as_deref(),
        Some("Window")
    );
}

#[test]
fn apply_declaration_prefers_current_value_over_fallback() {
    let mut configs = ModuleConfigs::new();
    configs.set("window".to_string(), Value::integer(3));
    configs.set("_window".to_string(), Value::integer(7));
    let mut spec = spec_with_configs(configs);

    let decl = describe(MOVING_AVERAGE_SCRIPT).unwrap();
    apply_declaration(&mut spec, &decl).unwrap();

    assert!(matches!(
        spec.configs.as_ref().unwrap().get("window").unwrap(),
        Value::Integer(3)
    ));
}

#[test]
fn apply_declaration_uses_declared_default_when_no_value_stored() {
    let mut spec = spec_with_configs(ModuleConfigs::new());
    let decl = describe(MOVING_AVERAGE_SCRIPT).unwrap();
    apply_declaration(&mut spec, &decl).unwrap();
    assert!(matches!(
        spec.configs.as_ref().unwrap().get("window").unwrap(),
        Value::Integer(5)
    ));
}

static SUM_SCRIPT: &str = r#"
function onInput(port, value) {
  const prev = getState("total");
  const total = (prev === null ? 0 : prev) + value;
  setState("total", total);
  emit("sum", total);
}
"#;

#[test]
fn process_collects_emits_and_keeps_state_across_runs() {
    let mut state = NodeState::new();
    let mut handler = process_handler(&["sum"], ModuleConfigs::new());

    run_process(&mut handler, &mut state, SUM_SCRIPT, AgentValue::Integer(2)).unwrap();
    assert!(matches!(state.get("total"), Some(AgentValue::Integer(2))));

    // Second run sees the state left by the first one.
    run_process(&mut handler, &mut state, SUM_SCRIPT, AgentValue::Integer(3)).unwrap();
    assert_eq!(handler.emits.len(), 2);
    assert_eq!(handler.emits[0].0, "sum");
    assert!(matches!(handler.emits[0].1, AgentValue::Integer(2)));
    assert!(matches!(handler.emits[1].1, AgentValue::Integer(5)));
}

#[test]
fn process_reads_config_values() {
    let mut configs = ModuleConfigs::new();
    configs.set("window".to_string(), Value::integer(5));
    let mut state = NodeState::new();
    let mut handler = process_handler(&["value"], configs);

    let script = r#"
function onInput(port, value) {
  emit("value", getConfig("window"));
  emit("value", getConfig("missing"));
}
"#;
    run_process(&mut handler, &mut state, script, AgentValue::Unit).unwrap();
    assert!(matches!(handler.emits[0].1, AgentValue::Integer(5)));
    assert!(matches!(handler.emits[1].1, AgentValue::Unit));
}

#[test]
fn emit_to_undeclared_port_errors() {
    let mut state = NodeState::new();
    let mut handler = process_handler(&["sum"], ModuleConfigs::new());
    let script = r#"
function onInput(port, value) {
  emit("nope", value);
}
"#;
    let err = run_process(&mut handler, &mut state, script, AgentValue::Integer(1))
        .unwrap_err()
        .message();
    assert!(err.contains("undeclared output port"), "{err}");
    assert!(handler.emits.is_empty());
}

#[test]
fn undeclared_ports_are_reported_with_the_declared_ones() {
    let mut state = NodeState::new();
    let mut handler = process_handler(&["a", "b"], ModuleConfigs::new());
    let HostAction::Answer(Err(e)) = handler.call(&mut state, "emit", &vec![text("c")]) else {
        panic!("expected a refusal");
    };
    assert_eq!(
        e.message(),
        "Invalid ZapCode runtime error: emit to undeclared output port `c` \
         (declared outputs: a, b) value"
    );
}

#[test]
fn host_functions_say_how_they_are_used() {
    let mut state = NodeState::new();
    let mut handler = process_handler(&["a"], ModuleConfigs::new());
    for (name, usage) in [
        ("emit", "emit expects (port, value)"),
        ("getConfig", "getConfig expects (name)"),
        ("getState", "getState expects (key)"),
        ("setState", "setState expects (key, value)"),
        ("callTool", "callTool expects (name, args)"),
    ] {
        for args in [vec![], vec![AgentValue::Integer(1)]] {
            let HostAction::Answer(Err(e)) = handler.call(&mut state, name, &args) else {
                panic!("expected {name} to be refused");
            };
            assert_eq!(
                e.message(),
                format!("Invalid ZapCode runtime error: {usage} value")
            );
        }
    }
    let HostAction::Answer(Err(e)) = handler.call(&mut state, "other", &vec![]) else {
        panic!("expected an unknown function to be refused");
    };
    assert_eq!(
        e.message(),
        "Invalid ZapCode runtime error: unknown external function `other` value"
    );
}

#[test]
fn logging_and_tool_calls_are_handed_to_the_host() {
    let mut state = NodeState::new();
    let mut handler = process_handler(&[], ModuleConfigs::new());
    let log = |handler: &mut ProcessHandler, state: &mut NodeState, args: Vec<AgentValue>| {
        match handler.call(state, "log", &args) {
            HostAction::Log(s) => s,
            _ => panic!("expected a message"),
        }
    };
    assert_eq!(log(&mut handler, &mut state, vec![text("plain \"text\"")]), "plain \"text\"");
    assert_eq!(log(&mut handler, &mut state, vec![]), "");
    assert_eq!(
        log(
            &mut handler,
            &mut state,
            vec![object(vec![
                ("b", AgentValue::Array(vec![AgentValue::Unit])),
                ("a", AgentValue::Integer(1)),
            ])]
        ),
        "{\"a\":1,\"b\":[null]}"
    );

    let broken = PhotonImage::new(vec![], 1, 1);
    let broken = read_value(Value::Image(std::sync::Arc::new(broken)));
    let HostAction::Answer(Err(e)) = handler.call(&mut state, "log", &vec![broken]) else {
        panic!("expected an error");
    };
    assert_eq!(
        e.message(),
        "Invalid ZapCode runtime error: log got an image that cannot be encoded value"
    );

    let HostAction::CallTool(tool, args) =
        handler.call(&mut state, "callTool", &vec![text("search"), AgentValue::Integer(3)])
    else {
        panic!("expected a tool call");
    };
    assert_eq!(tool, "search");
    assert!(matches!(args, AgentValue::Integer(3)));
    let HostAction::CallTool(_, args) =
        handler.call(&mut state, "callTool", &vec![text("search")])
    else {
        panic!("expected a tool call");
    };
    assert!(matches!(args, AgentValue::Unit));
}

#[test]
fn state_is_read_back_and_keeps_other_keys() {
    let mut state = NodeState::new();
    let mut handler = process_handler(&[], ModuleConfigs::new());
    let mut set = |key: &str, value: AgentValue| {
        assert!(matches!(
            handler.call(&mut state, "setState", &vec![text(key), value]),
            HostAction::Answer(Ok(AgentValue::Unit))
        ));
    };
    set("a", AgentValue::Integer(1));
    set("b", AgentValue::Integer(2));
    set("a", AgentValue::Integer(3));
    let mut get = |key: &str| match handler.call(&mut state, "getState", &vec![text(key)]) {
        HostAction::Answer(Ok(v)) => v,
        _ => panic!("expected a value"),
    };
    assert!(matches!(get("a"), AgentValue::Integer(3)));
    assert!(matches!(get("b"), AgentValue::Integer(2)));
    assert!(matches!(get("c"), AgentValue::Unit));
}

#[test]
fn port_lists_are_checked() {
    let ports = parse_port_list(None, "inputs").unwrap();
    assert_eq!(ports, vec!["value"]);
    let list = AgentValue::Array(vec![text("a"), text("b")]);
    assert_eq!(parse_port_list(Some(&list), "inputs").unwrap(), vec!["a", "b"]);
    let empty = AgentValue::Array(vec![]);
    assert!(parse_port_list(Some(&empty), "outputs").unwrap().is_empty());

    let err = parse_port_list(Some(&text("a")), "inputs").unwrap_err();
    assert_eq!(
        err.message(),
        "Configuration error: AGENT.inputs must be an array of strings"
    );
    for bad in [text(""), AgentValue::Integer(1)] {
        let list = AgentValue::Array(vec![text("a"), bad]);
        let err = parse_port_list(Some(&list), "outputs").unwrap_err();
        assert_eq!(
            err.message(),
            "Configuration error: AGENT.outputs must be an array of non-empty strings"
        );
    }
}

#[test]
fn config_names_are_checked() {
    assert!(validate_config_name("window").is_ok());
    for name in ["", "_x"] {
        assert_eq!(
            validate_config_name(name).unwrap_err().message(),
            format!(
                "Configuration error: AGENT.configs name `{name}` is invalid: it must be \
                 non-empty and must not start with `_`"
            )
        );
    }
    for name in ["script", "time_limit_ms", "memory_limit_mb"] {
        assert_eq!(
            validate_config_name(name).unwrap_err().message(),
            format!("Configuration error: AGENT.configs name `{name}` conflicts with a built-in config")
        );
    }
}

#[test]
fn config_declarations_are_completed() {
    let spec = parse_config_decl("x", &object(vec![])).unwrap();
    assert_eq!(spec.type_.as_deref(), Some("string"));
    assert!(matches!(&spec.value, AgentValue::String(s) if s.is_empty()));
    assert!(spec.title.is_none() && spec.description.is_none());
    assert!(!spec.hide_title && !spec.hidden && !spec.readonly && !spec.detail);

    let spec = parse_config_decl(
        "x",
        &object(vec![
            ("value", AgentValue::Boolean(true)),
            ("title", text("T")),
            ("description", text("D")),
        ]),
    )
    .unwrap();
    assert_eq!(spec.type_.as_deref(), Some("boolean"));
    assert!(matches!(spec.value, AgentValue::Boolean(true)));
    assert_eq!(spec.title.as_deref(), Some("T"));
    assert_eq!(spec.description.as_deref(), Some("D"));

    let spec = parse_config_decl(
        "x",
        &object(vec![("type", text("array")), ("title", AgentValue::Integer(1))]),
    )
    .unwrap();
    assert!(matches!(&spec.value, AgentValue::Array(items) if items.is_empty()));
    assert!(spec.title.is_none());

    let spec = parse_config_decl(
        "x",
        &object(vec![("type", text("text")), ("value", AgentValue::Integer(1))]),
    )
    .unwrap();
    assert_eq!(spec.type_.as_deref(), Some("text"));
    assert!(matches!(spec.value, AgentValue::Integer(1)));

    assert_eq!(
        parse_config_decl("x", &AgentValue::Unit).unwrap_err().message(),
        "Configuration error: AGENT.configs.x must be an object"
    );
    assert_eq!(
        parse_config_decl("x", &object(vec![("type", AgentValue::Unit)]))
            .unwrap_err()
            .message(),
        "Configuration error: AGENT.configs.x.type must be a string"
    );
}

#[test]
fn types_have_defaults_and_defaults_have_types() {
    assert!(matches!(default_for_type("integer"), AgentValue::Integer(0)));
    assert!(matches!(
        default_for_type("number"),
        AgentValue::Number(n) if n.to_host().as_f64() == Some(0.0)
    ));
    assert!(matches!(default_for_type("boolean"), AgentValue::Boolean(false)));
    assert!(matches!(default_for_type("object"), AgentValue::Object(m) if m.is_empty()));
    assert!(matches!(default_for_type("array"), AgentValue::Array(a) if a.is_empty()));
    assert!(matches!(default_for_type("anything"), AgentValue::String(s) if s.is_empty()));

    assert_eq!(infer_type(&AgentValue::Boolean(true)), "boolean");
    assert_eq!(infer_type(&AgentValue::Integer(1)), "integer");
    assert_eq!(
        infer_type(&AgentValue::Number(Number::new(&Value::number(1.0)))),
        "number"
    );
    assert_eq!(infer_type(&object(vec![])), "object");
    assert_eq!(infer_type(&AgentValue::Array(vec![])), "array");
    assert_eq!(infer_type(&text("x")), "string");
    assert_eq!(infer_type(&AgentValue::Unit), "string");
}

#[test]
fn declarations_are_read_from_values() {
    let err = parse_declaration(&object(vec![("configs", AgentValue::Integer(1))])).unwrap_err();
    assert_eq!(
        err.message(),
        "Configuration error: AGENT.configs must be an object"
    );
    // The first flaw in the order of the names is reported.
    let err = parse_declaration(&object(vec![(
        "configs",
        object(vec![("z", AgentValue::Unit), ("a", AgentValue::Unit)]),
    )]))
    .unwrap_err();
    assert_eq!(
        err.message(),
        "Configuration error: AGENT.configs.a must be an object"
    );
    let a = parse_declaration(&object(vec![
        ("name", text("ignored")),
        ("configs", object(vec![("z", object(vec![])), ("a", object(vec![]))])),
    ]))
    .unwrap();
    let b = parse_declaration(&object(vec![(
        "configs",
        object(vec![("a", object(vec![])), ("z", object(vec![]))]),
    )]))
    .unwrap();
    assert_eq!(format!("{a:?}"), format!("{b:?}"));
    assert_eq!(a.configs[0].0, "a");
    assert_eq!(a.configs[1].0, "z");
    let ports = Declaration::default_ports();
    assert_eq!(ports.inputs, vec!["value"]);
    assert_eq!(ports.outputs, vec!["value"]);
}

#[test]
fn applying_needs_the_built_in_descriptions() {
    let decl = Declaration::default_ports();
    for missing in ["script", "time_limit_ms", "memory_limit_mb"] {
        let mut specs = ConfigSpecs::new();
        for name in ["script", "time_limit_ms", "memory_limit_mb"] {
            if name != missing {
                specs.insert(name.to_string(), ConfigSpec::new(AgentValue::Unit, "text"));
            }
        }
        let mut spec = AgentSpec {
            inputs: None,
            outputs: None,
            configs: None,
            config_specs: Some(specs),
        };
        let before = shown(&spec);
        assert_eq!(
            apply_declaration(&mut spec, &decl).unwrap_err().message(),
            format!("Configuration error: config {missing} must be present")
        );
        assert_eq!(shown(&spec), before);
    }
}

#[test]
fn applying_twice_changes_nothing() {
    let mut configs = ModuleConfigs::new();
    configs.set("_window".to_string(), Value::integer(7));
    configs.set("memory_limit_mb".to_string(), Value::number(64.9));
    let mut spec = spec_with_configs(configs);
    let decl = describe(MOVING_AVERAGE_SCRIPT).unwrap();
    apply_declaration(&mut spec, &decl).unwrap();
    let configs = spec.configs.as_ref().unwrap();
    let keys: Vec<&str> = configs.keys().map(|k| k.as_str()).collect();
    assert_eq!(
        keys,
        vec!["script", "window", "time_limit_ms", "memory_limit_mb"]
    );
    assert!(matches!(
        configs.get("time_limit_ms").unwrap(),
        Value::Integer(5000)
    ));
    assert!(matches!(
        configs.get("memory_limit_mb").unwrap(),
        Value::Integer(64)
    ));
    let once = shown(&spec);
    apply_declaration(&mut spec, &decl).unwrap();
    assert_eq!(shown(&spec), once);
}

#[test]
fn restoring_handles_stacked_underscores() {
    let mut configs = ModuleConfigs::new();
    configs.set("__x".to_string(), Value::integer(2));
    configs.set("_x".to_string(), Value::integer(1));
    configs.set("_".to_string(), Value::integer(9));
    let mut spec = spec_with_configs(configs);
    restore_stale_configs(&mut spec);
    let configs = spec.configs.as_ref().unwrap();
    assert!(matches!(configs.get("x").unwrap(), Value::Integer(1)));
    assert!(!configs.contains_key("_x"));
    assert!(!configs.contains_key("__x"));
    assert!(!configs.contains_key("_"));
    assert!(!configs.contains_key(""));
    assert_eq!(configs.keys().count(), 1);

    let mut empty = AgentSpec {
        inputs: None,
        outputs: None,
        configs: None,
        config_specs: None,
    };
    restore_stale_configs(&mut empty);
    assert!(empty.configs.is_none());
}

#[test]
fn a_function_as_agent_is_refused() {
    let err = agent_value(VmStep::Complete(zapcode_core::Value::Int(3)));
    assert!(matches!(err, Ok(AgentValue::Integer(3))));
    let err = describe("function AGENT() { return 1; }").unwrap_err().message();
    assert!(err.contains("contains a function"), "{err}");
    let err = describe("const AGENT = missing();").unwrap_err().message();
    assert!(err.contains("ZapCode runtime error"), "{err}");
    let err = describe("const low = -4294967296 * 2147483648;\nconst AGENT = low % -1;")
        .unwrap_err()
        .message();
    assert!(err.contains("ZapCode task error: "), "{err}");
}

fn drive(node: &mut Node, run: NodeRun) -> Result<Vec<(String, AgentValue)>, AgentError> {
    let mut handler = run.handler;
    let mut result = start_zapcode(run.source, &run.inputs, run.externals, default_limits());
    let outcome = loop {
        match result {
            Err(e) => break Err(e),
            Ok(Progress::Done(outcome)) => break Ok(outcome),
            Ok(Progress::Waiting(call, paused)) => {
                let reply = match handler.call(&mut node.state, &call.name, &call.args) {
                    HostAction::Answer(answer) => answer,
                    HostAction::Log(_) => Ok(AgentValue::Unit),
                    HostAction::CallTool(_, args) => Ok(args),
                };
                result = resume_zapcode(paused, reply);
            }
        }
    };
    handler.deliver(outcome).map(|d| d.emits)
}

#[test]
fn a_node_lives_through_its_scripts() {
    let mut configs = ModuleConfigs::new();
    configs.set("script".to_string(), Value::string(MOVING_AVERAGE_NODE));
    configs.set("_window".to_string(), Value::integer(2));
    let mut spec = spec_with_configs(configs);
    let (mut node, warning) = Node::new(&mut spec);
    assert!(warning.is_none());
    assert_eq!(node.outputs, vec!["avg"]);
    assert_eq!(node.valid_script.as_deref(), Some(MOVING_AVERAGE_NODE));

    let configs = spec.configs.clone().unwrap();
    let mut avgs = vec![];
    for x in [1, 2, 3] {
        let run = node
            .begin(&configs, "value".to_string(), AgentValue::Integer(x))
            .unwrap();
        for (port, v) in drive(&mut node, run).unwrap() {
            assert_eq!(port, "avg");
            avgs.push(host_value(&v).as_f64().unwrap());
        }
    }
    assert_eq!(avgs, vec![1.0, 1.5, 2.5]);
    let run = node
        .begin(&configs, "reset".to_string(), AgentValue::Unit)
        .unwrap();
    assert!(drive(&mut node, run).unwrap().is_empty());
    assert!(matches!(
        node.state.get("samples"),
        Some(AgentValue::Array(items)) if items.is_empty()
    ));

    // Nothing to do while the script is the same.
    assert!(matches!(node.configs_changed(&mut spec), Ok(false)));

    // A broken script is reported and leaves everything as it was.
    let before = shown(&spec);
    let good = spec.configs.clone();
    spec.configs
        .as_mut()
        .unwrap()
        .set("script".to_string(), Value::string("const = ;"));
    let err = node.configs_changed(&mut spec).unwrap_err().message();
    assert!(err.contains("ZapCode compile error"), "{err}");
    assert_eq!(node.outputs, vec!["avg"]);
    assert_eq!(node.valid_script.as_deref(), Some(MOVING_AVERAGE_NODE));
    spec.configs = good;
    assert_eq!(shown(&spec), before);

    // A new script reshapes the node.
    spec.configs
        .as_mut()
        .unwrap()
        .set("script".to_string(), Value::string("const AGENT = { outputs: [\"o\"] };"));
    assert!(matches!(node.configs_changed(&mut spec), Ok(true)));
    assert_eq!(node.outputs, vec!["o"]);
    assert_eq!(spec.outputs.as_ref().unwrap(), &["o"]);
    assert!(!spec.configs.as_ref().unwrap().contains_key("window"));

    spec.configs = None;
    assert!(matches!(
        node.configs_changed(&mut spec),
        Err(AgentError::NoConfig)
    ));
}

#[test]
fn a_broken_script_does_not_kill_the_node() {
    let mut configs = ModuleConfigs::new();
    configs.set("script".to_string(), Value::string("const = ;"));
    configs.set("_window".to_string(), Value::integer(7));
    let mut spec = spec_with_configs(configs);
    let (node, warning) = Node::new(&mut spec);
    assert!(warning.unwrap().message().contains("ZapCode compile error"));
    assert_eq!(node.outputs, vec!["value"]);
    assert!(node.valid_script.is_none());
    let configs = spec.configs.as_ref().unwrap();
    assert!(matches!(
        config_value(configs, "window"),
        Some(AgentValue::Integer(7))
    ));
    assert!(config_value(configs, "_window").is_none());

    // Once the script is fixed, the stored value is found again.
    let mut node = node;
    spec.configs
        .as_mut()
        .unwrap()
        .set("script".to_string(), Value::string(MOVING_AVERAGE_SCRIPT));
    assert!(matches!(node.configs_changed(&mut spec), Ok(true)));
    assert!(matches!(
        config_value(spec.configs.as_ref().unwrap(), "window"),
        Some(AgentValue::Integer(7))
    ));
}

#[test]
fn an_empty_script_is_inert() {
    let mut configs = ModuleConfigs::new();
    configs.set("script".to_string(), Value::string(" \n"));
    let mut spec = spec_with_configs(configs);
    let (node, warning) = Node::new(&mut spec);
    assert!(warning.is_none());
    assert_eq!(node.outputs, vec!["value"]);
    assert!(node
        .begin(
            spec.configs.as_ref().unwrap(),
            "value".to_string(),
            AgentValue::Unit
        )
        .is_none());
}

#[test]
fn a_failed_run_delivers_nothing() {
    let mut configs = ModuleConfigs::new();
    let script = "const AGENT = {};\nfunction onInput(port, value) {\n  setState(\"n\", 1);\n  \
                  emit(\"value\", 1);\n  missing();\n}";
    configs.set("script".to_string(), Value::string(script));
    let mut spec = spec_with_configs(configs);
    let (mut node, _) = Node::new(&mut spec);
    let run = node
        .begin(
            spec.configs.as_ref().unwrap(),
            "value".to_string(),
            AgentValue::Unit,
        )
        .unwrap();
    let err = drive(&mut node, run).unwrap_err().message();
    assert!(err.contains("ZapCode runtime error"), "{err}");
    // What the script wrote to the state before it failed stays.
    assert!(matches!(node.state.get("n"), Some(AgentValue::Integer(1))));
}

#[test]
fn delivery_logs_the_console_without_trailing_space() {
    let handler = process_handler(&[], ModuleConfigs::new());
    let outcome = |console: &str| ZapOutcome {
        value: AgentValue::Unit,
        console: console.to_string(),
    };
    let delivery = handler.deliver(Ok(outcome("a\n b \n\n"))).unwrap();
    assert_eq!(delivery.log.as_deref(), Some("a\n b"));
    let handler = process_handler(&[], ModuleConfigs::new());
    let delivery = handler.deliver(Ok(outcome(""))).unwrap();
    assert!(delivery.log.is_none());
}

#[test]
fn every_declared_function_is_served() {
    let mut configs = ModuleConfigs::new();
    configs.set("script".to_string(), Value::string("1"));
    let node = Node {
        outputs: vec!["o".to_string()],
        valid_script: None,
        state: NodeState::new(),
    };
    let run = node
        .begin(&configs, "p".to_string(), AgentValue::Unit)
        .unwrap();
    assert_eq!(run.source, "1\nawait onInput(__port__, __value__)");
    assert_eq!(run.inputs[0].0, "__port__");
    assert!(matches!(&run.inputs[0].1, AgentValue::String(s) if s == "p"));
    assert_eq!(run.inputs[1].0, "__value__");
    let mut handler = run.handler;
    let mut state = NodeState::new();
    for name in &run.externals {
        for args in [vec![], vec![text("o")], vec![text("o"), AgentValue::Unit]] {
            let action = handler.call(&mut state, name, &args);
            if let HostAction::Answer(Err(e)) = action {
                assert!(!e.message().contains("unknown external function"));
            }
        }
    }
    // Only the two well-formed emits have emitted anything.
    assert_eq!(handler.emits.len(), 2);
}

use std::collections::BTreeMap;

use modular_agent_core::{ModuleConfigs, PhotonImage, Value};
use modular_agent_zapcode::bridge::{resume_zapcode, start_zapcode, Progress};
use modular_agent_zapcode::error::AgentError;
use modular_agent_zapcode::limits::Limits;
use modular_agent_zapcode::names::warn_if_invalid_name;
use modular_agent_zapcode::tool::{
    bind_args, limits_from_configs, refresh_registration, RegistryAction, ScriptTool, ToolModule,
    ToolUpdate,
};
use modular_agent_zapcode::toolcall::ToolCallHandler;
use modular_agent_zapcode::value::AgentValue;

fn default_limits() -> Limits {
    let limits = zapcode_core::ResourceLimits::default();
    Limits {
        memory_limit_bytes: limits.memory_limit_bytes,
        time_limit_ms: limits.time_limit_ms,
        max_stack_depth: limits.max_stack_depth,
        max_allocations: limits.max_allocations,
    }
}

fn make_tool(name: &str, script: &str) -> ScriptTool {
    ScriptTool {
        name: name.to_string(),
        description: "test tool for the zapcode tool suite".to_string(),
        parameters: None,
        script: script.to_string(),
        limits: default_limits(),
    }
}

fn object_args(pairs: &[(&str, i64)]) -> AgentValue {
    AgentValue::Object(
        pairs
            .iter()
            .map(|(k, v)| (k.to_string(), AgentValue::Integer(*v)))
            .collect(),
    )
}

/// A registry of tools, and the calls that it serves.
struct Registry {
    tools: BTreeMap<String, ScriptTool>,
}

impl Registry {
    fn new() -> Registry {
        Registry {
            tools: BTreeMap::new(),
        }
    }

    fn apply(&mut self, actions: Vec<RegistryAction>) {
        for action in actions {
            match action {
                RegistryAction::Register(tool) => {
                    self.tools.insert(tool.name.clone(), tool);
                }
                RegistryAction::Unregister(name) => {
                    self.tools.remove(&name);
                }
            }
        }
    }

    fn register(&mut self, tool: ScriptTool) {
        self.apply(vec![RegistryAction::Register(tool)]);
    }

    fn call(&self, name: &str, args: AgentValue) -> Result<AgentValue, AgentError> {
        let Some(tool) = self.tools.get(name) else {
            return Err(AgentError::InvalidValue(format!("Tool '{name}' not found")));
        };
        let run = tool.begin(&args);
        let mut progress = start_zapcode(run.source, &run.inputs, run.externals, tool.limits)?;
        loop {
            match progress {
                Progress::Done(outcome) => return Ok(outcome.value),
                Progress::Waiting(call, paused) => {
                    let reply = ToolCallHandler::call(&call.name, &call.args)
                        .and_then(|request| self.call(&request.tool, request.args));
                    progress = resume_zapcode(paused, reply)?;
                }
            }
        }
    }
}

#[test]
fn registered_tool_is_callable_until_unregistered() {
    let name = "zapcode-tool-test-roundtrip";
    let mut registry = Registry::new();
    registry.register(make_tool(name, "a + b"));

    let result = registry
        .call(name, object_args(&[("a", 1), ("b", 2)]))
        .unwrap();
    assert!(matches!(result, AgentValue::Integer(3)));

    let module = ToolModule {
        name: name.to_string(),
    };
    registry.apply(vec![module.stop()]);
    let err = registry.call(name, AgentValue::Unit).unwrap_err();
    assert!(err.message().contains("not found"));
}

#[test]
fn script_error_propagates_as_err() {
    let name = "zapcode-tool-test-error";
    let mut registry = Registry::new();
    registry.register(make_tool(name, "missingFn()"));

    let err = registry.call(name, AgentValue::Unit).unwrap_err().message();
    assert!(err.contains("ZapCode runtime error"), "{err}");
}

#[test]
fn whole_argument_object_is_bound_as_args() {
    let name = "zapcode-tool-test-args";
    let mut registry = Registry::new();
    registry.register(make_tool(name, "args.x * 2"));

    let result = registry.call(name, object_args(&[("x", 21)])).unwrap();
    assert!(matches!(result, AgentValue::Integer(42)));
}

#[test]
fn call_tool_external_composes_registered_tools() {
    let base = "zapcode-tool-test-compose-base";
    let outer = "zapcode-tool-test-compose-outer";
    let mut registry = Registry::new();
    registry.register(make_tool(base, "x + 1"));
    registry.register(make_tool(
        outer,
        "await callTool(\"zapcode-tool-test-compose-base\", {x: 41})",
    ));

    let result = registry.call(outer, AgentValue::Unit).unwrap();
    assert!(matches!(result, AgentValue::Integer(42)));
}

#[test]
fn rename_refresh_cleans_up_the_old_name() {
    let old = "zapcode-tool-test-rename-old";
    let new = "zapcode-tool-test-rename-new";
    let mut registry = Registry::new();
    registry.register(make_tool(old, "1"));

    registry.apply(refresh_registration(old, make_tool(new, "2")));
    assert!(!registry.tools.contains_key(old));
    assert!(registry.tools.contains_key(new));

    let result = registry.call(new, AgentValue::Unit).unwrap();
    assert!(matches!(result, AgentValue::Integer(2)));
}

#[test]
fn an_unchanged_name_is_replaced_in_place() {
    let actions = refresh_registration("t", make_tool("t", "2"));
    assert_eq!(actions.len(), 1);
    assert!(matches!(&actions[0], RegistryAction::Register(tool) if tool.name == "t"));

    let actions = refresh_registration("old", make_tool("t", "2"));
    assert_eq!(actions.len(), 2);
    assert!(matches!(&actions[0], RegistryAction::Register(tool) if tool.name == "t"));
    assert!(matches!(&actions[1], RegistryAction::Unregister(name) if name == "old"));
}

#[test]
fn arguments_are_bound_by_name() {
    let names = |v: &AgentValue| -> Vec<String> {
        bind_args(v).into_iter().map(|(k, _)| k).collect()
    };
    assert_eq!(names(&AgentValue::Unit), vec!["args"]);
    assert_eq!(
        names(&object_args(&[("b", 1), ("not-valid", 2), ("a", 3), ("", 4)])),
        vec!["a", "b", "args"]
    );

    // An argument called `args` wins over the whole.
    let bound = bind_args(&object_args(&[("args", 5)]));
    assert_eq!(bound.len(), 1);
    assert!(matches!(bound[0].1, AgentValue::Integer(5)));

    let bound = bind_args(&AgentValue::Integer(9));
    assert!(matches!(bound[0].1, AgentValue::Integer(9)));
}

#[test]
fn call_tool_takes_a_name_and_optional_arguments() {
    let name = |s: &str| AgentValue::String(s.to_string());
    let request = ToolCallHandler::call("callTool", &vec![name("t"), AgentValue::Integer(1)]);
    let request = request.unwrap();
    assert_eq!(request.tool, "t");
    assert!(matches!(request.args, AgentValue::Integer(1)));
    let request = ToolCallHandler::call("callTool", &vec![name("t")]).unwrap();
    assert!(matches!(request.args, AgentValue::Unit));

    for args in [vec![], vec![AgentValue::Integer(1)]] {
        assert_eq!(
            ToolCallHandler::call("callTool", &args).unwrap_err().message(),
            "Invalid callTool: first argument must be a tool name string value"
        );
    }
    assert_eq!(
        ToolCallHandler::call("other", &vec![name("t")]).unwrap_err().message(),
        "Invalid ZapCode runtime error: external function `other` is not available here value"
    );
    assert_eq!(ToolCallHandler::externals(), vec!["callTool"]);
}

#[test]
fn invalid_names_are_warned_about() {
    assert!(warn_if_invalid_name("id", "web-search_2").is_none());
    assert_eq!(
        warn_if_invalid_name("n1", "has \"space\"").as_deref(),
        Some(
            "ZapCodeToolAgent n1 has invalid tool name \"has \\\"space\\\"\"; \
             tool names must match ^[a-zA-Z0-9_-]{1,64}$"
        )
    );
}

#[test]
fn tool_limits_fall_back_to_defaults() {
    let limits = |time: i64, memory: i64| {
        let mut configs = ModuleConfigs::new();
        configs.set("time_limit_ms".to_string(), Value::integer(time));
        configs.set("memory_limit_mb".to_string(), Value::integer(memory));
        limits_from_configs(&configs)
    };
    let l = limits(10, 1);
    assert_eq!(l.time_limit_ms, 10);
    assert_eq!(l.memory_limit_bytes, 1024 * 1024);
    assert_eq!(l.max_stack_depth, 512);
    assert_eq!(l.max_allocations, usize::MAX);
    let l = limits(0, -5);
    assert_eq!(l.time_limit_ms, 5000);
    assert_eq!(l.memory_limit_bytes, 32 * 1024 * 1024);
    assert_eq!(limits(1, i64::MAX).memory_limit_bytes, usize::MAX);
    let l = limits_from_configs(&ModuleConfigs::new());
    assert_eq!(l.time_limit_ms, 5000);
    assert_eq!(l.memory_limit_bytes, 32 * 1024 * 1024);
}

fn tool_configs(name: &str) -> ModuleConfigs {
    let mut parameters = im::HashMap::new();
    parameters.insert("type".to_string(), Value::string("object"));
    let mut configs = ModuleConfigs::new();
    configs.set("name".to_string(), Value::string(name));
    configs.set("description".to_string(), Value::string("Adds two numbers"));
    configs.set("parameters".to_string(), Value::Object(parameters));
    configs.set("script".to_string(), Value::string("a + b"));
    configs
}

#[test]
fn a_tool_module_keeps_its_registration_fresh() {
    let mut registry = Registry::new();
    let configs = tool_configs("adder");
    let mut module = ToolModule::new(Some(&configs), "def");
    assert_eq!(module.name, "adder");

    let ToolUpdate { warning, actions } = module.start("id", &configs).unwrap();
    assert!(warning.is_none());
    registry.apply(actions);
    let tool = &registry.tools["adder"];
    assert_eq!(tool.description, "Adds two numbers");
    assert_eq!(tool.script, "a + b");
    assert_eq!(
        tool.parameters.as_ref().unwrap().to_string(),
        "{\"type\":\"object\"}"
    );

    // While the module runs, a new name moves the registration.
    let renamed = tool_configs("plus one");
    let update = module
        .configs_changed("id", &renamed, "def", true)
        .unwrap()
        .unwrap();
    assert!(update.warning.unwrap().contains("\"plus one\""));
    registry.apply(update.actions);
    assert_eq!(
        registry.tools.keys().cloned().collect::<Vec<_>>(),
        vec!["plus one"]
    );

    // Otherwise only the name changes.
    assert!(module
        .configs_changed("id", &tool_configs(""), "def", false)
        .unwrap()
        .is_none());
    assert_eq!(module.name, "def");
}

#[test]
fn tool_names_default_to_the_definition() {
    assert_eq!(ToolModule::new(None, "def").name, "def");
    assert_eq!(ToolModule::new(Some(&ModuleConfigs::new()), "def").name, "def");
    let tool = ToolModule::new(None, "def").build_tool(&ModuleConfigs::new()).unwrap();
    assert_eq!(tool.name, "def");
    assert_eq!(tool.description, "");
    assert!(tool.parameters.is_none());
    assert_eq!(tool.script, "");
}

#[test]
fn parameters_with_a_broken_image_are_refused() {
    let mut configs = tool_configs("adder");
    let image = |pixels: Vec<u8>| Value::Image(std::sync::Arc::new(PhotonImage::new(pixels, 1, 2)));
    configs.set("parameters".to_string(), image(vec![0; 7]));
    let expected = "Configuration error: parameters hold an image that cannot be encoded";
    let mut module = ToolModule::new(Some(&configs), "def");
    assert_eq!(module.build_tool(&configs).unwrap_err().message(), expected);
    assert_eq!(module.start("id", &configs).unwrap_err().message(), expected);
    assert_eq!(
        module
            .configs_changed("id", &configs, "def", true)
            .unwrap_err()
            .message(),
        expected
    );
    assert!(module
        .configs_changed("id", &configs, "def", false)
        .unwrap()
        .is_none());

    configs.set("parameters".to_string(), image(vec![0; 8]));
    let tool = module.build_tool(&configs).unwrap();
    assert!(tool
        .parameters
        .unwrap()
        .as_str()
        .unwrap()
        .starts_with("data:image/png;base64,"));
}

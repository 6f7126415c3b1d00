use modular_agent_core::{Message, ModuleConfigs, Value};
use modular_agent_zapcode::bridge::{resume_zapcode, start_zapcode, Progress, ZapOutcome};
use modular_agent_zapcode::configs::{config_string, config_value, set_config};
use modular_agent_zapcode::error::AgentError;
use modular_agent_zapcode::evaluate::{begin_expr, begin_script, finish, Evaluated};
use modular_agent_zapcode::exchange::read_value;
use modular_agent_zapcode::limits::{checked_limits, limits_from_configs, wrapping_limits};
use modular_agent_zapcode::runner::{
    begin_code, outputs_of, select_tools, take_code, tool_externals, ToolDispatcher,
};
use modular_agent_zapcode::text::{
    is_before, is_blank, is_white_space, join, without_trailing_newlines, without_trailing_space,
};
use modular_agent_zapcode::toolcall::ToolCallHandler;
use modular_agent_zapcode::value::AgentValue;

fn text(s: &str) -> AgentValue {
    AgentValue::String(s.to_string())
}

fn strings(list: &[&str]) -> Vec<String> {
    list.iter().map(|s| s.to_string()).collect()
}

#[test]
fn tool_externals_always_declares_call_tool() {
    let (externals, allowed) = tool_externals("").unwrap();
    assert_eq!(externals, vec!["callTool".to_string()]);
    assert!(allowed.is_empty());
}

#[test]
fn tool_externals_rejects_bad_regex() {
    assert!(tool_externals("[unclosed").is_err());
}

#[test]
fn bad_patterns_are_a_configuration_error() {
    let err = tool_externals("[unclosed").unwrap_err().message();
    assert!(
        err.starts_with("Configuration error: Invalid regex patterns in tools config: "),
        "{err}"
    );
    // No tool is registered here, so good patterns select none.
    let (externals, allowed) = tool_externals("^no-such-tool$\n").unwrap();
    assert_eq!(externals, vec!["callTool"]);
    assert!(allowed.is_empty());
}

#[test]
fn selected_tools_become_functions_where_they_can() {
    let tools = strings(&[
        "webSearch",
        "web-search",
        "delete",
        "callTool",
        "webSearch",
        "_x",
    ]);
    let (externals, allowed) = select_tools(&tools);
    assert_eq!(externals, vec!["callTool", "webSearch", "_x"]);
    assert_eq!(
        allowed,
        vec!["webSearch", "web-search", "delete", "callTool", "_x"]
    );
}

#[test]
fn only_allowed_tools_are_dispatched() {
    let dispatcher = ToolDispatcher {
        allowed: strings(&["webSearch", "web-search"]),
    };
    let args = || AgentValue::Object(vec![("q".to_string(), AgentValue::Integer(1))]);

    let direct = dispatcher.call("webSearch", &vec![args()]).unwrap();
    let through = dispatcher
        .call("callTool", &vec![text("webSearch"), args()])
        .unwrap();
    assert_eq!(format!("{direct:?}"), format!("{through:?}"));
    assert_eq!(direct.tool, "webSearch");
    assert!(matches!(direct.args, AgentValue::Object(ref m) if m.len() == 1));

    let request = dispatcher.call("callTool", &vec![text("web-search")]).unwrap();
    assert!(matches!(request.args, AgentValue::Object(m) if m.is_empty()));
    let request = dispatcher.call("webSearch", &vec![]).unwrap();
    assert!(matches!(request.args, AgentValue::Object(m) if m.is_empty()));

    for (name, args) in [
        ("other", vec![]),
        ("callTool", vec![text("other"), AgentValue::Unit]),
    ] {
        assert_eq!(
            dispatcher.call(name, &args).unwrap_err().message(),
            "Invalid tool `other` does not match the tools config value"
        );
    }
    assert_eq!(
        dispatcher
            .call("webSearch", &vec![AgentValue::Unit, AgentValue::Unit])
            .unwrap_err()
            .message(),
        "Invalid `webSearch` takes a single arguments object value"
    );
    assert_eq!(
        dispatcher
            .call(
                "callTool",
                &vec![text("webSearch"), AgentValue::Unit, AgentValue::Unit]
            )
            .unwrap_err()
            .message(),
        "Invalid callTool takes a tool name and one arguments object value"
    );
    for args in [vec![], vec![AgentValue::Integer(1)]] {
        assert_eq!(
            dispatcher.call("callTool", &args).unwrap_err().message(),
            "Invalid callTool expects a tool name string as its first argument value"
        );
    }
}

#[test]
fn generated_code_is_unwrapped_and_prepared() {
    let configs = ModuleConfigs::new();
    let fenced = "```ts\n1 + 2\n```";
    let run = begin_code(&configs, &text(fenced)).unwrap().unwrap();
    assert_eq!(run.source, "1 + 2\n");
    assert_eq!(run.externals, vec!["callTool"]);
    assert!(run.dispatcher.allowed.is_empty());

    let message = read_value(Value::message(Message::user(fenced.into())));
    let run = begin_code(&configs, &message).unwrap().unwrap();
    assert_eq!(run.source, "1 + 2\n");

    let mut plain = ModuleConfigs::new();
    plain.set("strip_fences".to_string(), Value::boolean(false));
    let run = begin_code(&plain, &text(fenced)).unwrap().unwrap();
    assert_eq!(run.source, fenced);

    assert!(begin_code(&configs, &text("```\n \n```")).unwrap().is_none());
    assert!(begin_code(&configs, &text(" \n")).unwrap().is_none());
    assert_eq!(
        begin_code(&configs, &AgentValue::Integer(1)).unwrap_err().message(),
        "Invalid script input must be a string or a message value"
    );

    let mut flawed = ModuleConfigs::new();
    flawed.set("tools".to_string(), Value::string("("));
    assert!(matches!(
        begin_code(&flawed, &text("1")),
        Err(AgentError::InvalidConfig(_))
    ));
    // Blank code does nothing, whatever the patterns are.
    assert!(begin_code(&flawed, &text("")).unwrap().is_none());
    assert_eq!(take_code("```\nx\n```", true), "x\n");
    assert_eq!(take_code("```\nx\n```", false), "```\nx\n```");
}

#[test]
fn a_run_of_code_sends_console_output_first() {
    let outputs = outputs_of(ZapOutcome {
        value: AgentValue::Integer(1),
        console: "hello\n".to_string(),
    });
    assert_eq!(outputs.len(), 2);
    assert_eq!(outputs[0].0, "console");
    assert!(matches!(&outputs[0].1, AgentValue::String(s) if s == "hello\n"));
    assert_eq!(outputs[1].0, "value");
    assert!(matches!(outputs[1].1, AgentValue::Integer(1)));

    let outputs = outputs_of(ZapOutcome {
        value: AgentValue::Unit,
        console: String::new(),
    });
    assert_eq!(outputs.len(), 1);
    assert_eq!(outputs[0].0, "value");
}

fn evaluate(expr: &str, value: AgentValue) -> Result<AgentValue, AgentError> {
    let mut configs = ModuleConfigs::new();
    configs.set("expr".to_string(), Value::string(expr));
    let evaluation = begin_expr(&configs, value)?.unwrap();
    let mut progress = start_zapcode(
        evaluation.source,
        &evaluation.inputs,
        evaluation.externals,
        limits_from_configs(&configs),
    )?;
    loop {
        match progress {
            Progress::Done(outcome) => return Ok(outcome.value),
            Progress::Waiting(call, paused) => {
                let request = ToolCallHandler::call(&call.name, &call.args);
                progress = resume_zapcode(paused, request.map(|r| r.args))?;
            }
        }
    }
}

#[test]
fn expressions_are_evaluated_over_values() {
    assert!(matches!(
        evaluate("value * 2", AgentValue::Integer(21)),
        Ok(AgentValue::Integer(42))
    ));
    let words = ["hi", "hello", "hey", "world"].map(text).into_iter().collect();
    let AgentValue::Array(items) = evaluate(
        "value.filter(x => x.length > 3).map(x => x.toUpperCase())",
        AgentValue::Array(words),
    )
    .unwrap() else {
        panic!("expected an array");
    };
    assert_eq!(items.len(), 2);
    assert!(matches!(&items[0], AgentValue::String(s) if s == "HELLO"));
    assert!(matches!(&items[1], AgentValue::String(s) if s == "WORLD"));
    assert!(matches!(
        evaluate("const r = await callTool(\"web-search\", 5); r + 1", AgentValue::Unit),
        Ok(AgentValue::Integer(6))
    ));
    assert!(evaluate("await callTool(1)", AgentValue::Unit)
        .unwrap_err()
        .message()
        .contains("first argument must be a tool name string"));
}

#[test]
fn evaluation_follows_the_configuration() {
    let mut configs = ModuleConfigs::new();
    assert!(matches!(
        begin_expr(&configs, AgentValue::Unit),
        Err(AgentError::UnknownConfig(key)) if key == "expr"
    ));
    assert!(matches!(
        begin_script(&configs, AgentValue::Unit),
        Err(AgentError::UnknownConfig(key)) if key == "script"
    ));
    configs.set("expr".to_string(), Value::string(""));
    assert!(begin_expr(&configs, AgentValue::Unit).unwrap().is_none());
    configs.set("script".to_string(), Value::string(" "));
    configs.set("skip_unit".to_string(), Value::boolean(true));
    let evaluation = begin_script(&configs, AgentValue::Integer(3)).unwrap().unwrap();
    assert_eq!(evaluation.source, " ");
    assert!(evaluation.skip_unit);
    assert_eq!(evaluation.externals, vec!["callTool"]);
    assert_eq!(evaluation.inputs.len(), 1);
    assert_eq!(evaluation.inputs[0].0, "value");
    assert!(matches!(evaluation.inputs[0].1, AgentValue::Integer(3)));
}

#[test]
fn unit_results_can_be_held_back() {
    let end = |skip: bool, value: AgentValue, console: &str| {
        finish(
            skip,
            ZapOutcome {
                value,
                console: console.to_string(),
            },
        )
    };
    let Evaluated { log, output } = end(true, AgentValue::Unit, "");
    assert!(log.is_none());
    assert!(output.is_none());
    let Evaluated { log, output } = end(false, AgentValue::Unit, "a \n\n");
    assert_eq!(log.as_deref(), Some("a "));
    assert!(matches!(output, Some(AgentValue::Unit)));
    let Evaluated { output, .. } = end(true, AgentValue::Integer(1), "");
    assert!(matches!(output, Some(AgentValue::Integer(1))));
}

#[test]
fn limits_are_at_least_one_and_fit() {
    let with = |time: Value, memory: Value| {
        let mut configs = ModuleConfigs::new();
        configs.set("time_limit_ms".to_string(), time);
        configs.set("memory_limit_mb".to_string(), memory);
        checked_limits(&configs)
    };
    let limits = with(Value::integer(-3), Value::integer(0)).unwrap();
    assert_eq!(limits.time_limit_ms, 1);
    assert_eq!(limits.memory_limit_bytes, 1024 * 1024);
    assert_eq!(limits.max_stack_depth, 512);
    assert_eq!(limits.max_allocations, usize::MAX);
    let limits = with(Value::number(12.9), Value::string("x")).unwrap();
    assert_eq!(limits.time_limit_ms, 12);
    assert_eq!(limits.memory_limit_bytes, 32 * 1024 * 1024);
    assert!(with(Value::unit(), Value::integer(i64::MAX)).is_none());
    let limits = checked_limits(&ModuleConfigs::new()).unwrap();
    assert_eq!(limits.time_limit_ms, 5000);

    let mut configs = ModuleConfigs::new();
    configs.set("memory_limit_mb".to_string(), Value::integer((1 << 44) + 3));
    assert!(checked_limits(&configs).is_none());
    let limits = wrapping_limits(&configs);
    assert_eq!(limits.memory_limit_bytes, 3 * 1024 * 1024);
    assert_eq!(limits.time_limit_ms, 5000);
    assert_eq!(limits.max_stack_depth, 512);
    assert_eq!(limits.max_allocations, usize::MAX);
}

#[test]
fn configurations_are_read_and_written() {
    let mut configs = ModuleConfigs::new();
    set_config(&mut configs, "a", &text("x"));
    assert!(matches!(config_value(&configs, "a"), Some(AgentValue::String(s)) if s == "x"));
    assert!(config_value(&configs, "b").is_none());
    assert_eq!(config_string(&configs, "a").unwrap(), "x");
    set_config(&mut configs, "a", &AgentValue::Integer(1));
    assert_eq!(
        config_string(&configs, "a").unwrap_err().message(),
        "Unknown configuration: a"
    );
}

#[test]
fn whitespace_is_that_of_unicode() {
    for c in '\0'..=char::MAX {
        assert_eq!(is_white_space(c), c.is_whitespace(), "{c:?}");
    }
}

#[test]
fn text_helpers_agree_with_std() {
    let samples = ["", " ", "a", "a ", " a\u{a0}", "é", "z", "zz", "\n\nx\n \n\n", "\u{10000}"];
    for a in samples {
        assert_eq!(is_blank(a), a.trim().is_empty());
        assert_eq!(without_trailing_space(a), a.trim_end());
        assert_eq!(without_trailing_newlines(a), a.trim_end_matches('\n'));
        for b in samples {
            assert_eq!(is_before(a, b), a < b);
        }
    }
    assert_eq!(join(&strings(&["a", "b", "c"]), ", "), "a, b, c");
    assert_eq!(join(&strings(&[]), ", "), "");
}

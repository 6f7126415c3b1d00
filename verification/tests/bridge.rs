use modular_agent_core::{Message, PhotonImage, Value};
use modular_agent_zapcode::bridge::{
    bridge_closed, not_available, resume_zapcode, settle, start_zapcode, Progress, ZapOutcome,
};
use modular_agent_zapcode::error::AgentError;
use modular_agent_zapcode::exchange::read_value;
use modular_agent_zapcode::limits::Limits;
use modular_agent_zapcode::value::AgentValue;
use modular_agent_zapcode::vm::{
    report_failure, report_stop, task_failed, FailureKind, VmFailure, VmStep,
};

fn default_limits() -> Limits {
    let limits = zapcode_core::ResourceLimits::default();
    Limits {
        memory_limit_bytes: limits.memory_limit_bytes,
        time_limit_ms: limits.time_limit_ms,
        max_stack_depth: limits.max_stack_depth,
        max_allocations: limits.max_allocations,
    }
}

fn run(
    source: &str,
    inputs: Vec<(String, AgentValue)>,
    externals: Vec<String>,
    limits: Limits,
    handler: &mut dyn FnMut(String, Vec<AgentValue>) -> Result<AgentValue, AgentError>,
) -> Result<ZapOutcome, AgentError> {
    let mut progress = start_zapcode(source.to_string(), &inputs, externals, limits)?;
    loop {
        match progress {
            Progress::Done(outcome) => return Ok(outcome),
            Progress::Waiting(call, paused) => {
                progress = resume_zapcode(paused, handler(call.name, call.args))?;
            }
        }
    }
}

fn run_simple(source: &str) -> Result<ZapOutcome, AgentError> {
    run(source, vec![], vec![], default_limits(), &mut |name, _| {
        Err(not_available(&name))
    })
}

#[test]
fn addition_returns_last_expression() {
    let outcome = run_simple("1 + 2").unwrap();
    assert!(matches!(outcome.value, AgentValue::Integer(3)));
}

#[test]
fn suspend_resume_calls_handler_in_order() {
    let mut calls: Vec<(String, Vec<AgentValue>)> = vec![];
    let mut replies = vec![AgentValue::Integer(10), AgentValue::Integer(100)];
    let outcome = run(
        "const a = await getNum(1);\nconst b = await getNum(a + 1);\na + b",
        vec![],
        vec!["getNum".to_string()],
        default_limits(),
        &mut |name, args| {
            calls.push((name, args));
            Ok(replies.remove(0))
        },
    )
    .unwrap();

    assert!(matches!(outcome.value, AgentValue::Integer(110)));
    assert_eq!(calls.len(), 2);
    assert_eq!(calls[0].0, "getNum");
    assert!(matches!(calls[0].1[..], [AgentValue::Integer(1)]));
    assert_eq!(calls[1].0, "getNum");
    assert!(matches!(calls[1].1[..], [AgentValue::Integer(11)]));
}

#[test]
fn handler_error_aborts_the_run() {
    let err = run(
        "await boom(); 42",
        vec![],
        vec!["boom".to_string()],
        default_limits(),
        &mut |_, _| Err(AgentError::InvalidValue("tool exploded".into())),
    )
    .unwrap_err();
    assert!(err.message().contains("tool exploded"));
}

#[test]
fn undeclared_external_function_errors() {
    let err = run_simple("missingFunc()").unwrap_err();
    assert!(err.message().contains("ZapCode runtime error"));
}

#[test]
fn infinite_loop_hits_time_limit() {
    let limits = Limits {
        time_limit_ms: 50,
        max_allocations: usize::MAX,
        ..default_limits()
    };
    let err = run("while (true) {}", vec![], vec![], limits, &mut |name, _| {
        Err(not_available(&name))
    })
    .unwrap_err();
    assert!(err.message().contains("time limit exceeded"), "{}", err.message());
}

#[test]
fn stdout_is_captured() {
    let outcome = run_simple("console.log(\"hello\");\n1").unwrap();
    assert_eq!(outcome.console, "hello\n");
    assert!(matches!(outcome.value, AgentValue::Integer(1)));
}

#[test]
fn inputs_are_bound_as_globals() {
    let outcome = run(
        "value * 2",
        vec![("value".to_string(), AgentValue::Integer(21))],
        vec![],
        default_limits(),
        &mut |name, _| Err(not_available(&name)),
    )
    .unwrap();
    assert!(matches!(outcome.value, AgentValue::Integer(42)));
}

#[test]
fn compile_error_is_labeled() {
    let err = run_simple("const = ;").unwrap_err();
    assert!(err.message().contains("ZapCode compile error"));
}

#[test]
fn snapshot_and_value_are_send() {
    fn assert_send<T: Send>() {}
    assert_send::<zapcode_core::ZapcodeSnapshot>();
    assert_send::<zapcode_core::Value>();
}

#[test]
fn console_output_after_a_call_is_lost() {
    let outcome = run(
        "console.log(\"before\"); await ping(); console.log(\"after\"); 1",
        vec![],
        vec!["ping".to_string()],
        default_limits(),
        &mut |_, _| Ok(AgentValue::Unit),
    )
    .unwrap();
    assert_eq!(outcome.console, "before\n");
}

#[test]
fn replies_and_inputs_keep_their_structure() {
    let value = AgentValue::Object(vec![
        ("n".to_string(), AgentValue::Integer(4)),
        (
            "items".to_string(),
            AgentValue::Array(vec![AgentValue::String("x".to_string()), AgentValue::Unit]),
        ),
    ]);
    let outcome = run(
        "const r = await ask(value.items[0]); [r.n, value.items[1] === null, r.f]",
        vec![("value".to_string(), value)],
        vec!["ask".to_string()],
        default_limits(),
        &mut |name, args| {
            assert_eq!(name, "ask");
            assert!(matches!(&args[0], AgentValue::String(s) if s == "x"));
            Ok(AgentValue::Object(vec![
                ("n".to_string(), AgentValue::Integer(5)),
                ("f".to_string(), AgentValue::Boolean(false)),
            ]))
        },
    )
    .unwrap();
    let AgentValue::Array(items) = outcome.value else {
        panic!("expected an array");
    };
    assert!(matches!(
        items[..],
        [
            AgentValue::Integer(5),
            AgentValue::Boolean(true),
            AgentValue::Boolean(false)
        ]
    ));
}

#[test]
fn floats_pass_both_ways() {
    let half = modular_agent_zapcode::host::Number::new(&modular_agent_core::Value::number(0.5));
    let outcome = run(
        "x + 0.25",
        vec![("x".to_string(), AgentValue::Number(half))],
        vec![],
        default_limits(),
        &mut |name, _| Err(not_available(&name)),
    )
    .unwrap();
    let AgentValue::Number(n) = outcome.value else {
        panic!("expected a number");
    };
    assert_eq!(n.to_host().as_f64(), Some(0.75));
}

#[test]
fn a_callable_result_or_argument_fails_the_run() {
    let err = run_simple("function f() { return 1; }\nf").unwrap_err();
    assert!(err.message().contains("contains a function"), "{}", err.message());

    let err = run(
        "function f() { return 1; }\nawait send(1, f)",
        vec![],
        vec!["send".to_string()],
        default_limits(),
        &mut |_, _| Ok(AgentValue::Unit),
    )
    .unwrap_err();
    assert!(err.message().contains("contains a function"), "{}", err.message());
}

#[test]
fn what_the_interpreter_stops_with_is_settled() {
    let done = settle(
        VmStep::Complete(zapcode_core::Value::Undefined),
        "log".to_string(),
    )
    .unwrap();
    let Progress::Done(outcome) = done else {
        panic!("expected a finished run");
    };
    assert!(matches!(outcome.value, AgentValue::Unit));
    assert_eq!(outcome.console, "log");
}

#[test]
fn failures_are_labeled_by_kind() {
    for kind in [
        FailureKind::Parse,
        FailureKind::UnsupportedSyntax,
        FailureKind::Compile,
    ] {
        assert_eq!(
            report_failure(kind, "x").message(),
            "Invalid ZapCode compile error: x value"
        );
    }
    for kind in [
        FailureKind::Runtime,
        FailureKind::Type,
        FailureKind::Reference,
        FailureKind::UnknownExternalFunction,
        FailureKind::MemoryLimit,
        FailureKind::TimeLimit,
        FailureKind::StackOverflow,
        FailureKind::AllocationLimit,
        FailureKind::Snapshot,
        FailureKind::Sandbox,
    ] {
        assert_eq!(
            report_failure(kind, "x").message(),
            "Invalid ZapCode runtime error: x value"
        );
    }
    assert_eq!(
        run_simple("throw new Error(\"bad\")").unwrap_err().message().find("Invalid ZapCode runtime error: "),
        Some(0)
    );
}

#[test]
fn errors_have_texts() {
    assert_eq!(
        bridge_closed().message(),
        "IO error: ZapCode host bridge closed"
    );
    assert_eq!(
        task_failed("panicked").message(),
        "IO error: ZapCode task error: panicked"
    );
    assert_eq!(
        not_available("f").message(),
        "Invalid ZapCode runtime error: external function `f` is not available here value"
    );
    assert_eq!(
        AgentError::InvalidConfig("c".into()).message(),
        "Configuration error: c"
    );
    assert_eq!(
        AgentError::UnknownConfig("k".into()).message(),
        "Unknown configuration: k"
    );
    assert_eq!(AgentError::NoConfig.message(), "No configuration available");
    let host = modular_agent_core::Error::Other("Tool 'x' not found".into());
    let text = host.to_string();
    assert_eq!(AgentError::Host(host).message(), text);
    for (ours, theirs) in [
        (
            AgentError::InvalidValue("v".into()),
            modular_agent_core::Error::InvalidValue("v".into()),
        ),
        (
            AgentError::InvalidConfig("v".into()),
            modular_agent_core::Error::InvalidConfig("v".into()),
        ),
        (
            AgentError::UnknownConfig("v".into()),
            modular_agent_core::Error::UnknownConfig("v".into()),
        ),
        (AgentError::NoConfig, modular_agent_core::Error::NoConfig),
        (
            AgentError::IoError("v".into()),
            modular_agent_core::Error::IoError("v".into()),
        ),
    ] {
        assert_eq!(ours.message(), theirs.to_string());
    }
}

#[test]
fn a_panic_of_the_interpreter_is_a_failed_task() {
    let inputs = || vec![("value".to_string(), AgentValue::Integer(i64::MIN))];
    let fails = |err: AgentError| {
        let text = err.message();
        assert!(matches!(err, AgentError::IoError(_)), "{text}");
        assert!(text.starts_with("IO error: ZapCode task error: "), "{text}");
        assert!(text.contains("panicked"), "{text}");
    };
    fails(
        run("value % -1", inputs(), vec![], default_limits(), &mut |name, _| {
            Err(not_available(&name))
        })
        .unwrap_err(),
    );
    fails(
        run(
            "const divisor = await ask();\nvalue % divisor",
            inputs(),
            vec!["ask".to_string()],
            default_limits(),
            &mut |_, _| Ok(AgentValue::Integer(-1)),
        )
        .unwrap_err(),
    );
}

#[test]
fn scripts_run_inside_an_async_runtime() {
    let runtime = tokio::runtime::Builder::new_current_thread().build().unwrap();
    let outcome = runtime.block_on(async {
        run(
            "const a = await ask();\na + 1",
            vec![],
            vec!["ask".to_string()],
            default_limits(),
            &mut |_, _| Ok(AgentValue::Integer(1)),
        )
    });
    assert!(matches!(outcome.unwrap().value, AgentValue::Integer(2)));
}

#[test]
fn a_stopped_interpreter_is_reported() {
    assert_eq!(
        report_stop(VmFailure::Crashed("gone".to_string())).message(),
        "IO error: ZapCode task error: gone"
    );
    let e = zapcode_core::ZapcodeError::TimeLimitExceeded;
    let text = format!("Invalid ZapCode runtime error: {e} value");
    assert_eq!(report_stop(VmFailure::Error(e)).message(), text);
}

fn message_with_image(pixels: Vec<u8>, width: u32, height: u32) -> AgentValue {
    let image = PhotonImage::new(pixels, width, height);
    read_value(Value::message(
        Message::user("hi".to_string()).with_image(std::sync::Arc::new(image)),
    ))
}

#[test]
fn a_message_with_a_broken_image_is_a_failed_task() {
    let expected = "IO error: ZapCode task error: a message holds an image that cannot be encoded";
    let err = run(
        "1",
        vec![(
            "value".to_string(),
            AgentValue::Array(vec![message_with_image(vec![0; 4], 2, 2)]),
        )],
        vec![],
        default_limits(),
        &mut |name, _| Err(not_available(&name)),
    )
    .unwrap_err();
    assert_eq!(err.message(), expected);
    let err = run(
        "await ask(); 1",
        vec![],
        vec!["ask".to_string()],
        default_limits(),
        &mut |_, _| Ok(message_with_image(vec![], 0, 0)),
    )
    .unwrap_err();
    assert_eq!(err.message(), expected);

    let outcome = run(
        "value.image.startsWith(\"data:image/png;base64,\")",
        vec![("value".to_string(), message_with_image(vec![0; 4], 1, 1))],
        vec![],
        default_limits(),
        &mut |name, _| Err(not_available(&name)),
    )
    .unwrap();
    assert!(matches!(outcome.value, AgentValue::Boolean(true)));
}

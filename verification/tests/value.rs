use modular_agent_core::{ContentBlock, Message, MessageContent, PhotonImage, Value};
use modular_agent_zapcode::exchange::{host_value, json_string, read_value};
use modular_agent_zapcode::host::Number;
use modular_agent_zapcode::pictures::{is_host_writable, is_script_ready, is_writable};
use modular_agent_zapcode::value::AgentValue;
use modular_agent_zapcode::zap::{
    checked_value_to_zapcode, json_value_to_zapcode, value_to_zapcode, zapcode_to_value, ZapValue,
};

fn number(x: f64) -> Number {
    Number::new(&Value::number(x))
}

fn float(n: &Number) -> f64 {
    n.to_host().as_f64().unwrap()
}

fn get<'a>(entries: &'a [(String, ZapValue)], key: &str) -> Option<&'a ZapValue> {
    entries.iter().find(|(k, _)| k == key).map(|(_, v)| v)
}

fn is_text(v: Option<&ZapValue>, text: &str) -> bool {
    matches!(v, Some(ZapValue::String(s)) if s == text)
}

fn message(m: Message) -> AgentValue {
    read_value(Value::message(m))
}

#[test]
fn integer_and_number_convert_both_ways() {
    assert!(matches!(
        value_to_zapcode(&AgentValue::Integer(42)),
        ZapValue::Int(42)
    ));
    assert!(matches!(
        value_to_zapcode(&AgentValue::Number(number(2.5))),
        ZapValue::Float(f) if (float(&f) - 2.5).abs() < 1e-9
    ));
    assert!(matches!(
        zapcode_to_value(ZapValue::Int(42)),
        Ok(AgentValue::Integer(42))
    ));
    assert!(matches!(
        zapcode_to_value(ZapValue::Float(number(2.5))),
        Ok(AgentValue::Number(f)) if (float(&f) - 2.5).abs() < 1e-9
    ));
}

#[test]
fn undefined_and_null_become_unit() {
    assert!(matches!(
        zapcode_to_value(ZapValue::Undefined),
        Ok(AgentValue::Unit)
    ));
    assert!(matches!(
        zapcode_to_value(ZapValue::Null),
        Ok(AgentValue::Unit)
    ));
}

#[test]
fn object_keys_are_sorted() {
    let mut map = im::HashMap::new();
    map.insert("zebra".to_string(), Value::Integer(1));
    map.insert("apple".to_string(), Value::Integer(2));
    map.insert("mango".to_string(), Value::Integer(3));
    let ZapValue::Object(obj) = value_to_zapcode(&read_value(Value::Object(map))) else {
        panic!("expected Object to convert to an Object");
    };
    let keys: Vec<&str> = obj.iter().map(|(k, _)| k.as_str()).collect();
    assert_eq!(keys, vec!["apple", "mango", "zebra"]);

    // The same holds for entries that come in no order, and a later entry
    // replaces an earlier one.
    let entries = vec![
        ("b".to_string(), AgentValue::Integer(1)),
        ("a".to_string(), AgentValue::Integer(2)),
        ("b".to_string(), AgentValue::Integer(3)),
    ];
    let ZapValue::Object(obj) = value_to_zapcode(&AgentValue::Object(entries)) else {
        panic!("expected Object to convert to an Object");
    };
    assert_eq!(obj.len(), 2);
    assert_eq!(obj[0].0, "a");
    assert_eq!(obj[1].0, "b");
    assert!(matches!(obj[1].1, ZapValue::Int(3)));
}

#[test]
fn message_input_becomes_object() {
    let value = message(Message::user("hi".into()));
    let ZapValue::Object(obj) = value_to_zapcode(&value) else {
        panic!("expected Message to convert to an Object");
    };
    assert!(is_text(get(&obj, "role"), "user"));
    assert!(is_text(get(&obj, "content"), "hi"));
}

#[test]
fn nested_message_in_object_becomes_object() {
    let mut map = im::HashMap::new();
    map.insert(
        "message".to_string(),
        Value::message(Message::user("hi".into())),
    );
    let ZapValue::Object(obj) = value_to_zapcode(&read_value(Value::Object(map))) else {
        panic!("expected Object to convert to an Object");
    };
    let Some(ZapValue::Object(inner)) = get(&obj, "message") else {
        panic!("expected nested message to be an Object");
    };
    assert!(is_text(get(inner, "role"), "user"));
    assert!(is_text(get(inner, "content"), "hi"));
}

#[test]
fn message_with_block_content_becomes_array_of_objects() {
    let msg = Message {
        role: "assistant".to_string(),
        content: MessageContent::Blocks(vec![
            ContentBlock::Thinking {
                thinking: "reasoning".to_string(),
                signature: None,
                redacted: false,
            },
            ContentBlock::Text {
                text: "hi".to_string(),
            },
        ]),
        ..Default::default()
    };
    let ZapValue::Object(obj) = value_to_zapcode(&message(msg)) else {
        panic!("expected Message to convert to an Object");
    };
    let Some(ZapValue::Array(blocks)) = get(&obj, "content") else {
        panic!("block content should convert to an Array, not a JSON string");
    };
    assert_eq!(blocks.len(), 2);

    let ZapValue::Object(thinking) = &blocks[0] else {
        panic!("expected block 0 to be an Object");
    };
    assert!(is_text(get(thinking, "type"), "thinking"));
    assert!(is_text(get(thinking, "thinking"), "reasoning"));

    let ZapValue::Object(text) = &blocks[1] else {
        panic!("expected block 1 to be an Object");
    };
    assert!(is_text(get(text, "type"), "text"));
    assert!(is_text(get(text, "text"), "hi"));
}

#[test]
fn function_result_is_error() {
    let err = zapcode_to_value(ZapValue::Function).unwrap_err();
    assert!(err.message().contains("did you forget to call"));
}

#[test]
fn nested_function_result_is_error() {
    let err =
        zapcode_to_value(ZapValue::Array(vec![ZapValue::Int(1), ZapValue::Function])).unwrap_err();
    assert!(err.message().contains("did you forget to call"));

    let obj = vec![("f".to_string(), ZapValue::Function)];
    let err = zapcode_to_value(ZapValue::Object(obj)).unwrap_err();
    assert!(err.message().contains("did you forget to call"));
}

#[test]
fn callable_errors_name_the_first_kind() {
    let text = |kind: &str| {
        format!(
            "Invalid ZapCode result contains a {kind}: the value of the last expression in the \
             script is the output — did you forget to call the function \
             (e.g. `myFunc()` instead of `myFunc`)? value"
        )
    };
    let err = zapcode_to_value(ZapValue::Generator).unwrap_err();
    assert_eq!(err.message(), text("generator"));
    let err = zapcode_to_value(ZapValue::BuiltinMethod).unwrap_err();
    assert_eq!(err.message(), text("function"));
    let err = zapcode_to_value(ZapValue::Array(vec![
        ZapValue::Object(vec![("g".to_string(), ZapValue::Generator)]),
        ZapValue::Function,
    ]))
    .unwrap_err();
    assert_eq!(err.message(), text("generator"));
}

#[test]
fn tensors_images_and_errors_have_script_forms() {
    let tensor = read_value(Value::tensor(vec![0.5, 2.0]));
    let ZapValue::Array(items) = value_to_zapcode(&tensor) else {
        panic!("expected a tensor to convert to an array");
    };
    let floats: Vec<f64> = items
        .iter()
        .map(|z| match z {
            ZapValue::Float(f) => float(f),
            _ => panic!("expected a float"),
        })
        .collect();
    assert_eq!(floats, vec![0.5, 2.0]);

    let image = read_value(Value::image_default());
    assert!(matches!(value_to_zapcode(&image), ZapValue::Null));

    let error = read_value(Value::Error(std::sync::Arc::new(
        modular_agent_core::Error::InvalidValue("port".into()),
    )));
    assert!(matches!(
        value_to_zapcode(&error),
        ZapValue::String(s) if s == "Invalid port value"
    ));
    assert!(matches!(value_to_zapcode(&AgentValue::Unit), ZapValue::Null));
}

#[test]
fn values_survive_the_way_through_a_script() {
    let value = AgentValue::Object(vec![
        ("z".to_string(), AgentValue::Unit),
        (
            "a".to_string(),
            AgentValue::Array(vec![
                AgentValue::Boolean(true),
                AgentValue::Integer(-7),
                AgentValue::Number(number(0.25)),
                AgentValue::String("text".to_string()),
            ]),
        ),
    ]);
    let back = zapcode_to_value(value_to_zapcode(&value)).unwrap();
    let AgentValue::Object(entries) = back else {
        panic!("expected an object");
    };
    assert_eq!(entries[0].0, "a");
    assert_eq!(entries[1].0, "z");
    assert!(matches!(entries[1].1, AgentValue::Unit));
    let AgentValue::Array(items) = &entries[0].1 else {
        panic!("expected an array");
    };
    assert!(matches!(items[0], AgentValue::Boolean(true)));
    assert!(matches!(items[1], AgentValue::Integer(-7)));
    assert!(matches!(&items[2], AgentValue::Number(n) if float(n) == 0.25));
    assert!(matches!(&items[3], AgentValue::String(s) if s == "text"));
}

#[test]
fn values_of_the_host_are_read_and_built() {
    let value = AgentValue::Object(vec![
        ("b".to_string(), AgentValue::Number(number(1.5))),
        (
            "a".to_string(),
            AgentValue::Array(vec![AgentValue::Integer(1), AgentValue::Unit]),
        ),
    ]);
    let host = host_value(&value);
    assert_eq!(host.get("b").unwrap().as_f64(), Some(1.5));
    assert_eq!(
        host.get("a").unwrap().as_array().unwrap()[0].as_i64(),
        Some(1)
    );
    let AgentValue::Object(entries) = read_value(host) else {
        panic!("expected an object");
    };
    assert_eq!(entries[0].0, "a");
    assert_eq!(entries[1].0, "b");
    assert_eq!(json_string(&value), "{\"a\":[1,null],\"b\":1.5}");
}

#[test]
fn large_json_integers_become_floats() {
    let json = |text: &str| json_value_to_zapcode(text.parse().unwrap());
    assert!(matches!(json("7"), ZapValue::Int(7)));
    assert!(matches!(
        json("18446744073709551615"),
        ZapValue::Float(f) if float(&f) == 18446744073709551615.0
    ));
    assert!(matches!(json("0.5"), ZapValue::Float(f) if float(&f) == 0.5));
    let ZapValue::Object(entries) = json("{\"k\": [null, true, \"s\"]}") else {
        panic!("expected an object");
    };
    assert_eq!(entries[0].0, "k");
    let ZapValue::Array(items) = &entries[0].1 else {
        panic!("expected an array");
    };
    assert!(matches!(items[0], ZapValue::Null));
    assert!(matches!(items[1], ZapValue::Bool(true)));
    assert!(matches!(&items[2], ZapValue::String(s) if s == "s"));
}

fn image(pixels: usize, width: u32, height: u32) -> Value {
    Value::Image(std::sync::Arc::new(PhotonImage::new(
        vec![0; pixels],
        width,
        height,
    )))
}

#[test]
fn pictures_are_measured_before_they_are_written() {
    for (pixels, width, height, good) in [
        (4, 1, 1, true),
        (5, 1, 1, true),
        (3, 1, 1, false),
        (24, 2, 3, true),
        (23, 2, 3, false),
        (0, 0, 0, false),
        (8, 0, 2, false),
        (8, 2, 0, false),
        (16, u32::MAX, u32::MAX, false),
    ] {
        let host = image(pixels, width, height);
        assert_eq!(is_host_writable(&host), good, "{pixels} {width} {height}");
        let value = AgentValue::Object(vec![(
            "a".to_string(),
            AgentValue::Array(vec![read_value(host)]),
        )]);
        assert_eq!(is_writable(&value), good);
        if good {
            assert!(json_string(&value).starts_with("{\"a\":[\"data:image/png;base64,"));
        }
        // A script sees no picture, so it can be handed any.
        assert!(is_script_ready(&value));
        assert!(checked_value_to_zapcode(&value).is_some());
    }
    assert!(is_writable(&AgentValue::Integer(1)));
}

#[test]
fn messages_are_written_for_scripts_only_with_whole_pictures() {
    let with = |pixels: usize| {
        let picture = PhotonImage::new(vec![0; pixels], 1, 1);
        AgentValue::Array(vec![message(
            Message::user("hi".to_string()).with_image(std::sync::Arc::new(picture)),
        )])
    };
    assert!(is_script_ready(&with(4)));
    assert!(is_writable(&with(4)));
    let Some(ZapValue::Array(items)) = checked_value_to_zapcode(&with(4)) else {
        panic!("expected an array");
    };
    let ZapValue::Object(entries) = &items[0] else {
        panic!("expected an object");
    };
    assert!(is_text(get(entries, "content"), "hi"));
    assert!(!is_script_ready(&with(3)));
    assert!(!is_writable(&with(3)));
    assert!(checked_value_to_zapcode(&with(3)).is_none());
}

#[test]
fn a_host_value_under_another_kind_stays_what_it_is() {
    let value = AgentValue::Image(Value::Integer(3));
    assert_eq!(host_value(&value).as_i64(), Some(3));
    assert!(matches!(read_value(host_value(&value)), AgentValue::Integer(3)));
}

#[test]
fn tensor_elements_that_are_no_numbers_stay_so() {
    let tensor = read_value(Value::tensor(vec![f32::NAN, -1.5]));
    let ZapValue::Array(items) = value_to_zapcode(&tensor) else {
        panic!("expected an array");
    };
    assert!(matches!(&items[0], ZapValue::Float(f) if float(f).is_nan()));
    assert!(matches!(&items[1], ZapValue::Float(f) if float(f) == -1.5));
}

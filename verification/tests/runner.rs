use modular_agent_zapcode::fence::strip_code_fence;
use modular_agent_zapcode::names::{is_ts_identifier, is_valid_identifier, is_valid_tool_name};

#[test]
fn strip_code_fence_unwraps_single_fence() {
    assert_eq!(strip_code_fence("```ts\n1 + 2\n```"), "1 + 2\n");
    assert_eq!(
        strip_code_fence("  ```typescript\nlet a = 1;\na\n```  "),
        "let a = 1;\na\n"
    );
    assert_eq!(strip_code_fence("```\n1\n```"), "1\n");
}

#[test]
fn strip_code_fence_leaves_other_text_unchanged() {
    assert_eq!(strip_code_fence("1 + 2"), "1 + 2");
    let prose = "Here is the code:\n```ts\n1\n```";
    assert_eq!(strip_code_fence(prose), prose);
    let two_fences = "```ts\n1\n```\nand\n```ts\n2\n```";
    assert_eq!(strip_code_fence(two_fences), two_fences);
    assert_eq!(strip_code_fence("``````"), "``````");
}

#[test]
fn ts_identifier_accepts_plain_names_only() {
    assert!(is_ts_identifier("webSearch"));
    assert!(is_ts_identifier("_tool2"));
    assert!(!is_ts_identifier("web-search"));
    assert!(!is_ts_identifier("2fast"));
    assert!(!is_ts_identifier(""));
    assert!(!is_ts_identifier("delete"));
}

#[test]
fn tool_name_validation_matches_core_rule() {
    assert!(is_valid_tool_name("web-search_2"));
    assert!(!is_valid_tool_name(""));
    assert!(!is_valid_tool_name("has space"));
    assert!(!is_valid_tool_name(&"x".repeat(65)));
}

#[test]
fn stripping_a_fence_twice_is_stripping_it_once() {
    for text in [
        "```ts\n1 + 2\n```",
        "plain",
        "```\n```",
        "```inline```",
        "```ts\n1\n``` trailing",
        "\u{2003}```\n x \n```\u{3000}",
        "``` \n```\n```",
        "````\nx\n````",
    ] {
        let once = strip_code_fence(text);
        assert_eq!(strip_code_fence(once), once, "{text:?}");
    }
    assert_eq!(strip_code_fence("```\n```"), "");
    assert_eq!(strip_code_fence("```inline```"), "```inline```");
    assert_eq!(strip_code_fence("\u{2003}```\n x \n```\u{3000}"), " x \n");
    assert_eq!(strip_code_fence("`````"), "`````");
}

#[test]
fn a_fence_on_the_first_line_is_a_second_fence() {
    for text in ["```a```\nb\n```", "``````\nb\n```"] {
        assert_eq!(strip_code_fence(text), text);
    }
    // Fewer backticks than a fence has are part of the info string.
    assert_eq!(strip_code_fence("```a`b\nx\n```"), "x\n");
    assert_eq!(strip_code_fence("```a``\nx\n```"), "x\n");
    assert_eq!(strip_code_fence("````\nx\n````"), "x\n`");
    assert_eq!(strip_code_fence("```a\n`b`\n```"), "`b`\n");
}

#[test]
fn identifiers_up_to_the_limit_are_tool_names() {
    for name in ["a", "_", "A9_z", "delete"] {
        assert!(is_valid_identifier(name));
        assert!(is_valid_tool_name(name));
    }
    let long = "x".repeat(65);
    assert!(is_valid_identifier(&long));
    assert!(!is_valid_tool_name(&long));
    assert!(is_valid_tool_name(&"x".repeat(64)));
    for name in ["é", "9a", "a-b", "", "a b"] {
        assert!(!is_valid_identifier(name));
    }
    assert!(!is_valid_tool_name("é"));
    for word in ["async", "of", "undefined", "yield", "static"] {
        assert!(is_valid_identifier(word));
        assert!(!is_ts_identifier(word));
    }
}

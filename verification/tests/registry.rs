use std::future::Future;
use std::pin::Pin;

use modular_agent_core::tool::{register_tool, unregister_tool, Tool, ToolInfo};
use modular_agent_core::{ModuleConfigs, ModuleContext, Value};
use modular_agent_zapcode::runner::{begin_code, tool_externals};
use modular_agent_zapcode::value::AgentValue;

/// A tool that hands its arguments back.
struct Echo {
    info: ToolInfo,
}

impl Tool for Echo {
    fn info(&self) -> &ToolInfo {
        &self.info
    }

    fn call<'a, 'b>(
        &'a self,
        _ctx: ModuleContext,
        args: Value,
    ) -> Pin<Box<dyn Future<Output = modular_agent_core::Result<Value>> + Send + 'b>>
    where
        'a: 'b,
        Self: 'b,
    {
        Box::pin(std::future::ready(Ok(args)))
    }
}

fn register(name: &str) {
    register_tool(Echo {
        info: ToolInfo::new(name, "hands its arguments back unchanged", None),
    });
}

#[test]
fn patterns_select_registered_tools() {
    for name in ["zcSelectA", "zc-select-b", "zcSelectC", "delete"] {
        register(name);
    }

    let (externals, mut allowed) = tool_externals("^zcSelect\n  ^zc-select-\n\n^delete$").unwrap();
    allowed.sort();
    assert_eq!(allowed, vec!["delete", "zc-select-b", "zcSelectA", "zcSelectC"]);
    assert_eq!(externals[0], "callTool");
    let mut functions = externals[1..].to_vec();
    functions.sort();
    assert_eq!(functions, vec!["zcSelectA", "zcSelectC"]);

    let (externals, allowed) = tool_externals("SelectC$").unwrap();
    assert_eq!(externals, vec!["callTool", "zcSelectC"]);
    assert_eq!(allowed, vec!["zcSelectC"]);

    let mut configs = ModuleConfigs::new();
    configs.set("tools".to_string(), Value::string("^zcSelectA$"));
    let code = AgentValue::String("await zcSelectA({})".to_string());
    let run = begin_code(&configs, &code).unwrap().unwrap();
    assert_eq!(run.externals, vec!["callTool", "zcSelectA"]);
    assert!(run.dispatcher.call("zcSelectA", &vec![]).is_ok());
    assert!(run.dispatcher.call("zcSelectC", &vec![]).is_err());

    unregister_tool("zcSelectC");
    let (externals, allowed) = tool_externals("SelectC$").unwrap();
    assert_eq!(externals, vec!["callTool"]);
    assert!(allowed.is_empty());
}

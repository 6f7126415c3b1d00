//! The `callTool(name, args)` function that scripts call registered tools
//! with.

use vstd::prelude::*;

use crate::bridge::{not_available, unavailable};
use crate::error::{AgentError, ErrorData};
use crate::text::{same, views};
use crate::value::{text_in, value_argument, value_views, AgentValue, Data};

verus! {

/// A tool to call, and what with.
#[derive(Debug)]
pub struct ToolRequest {
    pub tool: String,
    pub args: AgentValue,
}

/// The view of a request or of what is wrong with it.
pub open spec fn request_view(r: Result<ToolRequest, AgentError>) -> Result<
    (Seq<char>, Data),
    ErrorData,
> {
    match r {
        Ok(q) => Ok((q.tool@, q.args@)),
        Err(e) => Err(e@),
    }
}

/// The functions declared to a script that can call tools and nothing else.
pub open spec fn call_tool_only() -> Seq<Seq<char>> {
    seq!["callTool"@]
}

/// What a call asks for where `callTool` is the one host function. The
/// arguments of the tool are unit by default.
pub open spec fn tool_requested(name: Seq<char>, args: Seq<Data>) -> Result<
    (Seq<char>, Data),
    ErrorData,
> {
    if name != "callTool"@ {
        Err(unavailable(name))
    } else if args.len() > 0 && text_in(args[0]) is Some {
        Ok((text_in(args[0])->0, value_argument(args, 1)))
    } else {
        Err(ErrorData::InvalidValue("callTool: first argument must be a tool name string"@))
    }
}

/// Serves the calls of a script that can call tools and nothing else.
pub struct ToolCallHandler;

impl ToolCallHandler {
    /// Reads a call.
    pub fn call(name: &str, args: &Vec<AgentValue>) -> (r: Result<ToolRequest, AgentError>)
        ensures
            request_view(r) == tool_requested(name@, value_views(args@)),
    {
        if !same(name, "callTool") {
            return Err(not_available(name));
        }
        if args.len() > 0 {
            assert(value_views(args@)[0] == args@[0]@);
            if let Some(tool) = args[0].as_str() {
                let tool_args = if args.len() > 1 {
                    args[1].copy()
                } else {
                    AgentValue::Unit
                };
                return Ok(ToolRequest { tool: tool.to_string(), args: tool_args });
            }
        }
        Err(
            AgentError::InvalidValue(
                "callTool: first argument must be a tool name string".to_string(),
            ),
        )
    }

    /// The functions to declare.
    pub fn externals() -> (r: Vec<String>)
        ensures
            views(r@) == call_tool_only(),
    {
        let mut r: Vec<String> = Vec::new();
        r.push("callTool".to_string());
        assert(views(r@) =~= call_tool_only());
        r
    }
}

/// A script calls a tool by its name with what it hands over: the second
/// argument reaches the tool as it is, and unit where there is none.
pub proof fn tools_get_what_the_script_hands_over(tool: Seq<char>, args: Seq<Data>)
    requires
        args.len() > 0,
        args[0] == Data::String(tool),
    ensures
        args.len() == 1 ==> tool_requested("callTool"@, args) == Ok::<_, ErrorData>(
            (tool, Data::Unit),
        ),
        args.len() > 1 ==> tool_requested("callTool"@, args) == Ok::<_, ErrorData>(
            (tool, args[1]),
        ),
{
}

/// No other call reaches a tool: any other name is not available, and
/// `callTool` without the name of a tool says so.
pub proof fn other_calls_reach_no_tool(name: Seq<char>, args: Seq<Data>)
    ensures
        name != "callTool"@ ==> tool_requested(name, args) == Err::<(Seq<char>, Data), _>(
            ErrorData::InvalidValue(
                "ZapCode runtime error: external function `"@ + name + "` is not available here"@,
            ),
        ),
        args.len() == 0 || !(args[0] is String) ==> tool_requested("callTool"@, args) == Err::<
            (Seq<char>, Data),
            _,
        >(ErrorData::InvalidValue("callTool: first argument must be a tool name string"@)),
{
}

/// What `callTool` is called with is what the tool is called with.
pub proof fn tool_calls_are_passed_on(
    name: &str,
    args: &Vec<AgentValue>,
    r: Result<ToolRequest, AgentError>,
)
    requires
        call_ensures(ToolCallHandler::call, (name, args), r),
    ensures
        r is Ok <==> name@ == "callTool"@ && args@.len() > 0 && args@[0]@ is String,
        r matches Ok(q) ==> {
            &&& args@[0]@ == Data::String(q.tool@)
            &&& args@.len() == 1 ==> q.args@ == Data::Unit
            &&& args@.len() > 1 ==> q.args@ == args@[1]@
        },
{
    let all = value_views(args@);
    if args@.len() > 0 {
        assert(all[0] == args@[0]@);
    }
    if args@.len() > 1 {
        assert(all[1] == args@[1]@);
    }
}

} // verus!

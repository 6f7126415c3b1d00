//! The runner: executes generated code with access to selected tools.

use vstd::prelude::*;

use crate::bridge::ZapOutcome;
use crate::configs::{bool_or, config_entries, string_or_default};
use crate::entries::{entry_views, lookup};
use crate::error::{AgentError, ErrorData};
use crate::fence::{
    fenced_code_comes_out, only_fences_are_unwrapped, strip_code_fence, stripped, ticks,
};
use crate::host::{message_text, text_of_message};
use crate::names::{identifier, is_ts_identifier, reserved, ts_identifier};
use crate::text::{
    concat, concat3, contains, is_blank, list_has, same, trim, views, white_space,
};
use crate::toolcall::{request_view, ToolRequest};
use crate::value::{container_views, text_in, value_views, AgentValue, Data};

verus! {

/// What is wrong with newline-separated regular expressions, as the error of
/// `modular_agent_core::tool::list_tool_infos_patterns` is displayed.
pub uninterp spec fn pattern_flaw(patterns: Seq<char>) -> Option<Seq<char>>;

/// Whether a tool name matches one of newline-separated regular expressions,
/// as `modular_agent_core::tool::list_tool_infos_patterns` matches it.
pub uninterp spec fn tool_matches(patterns: Seq<char>, tool: Seq<char>) -> bool;

/// Whether `modular_agent_core::tool::list_tool_infos_patterns` can list tools
/// with these names, in this order. That depends on the tools that are
/// registered at the time, so for one set of patterns there is more than one
/// such list.
pub uninterp spec fn tools_may_list(patterns: Seq<char>, tools: Seq<Seq<char>>) -> bool;

/// Calls `modular_agent_core::tool::list_tool_infos_patterns` and takes the
/// name of each tool. The contract claims that the call fails exactly for
/// flawed patterns, that what it returns is one of the lists that it can
/// return for them, and that every tool matches them. Which tools are
/// registered, and in which order they come, is left unsaid.
#[verifier::external_body]
fn matching_tools(patterns: &str) -> (r: Result<Vec<String>, String>)
    ensures
        match r {
            Ok(tools) => pattern_flaw(patterns@) is None && tools_may_list(
                patterns@,
                views(tools@),
            ) && forall|i: int|
                0 <= i < tools.len() ==> tool_matches(patterns@, (#[trigger] tools@[i])@),
            Err(text) => pattern_flaw(patterns@) == Some(text@),
        },
{
    match modular_agent_core::tool::list_tool_infos_patterns(patterns) {
        Ok(infos) => Ok(infos.into_iter().map(|info| info.name).collect()),
        Err(e) => Err(e.to_string()),
    }
}

/// The text to execute: that of a string or of a message.
pub open spec fn generated_text(value: Data) -> Result<Seq<char>, ErrorData> {
    match value {
        Data::String(s) => Ok(s),
        Data::Message(h) => Ok(message_text(h)),
        _ => Err(ErrorData::InvalidValue("script input must be a string or a message"@)),
    }
}

/// The code to execute of a text: with `strip_fences`, the body of a single
/// fence.
pub open spec fn code_in(text: Seq<char>, strip_fences: bool) -> Seq<char> {
    if strip_fences {
        stripped(text)
    } else {
        text
    }
}

/// Takes the code out of a text.
pub fn take_code(text: &str, strip_fences: bool) -> (r: &str)
    ensures
        r@ == code_in(text@, strip_fences),
{
    if strip_fences {
        strip_code_fence(text)
    } else {
        text
    }
}

fn read_text(value: &AgentValue) -> (r: Result<String, AgentError>)
    ensures
        match generated_text(value@) {
            Ok(s) => r matches Ok(t) && t@ == s,
            Err(x) => r matches Err(e) && e@ == x,
        },
{
    match value {
        AgentValue::String(s) => Ok(s.clone()),
        AgentValue::Message(h) => Ok(text_of_message(h)),
        _ => Err(
            AgentError::InvalidValue("script input must be a string or a message".to_string()),
        ),
    }
}

/// The tools that may be called, each once, in the order in which they are
/// first named.
pub open spec fn allowed_tools(tools: Seq<Seq<char>>) -> Seq<Seq<char>>
    decreases tools.len(),
{
    if tools.len() == 0 {
        tools
    } else {
        let done = allowed_tools(tools.drop_last());
        if done.contains(tools.last()) {
            done
        } else {
            done.push(tools.last())
        }
    }
}

/// Whether a tool is a function of its own in the script.
pub open spec fn directly_callable(tool: Seq<char>) -> bool {
    tool != "callTool"@ && ts_identifier(tool)
}

/// The functions declared to the script: `callTool`, and each allowed tool
/// that can be a function of its own.
pub open spec fn declared_functions(allowed: Seq<Seq<char>>) -> Seq<Seq<char>>
    decreases allowed.len(),
{
    if allowed.len() == 0 {
        seq!["callTool"@]
    } else {
        let done = declared_functions(allowed.drop_last());
        if directly_callable(allowed.last()) {
            done.push(allowed.last())
        } else {
            done
        }
    }
}

/// Works out, for selected tools, the functions to declare to the script and
/// the tools that the dispatcher may call.
pub fn select_tools(tools: &Vec<String>) -> (r: (Vec<String>, Vec<String>))
    ensures
        views(r.0@) == declared_functions(allowed_tools(views(tools@))),
        views(r.1@) == allowed_tools(views(tools@)),
{
    let ghost all = views(tools@);
    let mut externals: Vec<String> = Vec::new();
    externals.push("callTool".to_string());
    let mut allowed: Vec<String> = Vec::new();
    let mut i: usize = 0;
    proof {
        assert(views(allowed@) =~= allowed_tools(all.take(0)));
        assert(views(externals@) =~= declared_functions(views(allowed@)));
    }
    while i < tools.len()
        invariant
            i <= tools.len(),
            all == views(tools@),
            views(allowed@) == allowed_tools(all.take(i as int)),
            views(externals@) == declared_functions(views(allowed@)),
        decreases tools.len() - i,
    {
        proof {
            assert(all.take(i + 1).drop_last() =~= all.take(i as int));
            assert(all.take(i + 1).last() == tools@[i as int]@);
        }
        if !list_has(&allowed, tools[i].as_str()) {
            let ghost before = views(allowed@);
            let ghost declared = views(externals@);
            allowed.push(tools[i].clone());
            proof {
                assert(views(allowed@) =~= before.push(tools@[i as int]@));
                assert(views(allowed@).drop_last() =~= before);
            }
            if !same(tools[i].as_str(), "callTool") && is_ts_identifier(tools[i].as_str()) {
                externals.push(tools[i].clone());
                assert(views(externals@) =~= declared.push(tools@[i as int]@));
            }
        }
        i = i + 1;
    }
    assert(all.take(i as int) =~= all);
    (externals, allowed)
}

/// Whether these tools can be what the patterns select: a list that the host
/// can give for them, of tools that match. No patterns select no tools.
pub open spec fn may_select(patterns: Seq<char>, tools: Seq<Seq<char>>) -> bool {
    if patterns.len() == 0 {
        tools.len() == 0
    } else {
        tools_may_list(patterns, tools) && forall|i: int|
            0 <= i < tools.len() ==> tool_matches(patterns, #[trigger] tools[i])
    }
}

/// Works out, for the tools that `patterns` select, the functions to declare
/// to the script and the tools that the dispatcher may call.
pub fn tool_externals(patterns: &str) -> (r: Result<(Vec<String>, Vec<String>), AgentError>)
    ensures
        patterns@.len() > 0 && pattern_flaw(patterns@) is Some ==> (r matches Err(e) && e@
            == ErrorData::InvalidConfig(
            "Invalid regex patterns in tools config: "@ + pattern_flaw(patterns@)->0,
        )),
        patterns@.len() == 0 || pattern_flaw(patterns@) is None ==> r is Ok,
        r matches Ok((externals, allowed)) ==> exists|tools: Seq<Seq<char>>| #[trigger]
            may_select(patterns@, tools) && views(allowed@) == allowed_tools(tools) && views(
                externals@,
            ) == declared_functions(allowed_tools(tools)),
{
    if patterns.unicode_len() == 0 {
        let none: Vec<String> = Vec::new();
        assert(may_select(patterns@, views(none@)));
        return Ok(select_tools(&none));
    }
    match matching_tools(patterns) {
        Ok(tools) => {
            assert forall|i: int| 0 <= i < views(tools@).len() implies tool_matches(
                patterns@,
                #[trigger] views(tools@)[i],
            ) by {
                assert(tool_matches(patterns@, tools@[i]@));
            }
            assert(may_select(patterns@, views(tools@)));
            Ok(select_tools(&tools))
        },
        Err(text) => Err(
            AgentError::InvalidConfig(
                concat("Invalid regex patterns in tools config: ", text.as_str()),
            ),
        ),
    }
}

/// Routes the calls of a script to the tools that it may call.
#[derive(Debug)]
pub struct ToolDispatcher {
    pub allowed: Vec<String>,
}

/// The tool and the arguments that a call names, if it is well formed: either
/// `callTool` with a tool name and at most one object, or the name of a tool
/// with at most one object.
pub open spec fn named_tool(name: Seq<char>, args: Seq<Data>) -> Result<
    (Seq<char>, Option<Data>),
    ErrorData,
> {
    if name == "callTool"@ {
        if args.len() > 2 {
            Err(ErrorData::InvalidValue("callTool takes a tool name and one arguments object"@))
        } else if args.len() == 0 || text_in(args[0]) is None {
            Err(
                ErrorData::InvalidValue(
                    "callTool expects a tool name string as its first argument"@,
                ),
            )
        } else {
            Ok(
                (
                    text_in(args[0])->0,
                    if args.len() > 1 {
                        Some(args[1])
                    } else {
                        None
                    },
                ),
            )
        }
    } else if args.len() > 1 {
        Err(ErrorData::InvalidValue("`"@ + name + "` takes a single arguments object"@))
    } else {
        Ok(
            (
                name,
                if args.len() > 0 {
                    Some(args[0])
                } else {
                    None
                },
            ),
        )
    }
}

/// The tool that is called for a call, and its arguments: by default an empty
/// object. A tool that is not allowed is refused.
pub open spec fn dispatched(allowed: Seq<Seq<char>>, name: Seq<char>, args: Seq<Data>) -> Result<
    (Seq<char>, Data),
    ErrorData,
> {
    match named_tool(name, args) {
        Err(x) => Err(x),
        Ok((tool, given)) => if allowed.contains(tool) {
            Ok(
                (
                    tool,
                    match given {
                        Some(d) => d,
                        None => Data::Object(Seq::empty()),
                    },
                ),
            )
        } else {
            Err(
                ErrorData::InvalidValue("tool `"@ + tool + "` does not match the tools config"@),
            )
        },
    }
}

fn copy_at(args: &Vec<AgentValue>, index: usize) -> (r: Option<AgentValue>)
    ensures
        match r {
            Some(v) => index < args.len() && v@ == value_views(args@)[index as int],
            None => index >= args.len(),
        },
{
    if index < args.len() {
        Some(args[index].copy())
    } else {
        None
    }
}

impl ToolDispatcher {
    /// Routes a call.
    pub fn call(&self, name: &str, args: &Vec<AgentValue>) -> (r: Result<ToolRequest, AgentError>)
        ensures
            request_view(r) == dispatched(views(self.allowed@), name@, value_views(args@)),
    {
        broadcast use container_views;

        let tool: String;
        let given: Option<AgentValue>;
        if same(name, "callTool") {
            if args.len() > 2 {
                return Err(
                    AgentError::InvalidValue(
                        "callTool takes a tool name and one arguments object".to_string(),
                    ),
                );
            }
            assert(args.len() > 0 ==> value_views(args@)[0] == args@[0]@);
            tool = match copy_at(args, 0) {
                Some(AgentValue::String(s)) => s,
                _ => {
                    return Err(
                        AgentError::InvalidValue(
                            "callTool expects a tool name string as its first argument".to_string(),
                        ),
                    );
                },
            };
            given = copy_at(args, 1);
        } else {
            if args.len() > 1 {
                return Err(
                    AgentError::InvalidValue(
                        concat3("`", name, "` takes a single arguments object"),
                    ),
                );
            }
            tool = name.to_string();
            given = copy_at(args, 0);
        }
        if !list_has(&self.allowed, tool.as_str()) {
            return Err(
                AgentError::InvalidValue(
                    concat3("tool `", tool.as_str(), "` does not match the tools config"),
                ),
            );
        }
        let tool_args = match given {
            Some(v) => v,
            None => {
                let items: Vec<(String, AgentValue)> = Vec::new();
                assert(entry_views(items@) =~= Seq::empty());
                AgentValue::Object(items)
            },
        };
        Ok(ToolRequest { tool, args: tool_args })
    }
}

/// Generated code that is about to run.
#[derive(Debug)]
pub struct CodeRun {
    pub source: String,
    pub externals: Vec<String>,
    pub dispatcher: ToolDispatcher,
}

/// Prepares the run of generated code. Blank code does nothing.
pub fn begin_code(config: &modular_agent_core::ModuleConfigs, value: &AgentValue) -> (r: Result<
    Option<CodeRun>,
    AgentError,
>)
    ensures
        ({
            let es = config_entries(*config);
            let patterns = string_or_default(es, "tools"@);
            match generated_text(value@) {
                Err(x) => r matches Err(e) && e@ == x,
                Ok(text) => {
                    let code = code_in(text, bool_or(es, "strip_fences"@, true));
                    if trim(code).len() == 0 {
                        r matches Ok(None)
                    } else if patterns.len() > 0 && pattern_flaw(patterns) is Some {
                        r matches Err(e) && e@ == ErrorData::InvalidConfig(
                            "Invalid regex patterns in tools config: "@ + pattern_flaw(patterns)->0,
                        )
                    } else {
                        r matches Ok(Some(run)) && run.source@ == code && code_access(run, patterns)
                    }
                },
            }
        }),
{
    let text = match read_text(value) {
        Ok(text) => text,
        Err(e) => {
            return Err(e);
        },
    };
    let source = take_code(text.as_str(), config.get_bool_or("strip_fences", true)).to_string();
    if is_blank(source.as_str()) {
        return Ok(None);
    }
    let patterns = config.get_string_or_default("tools");
    match tool_externals(patterns.as_str()) {
        Ok((externals, allowed)) => Ok(
            Some(CodeRun { source, externals, dispatcher: ToolDispatcher { allowed } }),
        ),
        Err(e) => Err(e),
    }
}

/// Whether a run can call what the patterns select, and nothing else.
pub open spec fn code_access(run: CodeRun, patterns: Seq<char>) -> bool {
    exists|tools: Seq<Seq<char>>| #[trigger]
        may_select(patterns, tools) && views(run.dispatcher.allowed@) == allowed_tools(tools)
            && views(run.externals@) == declared_functions(allowed_tools(tools))
}

/// What a finished run sends on: console output, unless there is none, and
/// then the value.
pub open spec fn sent_on(console: Seq<char>, value: Data) -> Seq<(Seq<char>, Data)> {
    if console.len() == 0 {
        seq![("value"@, value)]
    } else {
        seq![("console"@, Data::String(console)), ("value"@, value)]
    }
}

/// Works out what a finished run sends on, in order.
pub fn outputs_of(outcome: ZapOutcome) -> (r: Vec<(String, AgentValue)>)
    ensures
        entry_views(r@) == sent_on(outcome.console@, outcome.value@),
{
    let mut r: Vec<(String, AgentValue)> = Vec::new();
    if outcome.console.as_str().unicode_len() > 0 {
        r.push(("console".to_string(), AgentValue::String(outcome.console)));
    }
    r.push(("value".to_string(), outcome.value));
    assert(entry_views(r@) =~= sent_on(outcome.console@, outcome.value@));
    r
}

proof fn allowed_come_from_tools(tools: Seq<Seq<char>>)
    ensures
        forall|t: Seq<char>| #[trigger] allowed_tools(tools).contains(t) <==> tools.contains(t),
        allowed_tools(tools).no_duplicates(),
    decreases tools.len(),
{
    if tools.len() > 0 {
        let init = tools.drop_last();
        let last = tools.last();
        let done = allowed_tools(init);
        let all = allowed_tools(tools);
        allowed_come_from_tools(init);
        assert forall|t: Seq<char>| #[trigger] all.contains(t) <==> tools.contains(t) by {
            if all.contains(t) {
                let i = choose|i: int| 0 <= i < all.len() && all[i] == t;
                if i < done.len() {
                    assert(done[i] == t);
                    assert(done.contains(t));
                    let j = choose|j: int| 0 <= j < init.len() && init[j] == t;
                    assert(tools[j] == t);
                } else {
                    assert(tools[tools.len() - 1] == t);
                }
            }
            if tools.contains(t) {
                let j = choose|j: int| 0 <= j < tools.len() && tools[j] == t;
                if j < init.len() {
                    assert(init[j] == t);
                    assert(done.contains(t));
                    let i = choose|i: int| 0 <= i < done.len() && done[i] == t;
                    assert(all[i] == t);
                } else if !done.contains(last) {
                    assert(all[all.len() - 1] == t);
                }
            }
        }
        if !done.contains(last) {
            assert forall|i: int, j: int| 0 <= i < j < all.len() implies all[i] != all[j] by {
                if j == done.len() {
                    assert(done[i] == all[i]);
                    assert(done.contains(done[i]));
                }
            }
        }
    }
}

/// Tools that the patterns do not select cannot be called, whichever way the
/// script tries.
pub proof fn only_selected_tools_are_called(
    patterns: Seq<char>,
    tools: Seq<Seq<char>>,
    name: Seq<char>,
    args: Seq<Data>,
)
    requires
        may_select(patterns, tools),
    ensures
        dispatched(allowed_tools(tools), name, args) matches Ok((tool, _)) ==> patterns.len() > 0
            && tool_matches(patterns, tool) && tools.contains(tool),
{
    allowed_come_from_tools(tools);
    if let Ok((tool, given)) = named_tool(name, args) {
        if allowed_tools(tools).contains(tool) {
            let i = choose|i: int| 0 <= i < tools.len() && tools[i] == tool;
            assert(tools[i] == tool);
        }
    }
}

/// A tool called as a function of its own is called exactly as through
/// `callTool`.
pub proof fn both_ways_agree(allowed: Seq<Seq<char>>, tool: Seq<char>, args: Data)
    requires
        tool != "callTool"@,
    ensures
        dispatched(allowed, tool, seq![args]) == dispatched(
            allowed,
            "callTool"@,
            seq![Data::String(tool), args],
        ),
        dispatched(allowed, tool, Seq::empty()) == dispatched(
            allowed,
            "callTool"@,
            seq![Data::String(tool)],
        ),
{
}

proof fn functions_come_from_allowed(allowed: Seq<Seq<char>>)
    requires
        allowed.no_duplicates(),
    ensures
        declared_functions(allowed).len() >= 1,
        declared_functions(allowed)[0] == "callTool"@,
        forall|f: Seq<char>| #[trigger] declared_functions(allowed).contains(f) <==> f
            == "callTool"@ || (allowed.contains(f) && directly_callable(f)),
        declared_functions(allowed).no_duplicates(),
    decreases allowed.len(),
{
    let all = declared_functions(allowed);
    if allowed.len() == 0 {
        assert(all[0] == "callTool"@);
    } else {
        let init = allowed.drop_last();
        let last = allowed.last();
        let done = declared_functions(init);
        assert(init.no_duplicates());
        functions_come_from_allowed(init);
        assert(!init.contains(last)) by {
            if init.contains(last) {
                let i = choose|i: int| 0 <= i < init.len() && init[i] == last;
                assert(allowed[i] == allowed[allowed.len() - 1]);
            }
        }
        assert forall|f: Seq<char>| #[trigger] all.contains(f) <==> f == "callTool"@ || (
        allowed.contains(f) && directly_callable(f)) by {
            assert(allowed.contains(f) <==> init.contains(f) || f == last) by {
                if allowed.contains(f) {
                    let i = choose|i: int| 0 <= i < allowed.len() && allowed[i] == f;
                    if i < init.len() {
                        assert(init[i] == f);
                    }
                }
                if init.contains(f) {
                    let i = choose|i: int| 0 <= i < init.len() && init[i] == f;
                    assert(allowed[i] == f);
                }
                if f == last {
                    assert(allowed[allowed.len() - 1] == f);
                }
            }
            assert(done.contains(f) ==> all.contains(f)) by {
                if done.contains(f) {
                    let i = choose|i: int| 0 <= i < done.len() && done[i] == f;
                    assert(all[i] == f);
                }
            }
            if all.contains(f) {
                let i = choose|i: int| 0 <= i < all.len() && all[i] == f;
                if i < done.len() {
                    assert(done[i] == f);
                    assert(done.contains(f));
                }
            }
            if f == last && directly_callable(f) {
                assert(all[all.len() - 1] == f);
            }
        }
        assert(!(done.contains(last) && directly_callable(last)));
        assert forall|i: int, j: int| 0 <= i < j < all.len() implies all[i] != all[j] by {
            assert(all[i] == done[i]);
            if j < done.len() {
                assert(all[j] == done[j]);
            } else {
                assert(done.contains(done[i]));
            }
        }
    }
}

/// `callTool` is always declared and comes first. Besides it a script has
/// exactly the selected tools whose names are identifiers, none of them
/// twice.
pub proof fn declared_functions_are_the_callable_tools(tools: Seq<Seq<char>>)
    ensures
        ({
            let functions = declared_functions(allowed_tools(tools));
            &&& functions.len() >= 1
            &&& functions[0] == "callTool"@
            &&& functions.no_duplicates()
            &&& forall|f: Seq<char>| #[trigger]
                functions.contains(f) <==> f == "callTool"@ || (tools.contains(f)
                    && directly_callable(f))
        }),
{
    allowed_come_from_tools(tools);
    functions_come_from_allowed(allowed_tools(tools));
}

/// An allowed tool that is called as a function of its own, or through
/// `callTool`, gets exactly the arguments given; without any it gets an empty
/// object.
pub proof fn tools_get_the_arguments_given(
    allowed: Seq<Seq<char>>,
    tool: Seq<char>,
    given: Data,
)
    requires
        allowed.contains(tool),
    ensures
        dispatched(allowed, "callTool"@, seq![Data::String(tool), given]) == Ok::<_, ErrorData>(
            (tool, given),
        ),
        dispatched(allowed, "callTool"@, seq![Data::String(tool)]) == Ok::<_, ErrorData>(
            (tool, Data::Object(Seq::empty())),
        ),
        tool != "callTool"@ ==> {
            &&& dispatched(allowed, tool, seq![given]) == Ok::<_, ErrorData>((tool, given))
            &&& dispatched(allowed, tool, Seq::empty()) == Ok::<_, ErrorData>(
                (tool, Data::Object(Seq::empty())),
            )
        },
{
}

/// Calls that are not well formed reach no tool, and neither does a call of a
/// tool that is not allowed; each is answered with what is wrong.
pub proof fn other_calls_are_refused(allowed: Seq<Seq<char>>, name: Seq<char>, args: Seq<Data>)
    ensures
        ({
            let fails = |text: Seq<char>|
                dispatched(allowed, name, args) == Err::<(Seq<char>, Data), _>(
                    ErrorData::InvalidValue(text),
                );
            let refused = |tool: Seq<char>|
                fails("tool `"@ + tool + "` does not match the tools config"@);
            if name == "callTool"@ {
                &&& args.len() > 2 ==> fails(
                    "callTool takes a tool name and one arguments object"@,
                )
                &&& args.len() <= 2 && (args.len() == 0 || !(args[0] is String)) ==> fails(
                    "callTool expects a tool name string as its first argument"@,
                )
                &&& 1 <= args.len() <= 2 ==> (args[0] matches Data::String(tool)
                    ==> !allowed.contains(tool) ==> refused(tool))
            } else {
                &&& args.len() > 1 ==> fails("`"@ + name + "` takes a single arguments object"@)
                &&& args.len() <= 1 && !allowed.contains(name) ==> refused(name)
            }
        }),
{
}

/// The value of a finished run is the last thing sent on, whatever it is. Its
/// console output goes out before it, exactly if there is any, and nothing
/// else is sent.
pub proof fn results_go_out_last(console: Seq<char>, value: Data)
    ensures
        sent_on(console, value).len() > 0,
        sent_on(console, value).last() == ("value"@, value),
        console.len() == 0 ==> sent_on(console, value).len() == 1,
        console.len() > 0 ==> sent_on(console, value).len() == 2 && sent_on(console, value)[0] == (
            "console"@,
            Data::String(console),
        ),
{
}

/// What is executed is the text itself; a message stands for its text, and no
/// other value is code. Fences are taken off only where that is asked for.
pub proof fn text_is_executed(value: Data, text: Seq<char>)
    ensures
        generated_text(Data::String(text)) == Ok::<_, ErrorData>(text),
        value matches Data::Message(h) ==> generated_text(value) == Ok::<_, ErrorData>(
            message_text(h),
        ),
        !(value is String) && !(value is Message) ==> generated_text(value) == Err::<
            Seq<char>,
            _,
        >(ErrorData::InvalidValue("script input must be a string or a message"@)),
        code_in(text, false) == text,
        !contains(text, ticks()) ==> code_in(text, true) == text,
{
    only_fences_are_unwrapped(text);
}

/// Where fences are taken off, the code in a single fence is executed as it
/// stands in the fence, whatever space is around it.
pub proof fn fenced_code_is_executed(
    before: Seq<char>,
    info: Seq<char>,
    body: Seq<char>,
    after: Seq<char>,
)
    requires
        forall|i: int| 0 <= i < before.len() ==> white_space(#[trigger] before[i]),
        forall|i: int| 0 <= i < after.len() ==> white_space(#[trigger] after[i]),
        !info.contains('\n'),
        !contains(info, ticks()),
        !contains(body, ticks()),
    ensures
        code_in(before + (ticks() + info + seq!['\n'] + body + ticks()) + after, true) == body,
{
    fenced_code_comes_out(before, info, body, after);
}

/// Every selected tool may be called, each stands once, and tools that are
/// listed once keep their order. No others may be called.
pub proof fn selected_tools_are_allowed(tools: Seq<Seq<char>>, tool: Seq<char>)
    ensures
        allowed_tools(tools).contains(tool) <==> tools.contains(tool),
        allowed_tools(tools).no_duplicates(),
        tools.no_duplicates() ==> allowed_tools(tools) == tools,
    decreases tools.len(),
{
    allowed_come_from_tools(tools);
    if tools.no_duplicates() && tools.len() > 0 {
        let init = tools.drop_last();
        let last = tools.last();
        assert(init.no_duplicates());
        selected_tools_are_allowed(init, tool);
        assert(!init.contains(last)) by {
            if init.contains(last) {
                let i = choose|i: int| 0 <= i < init.len() && init[i] == last;
                assert(tools[i] == tools[tools.len() - 1]);
            }
        }
        assert(init.push(last) =~= tools);
    }
}

/// A script has `callTool`, and as functions of their own the allowed tools
/// whose names are identifiers and neither reserved nor `callTool` itself, in
/// the order of the tools.
pub proof fn callable_tools_are_declared(allowed: Seq<Seq<char>>)
    ensures
        declared_functions(allowed) == seq!["callTool"@] + allowed.filter(
            |t: Seq<char>| t != "callTool"@ && identifier(t) && !reserved(t),
        ),
    decreases allowed.len(),
{
    reveal(Seq::filter);
    let f = |t: Seq<char>| t != "callTool"@ && identifier(t) && !reserved(t);
    if allowed.len() == 0 {
        assert(seq!["callTool"@] + allowed.filter(f) =~= seq!["callTool"@]);
    } else {
        callable_tools_are_declared(allowed.drop_last());
        let done = allowed.drop_last().filter(f);
        if f(allowed.last()) {
            assert((seq!["callTool"@] + done).push(allowed.last()) =~= seq!["callTool"@]
                + done.push(allowed.last()));
        }
    }
}

/// The tools that a run can call are the ones that the host lists for the
/// patterns, all of them; without patterns there are none and `callTool` is
/// the only function.
pub proof fn runs_reach_the_listed_tools(run: CodeRun, patterns: Seq<char>)
    requires
        code_access(run, patterns),
    ensures
        patterns.len() == 0 ==> run.dispatcher.allowed@.len() == 0 && run.externals@.len() == 1
            && run.externals@[0]@ == "callTool"@,
        patterns.len() > 0 ==> exists|tools: Seq<Seq<char>>| #[trigger]
            tools_may_list(patterns, tools) && forall|t: Seq<char>| #[trigger]
                views(run.dispatcher.allowed@).contains(t) <==> tools.contains(t),
        forall|f: Seq<char>| #[trigger]
            views(run.externals@).contains(f) <==> f == "callTool"@ || (views(
                run.dispatcher.allowed@,
            ).contains(f) && identifier(f) && !reserved(f)),
{
    let tools = choose|tools: Seq<Seq<char>>| #[trigger]
        may_select(patterns, tools) && views(run.dispatcher.allowed@) == allowed_tools(tools)
            && views(run.externals@) == declared_functions(allowed_tools(tools));
    allowed_come_from_tools(tools);
    functions_come_from_allowed(allowed_tools(tools));
    if patterns.len() == 0 {
        assert(views(run.dispatcher.allowed@).len() == 0);
        assert(views(run.externals@).len() == 1);
        assert(views(run.externals@)[0] == "callTool"@);
    }
    reveal_strlit("callTool");
}

/// The code that runs is the text that came in, with a single fence taken off
/// unless `strip_fences` is false. Blank code does nothing. The script can call
/// what the configured patterns select, and flawed patterns are an error.
pub proof fn generated_code_is_run(
    config: &modular_agent_core::ModuleConfigs,
    value: &AgentValue,
    r: Result<Option<CodeRun>, AgentError>,
)
    requires
        call_ensures(begin_code, (config, value), r),
    ensures
        ({
            let es = config_entries(*config);
            let patterns = match lookup(es, "tools"@) {
                Some(Data::String(s)) => s,
                _ => Seq::empty(),
            };
            let runs = |text: Seq<char>|
                {
                    let code = if lookup(es, "strip_fences"@) == Some(Data::Boolean(false)) {
                        text
                    } else {
                        stripped(text)
                    };
                    if trim(code).len() == 0 {
                        r matches Ok(None)
                    } else if patterns.len() > 0 && pattern_flaw(patterns) is Some {
                        r matches Err(e) && e@ == ErrorData::InvalidConfig(
                            "Invalid regex patterns in tools config: "@ + pattern_flaw(patterns)->0,
                        )
                    } else {
                        r matches Ok(Some(run)) && run.source@ == code && code_access(run, patterns)
                    }
                };
            match value@ {
                Data::String(text) => runs(text),
                Data::Message(h) => runs(message_text(h)),
                _ => r matches Err(e) && e@ == ErrorData::InvalidValue(
                    "script input must be a string or a message"@,
                ),
            }
        }),
{
}

/// What a run sends on ends with its value under `value`; before that comes its
/// console output under `console`, if there is any, and nothing else.
pub proof fn runs_send_their_value(outcome: ZapOutcome, r: Vec<(String, AgentValue)>)
    requires
        call_ensures(outputs_of, (outcome,), r),
    ensures
        r@.len() > 0,
        r@.last().0@ == "value"@,
        r@.last().1@ == outcome.value@,
        outcome.console@.len() == 0 ==> r@.len() == 1,
        outcome.console@.len() > 0 ==> r@.len() == 2 && r@[0].0@ == "console"@ && r@[0].1@
            == Data::String(outcome.console@),
{
    let all = entry_views(r@);
    assert(all.len() == r@.len());
    assert(all.last() == (r@.last().0@, r@.last().1@));
    assert(all[0] == (r@[0].0@, r@[0].1@));
}

/// A call reaches a tool with exactly the arguments that the script gives it,
/// an empty object where it gives none, and only if the tool is allowed.
pub proof fn calls_reach_their_tool(
    dispatcher: &ToolDispatcher,
    name: &str,
    args: &Vec<AgentValue>,
    r: Result<ToolRequest, AgentError>,
)
    requires
        call_ensures(ToolDispatcher::call, (dispatcher, name, args), r),
    ensures
        ({
            let allowed = views(dispatcher.allowed@);
            let none = Data::Object(Seq::empty());
            if name@ == "callTool"@ {
                &&& r is Ok <==> 1 <= args@.len() <= 2 && (args@[0]@ matches Data::String(tool)
                    && allowed.contains(tool))
                &&& r matches Ok(q) ==> args@[0]@ == Data::String(q.tool@) && q.args@ == if args@.len()
                    == 2 {
                    args@[1]@
                } else {
                    none
                }
            } else {
                &&& r is Ok <==> args@.len() <= 1 && allowed.contains(name@)
                &&& r matches Ok(q) ==> q.tool@ == name@ && q.args@ == if args@.len() == 1 {
                    args@[0]@
                } else {
                    none
                }
            }
        }),
{
    let all = value_views(args@);
    if args@.len() > 0 {
        assert(all[0] == args@[0]@);
    }
    if args@.len() > 1 {
        assert(all[1] == args@[1]@);
    }
}

/// The patterns decide which tools a script can call: all that the host lists
/// for them, and without patterns none. Flawed patterns are an error.
pub proof fn patterns_select_tools(
    patterns: &str,
    r: Result<(Vec<String>, Vec<String>), AgentError>,
)
    requires
        call_ensures(tool_externals, (patterns,), r),
    ensures
        r is Ok <==> patterns@.len() == 0 || pattern_flaw(patterns@) is None,
        r matches Ok((externals, allowed)) ==> {
            &&& patterns@.len() == 0 ==> allowed@.len() == 0
            &&& patterns@.len() > 0 ==> exists|tools: Seq<Seq<char>>| #[trigger]
                tools_may_list(patterns@, tools) && forall|t: Seq<char>| #[trigger]
                    views(allowed@).contains(t) <==> tools.contains(t)
            &&& views(allowed@).no_duplicates()
            &&& views(externals@) == seq!["callTool"@] + views(allowed@).filter(
                |t: Seq<char>| t != "callTool"@ && identifier(t) && !reserved(t),
            )
        },
{
    if let Ok((externals, allowed)) = r {
        let tools = choose|tools: Seq<Seq<char>>| #[trigger]
            may_select(patterns@, tools) && views(allowed@) == allowed_tools(tools) && views(
                externals@,
            ) == declared_functions(allowed_tools(tools));
        allowed_come_from_tools(tools);
        callable_tools_are_declared(allowed_tools(tools));
        if patterns@.len() == 0 {
            assert(views(allowed@).len() == 0);
        }
    }
}

} // verus!

//! Modules that evaluate a script over each value that arrives.

use vstd::prelude::*;

use crate::bridge::ZapOutcome;
use crate::configs::{bool_or, config_entries, config_string, string_under};
use crate::entries::{entry_views, lookup};
use crate::error::{AgentError, ErrorData};
use crate::shape::text_view;
use crate::text::{trim_end_matches, trim_end_matches_cuts, views, without_trailing_newlines};
use crate::toolcall::{call_tool_only, ToolCallHandler};
use crate::value::{AgentValue, Data};

verus! {

/// A script to evaluate over a value.
#[derive(Debug)]
pub struct Evaluation {
    /// The script.
    pub source: String,
    /// The value, bound to the variable `value`.
    pub inputs: Vec<(String, AgentValue)>,
    /// The host functions declared to the script.
    pub externals: Vec<String>,
    /// Whether a unit result is not sent on.
    pub skip_unit: bool,
}

/// Whether an evaluation is the one that the configuration `es` asks for over
/// a value, with its script under `key`.
pub open spec fn evaluates(
    e: Evaluation,
    es: Seq<(Seq<char>, Data)>,
    key: Seq<char>,
    value: Data,
) -> bool {
    &&& string_under(es, key) == Some(e.source@)
    &&& entry_views(e.inputs@) == seq![("value"@, value)]
    &&& views(e.externals@) == call_tool_only()
    &&& e.skip_unit == bool_or(es, "skip_unit"@, false)
}

/// Prepares the evaluation of the script under `key`. An empty script does
/// nothing; one that is missing is an error.
fn begin(config: &modular_agent_core::ModuleConfigs, key: &str, value: AgentValue) -> (r: Result<
    Option<Evaluation>,
    AgentError,
>)
    ensures
        match string_under(config_entries(*config), key@) {
            None => r matches Err(e) && e@ == ErrorData::UnknownConfig(key@),
            Some(script) => if script.len() == 0 {
                r matches Ok(None)
            } else {
                r matches Ok(Some(e)) && evaluates(e, config_entries(*config), key@, value@)
            },
        },
{
    match config_string(config, key) {
        Err(e) => Err(e),
        Ok(script) => {
            if script.as_str().unicode_len() == 0 {
                return Ok(None);
            }
            let mut inputs: Vec<(String, AgentValue)> = Vec::new();
            inputs.push(("value".to_string(), value));
            assert(entry_views(inputs@) =~= seq![("value"@, value@)]);
            Ok(
                Some(
                    Evaluation {
                        source: script,
                        inputs,
                        externals: ToolCallHandler::externals(),
                        skip_unit: config.get_bool_or_default("skip_unit"),
                    },
                ),
            )
        },
    }
}

/// Prepares the evaluation of an expression.
pub fn begin_expr(config: &modular_agent_core::ModuleConfigs, value: AgentValue) -> (r: Result<
    Option<Evaluation>,
    AgentError,
>)
    ensures
        match string_under(config_entries(*config), "expr"@) {
            None => r matches Err(e) && e@ == ErrorData::UnknownConfig("expr"@),
            Some(script) => if script.len() == 0 {
                r matches Ok(None)
            } else {
                r matches Ok(Some(e)) && evaluates(e, config_entries(*config), "expr"@, value@)
            },
        },
{
    begin(config, "expr", value)
}

/// Prepares the evaluation of a script.
pub fn begin_script(config: &modular_agent_core::ModuleConfigs, value: AgentValue) -> (r: Result<
    Option<Evaluation>,
    AgentError,
>)
    ensures
        match string_under(config_entries(*config), "script"@) {
            None => r matches Err(e) && e@ == ErrorData::UnknownConfig("script"@),
            Some(script) => if script.len() == 0 {
                r matches Ok(None)
            } else {
                r matches Ok(Some(e)) && evaluates(e, config_entries(*config), "script"@, value@)
            },
        },
{
    begin(config, "script", value)
}

/// What is left to do after an evaluation: a text to log and a value to send
/// on.
#[derive(Debug)]
pub struct Evaluated {
    pub log: Option<String>,
    pub output: Option<AgentValue>,
}

/// The text to log of console output: without its trailing line breaks, if
/// there is any.
pub open spec fn console_lines(console: Seq<char>) -> Option<Seq<char>> {
    if console.len() == 0 {
        None
    } else {
        Some(trim_end_matches(console, '\n'))
    }
}

/// The value that an evaluation sends on, if it sends one: a unit is held
/// back where that is asked for.
pub open spec fn sent_value(skip_unit: bool, value: Data) -> Option<Data> {
    if skip_unit && value is Unit {
        None
    } else {
        Some(value)
    }
}

/// Ends an evaluation. A unit result is held back where that is asked for.
pub fn finish(skip_unit: bool, outcome: ZapOutcome) -> (r: Evaluated)
    ensures
        text_view(r.log) == console_lines(outcome.console@),
        match r.output {
            Some(v) => v@ == outcome.value@ && !(skip_unit && outcome.value@ == Data::Unit),
            None => skip_unit && outcome.value@ == Data::Unit,
        },
        match r.output {
            Some(v) => sent_value(skip_unit, outcome.value@) == Some(v@),
            None => sent_value(skip_unit, outcome.value@) is None,
        },
{
    let log = if outcome.console.as_str().unicode_len() == 0 {
        None
    } else {
        Some(without_trailing_newlines(outcome.console.as_str()).to_string())
    };
    let output = match outcome.value {
        AgentValue::Unit => if skip_unit {
            None
        } else {
            Some(AgentValue::Unit)
        },
        value => Some(value),
    };
    Evaluated { log, output }
}

/// An evaluation runs the text that the configuration holds under its key,
/// over the one variable `value`, and can call nothing but `callTool`.
pub proof fn configured_text_is_evaluated(
    e: Evaluation,
    es: Seq<(Seq<char>, Data)>,
    key: Seq<char>,
    value: Data,
)
    requires
        evaluates(e, es, key, value),
    ensures
        lookup(es, key) == Some(Data::String(e.source@)),
        e.inputs@.len() == 1,
        e.inputs@[0].0@ == "value"@,
        e.inputs@[0].1@ == value,
        e.externals@.len() == 1,
        e.externals@[0]@ == "callTool"@,
{
    let inputs = entry_views(e.inputs@);
    assert(inputs.len() == 1 && inputs[0] == ("value"@, value));
    assert(inputs[0] == (e.inputs@[0].0@, e.inputs@[0].1@));
    assert(views(e.externals@).len() == 1 && views(e.externals@)[0] == "callTool"@);
}

/// A result is held back only if it is a unit and the configuration holds the
/// boolean true under `skip_unit`. Every other result is sent on as it is: a
/// unit too, where `skip_unit` is false, missing or no boolean.
pub proof fn results_are_sent_on(
    e: Evaluation,
    es: Seq<(Seq<char>, Data)>,
    key: Seq<char>,
    value: Data,
    result: Data,
)
    requires
        evaluates(e, es, key, value),
    ensures
        e.skip_unit <==> lookup(es, "skip_unit"@) == Some(Data::Boolean(true)),
        sent_value(e.skip_unit, result) is None <==> result == Data::Unit && lookup(
            es,
            "skip_unit"@,
        ) == Some(Data::Boolean(true)),
        sent_value(e.skip_unit, result) matches Some(d) ==> d == result,
{
}

/// The logged text is all of the console output but for the line breaks at
/// its end; no output, no text.
pub proof fn console_is_logged_without_trailing_breaks(console: Seq<char>)
    ensures
        console_lines(console) is None <==> console.len() == 0,
        console_lines(console) matches Some(text) ==> {
            &&& text.is_prefix_of(console)
            &&& text.len() > 0 ==> text.last() != '\n'
            &&& forall|i: int| text.len() <= i < console.len() ==> #[trigger] console[i] == '\n'
        },
{
    trim_end_matches_cuts(console, '\n');
}

/// An expression module runs the text under `expr` of the configuration over `value`
/// alone. An empty text does nothing, and a missing one is an unknown
/// configuration.
pub proof fn expressions_are_evaluated(
    config: &modular_agent_core::ModuleConfigs,
    value: AgentValue,
    r: Result<Option<Evaluation>, AgentError>,
)
    requires
        call_ensures(begin_expr, (config, value), r),
    ensures
        match lookup(config_entries(*config), "expr"@) {
            Some(Data::String(text)) => if text.len() == 0 {
                r matches Ok(None)
            } else {
                r matches Ok(Some(e)) && {
                    &&& e.source@ == text
                    &&& e.inputs@.len() == 1
                    &&& e.inputs@[0].0@ == "value"@
                    &&& e.inputs@[0].1@ == value@
                    &&& e.externals@.len() == 1
                    &&& e.externals@[0]@ == "callTool"@
                    &&& e.skip_unit <==> lookup(config_entries(*config), "skip_unit"@) == Some(
                        Data::Boolean(true),
                    )
                }
            },
            _ => r matches Err(e) && e@ == ErrorData::UnknownConfig("expr"@),
        },
{
    if let Ok(Some(e)) = r {
        configured_text_is_evaluated(e, config_entries(*config), "expr"@, value@);
    }
}

/// A script module runs the text under `script` of the configuration over `value`
/// alone. An empty text does nothing, and a missing one is an unknown
/// configuration.
pub proof fn scripts_are_evaluated(
    config: &modular_agent_core::ModuleConfigs,
    value: AgentValue,
    r: Result<Option<Evaluation>, AgentError>,
)
    requires
        call_ensures(begin_script, (config, value), r),
    ensures
        match lookup(config_entries(*config), "script"@) {
            Some(Data::String(text)) => if text.len() == 0 {
                r matches Ok(None)
            } else {
                r matches Ok(Some(e)) && {
                    &&& e.source@ == text
                    &&& e.inputs@.len() == 1
                    &&& e.inputs@[0].0@ == "value"@
                    &&& e.inputs@[0].1@ == value@
                    &&& e.externals@.len() == 1
                    &&& e.externals@[0]@ == "callTool"@
                    &&& e.skip_unit <==> lookup(config_entries(*config), "skip_unit"@) == Some(
                        Data::Boolean(true),
                    )
                }
            },
            _ => r matches Err(e) && e@ == ErrorData::UnknownConfig("script"@),
        },
{
    if let Ok(Some(e)) = r {
        configured_text_is_evaluated(e, config_entries(*config), "script"@, value@);
    }
}

/// The result of an evaluation is what is sent on, whatever it is, but for a
/// unit that is asked to be skipped; it is never replaced by another value.
pub proof fn evaluations_output_their_result(skip_unit: bool, outcome: ZapOutcome, r: Evaluated)
    requires
        call_ensures(finish, (skip_unit, outcome), r),
    ensures
        r.output is None <==> skip_unit && outcome.value@ == Data::Unit,
        r.output matches Some(v) ==> v@ == outcome.value@,
        r.log is None <==> outcome.console@.len() == 0,
        r.log matches Some(text) ==> text@.is_prefix_of(outcome.console@) && forall|i: int|
            text@.len() <= i < outcome.console@.len() ==> #[trigger] outcome.console@[i] == '\n',
        r.log matches Some(text) ==> text@.len() > 0 ==> text@.last() != '\n',
{
    console_is_logged_without_trailing_breaks(outcome.console@);
}

} // verus!

//! The script node: a node whose ports, configuration values and behavior a
//! script defines.

use vstd::hash_map::StringHashMap;
use vstd::prelude::*;

use crate::bridge::ZapOutcome;
use crate::configs::{config_entries, config_value, string_or_default};
use crate::declaration::{declaration_view, value_port, Declaration, DeclarationData};
use crate::describe::{applied, describe_and_apply, described_and_applied, may_describe};
use crate::entries::{entry_views, keys_of, lookup};
use crate::error::{AgentError, ErrorData};
use crate::exchange::{json_string, json_text};
use crate::pictures::{is_writable, writable};
use crate::shape::{text_view, AgentSpec, SpecData};
use crate::stale::{restore_stale_configs, restored_shape, shapes_get_their_values_back};
use crate::text::{
    concat, concat3, copy_list, is_blank, join, joined, list_has, same, trim, trim_end,
    trim_end_cuts_space, views, white_space, without_trailing_space,
};
use crate::value::{text_in, tidy, value_argument, value_views, AgentValue, Data};

verus! {

/// The state that a script keeps across runs. It lives in memory only.
pub struct NodeState {
    values: StringHashMap<AgentValue>,
}

impl View for NodeState {
    type V = Map<Seq<char>, Data>;

    closed spec fn view(&self) -> Map<Seq<char>, Data> {
        self.values@.map_values(|v: AgentValue| v@)
    }
}

impl NodeState {
    /// No state.
    pub fn new() -> (r: NodeState)
        ensures
            r@ == Map::<Seq<char>, Data>::empty(),
    {
        let r = NodeState { values: StringHashMap::new() };
        assert(r@ =~= Map::<Seq<char>, Data>::empty());
        r
    }

    /// The value under `key`.
    pub fn get(&self, key: &str) -> (r: Option<&AgentValue>)
        ensures
            match r {
                Some(v) => self@.contains_key(key@) && self@[key@] == v@,
                None => !self@.contains_key(key@),
            },
    {
        self.values.get(key)
    }

    /// Stores a value under `key`.
    pub fn insert(&mut self, key: String, value: AgentValue)
        ensures
            final(self)@ == old(self)@.insert(key@, value@),
    {
        let ghost before = self@;
        self.values.insert(key, value);
        assert(self@ =~= before.insert(key@, value@));
    }
}

/// What the host does for a call of the script.
#[derive(Debug)]
pub enum HostAction {
    /// The call has this result.
    Answer(Result<AgentValue, AgentError>),
    /// The message goes to the log, and the result is unit.
    Log(String),
    /// The tool is called, and its result is the result.
    CallTool(String, AgentValue),
}

/// What the host does for a call of the script, as contracts speak of it.
pub enum ActionData {
    Answer(Result<Data, ErrorData>),
    Log(Seq<char>),
    CallTool(Seq<char>, Data),
}

impl View for HostAction {
    type V = ActionData;

    open spec fn view(&self) -> ActionData {
        match *self {
            HostAction::Answer(Ok(v)) => ActionData::Answer(Ok(v@)),
            HostAction::Answer(Err(e)) => ActionData::Answer(Err(e@)),
            HostAction::Log(s) => ActionData::Log(s@),
            HostAction::CallTool(name, args) => ActionData::CallTool(name@, args@),
        }
    }
}

/// Serves the host functions that are available while a node runs.
#[derive(Debug)]
pub struct ProcessHandler {
    /// The configuration of the node.
    pub configs: modular_agent_core::ModuleConfigs,
    /// The declared output ports.
    pub outputs: Vec<String>,
    /// What the script has emitted so far, in order.
    pub emits: Vec<(String, AgentValue)>,
}

/// A handler, as contracts speak of it.
pub struct HandlerData {
    pub configs: Seq<(Seq<char>, Data)>,
    pub outputs: Seq<Seq<char>>,
    pub emits: Seq<(Seq<char>, Data)>,
}

impl View for ProcessHandler {
    type V = HandlerData;

    open spec fn view(&self) -> HandlerData {
        HandlerData {
            configs: config_entries(self.configs),
            outputs: views(self.outputs@),
            emits: entry_views(self.emits@),
        }
    }
}

/// The text that a call has at `index`, or the error that says how the
/// function is used.
pub open spec fn text_argument(args: Seq<Data>, index: int, usage: Seq<char>) -> Result<
    Seq<char>,
    ErrorData,
> {
    if 0 <= index < args.len() && text_in(args[index]) is Some {
        Ok(text_in(args[index])->0)
    } else {
        Err(ErrorData::InvalidValue("ZapCode runtime error: "@ + usage))
    }
}

/// The error for an emit to a port that is not declared.
pub open spec fn undeclared_port(port: Seq<char>, outputs: Seq<Seq<char>>) -> ErrorData {
    ErrorData::InvalidValue(
        "ZapCode runtime error: emit to undeclared output port `"@ + port
            + "` (declared outputs: "@ + joined(outputs, ", "@) + ")"@,
    )
}

/// What is logged for the arguments of `log`: text as it is, anything else as
/// JSON. A value that cannot be written fails the call.
pub open spec fn logged(args: Seq<Data>) -> ActionData {
    if args.len() == 0 {
        ActionData::Log(Seq::empty())
    } else {
        match args[0] {
            Data::String(s) => ActionData::Log(s),
            other => if writable(tidy(other)) {
                ActionData::Log(json_text(tidy(other)))
            } else {
                ActionData::Answer(Err(unwritable()))
            },
        }
    }
}

/// The error for a value that cannot be written to the log.
pub open spec fn unwritable() -> ErrorData {
    ErrorData::InvalidValue(
        "ZapCode runtime error: log got an image that cannot be encoded"@,
    )
}

/// The error for a call to a function that a node does not offer.
pub open spec fn unknown_function(name: Seq<char>) -> ErrorData {
    ErrorData::InvalidValue(
        "ZapCode runtime error: unknown external function `"@ + name + "`"@,
    )
}

/// A handler and a state after a call, and what the host does for it.
pub struct Handled {
    pub emits: Seq<(Seq<char>, Data)>,
    pub state: Map<Seq<char>, Data>,
    pub action: ActionData,
}

/// What a call of a host function does.
pub open spec fn handled(
    h: HandlerData,
    state: Map<Seq<char>, Data>,
    name: Seq<char>,
    args: Seq<Data>,
) -> Handled {
    let same = |action: ActionData| Handled { emits: h.emits, state, action };
    if name == "emit"@ {
        match text_argument(args, 0, "emit expects (port, value)"@) {
            Err(x) => same(ActionData::Answer(Err(x))),
            Ok(port) => if h.outputs.contains(port) {
                Handled {
                    emits: h.emits.push((port, value_argument(args, 1))),
                    state,
                    action: ActionData::Answer(Ok(Data::Unit)),
                }
            } else {
                same(ActionData::Answer(Err(undeclared_port(port, h.outputs))))
            },
        }
    } else if name == "getConfig"@ {
        match text_argument(args, 0, "getConfig expects (name)"@) {
            Err(x) => same(ActionData::Answer(Err(x))),
            Ok(key) => same(
                ActionData::Answer(
                    Ok(
                        match lookup(h.configs, key) {
                            Some(v) => v,
                            None => Data::Unit,
                        },
                    ),
                ),
            ),
        }
    } else if name == "getState"@ {
        match text_argument(args, 0, "getState expects (key)"@) {
            Err(x) => same(ActionData::Answer(Err(x))),
            Ok(key) => same(
                ActionData::Answer(
                    Ok(
                        if state.contains_key(key) {
                            state[key]
                        } else {
                            Data::Unit
                        },
                    ),
                ),
            ),
        }
    } else if name == "setState"@ {
        match text_argument(args, 0, "setState expects (key, value)"@) {
            Err(x) => same(ActionData::Answer(Err(x))),
            Ok(key) => Handled {
                emits: h.emits,
                state: state.insert(key, value_argument(args, 1)),
                action: ActionData::Answer(Ok(Data::Unit)),
            },
        }
    } else if name == "log"@ {
        same(logged(args))
    } else if name == "callTool"@ {
        match text_argument(args, 0, "callTool expects (name, args)"@) {
            Err(x) => same(ActionData::Answer(Err(x))),
            Ok(tool) => same(ActionData::CallTool(tool, value_argument(args, 1))),
        }
    } else {
        same(ActionData::Answer(Err(unknown_function(name))))
    }
}

impl ProcessHandler {
    /// The text that a call has at `index`.
    pub fn string_arg(args: &Vec<AgentValue>, index: usize, usage: &str) -> (r: Result<
        String,
        AgentError,
    >)
        ensures
            match text_argument(value_views(args@), index as int, usage@) {
                Ok(s) => r matches Ok(t) && t@ == s,
                Err(x) => r matches Err(e) && e@ == x,
            },
    {
        if index < args.len() {
            assert(value_views(args@)[index as int] == args@[index as int]@);
            if let Some(s) = args[index].as_str() {
                return Ok(s.to_string());
            }
        }
        Err(AgentError::InvalidValue(concat("ZapCode runtime error: ", usage)))
    }

    /// The value that a call has at `index`; unit if there is none.
    pub fn value_arg(args: &Vec<AgentValue>, index: usize) -> (r: AgentValue)
        ensures
            r@ == value_argument(value_views(args@), index as int),
    {
        if index < args.len() {
            args[index].copy()
        } else {
            AgentValue::Unit
        }
    }

    fn emit(&mut self, args: &Vec<AgentValue>) -> (r: Result<AgentValue, AgentError>)
        ensures
            ({
                let done = handled(old(self)@, Map::empty(), "emit"@, value_views(args@));
                &&& final(self)@.configs == old(self)@.configs
                &&& final(self)@.outputs == old(self)@.outputs
                &&& final(self)@.emits == done.emits
                &&& HostAction::Answer(r)@ == done.action
            }),
    {
        let port = match ProcessHandler::string_arg(args, 0, "emit expects (port, value)") {
            Ok(port) => port,
            Err(e) => {
                return Err(e);
            },
        };
        if !list_has(&self.outputs, port.as_str()) {
            let mut text = concat3(
                "ZapCode runtime error: emit to undeclared output port `",
                port.as_str(),
                "` (declared outputs: ",
            );
            text.append(join(&self.outputs, ", ").as_str());
            text.append(")");
            return Err(AgentError::InvalidValue(text));
        }
        let ghost before = entry_views(self.emits@);
        let value = ProcessHandler::value_arg(args, 1);
        self.emits.push((port, value));
        assert(entry_views(self.emits@) =~= before.push((port@, value@)));
        Ok(AgentValue::Unit)
    }

    /// Serves a call of a host function.
    pub fn call(&mut self, state: &mut NodeState, name: &str, args: &Vec<AgentValue>) -> (r:
        HostAction)
        ensures
            ({
                let done = handled(old(self)@, old(state)@, name@, value_views(args@));
                &&& final(self)@.configs == old(self)@.configs
                &&& final(self)@.outputs == old(self)@.outputs
                &&& final(self)@.emits == done.emits
                &&& final(state)@ == done.state
                &&& r@ == done.action
            }),
    {
        if same(name, "emit") {
            HostAction::Answer(self.emit(args))
        } else if same(name, "getConfig") {
            match ProcessHandler::string_arg(args, 0, "getConfig expects (name)") {
                Err(e) => HostAction::Answer(Err(e)),
                Ok(key) => match config_value(&self.configs, key.as_str()) {
                    Some(v) => HostAction::Answer(Ok(v)),
                    None => HostAction::Answer(Ok(AgentValue::Unit)),
                },
            }
        } else if same(name, "getState") {
            match ProcessHandler::string_arg(args, 0, "getState expects (key)") {
                Err(e) => HostAction::Answer(Err(e)),
                Ok(key) => match state.get(key.as_str()) {
                    Some(v) => HostAction::Answer(Ok(v.copy())),
                    None => HostAction::Answer(Ok(AgentValue::Unit)),
                },
            }
        } else if same(name, "setState") {
            match ProcessHandler::string_arg(args, 0, "setState expects (key, value)") {
                Err(e) => HostAction::Answer(Err(e)),
                Ok(key) => {
                    state.insert(key, ProcessHandler::value_arg(args, 1));
                    HostAction::Answer(Ok(AgentValue::Unit))
                },
            }
        } else if same(name, "log") {
            let ghost all = value_views(args@);
            if args.len() == 0 {
                let empty = String::new();
                assert(empty@ =~= Seq::<char>::empty());
                HostAction::Log(empty)
            } else {
                assert(all[0] == args@[0]@);
                match &args[0] {
                    AgentValue::String(s) => HostAction::Log(s.clone()),
                    other => if is_writable(other) {
                        HostAction::Log(json_string(other))
                    } else {
                        HostAction::Answer(
                            Err(
                                AgentError::InvalidValue(
                                    "ZapCode runtime error: log got an image that cannot be encoded".to_string(),
                                ),
                            ),
                        )
                    },
                }
            }
        } else if same(name, "callTool") {
            match ProcessHandler::string_arg(args, 0, "callTool expects (name, args)") {
                Err(e) => HostAction::Answer(Err(e)),
                Ok(tool) => HostAction::CallTool(tool, ProcessHandler::value_arg(args, 1)),
            }
        } else {
            HostAction::Answer(
                Err(
                    AgentError::InvalidValue(
                        concat3("ZapCode runtime error: unknown external function `", name, "`"),
                    ),
                ),
            )
        }
    }
}

/// The names of the host functions are all different.
proof fn names_differ()
    ensures
        "emit"@ != "getConfig"@,
        "emit"@ != "getState"@,
        "emit"@ != "setState"@,
        "emit"@ != "log"@,
        "emit"@ != "callTool"@,
        "getConfig"@ != "getState"@,
        "getConfig"@ != "setState"@,
        "getConfig"@ != "log"@,
        "getConfig"@ != "callTool"@,
        "getState"@ != "setState"@,
        "getState"@ != "log"@,
        "setState"@ != "log"@,
        "setState"@ != "callTool"@,
        "getState"@ != "callTool"@,
        "log"@ != "callTool"@,
{
    reveal_strlit("emit");
    reveal_strlit("getConfig");
    reveal_strlit("getState");
    reveal_strlit("setState");
    reveal_strlit("log");
    reveal_strlit("callTool");
    assert("emit"@.len() == 4);
    assert("getConfig"@.len() == 9);
    assert("getState"@.len() == 8 && "getState"@[0] == 'g');
    assert("setState"@.len() == 8 && "setState"@[0] == 's');
    assert("log"@.len() == 3);
    assert("callTool"@.len() == 8 && "callTool"@[0] == 'c');
}

/// Whether a handler has emitted to declared ports only.
pub open spec fn emits_declared(h: HandlerData) -> bool {
    forall|i: int| 0 <= i < h.emits.len() ==> h.outputs.contains((#[trigger] h.emits[i]).0)
}

/// Whatever a script calls, it emits to declared ports only, and what it has
/// emitted stays in its place.
pub proof fn calls_emit_to_declared_ports(
    h: HandlerData,
    state: Map<Seq<char>, Data>,
    name: Seq<char>,
    args: Seq<Data>,
)
    requires
        emits_declared(h),
    ensures
        emits_declared(
            HandlerData { emits: handled(h, state, name, args).emits, ..h },
        ),
        h.emits.is_prefix_of(handled(h, state, name, args).emits),
        handled(h, state, name, args).emits.len() <= h.emits.len() + 1,
{
}

/// A script reads back the state that it has written: `getState` after
/// `setState` gives the value for that key, and for every other key what it
/// gave before.
pub proof fn state_reads_back(
    h: HandlerData,
    state: Map<Seq<char>, Data>,
    key: Seq<char>,
    value: Data,
    other: Seq<char>,
)
    ensures
        ({
            let set = handled(h, state, "setState"@, seq![Data::String(key), value]);
            let got = handled(h, set.state, "getState"@, seq![Data::String(other)]);
            &&& set.action == ActionData::Answer(Ok(Data::Unit))
            &&& got.state == set.state
            &&& other == key ==> got.action == ActionData::Answer(Ok(value))
            &&& other != key ==> got.action == handled(
                h,
                state,
                "getState"@,
                seq![Data::String(other)],
            ).action
        }),
{
    names_differ();
    let args = seq![Data::String(key), value];
    assert(args[0] == Data::String(key) && args[1] == value);
    let ask = seq![Data::String(other)];
    assert(ask[0] == Data::String(other));
}

/// Only `setState` writes the state, and only `emit` emits; a call that fails
/// does neither.
pub proof fn calls_change_little(
    h: HandlerData,
    state: Map<Seq<char>, Data>,
    name: Seq<char>,
    args: Seq<Data>,
)
    ensures
        name != "setState"@ ==> handled(h, state, name, args).state == state,
        name != "emit"@ ==> handled(h, state, name, args).emits == h.emits,
        handled(h, state, name, args).action matches ActionData::Answer(Err(_)) ==> handled(
            h,
            state,
            name,
            args,
        ).state == state && handled(h, state, name, args).emits == h.emits,
{
}

/// A node and what it remembers between runs.
pub struct Node {
    /// The output ports of the last declaration that was applied. Emits are
    /// held against these.
    pub outputs: Vec<String>,
    /// The script whose declaration was last applied.
    pub valid_script: Option<String>,
    /// The state of the script.
    pub state: NodeState,
}

/// A node, as contracts speak of it.
pub struct NodeData {
    pub outputs: Seq<Seq<char>>,
    pub valid_script: Option<Seq<char>>,
    pub state: Map<Seq<char>, Data>,
}

impl View for Node {
    type V = NodeData;

    open spec fn view(&self) -> NodeData {
        NodeData {
            outputs: views(self.outputs@),
            valid_script: text_view(self.valid_script),
            state: self.state@,
        }
    }
}

/// The script of a node.
pub open spec fn script_in(s: SpecData) -> Seq<char> {
    match s.configs {
        Some(es) => string_or_default(es, "script"@),
        None => Seq::empty(),
    }
}

/// The output ports of a shape, by default one called `value`.
pub open spec fn outputs_in(s: SpecData) -> Seq<Seq<char>> {
    match s.outputs {
        Some(ports) => ports,
        None => value_port(),
    }
}

/// A node that is taken in with a script, where applying its declaration
/// yields `found`.
pub open spec fn taken_in(
    s: SpecData,
    script: Seq<char>,
    found: Result<DeclarationData, ErrorData>,
) -> NodeData {
    match found {
        Ok(decl) => NodeData {
            outputs: decl.outputs,
            valid_script: Some(script),
            state: Map::empty(),
        },
        Err(_) => NodeData { outputs: outputs_in(s), valid_script: None, state: Map::empty() },
    }
}

/// The shape of a node that is taken in.
pub open spec fn reshaped(s: SpecData, found: Result<DeclarationData, ErrorData>) -> SpecData {
    match found {
        Ok(decl) => applied(s, decl)->Ok_0,
        Err(_) => restored_shape(s),
    }
}

fn default_outputs(spec: &AgentSpec) -> (r: Vec<String>)
    ensures
        views(r@) == outputs_in(spec@),
{
    match &spec.outputs {
        Some(ports) => copy_list(ports),
        None => {
            let mut r: Vec<String> = Vec::new();
            r.push("value".to_string());
            assert(views(r@) =~= value_port());
            r
        },
    }
}

impl Node {
    /// Takes in a node whose declaration was applied, or failed to be. A
    /// broken script does not kill the node: it keeps its shape, and its
    /// parked values are restored for a later declaration. The error is
    /// handed back to be reported.
    pub fn take_in(
        script: String,
        found: Result<Declaration, AgentError>,
        spec: &mut AgentSpec,
    ) -> (r: (Node, Option<AgentError>))
        ensures
            r.0@ == taken_in(old(spec)@, script@, declaration_view(found)),
            match found {
                Ok(_) => r.1 is None && *final(spec) == *old(spec),
                Err(e) => r.1 == Some(e) && final(spec)@ == restored_shape(old(spec)@),
            },
    {
        match found {
            Ok(decl) => {
                let node = Node {
                    outputs: decl.outputs,
                    valid_script: Some(script),
                    state: NodeState::new(),
                };
                (node, None)
            },
            Err(e) => {
                let outputs = default_outputs(spec);
                restore_stale_configs(spec);
                (Node { outputs, valid_script: None, state: NodeState::new() }, Some(e))
            },
        }
    }

    /// Takes in a node with the shape that was saved for it, and reshapes it
    /// by the declaration of its script.
    pub fn new(spec: &mut AgentSpec) -> (r: (Node, Option<AgentError>))
        ensures
            exists|found: Result<DeclarationData, ErrorData>| #[trigger]
                may_describe(script_in(old(spec)@), found) && {
                    let done = described_and_applied(found, old(spec)@);
                    &&& r.0@ == taken_in(old(spec)@, script_in(old(spec)@), done)
                    &&& final(spec)@ == reshaped(old(spec)@, done)
                    &&& match done {
                        Ok(_) => r.1 is None,
                        Err(x) => r.1 matches Some(e) && e@ == x,
                    }
                },
    {
        let script = match &spec.configs {
            Some(c) => c.get_string_or_default("script"),
            None => {
                let empty = String::new();
                assert(empty@ =~= Seq::empty());
                empty
            },
        };
        let ghost before = spec@;
        let found = describe_and_apply(script.as_str(), spec);
        let ghost seen = choose|seen: Result<DeclarationData, ErrorData>| #[trigger]
            may_describe(script@, seen) && declaration_view(found) == described_and_applied(
                seen,
                before,
            );
        assert(may_describe(script_in(before), seen));
        Node::take_in(script, found, spec)
    }

    /// Follows a change of the configuration: a new script is described and
    /// applied. Tells whether the shape has changed. A script that fails
    /// leaves everything as it was.
    pub fn configs_changed(&mut self, spec: &mut AgentSpec) -> (r: Result<bool, AgentError>)
        ensures
            final(self)@.state == old(self)@.state,
            r is Err || r == Ok::<bool, AgentError>(false) ==> final(self)@ == old(self)@
                && *final(spec) == *old(spec),
            old(spec)@.configs is None ==> (r matches Err(e) && e@ == ErrorData::NoConfig),
            old(spec)@.configs is Some ==> {
                let script = script_in(old(spec)@);
                if old(self)@.valid_script == Some(script) {
                    r == Ok::<bool, AgentError>(false)
                } else {
                    exists|found: Result<DeclarationData, ErrorData>| #[trigger]
                        may_describe(script, found) && match described_and_applied(
                            found,
                            old(spec)@,
                        ) {
                            Ok(decl) => {
                                &&& r == Ok::<bool, AgentError>(true)
                                &&& final(self)@.outputs == decl.outputs
                                &&& final(self)@.valid_script == Some(script)
                                &&& applied(old(spec)@, decl) == Ok::<SpecData, ErrorData>(
                                    final(spec)@,
                                )
                            },
                            Err(x) => r matches Err(e) && e@ == x,
                        }
                }
            },
    {
        let script = match &spec.configs {
            Some(c) => c.get_string_or_default("script"),
            None => {
                return Err(AgentError::NoConfig);
            },
        };
        if let Some(valid) = &self.valid_script {
            if same(valid.as_str(), script.as_str()) {
                return Ok(false);
            }
        }
        match describe_and_apply(script.as_str(), spec) {
            Ok(decl) => {
                self.outputs = decl.outputs;
                self.valid_script = Some(script);
                Ok(true)
            },
            Err(e) => Err(e),
        }
    }
}

/// Every function that is declared to the script of a node is served: no call
/// of one is answered as unknown.
pub proof fn declared_functions_are_served(
    h: HandlerData,
    state: Map<Seq<char>, Data>,
    name: Seq<char>,
    args: Seq<Data>,
)
    requires
        node_externals().contains(name),
    ensures
        handled(h, state, name, args).action != ActionData::Answer(Err(unknown_function(name))),
{
    reveal_strlit("ZapCode runtime error: ");
    reveal_strlit("ZapCode runtime error: unknown external function `");
    reveal_strlit("ZapCode runtime error: emit to undeclared output port `");
    reveal_strlit("ZapCode runtime error: log got an image that cannot be encoded");
    reveal_strlit("emit expects (port, value)");
    reveal_strlit("getConfig expects (name)");
    reveal_strlit("getState expects (key)");
    reveal_strlit("setState expects (key, value)");
    reveal_strlit("callTool expects (name, args)");
    let unknown = unknown_function(name)->InvalidValue_0;
    assert(unknown[23] == 'u');
    match handled(h, state, name, args).action {
        ActionData::Answer(Err(ErrorData::InvalidValue(text))) => {
            assert(text[23] != 'u');
        },
        _ => {},
    }
}

/// A run of a node that is about to start.
#[derive(Debug)]
pub struct NodeRun {
    pub source: String,
    pub inputs: Vec<(String, AgentValue)>,
    pub externals: Vec<String>,
    pub handler: ProcessHandler,
}

/// The host functions that a node offers its script.
pub open spec fn node_externals() -> Seq<Seq<char>> {
    seq!["emit"@, "getConfig"@, "getState"@, "setState"@, "log"@, "callTool"@]
}

/// What runs when a value arrives: the script, and then its `onInput`.
/// Awaiting it makes no difference to a plain function.
pub open spec fn input_source(script: Seq<char>) -> Seq<char> {
    script + "\nawait onInput(__port__, __value__)"@
}

fn node_external_list() -> (r: Vec<String>)
    ensures
        views(r@) == node_externals(),
{
    let mut r: Vec<String> = Vec::new();
    r.push("emit".to_string());
    r.push("getConfig".to_string());
    r.push("getState".to_string());
    r.push("setState".to_string());
    r.push("log".to_string());
    r.push("callTool".to_string());
    assert(views(r@) =~= node_externals());
    r
}

impl Node {
    /// Prepares the run for a value that arrives at a port. An empty script
    /// does nothing.
    pub fn begin(
        &self,
        configs: &modular_agent_core::ModuleConfigs,
        port: String,
        value: AgentValue,
    ) -> (r: Option<NodeRun>)
        ensures
            ({
                let script = string_or_default(config_entries(*configs), "script"@);
                match r {
                    None => trim(script).len() == 0,
                    Some(run) => {
                        &&& trim(script).len() > 0
                        &&& run.source@ == input_source(script)
                        &&& entry_views(run.inputs@) == seq![
                            ("__port__"@, Data::String(port@)),
                            ("__value__"@, value@),
                        ]
                        &&& views(run.externals@) == node_externals()
                        &&& run.handler@.configs == config_entries(*configs)
                        &&& run.handler@.outputs == self@.outputs
                        &&& run.handler@.emits == Seq::<(Seq<char>, Data)>::empty()
                    },
                }
            }),
    {
        let script = configs.get_string_or_default("script");
        if is_blank(script.as_str()) {
            return None;
        }
        let mut inputs: Vec<(String, AgentValue)> = Vec::new();
        inputs.push(("__port__".to_string(), AgentValue::String(port)));
        inputs.push(("__value__".to_string(), value));
        let emits: Vec<(String, AgentValue)> = Vec::new();
        proof {
            assert(entry_views(inputs@) =~= seq![
                ("__port__"@, Data::String(port@)),
                ("__value__"@, value@),
            ]);
            assert(entry_views(emits@) =~= Seq::empty());
        }
        Some(
            NodeRun {
                source: concat(script.as_str(), "\nawait onInput(__port__, __value__)"),
                inputs,
                externals: node_external_list(),
                handler: ProcessHandler {
                    configs: configs.clone(),
                    outputs: copy_list(&self.outputs),
                    emits,
                },
            },
        )
    }
}

/// What is left to do after a run: a text to log and values to send on.
#[derive(Debug)]
pub struct Delivery {
    pub log: Option<String>,
    pub emits: Vec<(String, AgentValue)>,
}

/// Console output without its trailing whitespace, if there is any.
pub open spec fn console_text(console: Seq<char>) -> Option<Seq<char>> {
    if console.len() == 0 {
        None
    } else {
        Some(trim_end(console))
    }
}

/// Console output without its trailing whitespace, if there is any.
pub fn console_log(console: &str) -> (r: Option<String>)
    ensures
        text_view(r) == console_text(console@),
{
    if console.unicode_len() == 0 {
        None
    } else {
        Some(without_trailing_space(console).to_string())
    }
}

impl ProcessHandler {
    /// Ends a run. What the script has emitted is delivered, in order, if the
    /// run succeeded; a failed run delivers nothing.
    pub fn deliver(self, result: Result<ZapOutcome, AgentError>) -> (r: Result<
        Delivery,
        AgentError,
    >)
        ensures
            match result {
                Ok(outcome) => r matches Ok(d) && text_view(d.log) == console_text(outcome.console@)
                    && entry_views(d.emits@) == self@.emits,
                Err(e) => r == Err::<Delivery, AgentError>(e),
            },
    {
        match result {
            Ok(outcome) => Ok(
                Delivery { log: console_log(outcome.console.as_str()), emits: self.emits },
            ),
            Err(e) => Err(e),
        }
    }
}

/// `emit` with a declared port collects the value for that port, behind what
/// was emitted before, and answers unit. Without a value it emits unit.
pub proof fn emits_go_to_the_named_port(
    h: HandlerData,
    state: Map<Seq<char>, Data>,
    port: Seq<char>,
    args: Seq<Data>,
)
    requires
        args.len() > 0,
        args[0] == Data::String(port),
        h.outputs.contains(port),
    ensures
        ({
            let done = handled(h, state, "emit"@, args);
            &&& done.emits.len() == h.emits.len() + 1
            &&& h.emits.is_prefix_of(done.emits)
            &&& done.emits.last().0 == port
            &&& args.len() > 1 ==> done.emits.last().1 == args[1]
            &&& args.len() == 1 ==> done.emits.last().1 == Data::Unit
            &&& done.state == state
            &&& done.action == ActionData::Answer(Ok(Data::Unit))
        }),
{
}

/// `emit` to a port that is not declared fails, naming the port and the
/// declared ones, and emits nothing.
pub proof fn emits_to_other_ports_fail(
    h: HandlerData,
    state: Map<Seq<char>, Data>,
    port: Seq<char>,
    args: Seq<Data>,
)
    requires
        args.len() > 0,
        args[0] == Data::String(port),
        !h.outputs.contains(port),
    ensures
        ({
            let done = handled(h, state, "emit"@, args);
            &&& done.emits == h.emits
            &&& done.state == state
            &&& done.action == ActionData::Answer(
                Err(
                    ErrorData::InvalidValue(
                        "ZapCode runtime error: emit to undeclared output port `"@ + port
                            + "` (declared outputs: "@ + joined(h.outputs, ", "@) + ")"@,
                    ),
                ),
            )
        }),
{
}

/// `getConfig` answers the configured value of that name, and unit where
/// there is none.
pub proof fn configs_are_answered(
    h: HandlerData,
    state: Map<Seq<char>, Data>,
    key: Seq<char>,
    args: Seq<Data>,
)
    requires
        args.len() > 0,
        args[0] == Data::String(key),
    ensures
        ({
            let done = handled(h, state, "getConfig"@, args);
            &&& done.emits == h.emits
            &&& done.state == state
            &&& lookup(h.configs, key) matches Some(v) ==> done.action == ActionData::Answer(Ok(v))
            &&& lookup(h.configs, key) is None ==> done.action == ActionData::Answer(
                Ok(Data::Unit),
            )
        }),
{
    names_differ();
}

/// `getState` answers what the state holds under the key, and unit where it
/// holds nothing.
pub proof fn state_is_answered(
    h: HandlerData,
    state: Map<Seq<char>, Data>,
    key: Seq<char>,
    args: Seq<Data>,
)
    requires
        args.len() > 0,
        args[0] == Data::String(key),
    ensures
        ({
            let done = handled(h, state, "getState"@, args);
            &&& done.emits == h.emits
            &&& done.state == state
            &&& state.contains_key(key) ==> done.action == ActionData::Answer(Ok(state[key]))
            &&& !state.contains_key(key) ==> done.action == ActionData::Answer(Ok(Data::Unit))
        }),
{
    names_differ();
}

/// `setState` stores the value under the key and answers unit; every other
/// key holds what it held. Without a value it stores unit.
pub proof fn state_is_stored(
    h: HandlerData,
    state: Map<Seq<char>, Data>,
    key: Seq<char>,
    args: Seq<Data>,
)
    requires
        args.len() > 0,
        args[0] == Data::String(key),
    ensures
        ({
            let done = handled(h, state, "setState"@, args);
            &&& done.emits == h.emits
            &&& done.action == ActionData::Answer(Ok(Data::Unit))
            &&& done.state.contains_key(key)
            &&& args.len() > 1 ==> done.state[key] == args[1]
            &&& args.len() == 1 ==> done.state[key] == Data::Unit
            &&& done.state.remove(key) == state.remove(key)
        }),
{
    names_differ();
    let done = handled(h, state, "setState"@, args);
    assert(done.state.remove(key) =~= state.remove(key));
}

/// `log` hands its first argument to the log: a text as it is, any other
/// value that can be written as its JSON, and nothing as the empty text.
pub proof fn logs_say_the_first_argument(
    h: HandlerData,
    state: Map<Seq<char>, Data>,
    args: Seq<Data>,
)
    ensures
        ({
            let done = handled(h, state, "log"@, args);
            &&& done.emits == h.emits
            &&& done.state == state
            &&& args.len() == 0 ==> done.action == ActionData::Log(Seq::empty())
            &&& args.len() > 0 ==> (args[0] matches Data::String(s) ==> done.action
                == ActionData::Log(s))
            &&& args.len() > 0 && !(args[0] is String) && writable(tidy(args[0])) ==> done.action
                == ActionData::Log(json_text(tidy(args[0])))
            &&& args.len() > 0 && !(args[0] is String) && !writable(tidy(args[0])) ==> done.action
                == ActionData::Answer(
                Err(
                    ErrorData::InvalidValue(
                        "ZapCode runtime error: log got an image that cannot be encoded"@,
                    ),
                ),
            )
        }),
{
    names_differ();
}

/// `callTool` asks for the named tool with the arguments given, and with unit
/// where there are none.
pub proof fn tools_are_asked_for(
    h: HandlerData,
    state: Map<Seq<char>, Data>,
    tool: Seq<char>,
    args: Seq<Data>,
)
    requires
        args.len() > 0,
        args[0] == Data::String(tool),
    ensures
        ({
            let done = handled(h, state, "callTool"@, args);
            &&& done.emits == h.emits
            &&& done.state == state
            &&& args.len() > 1 ==> done.action == ActionData::CallTool(tool, args[1])
            &&& args.len() == 1 ==> done.action == ActionData::CallTool(tool, Data::Unit)
        }),
{
    names_differ();
}

/// A call whose first argument is missing or no text is answered with how the
/// function is used, and changes nothing.
pub proof fn wrong_calls_are_answered(
    h: HandlerData,
    state: Map<Seq<char>, Data>,
    name: Seq<char>,
    args: Seq<Data>,
)
    requires
        args.len() > 0 ==> !(args[0] is String),
    ensures
        ({
            let done = handled(h, state, name, args);
            let says = |text: Seq<char>|
                ActionData::Answer(Err(ErrorData::InvalidValue("ZapCode runtime error: "@ + text)));
            &&& done.emits == h.emits
            &&& done.state == state
            &&& name == "emit"@ ==> done.action == says("emit expects (port, value)"@)
            &&& name == "getConfig"@ ==> done.action == says("getConfig expects (name)"@)
            &&& name == "getState"@ ==> done.action == says("getState expects (key)"@)
            &&& name == "setState"@ ==> done.action == says("setState expects (key, value)"@)
            &&& name == "callTool"@ ==> done.action == says("callTool expects (name, args)"@)
        }),
{
    names_differ();
}

/// A function that a node does not offer is answered as unknown, by its name,
/// whatever the arguments; it changes nothing.
pub proof fn other_functions_are_unknown(
    h: HandlerData,
    state: Map<Seq<char>, Data>,
    name: Seq<char>,
    args: Seq<Data>,
)
    requires
        name != "emit"@,
        name != "getConfig"@,
        name != "getState"@,
        name != "setState"@,
        name != "log"@,
        name != "callTool"@,
    ensures
        ({
            let done = handled(h, state, name, args);
            &&& done.emits == h.emits
            &&& done.state == state
            &&& done.action == ActionData::Answer(
                Err(
                    ErrorData::InvalidValue(
                        "ZapCode runtime error: unknown external function `"@ + name + "`"@,
                    ),
                ),
            )
            &&& !node_externals().contains(name)
        }),
{
    let all = node_externals();
    if all.contains(name) {
        let i = choose|i: int| 0 <= i < all.len() && all[i] == name;
        assert(i == 0 || i == 1 || i == 2 || i == 3 || i == 4 || i == 5);
    }
}

/// A node offers its script these six functions.
pub proof fn node_functions_are_declared()
    ensures
        node_externals().len() == 6,
        node_externals().contains("emit"@),
        node_externals().contains("getConfig"@),
        node_externals().contains("getState"@),
        node_externals().contains("setState"@),
        node_externals().contains("log"@),
        node_externals().contains("callTool"@),
{
    let all = node_externals();
    assert(all[0] == "emit"@ && all[1] == "getConfig"@ && all[2] == "getState"@);
    assert(all[3] == "setState"@ && all[4] == "log"@ && all[5] == "callTool"@);
}

/// What runs for a value is the whole script and then the call of its
/// `onInput` with the port and the value.
pub proof fn scripts_run_before_their_input(script: Seq<char>)
    ensures
        script.is_prefix_of(input_source(script)),
        input_source(script).skip(script.len() as int)
            == "\nawait onInput(__port__, __value__)"@,
{
    let call = "\nawait onInput(__port__, __value__)"@;
    assert((script + call).skip(script.len() as int) =~= call);
}

/// A node with a valid script emits to the declared ports, remembers the
/// script and starts without state. One with a broken script keeps the ports
/// it was saved with, by default one called `value`, and remembers no script.
pub proof fn nodes_take_on_what_is_declared(
    s: SpecData,
    script: Seq<char>,
    found: Result<DeclarationData, ErrorData>,
)
    ensures
        ({
            let node = taken_in(s, script, found);
            &&& node.state == Map::<Seq<char>, Data>::empty()
            &&& found matches Ok(decl) ==> node.outputs == decl.outputs && node.valid_script
                == Some(script)
            &&& found is Err ==> node.valid_script is None
            &&& found is Err && s.outputs is Some ==> node.outputs == s.outputs->0
            &&& found is Err && s.outputs is None ==> node.outputs == seq!["value"@]
        }),
{
}

/// A node with a valid script has the declared ports, and one with a broken
/// script the ports and the descriptions that it had.
pub proof fn nodes_have_the_declared_ports(
    s: SpecData,
    found: Result<DeclarationData, ErrorData>,
)
    requires
        found matches Ok(decl) ==> applied(s, decl) is Ok,
    ensures
        found matches Ok(decl) ==> reshaped(s, found).inputs == Some(decl.inputs) && reshaped(
            s,
            found,
        ).outputs == Some(decl.outputs),
        found is Err ==> {
            &&& reshaped(s, found).inputs == s.inputs
            &&& reshaped(s, found).outputs == s.outputs
            &&& reshaped(s, found).config_specs == s.config_specs
            &&& reshaped(s, found).configs is Some <==> s.configs is Some
        },
{
}

/// The script of a node is the text that is configured under `script`; there
/// is none without a configuration, or where it is missing or no text.
pub proof fn scripts_are_configured(s: SpecData)
    ensures
        s.configs is None ==> script_in(s).len() == 0,
        s.configs matches Some(es) ==> {
            &&& lookup(es, "script"@) matches Some(Data::String(text)) ==> script_in(s) == text
            &&& !(lookup(es, "script"@) matches Some(Data::String(_))) ==> script_in(s).len() == 0
        },
{
}

/// The logged text is all of the console output but for the whitespace at its
/// end; no output, no text.
pub proof fn console_is_logged_without_trailing_space(console: Seq<char>)
    ensures
        console_text(console) is None <==> console.len() == 0,
        console_text(console) matches Some(text) ==> {
            &&& text.is_prefix_of(console)
            &&& text.len() > 0 ==> !white_space(text.last())
            &&& forall|i: int|
                text.len() <= i < console.len() ==> white_space(#[trigger] console[i])
        },
{
    trim_end_cuts_space(console);
}

/// Serving a call of `emit` with a declared port adds one emit behind the
/// others: the named port with the given value.
pub proof fn emit_collects_port_and_value(
    handler: &mut ProcessHandler,
    state: &mut NodeState,
    name: &str,
    args: &Vec<AgentValue>,
    port: Seq<char>,
    r: HostAction,
)
    requires
        call_ensures(ProcessHandler::call, (handler, state, name, args), r),
        name@ == "emit"@,
        args@.len() > 0,
        args@[0]@ == Data::String(port),
        views(old(handler).outputs@).contains(port),
    ensures
        final(handler)@.emits == old(handler)@.emits.push(
            (
                port,
                if args@.len() > 1 {
                    args@[1]@
                } else {
                    Data::Unit
                },
            ),
        ),
        final(handler)@.outputs == old(handler)@.outputs,
        final(handler)@.configs == old(handler)@.configs,
        final(state)@ == old(state)@,
        r@ == ActionData::Answer(Ok(Data::Unit)),
{
    let all = value_views(args@);
    assert(all[0] == args@[0]@);
    if args@.len() > 1 {
        assert(all[1] == args@[1]@);
    }
    emits_go_to_the_named_port(old(handler)@, old(state)@, port, all);
}

/// Serving a call of `setState` stores the given value under the given key and
/// leaves the other keys as they are; one of `getState` or `getConfig` answers
/// what is stored, and one of `callTool` passes the given arguments on. None of
/// them emits.
pub proof fn calls_are_served(
    handler: &mut ProcessHandler,
    state: &mut NodeState,
    name: &str,
    args: &Vec<AgentValue>,
    key: Seq<char>,
    r: HostAction,
)
    requires
        call_ensures(ProcessHandler::call, (handler, state, name, args), r),
        args@.len() > 0,
        args@[0]@ == Data::String(key),
    ensures
        ({
            let second = if args@.len() > 1 {
                args@[1]@
            } else {
                Data::Unit
            };
            let before = old(state)@;
            let after = final(state)@;
            &&& name@ != "emit"@ ==> final(handler)@ == old(handler)@
            &&& name@ != "setState"@ ==> after == before
            &&& name@ == "setState"@ ==> after == before.insert(key, second) && r@
                == ActionData::Answer(Ok(Data::Unit))
            &&& name@ == "getState"@ ==> r@ == ActionData::Answer(
                Ok(
                    if before.contains_key(key) {
                        before[key]
                    } else {
                        Data::Unit
                    },
                ),
            )
            &&& name@ == "getConfig"@ ==> match lookup(old(handler)@.configs, key) {
                Some(v) => r@ == ActionData::Answer(Ok(v)),
                None => r@ == ActionData::Answer(Ok(Data::Unit)),
            }
            &&& name@ == "log"@ ==> r@ == ActionData::Log(key)
            &&& name@ == "callTool"@ ==> r@ == ActionData::CallTool(key, second)
        }),
{
    names_differ();
    let all = value_views(args@);
    assert(all[0] == args@[0]@);
    if args@.len() > 1 {
        assert(all[1] == args@[1]@);
    }
}

/// What was emitted is delivered as it was emitted, in order, if the run
/// succeeded; a failed run delivers nothing, and its error is passed on.
pub proof fn emits_are_delivered(
    handler: ProcessHandler,
    result: Result<ZapOutcome, AgentError>,
    r: Result<Delivery, AgentError>,
)
    requires
        call_ensures(ProcessHandler::deliver, (handler, result), r),
    ensures
        result matches Err(e) ==> r == Err::<Delivery, AgentError>(e),
        result matches Ok(outcome) ==> {
            &&& r is Ok
            &&& r->Ok_0.emits@.len() == handler.emits@.len()
            &&& forall|i: int|
                0 <= i < handler.emits@.len() ==> (#[trigger] r->Ok_0.emits@[i]).0@
                    == handler.emits@[i].0@ && r->Ok_0.emits@[i].1@ == handler.emits@[i].1@
            &&& r->Ok_0.log is Some <==> outcome.console@.len() > 0
        },
{
    if r is Ok {
        let sent = entry_views(r->Ok_0.emits@);
        let kept = entry_views(handler.emits@);
        assert(sent.len() == kept.len());
        assert forall|i: int| 0 <= i < handler.emits@.len() implies (#[trigger]
        r->Ok_0.emits@[i]).0@ == handler.emits@[i].0@ && r->Ok_0.emits@[i].1@
            == handler.emits@[i].1@ by {
            assert(sent[i] == kept[i]);
        }
    }
}

/// A value that arrives runs the configured script, and then its `onInput` with
/// the port and the value. It can use the functions of a node, emits to the
/// ports of the node and starts with nothing emitted. A blank script does
/// nothing.
pub proof fn values_run_the_script(
    node: &Node,
    configs: &modular_agent_core::ModuleConfigs,
    port: String,
    value: AgentValue,
    r: Option<NodeRun>,
)
    requires
        call_ensures(Node::begin, (node, configs, port, value), r),
    ensures
        ({
            let script = match lookup(config_entries(*configs), "script"@) {
                Some(Data::String(s)) => s,
                _ => Seq::empty(),
            };
            &&& r is None <==> trim(script).len() == 0
            &&& r matches Some(run) ==> {
                &&& run.source@ == script + "\nawait onInput(__port__, __value__)"@
                &&& run.inputs@.len() == 2
                &&& run.inputs@[0].0@ == "__port__"@
                &&& run.inputs@[0].1@ == Data::String(port@)
                &&& run.inputs@[1].0@ == "__value__"@
                &&& run.inputs@[1].1@ == value@
                &&& views(run.externals@) == node_externals()
                &&& views(run.handler.outputs@) == views(node.outputs@)
                &&& config_entries(run.handler.configs) == config_entries(*configs)
                &&& run.handler.emits@.len() == 0
            }
        }),
{
    if let Some(run) = r {
        let inputs = entry_views(run.inputs@);
        assert(inputs.len() == 2);
        assert(inputs[0] == (run.inputs@[0].0@, run.inputs@[0].1@));
        assert(inputs[1] == (run.inputs@[1].0@, run.inputs@[1].1@));
        assert(entry_views(run.handler.emits@).len() == 0);
    }
}

/// A node that is taken in with a valid script emits to the declared ports. A
/// broken script does not kill it: it keeps its ports, and the values that were
/// parked have their names back. Either way it starts without state.
pub proof fn nodes_survive_broken_scripts(
    script: String,
    found: Result<Declaration, AgentError>,
    spec: &mut AgentSpec,
    r: (Node, Option<AgentError>),
    name: Seq<char>,
)
    requires
        call_ensures(Node::take_in, (script, found, spec), r),
    ensures
        r.0.state@ == Map::<Seq<char>, Data>::empty(),
        found matches Ok(decl) ==> {
            &&& views(r.0.outputs@) == views(decl.outputs@)
            &&& r.0@.valid_script == Some(script@)
            &&& r.1 is None
            &&& final(spec)@ == old(spec)@
        },
        found matches Err(e) ==> {
            &&& old(spec)@.outputs matches Some(ports) ==> views(r.0.outputs@) == ports
            &&& old(spec)@.outputs is None ==> views(r.0.outputs@) == seq!["value"@]
            &&& r.0.valid_script is None
            &&& r.1 == Some(e)
            &&& final(spec)@.inputs == old(spec)@.inputs
            &&& final(spec)@.outputs == old(spec)@.outputs
            &&& final(spec)@.config_specs == old(spec)@.config_specs
        },
        found is Err && name.len() > 0 && name[0] != '_' ==> (old(spec)@.configs matches Some(es)
            ==> (keys_of(es).no_duplicates() ==> {
            &&& final(spec)@.configs is Some
            &&& lookup(es, name) is Some ==> lookup(final(spec)@.configs->0, name) == lookup(
                es,
                name,
            )
            &&& lookup(es, name) is None ==> lookup(final(spec)@.configs->0, name) == lookup(
                es,
                seq!['_'] + name,
            )
        })),
{
    if found is Err && name.len() > 0 && name[0] != '_' {
        if let Some(es) = old(spec)@.configs {
            if keys_of(es).no_duplicates() {
                shapes_get_their_values_back(old(spec)@, name);
            }
        }
    }
}

/// A change of the configuration reshapes a node only if the script is a new
/// one and its declaration can be applied: then it has the declared ports and
/// emits to them. Otherwise nothing changes. The state of the script stays
/// either way.
pub proof fn nodes_follow_their_script(
    node: &mut Node,
    spec: &mut AgentSpec,
    r: Result<bool, AgentError>,
)
    requires
        call_ensures(Node::configs_changed, (node, spec), r),
    ensures
        ({
            let script = script_in(old(spec)@);
            &&& final(node)@.state == old(node)@.state
            &&& old(spec)@.configs is None ==> r is Err
            &&& old(spec)@.configs is Some && old(node)@.valid_script == Some(script) ==> r is Ok
                && !r->Ok_0
            &&& !(r is Ok && r->Ok_0) ==> final(node)@ == old(node)@ && final(spec)@ == old(spec)@
            &&& r is Ok && r->Ok_0 ==> {
                &&& old(node)@.valid_script != Some(script)
                &&& final(node)@.valid_script == Some(script)
                &&& final(spec)@.outputs == Some(final(node)@.outputs)
                &&& final(spec)@.inputs is Some
                &&& exists|decl: DeclarationData| #[trigger]
                    may_describe(script, Ok(decl)) && final(spec)@.inputs == Some(decl.inputs)
                        && final(spec)@.outputs == Some(decl.outputs)
            }
        }),
{
    let script = script_in(old(spec)@);
    if r is Ok && r->Ok_0 {
        let found = choose|found: Result<DeclarationData, ErrorData>| #[trigger]
            may_describe(script, found) && match described_and_applied(found, old(spec)@) {
                Ok(decl) => {
                    &&& r == Ok::<bool, AgentError>(true)
                    &&& final(node)@.outputs == decl.outputs
                    &&& final(node)@.valid_script == Some(script)
                    &&& applied(old(spec)@, decl) == Ok::<SpecData, ErrorData>(final(spec)@)
                },
                Err(x) => r matches Err(e) && e@ == x,
            };
        let decl = found->Ok_0;
        assert(found == Ok::<DeclarationData, ErrorData>(decl));
        assert(may_describe(script, Ok(decl)));
    }
}

/// State reads back what was stored last under a key; other keys read as
/// before.
pub proof fn stored_state_is_found(
    state: &mut NodeState,
    key: String,
    value: AgentValue,
    other: &str,
    r: Option<&AgentValue>,
)
    requires
        call_ensures(NodeState::insert, (state, key, value), ()),
        call_ensures(NodeState::get, (final(state), other), r),
    ensures
        other@ == key@ ==> r is Some && r->0@ == value@,
        other@ != key@ ==> (r is Some <==> old(state)@.contains_key(other@)),
        other@ != key@ && r is Some ==> r->0@ == old(state)@[other@],
{
}

/// A new node that reports no error emits to the ports that its shape now has,
/// those of a declaration of its script. One that reports an error keeps the
/// ports of its shape.
pub proof fn new_nodes_have_the_declared_ports(
    spec: &mut AgentSpec,
    r: (Node, Option<AgentError>),
)
    requires
        call_ensures(Node::new, (spec,), r),
    ensures
        r.0@.state == Map::<Seq<char>, Data>::empty(),
        r.1 is None ==> {
            &&& final(spec)@.outputs == Some(r.0@.outputs)
            &&& r.0@.valid_script == Some(script_in(old(spec)@))
            &&& exists|decl: DeclarationData| #[trigger]
                may_describe(script_in(old(spec)@), Ok(decl)) && final(spec)@.inputs == Some(
                    decl.inputs,
                ) && final(spec)@.outputs == Some(decl.outputs)
        },
        r.1 is Some ==> {
            &&& r.0@.valid_script is None
            &&& final(spec)@.inputs == old(spec)@.inputs
            &&& final(spec)@.outputs == old(spec)@.outputs
            &&& old(spec)@.outputs matches Some(ports) ==> r.0@.outputs == ports
            &&& old(spec)@.outputs is None ==> r.0@.outputs == seq!["value"@]
        },
{
    let s = old(spec)@;
    let found = choose|found: Result<DeclarationData, ErrorData>| #[trigger]
        may_describe(script_in(s), found) && {
            let done = described_and_applied(found, s);
            &&& r.0@ == taken_in(s, script_in(s), done)
            &&& final(spec)@ == reshaped(s, done)
            &&& match done {
                Ok(_) => r.1 is None,
                Err(x) => r.1 matches Some(e) && e@ == x,
            }
        };
    if r.1 is None {
        let decl = found->Ok_0;
        assert(found == Ok::<DeclarationData, ErrorData>(decl));
        assert(may_describe(script_in(s), Ok(decl)));
    }
}

} // verus!

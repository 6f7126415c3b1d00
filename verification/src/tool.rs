//! Tools whose implementation is a script.

use vstd::prelude::*;

use crate::configs::{
    config_entries, config_string, integer_or, stored_value, string_or_default, string_under,
};
use crate::declaration::sorted_copy;
use crate::entries::{
    distinct, entry_views, lookup, lookup_at, lookup_finds, ordered_is_distinct, sort_entries,
    sort_is_ordered, sort_keeps_lookup,
};
use crate::error::{AgentError, ErrorData};
use crate::exchange::value_tree;
use crate::host::truncated;
use crate::json::{json_tree, JsonData};
use crate::limits::{default_limits, Limits};
use crate::names::{
    identifier, is_valid_identifier, name_warning, tool_name, warn_if_invalid_name,
};
use crate::pictures::{is_host_writable, writable};
use crate::shape::text_view;
use crate::text::{same, views};
use crate::toolcall::{call_tool_only, ToolCallHandler};
use crate::value::{container_views, AgentValue, Data};

verus! {

/// The JSON that `serde_json::to_value` gives for a value of the host, if it
/// gives any.
pub uninterp spec fn serialized(d: Data) -> Option<JsonData>;

/// Calls `serde_json::to_value` on a value of the host. The contract names
/// the JSON tree that comes out. A picture that cannot be written makes the
/// call panic, so there must be none.
#[verifier::external_body]
fn serialize(v: &modular_agent_core::Value) -> (r: Option<serde_json::Value>)
    requires
        writable(value_tree(*v)),
    ensures
        serialized(value_tree(*v)) == match r {
            Some(j) => Some(json_tree(j)),
            None => None,
        },
{
    serde_json::to_value(v).ok()
}

/// The memory limit in bytes for a number of megabytes; what does not fit is
/// cut off.
pub open spec fn saturated_megabytes(mb: i64) -> int {
    let bytes = (mb as usize) * 1024 * 1024;
    if bytes > usize::MAX {
        usize::MAX as int
    } else {
        bytes
    }
}

/// The limits that a configuration asks for: numbers that are not positive
/// ask for the defaults.
pub open spec fn tool_limits(es: Seq<(Seq<char>, Data)>, limits: Limits) -> bool {
    let time = integer_or(es, "time_limit_ms"@, 5000);
    let memory = integer_or(es, "memory_limit_mb"@, 32);
    &&& limits.time_limit_ms == if time > 0 {
        time as int
    } else {
        5000
    }
    &&& limits.memory_limit_bytes == if memory > 0 {
        saturated_megabytes(memory)
    } else {
        32 * 1024 * 1024int
    }
    &&& limits.max_stack_depth == 512
    &&& limits.max_allocations == usize::MAX
}

/// The limits that a configuration asks for.
pub fn limits_from_configs(configs: &modular_agent_core::ModuleConfigs) -> (r: Limits)
    ensures
        tool_limits(config_entries(*configs), r),
{
    let defaults = default_limits();
    let time: i64 = configs.get_integer_or("time_limit_ms", 5000);
    let memory: i64 = configs.get_integer_or("memory_limit_mb", 32);
    let time_limit_ms: u64 = if time > 0 {
        time as u64
    } else {
        defaults.time_limit_ms
    };
    let memory_limit_bytes: usize = if memory > 0 {
        match (memory as usize).checked_mul(1024 * 1024) {
            Some(bytes) => bytes,
            None => usize::MAX,
        }
    } else {
        defaults.memory_limit_bytes
    };
    Limits {
        memory_limit_bytes,
        time_limit_ms,
        max_stack_depth: defaults.max_stack_depth,
        max_allocations: usize::MAX,
    }
}

/// A tool that runs a script on each call.
#[derive(Debug)]
pub struct ScriptTool {
    /// The name that the tool is registered under.
    pub name: String,
    /// What the tool does, for the model.
    pub description: String,
    /// The JSON Schema of the arguments.
    pub parameters: Option<serde_json::Value>,
    /// The script.
    pub script: String,
    /// The limits of each call.
    pub limits: Limits,
}

/// A tool, as contracts speak of it.
pub struct ToolData {
    pub name: Seq<char>,
    pub description: Seq<char>,
    pub parameters: Option<JsonData>,
    pub script: Seq<char>,
    pub limits: Limits,
}

impl View for ScriptTool {
    type V = ToolData;

    open spec fn view(&self) -> ToolData {
        ToolData {
            name: self.name@,
            description: self.description@,
            parameters: match self.parameters {
                Some(j) => Some(json_tree(j)),
                None => None,
            },
            script: self.script@,
            limits: self.limits,
        }
    }
}

/// Whether a tool is the one that a configuration describes.
pub open spec fn tool_configured(t: ToolData, es: Seq<(Seq<char>, Data)>) -> bool {
    &&& t.description == string_or_default(es, "description"@)
    &&& t.parameters == match lookup(es, "parameters"@) {
        Some(d) => serialized(d),
        None => None,
    }
    &&& t.script == string_or_default(es, "script"@)
    &&& tool_limits(es, t.limits)
}

/// Whether the configured parameters, if there are any, can be written.
pub open spec fn parameters_writable(es: Seq<(Seq<char>, Data)>) -> bool {
    match lookup(es, "parameters"@) {
        Some(d) => writable(d),
        None => true,
    }
}

/// The error for parameters that cannot be written.
pub open spec fn unwritable_parameters() -> ErrorData {
    ErrorData::InvalidConfig("parameters hold an image that cannot be encoded"@)
}

/// The name that a tool has: the configured one, or that of the definition
/// where it is missing or empty.
pub open spec fn chosen_name(configured: Option<Seq<char>>, def_name: Seq<char>) -> Seq<char> {
    match configured {
        Some(s) => if s.len() > 0 {
            s
        } else {
            def_name
        },
        None => def_name,
    }
}

fn choose_name(configs: &modular_agent_core::ModuleConfigs, def_name: &str) -> (r: String)
    ensures
        r@ == chosen_name(string_under(config_entries(*configs), "name"@), def_name@),
{
    match config_string(configs, "name") {
        Ok(name) => if name.as_str().unicode_len() > 0 {
            name
        } else {
            def_name.to_string()
        },
        Err(_) => def_name.to_string(),
    }
}

/// Something to do to the tool registry.
#[derive(Debug)]
pub enum RegistryAction {
    /// Enter the tool under its name, in place of any other with that name.
    Register(ScriptTool),
    /// Take out the tool with this name.
    Unregister(String),
}

/// The tools in the registry after an action.
pub open spec fn after_action(
    registry: Map<Seq<char>, ToolData>,
    action: RegistryAction,
) -> Map<Seq<char>, ToolData> {
    match action {
        RegistryAction::Register(tool) => registry.insert(tool@.name, tool@),
        RegistryAction::Unregister(name) => registry.remove(name@),
    }
}

/// The tools in the registry after actions, one after the other.
pub open spec fn after_actions(
    registry: Map<Seq<char>, ToolData>,
    actions: Seq<RegistryAction>,
) -> Map<Seq<char>, ToolData>
    decreases actions.len(),
{
    if actions.len() == 0 {
        registry
    } else {
        after_action(after_actions(registry, actions.drop_last()), actions.last())
    }
}

/// Whether these actions refresh the registration of a tool: it is registered
/// first, and an old name that differs is taken out after that.
pub open spec fn refreshes(actions: Seq<RegistryAction>, old_name: Seq<char>, tool: ToolData) -> bool {
    &&& actions.len() == if old_name == tool.name {
        1int
    } else {
        2
    }
    &&& actions[0] matches RegistryAction::Register(t) && t@ == tool
    &&& old_name != tool.name ==> (actions[1] matches RegistryAction::Unregister(n) && n@
        == old_name)
}

/// Works out how to refresh the registration of a tool. Registering first
/// means that no lookup finds the tool missing. On a rename the old name has
/// to be taken out, or nothing would ever do so.
pub fn refresh_registration(old_name: &str, tool: ScriptTool) -> (r: Vec<RegistryAction>)
    ensures
        refreshes(r@, old_name@, tool@),
{
    let renamed = !same(old_name, tool.name.as_str());
    let mut r: Vec<RegistryAction> = Vec::new();
    r.push(RegistryAction::Register(tool));
    if renamed {
        r.push(RegistryAction::Unregister(old_name.to_string()));
    }
    r
}

/// What a tool module does when it starts or follows a change: a warning to
/// log and actions on the registry.
#[derive(Debug)]
pub struct ToolUpdate {
    pub warning: Option<String>,
    pub actions: Vec<RegistryAction>,
}

/// A module that offers a script as a tool.
#[derive(Debug)]
pub struct ToolModule {
    /// The name that the tool has.
    pub name: String,
}

impl ToolModule {
    /// A module with this configuration and definition name.
    pub fn new(configs: Option<&modular_agent_core::ModuleConfigs>, def_name: &str) -> (r:
        ToolModule)
        ensures
            r.name@ == chosen_name(
                match configs {
                    Some(c) => string_under(config_entries(*c), "name"@),
                    None => None,
                },
                def_name@,
            ),
    {
        match configs {
            Some(c) => ToolModule { name: choose_name(c, def_name) },
            None => ToolModule { name: def_name.to_string() },
        }
    }

    /// The tool that the configuration describes, under the current name.
    /// Parameters that cannot be written are refused.
    pub fn build_tool(&self, configs: &modular_agent_core::ModuleConfigs) -> (r: Result<
        ScriptTool,
        AgentError,
    >)
        ensures
            match r {
                Ok(tool) => parameters_writable(config_entries(*configs)) && tool@.name
                    == self.name@ && tool_configured(tool@, config_entries(*configs)),
                Err(e) => !parameters_writable(config_entries(*configs)) && e@
                    == unwritable_parameters(),
            },
    {
        let parameters = match stored_value(configs, "parameters") {
            Some(v) => if is_host_writable(&v) {
                serialize(&v)
            } else {
                return Err(
                    AgentError::InvalidConfig(
                        "parameters hold an image that cannot be encoded".to_string(),
                    ),
                );
            },
            None => None,
        };
        Ok(
            ScriptTool {
                name: self.name.clone(),
                description: configs.get_string_or_default("description"),
                parameters,
                script: configs.get_string_or_default("script"),
                limits: limits_from_configs(configs),
            },
        )
    }

    /// Follows a change of the configuration. The registration is refreshed
    /// only while the module runs; otherwise starting it registers the tool.
    /// Where the parameters cannot be written, the registration stays as it is.
    pub fn configs_changed(
        &mut self,
        id: &str,
        configs: &modular_agent_core::ModuleConfigs,
        def_name: &str,
        running: bool,
    ) -> (r: Result<Option<ToolUpdate>, AgentError>)
        ensures
            final(self).name@ == chosen_name(
                string_under(config_entries(*configs), "name"@),
                def_name@,
            ),
            match r {
                Ok(None) => !running,
                Err(e) => {
                    &&& running
                    &&& !parameters_writable(config_entries(*configs))
                    &&& e@ == unwritable_parameters()
                },
                Ok(Some(update)) => {
                    &&& running
                    &&& parameters_writable(config_entries(*configs))
                    &&& text_view(update.warning) == name_warning(id@, final(self).name@)
                    &&& update.actions@.len() > 0
                    &&& update.actions@[0] matches RegistryAction::Register(tool) && {
                        &&& final(self).name@ == tool@.name
                        &&& tool_configured(tool@, config_entries(*configs))
                        &&& refreshes(update.actions@, old(self).name@, tool@)
                    }
                },
            },
    {
        let old_name = self.name.clone();
        self.name = choose_name(configs, def_name);
        if running {
            let warning = warn_if_invalid_name(id, self.name.as_str());
            match self.build_tool(configs) {
                Ok(tool) => {
                    let actions = refresh_registration(old_name.as_str(), tool);
                    Ok(Some(ToolUpdate { warning, actions }))
                },
                Err(e) => Err(e),
            }
        } else {
            Ok(None)
        }
    }

    /// Registers the tool. Parameters that cannot be written are refused.
    pub fn start(&self, id: &str, configs: &modular_agent_core::ModuleConfigs) -> (r: Result<
        ToolUpdate,
        AgentError,
    >)
        ensures
            match r {
                Ok(update) => {
                    &&& parameters_writable(config_entries(*configs))
                    &&& text_view(update.warning) == name_warning(id@, self.name@)
                    &&& update.actions@.len() == 1
                    &&& update.actions@[0] matches RegistryAction::Register(tool) && tool@.name
                        == self.name@ && tool_configured(tool@, config_entries(*configs))
                },
                Err(e) => !parameters_writable(config_entries(*configs)) && e@
                    == unwritable_parameters(),
            },
    {
        let warning = warn_if_invalid_name(id, self.name.as_str());
        match self.build_tool(configs) {
            Ok(tool) => {
                let mut actions: Vec<RegistryAction> = Vec::new();
                actions.push(RegistryAction::Register(tool));
                Ok(ToolUpdate { warning, actions })
            },
            Err(e) => Err(e),
        }
    }

    /// Takes the tool out of the registry.
    pub fn stop(&self) -> (r: RegistryAction)
        ensures
            r matches RegistryAction::Unregister(name) && name@ == self.name@,
    {
        RegistryAction::Unregister(self.name.clone())
    }
}

/// The arguments that can be script variables.
pub open spec fn variables(es: Seq<(Seq<char>, Data)>) -> Seq<(Seq<char>, Data)>
    decreases es.len(),
{
    if es.len() == 0 {
        es
    } else if identifier(es.last().0) {
        variables(es.drop_last()).push(es.last())
    } else {
        variables(es.drop_last())
    }
}

/// Whether one of the entries has the key.
pub open spec fn has_key(es: Seq<(Seq<char>, Data)>, k: Seq<char>) -> bool {
    exists|i: int| 0 <= i < es.len() && (#[trigger] es[i]).0 == k
}

/// The script variables for the arguments of a call: each argument whose name
/// is an identifier, and the whole as `args`, unless an argument has that
/// name.
pub open spec fn bound_args(args: Data) -> Seq<(Seq<char>, Data)> {
    let vars = match args {
        Data::Object(es) => variables(sort_entries(es)),
        _ => Seq::empty(),
    };
    if has_key(vars, "args"@) {
        vars
    } else {
        vars.push(("args"@, args))
    }
}

fn variable_list(items: &Vec<(String, AgentValue)>) -> (r: Vec<(String, AgentValue)>)
    ensures
        entry_views(r@) == variables(sort_entries(entry_views(items@))),
{
    let entries = sorted_copy(items);
    let ghost all = entry_views(entries@);
    let mut out: Vec<(String, AgentValue)> = Vec::new();
    let mut i: usize = 0;
    assert(entry_views(out@) =~= variables(all.take(0)));
    while i < entries.len()
        invariant
            i <= entries.len(),
            all == entry_views(entries@),
            entry_views(out@) == variables(all.take(i as int)),
        decreases entries.len() - i,
    {
        proof {
            assert(all.take(i + 1).drop_last() =~= all.take(i as int));
            assert(all.take(i + 1).last() == all[i as int]);
        }
        if is_valid_identifier(entries[i].0.as_str()) {
            let ghost before = entry_views(out@);
            out.push((entries[i].0.clone(), entries[i].1.copy()));
            assert(entry_views(out@) =~= before.push(all[i as int]));
        }
        i = i + 1;
    }
    assert(all.take(i as int) =~= all);
    out
}

fn key_stands_in(items: &Vec<(String, AgentValue)>, key: &str) -> (r: bool)
    ensures
        r == has_key(entry_views(items@), key@),
{
    let ghost all = entry_views(items@);
    let mut i: usize = 0;
    while i < items.len()
        invariant
            i <= items.len(),
            all == entry_views(items@),
            forall|k: int| 0 <= k < i ==> (#[trigger] all[k]).0 != key@,
        decreases items.len() - i,
    {
        assert(all[i as int].0 == items@[i as int].0@);
        if same(items[i].0.as_str(), key) {
            return true;
        }
        i = i + 1;
    }
    false
}

/// Binds the arguments of a call to script variables.
pub fn bind_args(args: &AgentValue) -> (r: Vec<(String, AgentValue)>)
    ensures
        entry_views(r@) == bound_args(args@),
{
    broadcast use container_views;

    let mut inputs: Vec<(String, AgentValue)> = match args {
        AgentValue::Object(items) => variable_list(items),
        _ => {
            let none: Vec<(String, AgentValue)> = Vec::new();
            assert(entry_views(none@) =~= Seq::empty());
            none
        },
    };
    if !key_stands_in(&inputs, "args") {
        let ghost before = entry_views(inputs@);
        inputs.push(("args".to_string(), args.copy()));
        assert(entry_views(inputs@) =~= before.push(("args"@, args@)));
    }
    inputs
}

/// A call of a tool that is about to run.
#[derive(Debug)]
pub struct ToolRun {
    pub source: String,
    pub inputs: Vec<(String, AgentValue)>,
    pub externals: Vec<String>,
}

impl ScriptTool {
    /// Prepares a call of the tool.
    pub fn begin(&self, args: &AgentValue) -> (r: ToolRun)
        ensures
            r.source@ == self.script@,
            entry_views(r.inputs@) == bound_args(args@),
            views(r.externals@) == call_tool_only(),
    {
        ToolRun {
            source: self.script.clone(),
            inputs: bind_args(args),
            externals: ToolCallHandler::externals(),
        }
    }
}

/// After a refresh the registry holds the tool under its name and nothing
/// under an old name; every other tool is as it was. A tool that was
/// registered before is there at every moment, under one name or the other.
pub proof fn refresh_leaves_one_registration(
    registry: Map<Seq<char>, ToolData>,
    actions: Seq<RegistryAction>,
    old_name: Seq<char>,
    tool: ToolData,
)
    requires
        refreshes(actions, old_name, tool),
    ensures
        ({
            let after = after_actions(registry, actions);
            &&& after.contains_key(tool.name) && after[tool.name] == tool
            &&& old_name != tool.name ==> !after.contains_key(old_name)
            &&& forall|n: Seq<char>|
                n != tool.name && n != old_name ==> (#[trigger] after.contains_key(n)
                    <==> registry.contains_key(n)) && (registry.contains_key(n) ==> after[n]
                    == registry[n])
        }),
        registry.contains_key(old_name) ==> forall|k: int|
            0 <= k <= actions.len() ==> {
                let now = #[trigger] after_actions(registry, actions.take(k));
                now.contains_key(old_name) || now.contains_key(tool.name)
            },
{
    reveal_with_fuel(after_actions, 3);
    assert(actions.take(0) =~= Seq::empty());
    assert(actions.take(actions.len() as int) =~= actions);
    assert(actions.take(1).drop_last() =~= Seq::empty());
    assert(actions.take(1).last() == actions[0]);
    if old_name != tool.name {
        assert(actions.drop_last() =~= actions.take(1));
        assert(actions.last() == actions[1]);
    }
    if registry.contains_key(old_name) {
        assert forall|k: int| 0 <= k <= actions.len() implies ({
            let now = #[trigger] after_actions(registry, actions.take(k));
            now.contains_key(old_name) || now.contains_key(tool.name)
        }) by {
            assert(k == 0 || k == 1 || k == 2);
        }
    }
}

proof fn variables_are_entries(es: Seq<(Seq<char>, Data)>)
    ensures
        forall|i: int|
            0 <= i < variables(es).len() ==> es.contains(#[trigger] variables(es)[i]) && identifier(
                variables(es)[i].0,
            ),
        forall|i: int|
            0 <= i < es.len() && identifier((#[trigger] es[i]).0) ==> variables(es).contains(es[i]),
        distinct(es) ==> distinct(variables(es)),
    decreases es.len(),
{
    if es.len() > 0 {
        let init = es.drop_last();
        let done = variables(init);
        let all = variables(es);
        variables_are_entries(init);
        assert forall|i: int| 0 <= i < all.len() implies es.contains(#[trigger] all[i])
            && identifier(all[i].0) by {
            if i < done.len() {
                assert(all[i] == done[i]);
                assert(init.contains(done[i]));
                let j = choose|j: int| 0 <= j < init.len() && init[j] == done[i];
                assert(es[j] == all[i]);
            } else {
                assert(es[es.len() - 1] == all[i]);
            }
        }
        assert forall|i: int|
            0 <= i < es.len() && identifier((#[trigger] es[i]).0) implies all.contains(es[i]) by {
            if i < init.len() {
                assert(init[i] == es[i]);
                assert(done.contains(init[i]));
                let j = choose|j: int| 0 <= j < done.len() && done[j] == init[i];
                assert(all[j] == es[i]);
            } else {
                assert(all[all.len() - 1] == es[i]);
            }
        }
        if distinct(es) {
            assert(distinct(init)) by {
                assert forall|a: int, b: int| 0 <= a < b < init.len() implies (#[trigger] init[a]).0
                    != (#[trigger] init[b]).0 by {
                    assert(es[a].0 != es[b].0);
                }
            }
            if identifier(es.last().0) {
                assert forall|a: int, b: int| 0 <= a < b < all.len() implies (#[trigger] all[a]).0
                    != (#[trigger] all[b]).0 by {
                    assert(all[a] == done[a]);
                    if b < done.len() {
                        assert(all[b] == done[b]);
                    } else {
                        assert(init.contains(done[a]));
                        let m = choose|m: int| 0 <= m < init.len() && init[m] == done[a];
                        assert(es[m].0 != es[es.len() - 1].0);
                    }
                }
            }
        }
    }
}

/// No script variable is bound twice, every one has an identifier for a name,
/// and `args` is always bound: to the whole of the arguments, unless one of
/// them has that name.
pub proof fn variables_are_bound_once(args: Data)
    ensures
        distinct(bound_args(args)),
        forall|i: int|
            0 <= i < bound_args(args).len() ==> identifier((#[trigger] bound_args(args)[i]).0),
        has_key(bound_args(args), "args"@),
        bound_args(args).contains(("args"@, args)) || (args matches Data::Object(es) && lookup(
            es,
            "args"@,
        ) is Some),
{
    reveal_strlit("args");
    assert(identifier("args"@));
    let sorted = match args {
        Data::Object(es) => sort_entries(es),
        _ => Seq::<(Seq<char>, Data)>::empty(),
    };
    let vars = variables(sorted);
    if let Data::Object(es) = args {
        sort_is_ordered(es);
        ordered_is_distinct(sorted);
    }
    variables_are_entries(sorted);
    let all = bound_args(args);
    if has_key(vars, "args"@) {
        let i = choose|i: int| 0 <= i < vars.len() && (#[trigger] vars[i]).0 == "args"@;
        assert(sorted.contains(vars[i]));
        let es = args->Object_0;
        let j = choose|j: int| 0 <= j < sorted.len() && sorted[j] == vars[i];
        assert(sorted[j].0 == "args"@);
        lookup_finds(sorted, "args"@);
        sort_keeps_lookup(es, "args"@);
    } else {
        assert(all[all.len() - 1] == ("args"@, args));
        assert forall|a: int, b: int| 0 <= a < b < all.len() implies (#[trigger] all[a]).0 != (
        #[trigger] all[b]).0 by {
            assert(all[a] == vars[a]);
            if b < vars.len() {
                assert(all[b] == vars[b]);
            }
        }
        assert forall|i: int| 0 <= i < all.len() implies identifier((#[trigger] all[i]).0) by {
            if i < vars.len() {
                assert(all[i] == vars[i]);
            }
        }
    }
}

/// Every argument whose name is an identifier is a script variable with its
/// value.
pub proof fn arguments_are_bound(es: Seq<(Seq<char>, Data)>, name: Seq<char>)
    requires
        identifier(name),
        lookup(es, name) is Some,
    ensures
        bound_args(Data::Object(es)).contains((name, lookup(es, name)->0)),
{
    let sorted = sort_entries(es);
    sort_keeps_lookup(es, name);
    lookup_finds(sorted, name);
    sort_is_ordered(es);
    ordered_is_distinct(sorted);
    let j = choose|j: int| 0 <= j < sorted.len() && (#[trigger] sorted[j]).0 == name;
    lookup_at(sorted, j);
    variables_are_entries(sorted);
    let vars = variables(sorted);
    assert(vars.contains(sorted[j]));
    let i = choose|i: int| 0 <= i < vars.len() && vars[i] == sorted[j];
    assert(bound_args(Data::Object(es))[i] == sorted[j]);
}

/// A tool has the description, the script and the JSON of the parameters that
/// are configured; what is missing, or no text, is empty.
pub proof fn tools_are_as_configured(t: ToolData, es: Seq<(Seq<char>, Data)>)
    requires
        tool_configured(t, es),
    ensures
        match lookup(es, "description"@) {
            Some(Data::String(s)) => t.description == s,
            _ => t.description.len() == 0,
        },
        match lookup(es, "script"@) {
            Some(Data::String(s)) => t.script == s,
            _ => t.script.len() == 0,
        },
        match lookup(es, "parameters"@) {
            Some(d) => t.parameters == serialized(d),
            None => t.parameters is None,
        },
{
}

/// The limits of a tool are the configured numbers where they are positive,
/// and the defaults of five seconds and 32 megabytes otherwise. The depth of
/// the stack is the default one, and the number of pushes is not limited.
pub proof fn tool_limits_are_as_configured(t: ToolData, es: Seq<(Seq<char>, Data)>)
    requires
        tool_configured(t, es),
    ensures
        ({
            let number = |key: Seq<char>|
                match lookup(es, key) {
                    Some(Data::Integer(i)) => i as int,
                    Some(Data::Number(bits)) => truncated(bits) as int,
                    _ => 0,
                };
            let time = number("time_limit_ms"@);
            let memory = (number("memory_limit_mb"@) as usize) * 0x10_0000;
            &&& time > 0 ==> t.limits.time_limit_ms == time
            &&& time <= 0 ==> t.limits.time_limit_ms == 5000
            &&& number("memory_limit_mb"@) > 0 && memory <= usize::MAX
                ==> t.limits.memory_limit_bytes == memory
            &&& number("memory_limit_mb"@) > 0 && memory > usize::MAX
                ==> t.limits.memory_limit_bytes == usize::MAX
            &&& number("memory_limit_mb"@) <= 0 ==> t.limits.memory_limit_bytes == 0x200_0000
            &&& t.limits.max_stack_depth == 512
            &&& t.limits.max_allocations == usize::MAX
        }),
{
}

/// A tool is called what is configured, unless that is empty or missing: then
/// it has the name of its definition.
pub proof fn configured_names_win(configured: Option<Seq<char>>, def_name: Seq<char>)
    ensures
        configured matches Some(s) ==> s.len() > 0 ==> chosen_name(configured, def_name) == s,
        configured matches Some(s) ==> s.len() == 0 ==> chosen_name(configured, def_name)
            == def_name,
        configured is None ==> chosen_name(configured, def_name) == def_name,
{
}

/// Registering enters the tool as it is under its name, taking out takes that
/// name out; no other tool is touched.
pub proof fn actions_touch_one_tool(
    registry: Map<Seq<char>, ToolData>,
    action: RegistryAction,
    other: Seq<char>,
)
    ensures
        ({
            let after = after_action(registry, action);
            match action {
                RegistryAction::Register(tool) => {
                    &&& after.contains_key(tool.name@) && after[tool.name@] == tool@
                    &&& other != tool.name@ ==> (after.contains_key(other)
                        <==> registry.contains_key(other)) && (registry.contains_key(other)
                        ==> after[other] == registry[other])
                },
                RegistryAction::Unregister(name) => {
                    &&& !after.contains_key(name@)
                    &&& other != name@ ==> (after.contains_key(other) <==> registry.contains_key(
                        other,
                    )) && (registry.contains_key(other) ==> after[other] == registry[other])
                },
            }
        }),
{
}

/// A script variable of a call is one of the arguments with its value, or
/// `args` with the whole of them. Arguments that are no object are `args`
/// alone.
pub proof fn variables_hold_the_arguments(args: Data, i: int)
    ensures
        0 <= i < bound_args(args).len() ==> {
            let (name, value) = bound_args(args)[i];
            ||| name == "args"@ && value == args
            ||| args matches Data::Object(es) && lookup(es, name) == Some(value)
        },
        !(args is Object) ==> bound_args(args) == seq![("args"@, args)],
{
    let sorted = match args {
        Data::Object(es) => sort_entries(es),
        _ => Seq::<(Seq<char>, Data)>::empty(),
    };
    let vars = variables(sorted);
    variables_are_entries(sorted);
    if args is Object && 0 <= i < vars.len() {
        let es = args->Object_0;
        sort_is_ordered(es);
        ordered_is_distinct(sorted);
        assert(sorted.contains(vars[i]));
        let j = choose|j: int| 0 <= j < sorted.len() && sorted[j] == vars[i];
        lookup_at(sorted, j);
        sort_keeps_lookup(es, vars[i].0);
        assert(bound_args(args)[i] == vars[i]);
    }
    if !(args is Object) {
        assert(vars =~= Seq::empty());
        assert(bound_args(args) =~= seq![("args"@, args)]);
    }
}

/// Only the configured parameters decide whether they can be written; where
/// there are none, nothing is in the way.
pub proof fn parameters_alone_decide(es: Seq<(Seq<char>, Data)>)
    ensures
        lookup(es, "parameters"@) is None ==> parameters_writable(es),
        lookup(es, "parameters"@) matches Some(d) ==> (parameters_writable(es) <==> writable(d)),
{
}

/// A tool module is called what is configured under `name`, or as its
/// definition where that is missing, empty or no text.
pub proof fn tool_modules_have_names(
    configs: Option<&modular_agent_core::ModuleConfigs>,
    def_name: &str,
    r: ToolModule,
)
    requires
        call_ensures(ToolModule::new, (configs, def_name), r),
    ensures
        ({
            let configured = match configs {
                Some(c) => lookup(config_entries(*c), "name"@),
                None => None,
            };
            &&& configured matches Some(Data::String(s)) ==> s.len() > 0 ==> r.name@ == s
            &&& !(configured matches Some(Data::String(s)) && s.len() > 0) ==> r.name@ == def_name@
        }),
{
}

/// The tool of a module has the name of the module and what is configured;
/// parameters that cannot be written are refused.
pub proof fn built_tools_are_as_configured(
    module: &ToolModule,
    configs: &modular_agent_core::ModuleConfigs,
    r: Result<ScriptTool, AgentError>,
)
    requires
        call_ensures(ToolModule::build_tool, (module, configs), r),
    ensures
        ({
            let es = config_entries(*configs);
            &&& r is Ok <==> (lookup(es, "parameters"@) matches Some(d) ==> writable(d))
            &&& r matches Ok(tool) ==> {
                &&& tool.name@ == module.name@
                &&& lookup(es, "script"@) matches Some(Data::String(s)) ==> tool.script@ == s
                &&& !(lookup(es, "script"@) matches Some(Data::String(_)))
                    ==> tool.script@.len() == 0
                &&& lookup(es, "description"@) matches Some(Data::String(s)) ==> tool.description@
                    == s
                &&& !(lookup(es, "description"@) matches Some(Data::String(_)))
                    ==> tool.description@.len() == 0
                &&& lookup(es, "parameters"@) is None ==> tool.parameters is None
                &&& lookup(es, "parameters"@) matches Some(d) ==> tool@.parameters == serialized(d)
                &&& tool_limits(es, tool.limits)
            }
        }),
{
}

/// A started module registers its tool, and a stopped one takes that name out
/// again.
pub proof fn modules_register_and_leave(
    module: &ToolModule,
    id: &str,
    configs: &modular_agent_core::ModuleConfigs,
    started: Result<ToolUpdate, AgentError>,
    stopped: RegistryAction,
    registry: Map<Seq<char>, ToolData>,
)
    requires
        call_ensures(ToolModule::start, (module, id, configs), started),
        call_ensures(ToolModule::stop, (module,), stopped),
    ensures
        started is Ok <==> parameters_writable(config_entries(*configs)),
        started matches Ok(update) ==> {
            let running = after_actions(registry, update.actions@);
            &&& update.warning is Some <==> !tool_name(module.name@)
            &&& running.contains_key(module.name@)
            &&& running[module.name@].name == module.name@
            &&& tool_configured(running[module.name@], config_entries(*configs))
            &&& running.remove(module.name@) == registry.remove(module.name@)
            &&& after_action(running, stopped) == registry.remove(module.name@)
        },
{
    reveal_with_fuel(after_actions, 2);
    if let Ok(update) = started {
        let running = after_actions(registry, update.actions@);
        assert(update.actions@.drop_last() =~= Seq::empty());
        assert(update.actions@.last() == update.actions@[0]);
        assert(running.remove(module.name@) =~= registry.remove(module.name@));
    }
}

/// A module that runs follows a change at once: afterwards the tool is
/// registered as configured, under the name it has now and no longer under the
/// one it had. One that does not run changes its name alone.
pub proof fn modules_follow_their_configuration(
    module: &mut ToolModule,
    id: &str,
    configs: &modular_agent_core::ModuleConfigs,
    def_name: &str,
    running: bool,
    r: Result<Option<ToolUpdate>, AgentError>,
    registry: Map<Seq<char>, ToolData>,
)
    requires
        call_ensures(ToolModule::configs_changed, (module, id, configs, def_name, running), r),
    ensures
        ({
            let es = config_entries(*configs);
            let before = old(module).name@;
            let now = final(module).name@;
            &&& lookup(es, "name"@) matches Some(Data::String(s)) ==> s.len() > 0 ==> now == s
            &&& !(lookup(es, "name"@) matches Some(Data::String(s)) && s.len() > 0) ==> now
                == def_name@
            &&& !running ==> r is Ok && r->Ok_0 is None
            &&& running && r is Ok ==> r->Ok_0 is Some
            &&& running ==> (r is Ok <==> parameters_writable(es))
            &&& r matches Ok(Some(update)) ==> {
                let after = after_actions(registry, update.actions@);
                &&& after.contains_key(now)
                &&& after[now].name == now
                &&& tool_configured(after[now], es)
                &&& before != now ==> !after.contains_key(before)
                &&& update.warning is Some <==> !tool_name(now)
            }
        }),
{
    if let Ok(Some(update)) = r {
        let tool = update.actions@[0]->Register_0@;
        refresh_leaves_one_registration(registry, update.actions@, old(module).name@, tool);
    }
}

/// A call of a tool runs its script over the arguments: each that has an
/// identifier for a name is a variable, the whole is `args` unless one of them
/// has that name, and `callTool` is the one function.
pub proof fn tool_calls_run_the_script(tool: &ScriptTool, args: &AgentValue, r: ToolRun, i: int)
    requires
        call_ensures(ScriptTool::begin, (tool, args), r),
    ensures
        r.source@ == tool.script@,
        r.externals@.len() == 1,
        r.externals@[0]@ == "callTool"@,
        0 <= i < r.inputs@.len() ==> {
            ||| r.inputs@[i].0@ == "args"@ && r.inputs@[i].1@ == args@
            ||| args@ matches Data::Object(es) && lookup(es, r.inputs@[i].0@) == Some(
                r.inputs@[i].1@,
            )
        },
        args@ matches Data::Object(es) ==> forall|name: Seq<char>|
            identifier(name) && (#[trigger] lookup(es, name)) is Some ==> lookup(
                entry_views(r.inputs@),
                name,
            ) == lookup(es, name),
        has_key(entry_views(r.inputs@), "args"@),
{
    let bound = entry_views(r.inputs@);
    assert(views(r.externals@).len() == 1 && views(r.externals@)[0] == "callTool"@);
    variables_hold_the_arguments(args@, i);
    if 0 <= i < r.inputs@.len() {
        assert(bound[i] == (r.inputs@[i].0@, r.inputs@[i].1@));
    }
    variables_are_bound_once(args@);
    if let Data::Object(es) = args@ {
        assert forall|name: Seq<char>|
            identifier(name) && (#[trigger] lookup(es, name)) is Some implies lookup(bound, name)
            == lookup(es, name) by {
            arguments_are_bound(es, name);
            let j = choose|j: int| 0 <= j < bound.len() && bound[j] == (name, lookup(es, name)->0);
            lookup_at(bound, j);
        }
    }
}

} // verus!

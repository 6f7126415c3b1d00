//! Declarations: how a script says which ports and configuration values its
//! node has.

use vstd::prelude::*;

use crate::entries::{
    distinct, entry_map, entry_views, insert_sorted, lookup, lookup_at, lookup_finds, ordered,
    ordered_is_distinct, sort_depends_on_map, sort_entries, sort_is_ordered, sort_keeps_lookup,
};
use crate::error::{AgentError, ErrorData};
use crate::host::Number;
use crate::shape::{bare_spec, ConfigSpec, ConfigSpecData};
use crate::text::{before, concat3, same, views};
use crate::value::{container_views, member, text_in, value_views, AgentValue, Data};

verus! {

/// What a script declares about its node. The configuration values are
/// ordered by name.
#[derive(Debug)]
pub struct Declaration {
    pub inputs: Vec<String>,
    pub outputs: Vec<String>,
    pub configs: Vec<(String, ConfigSpec)>,
}

/// What a script declares about its node, as contracts speak of it.
pub struct DeclarationData {
    pub inputs: Seq<Seq<char>>,
    pub outputs: Seq<Seq<char>>,
    pub configs: Seq<(Seq<char>, ConfigSpecData)>,
}

impl View for Declaration {
    type V = DeclarationData;

    open spec fn view(&self) -> DeclarationData {
        DeclarationData {
            inputs: views(self.inputs@),
            outputs: views(self.outputs@),
            configs: entry_views(self.configs@),
        }
    }
}

/// The view of a declaration or of what is wrong with it.
pub open spec fn declaration_view(r: Result<Declaration, AgentError>) -> Result<
    DeclarationData,
    ErrorData,
> {
    match r {
        Ok(d) => Ok(d@),
        Err(e) => Err(e@),
    }
}

/// One port called `value`.
pub open spec fn value_port() -> Seq<Seq<char>> {
    seq!["value"@]
}

/// The declaration of an empty script: the default ports and nothing else.
pub open spec fn default_declaration() -> DeclarationData {
    DeclarationData { inputs: value_port(), outputs: value_port(), configs: Seq::empty() }
}

fn value_port_list() -> (r: Vec<String>)
    ensures
        views(r@) == value_port(),
{
    let mut r: Vec<String> = Vec::new();
    r.push("value".to_string());
    assert(views(r@) =~= value_port());
    r
}

impl Declaration {
    /// The declaration of an empty script.
    pub fn default_ports() -> (r: Declaration)
        ensures
            r@ == default_declaration(),
    {
        let r = Declaration {
            inputs: value_port_list(),
            outputs: value_port_list(),
            configs: Vec::new(),
        };
        assert(r@.configs =~= default_declaration().configs);
        r
    }
}

/// Whether a value can name a port.
pub open spec fn names_port(d: Data) -> bool {
    text_in(d) matches Some(s) && s.len() > 0
}

/// The names in a list of values.
pub open spec fn port_names(items: Seq<Data>) -> Seq<Seq<char>> {
    items.map_values(|d: Data| text_in(d)->0)
}

/// The ports under `key` of a declaration: by default one called `value`.
pub open spec fn declared_ports(value: Option<Data>, key: Seq<char>) -> Result<
    Seq<Seq<char>>,
    ErrorData,
> {
    match value {
        None => Ok(value_port()),
        Some(Data::Array(items)) => if forall|i: int|
            0 <= i < items.len() ==> names_port(#[trigger] items[i]) {
            Ok(port_names(items))
        } else {
            Err(
                ErrorData::InvalidConfig(
                    "AGENT."@ + key + " must be an array of non-empty strings"@,
                ),
            )
        },
        Some(_) => Err(
            ErrorData::InvalidConfig("AGENT."@ + key + " must be an array of strings"@),
        ),
    }
}

/// Reads a list of ports.
pub fn parse_port_list(value: Option<&AgentValue>, key: &str) -> (r: Result<
    Vec<String>,
    AgentError,
>)
    ensures
        ({
            let d = match value {
                Some(v) => Some(v@),
                None => None,
            };
            match declared_ports(d, key@) {
                Ok(ports) => r matches Ok(v) && views(v@) == ports,
                Err(x) => r matches Err(e) && e@ == x,
            }
        }),
{
    broadcast use container_views;

    match value {
        None => Ok(value_port_list()),
        Some(AgentValue::Array(items)) => {
            let ghost all = value_views(items@);
            let mut ports: Vec<String> = Vec::new();
            let mut i: usize = 0;
            while i < items.len()
                invariant
                    i <= items.len(),
                    ports.len() == i,
                    all == value_views(items@),
                    value matches Some(v) && v@ == Data::Array(all),
                    forall|k: int| 0 <= k < i ==> names_port(#[trigger] all[k]),
                    forall|k: int|
                        0 <= k < i ==> (#[trigger] ports@[k])@ == text_in(all[k])->0,
                decreases items.len() - i,
            {
                assert(all[i as int] == items@[i as int]@);
                match items[i].as_str() {
                    Some(s) if s.unicode_len() > 0 => {
                        ports.push(s.to_string());
                    },
                    _ => {
                        assert(!names_port(all[i as int]));
                        return Err(
                            AgentError::InvalidConfig(
                                concat3("AGENT.", key, " must be an array of non-empty strings"),
                            ),
                        );
                    },
                }
                i = i + 1;
            }
            assert(views(ports@) =~= port_names(all));
            Ok(ports)
        },
        Some(_) => Err(
            AgentError::InvalidConfig(concat3("AGENT.", key, " must be an array of strings")),
        ),
    }
}

/// Whether the module itself owns the configuration value.
pub open spec fn built_in(name: Seq<char>) -> bool {
    name == "script"@ || name == "time_limit_ms"@ || name == "memory_limit_mb"@
}

/// Whether the text starts with an underscore.
pub open spec fn parked(name: Seq<char>) -> bool {
    name.len() > 0 && name[0] == '_'
}

/// What is wrong with the name of a declared configuration value, if anything
/// is.
pub open spec fn name_flaw(name: Seq<char>) -> Option<ErrorData> {
    if name.len() == 0 || parked(name) {
        Some(
            ErrorData::InvalidConfig(
                "AGENT.configs name `"@ + name
                    + "` is invalid: it must be non-empty and must not start with `_`"@,
            ),
        )
    } else if built_in(name) {
        Some(
            ErrorData::InvalidConfig(
                "AGENT.configs name `"@ + name + "` conflicts with a built-in config"@,
            ),
        )
    } else {
        None
    }
}

/// Whether the text starts with an underscore.
pub(crate) fn is_parked(name: &str) -> (r: bool)
    ensures
        r == parked(name@),
{
    name.unicode_len() > 0 && name.get_char(0) == '_'
}

/// Checks the name of a declared configuration value.
pub fn validate_config_name(name: &str) -> (r: Result<(), AgentError>)
    ensures
        match name_flaw(name@) {
            None => r is Ok,
            Some(x) => r matches Err(e) && e@ == x,
        },
{
    if name.unicode_len() == 0 || is_parked(name) {
        return Err(
            AgentError::InvalidConfig(
                concat3(
                    "AGENT.configs name `",
                    name,
                    "` is invalid: it must be non-empty and must not start with `_`",
                ),
            ),
        );
    }
    if same(name, "script") || same(name, "time_limit_ms") || same(name, "memory_limit_mb") {
        return Err(
            AgentError::InvalidConfig(
                concat3("AGENT.configs name `", name, "` conflicts with a built-in config"),
            ),
        );
    }
    Ok(())
}

/// The default of a configuration value of a type; unknown types hold text.
pub open spec fn type_default(type_: Seq<char>) -> Data {
    if type_ == "integer"@ {
        Data::Integer(0)
    } else if type_ == "number"@ {
        Data::Number(0)
    } else if type_ == "boolean"@ {
        Data::Boolean(false)
    } else if type_ == "object"@ {
        Data::Object(Seq::empty())
    } else if type_ == "array"@ {
        Data::Array(Seq::empty())
    } else {
        Data::String(Seq::empty())
    }
}

/// The default of a configuration value of a type.
pub fn default_for_type(type_: &str) -> (r: AgentValue)
    ensures
        r@ == type_default(type_@),
{
    broadcast use container_views;

    if same(type_, "integer") {
        AgentValue::Integer(0)
    } else if same(type_, "number") {
        AgentValue::Number(Number::zero())
    } else if same(type_, "boolean") {
        AgentValue::Boolean(false)
    } else if same(type_, "object") {
        let items: Vec<(String, AgentValue)> = Vec::new();
        assert(entry_views(items@) =~= Seq::empty());
        AgentValue::Object(items)
    } else if same(type_, "array") {
        let items: Vec<AgentValue> = Vec::new();
        assert(value_views(items@) =~= Seq::empty());
        AgentValue::Array(items)
    } else {
        let s = String::new();
        assert(s@ =~= Seq::empty());
        AgentValue::String(s)
    }
}

/// The type of a default value; what has no type of its own counts as text.
pub open spec fn inferred_type(d: Data) -> Seq<char> {
    match d {
        Data::Boolean(_) => "boolean"@,
        Data::Integer(_) => "integer"@,
        Data::Number(_) => "number"@,
        Data::Object(_) => "object"@,
        Data::Array(_) => "array"@,
        _ => "string"@,
    }
}

/// The type of a default value.
pub fn infer_type(value: &AgentValue) -> (r: &'static str)
    ensures
        r@ == inferred_type(value@),
{
    match value {
        AgentValue::Boolean(_) => "boolean",
        AgentValue::Integer(_) => "integer",
        AgentValue::Number(_) => "number",
        AgentValue::Object(_) => "object",
        AgentValue::Array(_) => "array",
        _ => "string",
    }
}

/// The text under `key` of an object, if there is one.
pub open spec fn text_member(d: Data, key: Seq<char>) -> Option<Seq<char>> {
    match member(d, key) {
        Some(t) => text_in(t),
        None => None,
    }
}

/// The type and the default that the declaration of a value gives: each is
/// taken from the other where it is missing, and text where both are.
pub open spec fn type_and_value(type_: Option<Seq<char>>, value: Option<Data>) -> (Seq<char>, Data) {
    match (type_, value) {
        (Some(t), Some(v)) => (t, v),
        (Some(t), None) => (t, type_default(t)),
        (None, Some(v)) => (inferred_type(v), v),
        (None, None) => ("string"@, Data::String(Seq::empty())),
    }
}

/// The description that the declaration of a configuration value gives.
pub open spec fn declared_config(name: Seq<char>, d: Data) -> Result<ConfigSpecData, ErrorData> {
    if !(d is Object) {
        Err(ErrorData::InvalidConfig("AGENT.configs."@ + name + " must be an object"@))
    } else if member(d, "type"@) is Some && text_member(d, "type"@) is None {
        Err(ErrorData::InvalidConfig("AGENT.configs."@ + name + ".type must be a string"@))
    } else {
        let (type_, value) = type_and_value(text_member(d, "type"@), member(d, "value"@));
        Ok(
            ConfigSpecData {
                title: text_member(d, "title"@),
                description: text_member(d, "description"@),
                ..bare_spec(value, type_)
            },
        )
    }
}

/// The text under `key` of an object, if there is one.
fn get_text(value: &AgentValue, key: &str) -> (r: Option<String>)
    ensures
        match r {
            Some(s) => text_member(value@, key@) == Some(s@),
            None => text_member(value@, key@) is None,
        },
{
    match value.get(key) {
        Some(t) => match t.as_str() {
            Some(s) => Some(s.to_string()),
            None => None,
        },
        None => None,
    }
}

/// Reads the declaration of a configuration value.
pub fn parse_config_decl(name: &str, entry: &AgentValue) -> (r: Result<ConfigSpec, AgentError>)
    ensures
        match declared_config(name@, entry@) {
            Ok(d) => r matches Ok(s) && s@ == d,
            Err(x) => r matches Err(e) && e@ == x,
        },
{
    if !matches!(entry, AgentValue::Object(_)) {
        return Err(
            AgentError::InvalidConfig(concat3("AGENT.configs.", name, " must be an object")),
        );
    }
    let declared_type = get_text(entry, "type");
    if entry.get("type").is_some() && declared_type.is_none() {
        return Err(
            AgentError::InvalidConfig(concat3("AGENT.configs.", name, ".type must be a string")),
        );
    }
    let mut spec = match (declared_type, entry.get("value")) {
        (Some(t), Some(v)) => ConfigSpec::new(v.copy(), t.as_str()),
        (Some(t), None) => ConfigSpec::new(default_for_type(t.as_str()), t.as_str()),
        (None, Some(v)) => ConfigSpec::new(v.copy(), infer_type(v)),
        (None, None) => {
            let empty = String::new();
            assert(empty@ =~= Seq::empty());
            ConfigSpec::new(AgentValue::String(empty), "string")
        },
    };
    spec.title = get_text(entry, "title");
    spec.description = get_text(entry, "description");
    Ok(spec)
}

/// The declared configuration values in order; the first flaw spoils them.
pub open spec fn declared_configs(es: Seq<(Seq<char>, Data)>) -> Result<
    Seq<(Seq<char>, ConfigSpecData)>,
    ErrorData,
>
    decreases es.len(),
{
    if es.len() == 0 {
        Ok(Seq::empty())
    } else {
        match declared_configs(es.drop_last()) {
            Err(x) => Err(x),
            Ok(done) => match name_flaw(es.last().0) {
                Some(x) => Err(x),
                None => match declared_config(es.last().0, es.last().1) {
                    Ok(d) => Ok(done.push((es.last().0, d))),
                    Err(x) => Err(x),
                },
            },
        }
    }
}

/// What the value of `AGENT` declares. Other keys of the object are ignored.
pub open spec fn declared(d: Data) -> Result<DeclarationData, ErrorData> {
    match d {
        Data::Unit => Err(
            ErrorData::InvalidConfig("the script must declare a top-level AGENT object"@),
        ),
        Data::Object(_) => match declared_ports(member(d, "inputs"@), "inputs"@) {
            Err(x) => Err(x),
            Ok(inputs) => match declared_ports(member(d, "outputs"@), "outputs"@) {
                Err(x) => Err(x),
                Ok(outputs) => match member(d, "configs"@) {
                    None => Ok(DeclarationData { inputs, outputs, configs: Seq::empty() }),
                    Some(Data::Object(es)) => match declared_configs(sort_entries(es)) {
                        Err(x) => Err(x),
                        Ok(configs) => Ok(DeclarationData { inputs, outputs, configs }),
                    },
                    Some(_) => Err(ErrorData::InvalidConfig("AGENT.configs must be an object"@)),
                },
            },
        },
        _ => Err(ErrorData::InvalidConfig("AGENT must be an object"@)),
    }
}

/// A copy of the entries of an object, ordered by key.
pub(crate) fn sorted_copy(items: &Vec<(String, AgentValue)>) -> (r: Vec<(String, AgentValue)>)
    ensures
        entry_views(r@) == sort_entries(entry_views(items@)),
{
    let ghost all = entry_views(items@);
    let mut out: Vec<(String, AgentValue)> = Vec::new();
    let mut i: usize = 0;
    assert(entry_views(out@) =~= sort_entries(all.take(0)));
    while i < items.len()
        invariant
            i <= items.len(),
            all == entry_views(items@),
            entry_views(out@) == sort_entries(all.take(i as int)),
        decreases items.len() - i,
    {
        assert(all.take(i + 1).drop_last() =~= all.take(i as int));
        assert(all.take(i + 1).last() == all[i as int]);
        insert_sorted(&mut out, items[i].0.clone(), items[i].1.copy());
        i = i + 1;
    }
    assert(all.take(i as int) =~= all);
    out
}

/// A spoilt beginning spoils the whole list.
proof fn flaw_stays(es: Seq<(Seq<char>, Data)>, n: int, x: ErrorData)
    requires
        0 <= n <= es.len(),
        declared_configs(es.take(n)) == Err::<Seq<(Seq<char>, ConfigSpecData)>, ErrorData>(x),
    ensures
        declared_configs(es) == Err::<Seq<(Seq<char>, ConfigSpecData)>, ErrorData>(x),
    decreases es.len(),
{
    if n == es.len() {
        assert(es.take(n) =~= es);
    } else {
        assert(es.drop_last().take(n) =~= es.take(n));
        flaw_stays(es.drop_last(), n, x);
    }
}

/// Reads the declared configuration values.
fn parse_configs(items: &Vec<(String, AgentValue)>) -> (r: Result<
    Vec<(String, ConfigSpec)>,
    AgentError,
>)
    ensures
        match declared_configs(sort_entries(entry_views(items@))) {
            Ok(configs) => r matches Ok(v) && entry_views(v@) == configs,
            Err(x) => r matches Err(e) && e@ == x,
        },
{
    let entries = sorted_copy(items);
    let ghost all = entry_views(entries@);
    let mut configs: Vec<(String, ConfigSpec)> = Vec::new();
    let mut i: usize = 0;
    assert(entry_views(configs@) =~= Seq::empty());
    while i < entries.len()
        invariant
            i <= entries.len(),
            all == entry_views(entries@),
            all == sort_entries(entry_views(items@)),
            declared_configs(all.take(i as int)) == Ok::<
                Seq<(Seq<char>, ConfigSpecData)>,
                ErrorData,
            >(entry_views(configs@)),
        decreases entries.len() - i,
    {
        proof {
            assert(all.take(i + 1).drop_last() =~= all.take(i as int));
            assert(all.take(i + 1).last() == all[i as int]);
        }
        match validate_config_name(entries[i].0.as_str()) {
            Err(e) => {
                proof {
                    flaw_stays(all, i + 1, e@);
                }
                return Err(e);
            },
            Ok(_) => {},
        }
        match parse_config_decl(entries[i].0.as_str(), &entries[i].1) {
            Err(e) => {
                proof {
                    flaw_stays(all, i + 1, e@);
                }
                return Err(e);
            },
            Ok(spec) => {
                let ghost before = entry_views(configs@);
                configs.push((entries[i].0.clone(), spec));
                assert(entry_views(configs@) =~= before.push((all[i as int].0, spec@)));
            },
        }
        i = i + 1;
    }
    assert(all.take(i as int) =~= all);
    Ok(configs)
}

/// Reads the value of `AGENT`.
pub fn parse_declaration(value: &AgentValue) -> (r: Result<Declaration, AgentError>)
    ensures
        declaration_view(r) == declared(value@),
{
    broadcast use container_views;

    match value {
        AgentValue::Unit => {
            // An unknown global is `undefined`, so a script without a
            // declaration ends up here.
            return Err(
                AgentError::InvalidConfig(
                    "the script must declare a top-level AGENT object".to_string(),
                ),
            );
        },
        AgentValue::Object(_) => {},
        _ => {
            return Err(AgentError::InvalidConfig("AGENT must be an object".to_string()));
        },
    }
    let inputs = match parse_port_list(value.get("inputs"), "inputs") {
        Ok(ports) => ports,
        Err(e) => {
            return Err(e);
        },
    };
    let outputs = match parse_port_list(value.get("outputs"), "outputs") {
        Ok(ports) => ports,
        Err(e) => {
            return Err(e);
        },
    };
    let configs = match value.get("configs") {
        None => {
            let configs: Vec<(String, ConfigSpec)> = Vec::new();
            assert(entry_views(configs@) =~= Seq::empty());
            configs
        },
        Some(AgentValue::Object(items)) => match parse_configs(items) {
            Ok(configs) => configs,
            Err(e) => {
                return Err(e);
            },
        },
        Some(_) => {
            return Err(AgentError::InvalidConfig("AGENT.configs must be an object".to_string()));
        },
    };
    Ok(Declaration { inputs, outputs, configs })
}

proof fn configs_follow_entries(es: Seq<(Seq<char>, Data)>)
    ensures
        declared_configs(es) matches Ok(configs) ==> {
            &&& configs.len() == es.len()
            &&& forall|i: int|
                0 <= i < es.len() ==> (#[trigger] configs[i]).0 == es[i].0 && name_flaw(
                    configs[i].0,
                ) is None
        },
    decreases es.len(),
{
    if es.len() > 0 {
        configs_follow_entries(es.drop_last());
        if declared_configs(es) is Ok {
            let configs = declared_configs(es)->Ok_0;
            let done = declared_configs(es.drop_last())->Ok_0;
            assert forall|i: int| 0 <= i < es.len() implies (#[trigger] configs[i]).0 == es[i].0
                && name_flaw(configs[i].0) is None by {
                if i < es.len() - 1 {
                    assert(configs[i] == done[i]);
                    assert(es.drop_last()[i] == es[i]);
                }
            }
        }
    }
}

/// Declared configuration values come ordered by name, no name twice, and
/// every name is valid: neither empty, nor built in, nor with an underscore
/// in front.
pub proof fn declared_names_are_ordered_and_valid(d: Data)
    ensures
        declared(d) matches Ok(decl) ==> {
            &&& ordered(decl.configs)
            &&& forall|i: int|
                0 <= i < decl.configs.len() ==> name_flaw((#[trigger] decl.configs[i]).0) is None
        },
{
    if declared(d) is Ok {
        let decl = declared(d)->Ok_0;
        if let Some(Data::Object(es)) = member(d, "configs"@) {
            let sorted = sort_entries(es);
            configs_follow_entries(sorted);
            sort_is_ordered(es);
            assert forall|i: int, j: int| 0 <= i < j < decl.configs.len() implies before(
                #[trigger] decl.configs[i].0,
                #[trigger] decl.configs[j].0,
            ) by {
                assert(decl.configs[i].0 == sorted[i].0);
                assert(decl.configs[j].0 == sorted[j].0);
            }
        }
    }
}

/// Declared ports have names.
pub proof fn declared_ports_have_names(d: Data)
    ensures
        declared(d) matches Ok(decl) ==> {
            &&& forall|i: int| 0 <= i < decl.inputs.len() ==> (#[trigger] decl.inputs[i]).len() > 0
            &&& forall|i: int|
                0 <= i < decl.outputs.len() ==> (#[trigger] decl.outputs[i]).len() > 0
        },
{
    reveal_strlit("value");
}

/// The order in which a script writes its configuration values down does not
/// matter.
pub proof fn declared_order_is_free(a: Seq<(Seq<char>, Data)>, b: Seq<(Seq<char>, Data)>)
    requires
        entry_map(a) == entry_map(b),
    ensures
        declared_configs(sort_entries(a)) == declared_configs(sort_entries(b)),
{
    sort_depends_on_map(a, b);
}

/// A declaration is made by `inputs`, `outputs` and `configs` alone; all other
/// keys are accepted and ignored.
pub proof fn other_keys_are_ignored(a: Seq<(Seq<char>, Data)>, b: Seq<(Seq<char>, Data)>)
    requires
        member(Data::Object(a), "inputs"@) == member(Data::Object(b), "inputs"@),
        member(Data::Object(a), "outputs"@) == member(Data::Object(b), "outputs"@),
        member(Data::Object(a), "configs"@) == member(Data::Object(b), "configs"@),
    ensures
        declared(Data::Object(a)) == declared(Data::Object(b)),
{
}

/// A name can be declared unless it is empty, starts with an underscore or is
/// one of the three built-in names; the error says which of these it is.
pub proof fn valid_names(name: Seq<char>)
    ensures
        name_flaw(name) is None <==> name.len() > 0 && name[0] != '_' && name != "script"@ && name
            != "time_limit_ms"@ && name != "memory_limit_mb"@,
        name.len() == 0 || name[0] == '_' ==> name_flaw(name) == Some(
            ErrorData::InvalidConfig(
                "AGENT.configs name `"@ + name
                    + "` is invalid: it must be non-empty and must not start with `_`"@,
            ),
        ),
        name == "script"@ || name == "time_limit_ms"@ || name == "memory_limit_mb"@ ==> name_flaw(
            name,
        ) == Some(
            ErrorData::InvalidConfig(
                "AGENT.configs name `"@ + name + "` conflicts with a built-in config"@,
            ),
        ),
{
    reveal_strlit("script");
    reveal_strlit("time_limit_ms");
    reveal_strlit("memory_limit_mb");
}

/// The default of a type has that type and is the empty one: zero, false, no
/// entries, no items, no text. A type that there is not counts as text.
pub proof fn types_have_empty_defaults(type_: Seq<char>)
    ensures
        type_default("integer"@) == Data::Integer(0),
        type_default("number"@) == Data::Number(0),
        type_default("boolean"@) == Data::Boolean(false),
        type_default("object"@) == Data::Object(Seq::empty()),
        type_default("array"@) == Data::Array(Seq::empty()),
        type_ != "integer"@ && type_ != "number"@ && type_ != "boolean"@ && type_ != "object"@
            && type_ != "array"@ ==> type_default(type_) == Data::String(Seq::empty()),
        type_ == "integer"@ || type_ == "number"@ || type_ == "boolean"@ || type_ == "object"@
            || type_ == "array"@ || type_ == "string"@ ==> inferred_type(type_default(type_))
            == type_,
{
    reveal_strlit("integer");
    reveal_strlit("number");
    reveal_strlit("boolean");
    reveal_strlit("object");
    reveal_strlit("array");
    reveal_strlit("string");
    assert("integer"@.len() == 7 && "integer"@[0] == 'i');
    assert("boolean"@.len() == 7 && "boolean"@[0] == 'b');
    assert("number"@.len() == 6 && "number"@[0] == 'n');
    assert("object"@.len() == 6 && "object"@[0] == 'o');
    assert("string"@.len() == 6 && "string"@[0] == 's');
    assert("array"@.len() == 5);
}

/// The type of a default goes by the kind of value alone; kinds without a type
/// count as text.
pub proof fn kinds_have_types(d: Data)
    ensures
        d is Boolean ==> inferred_type(d) == "boolean"@,
        d is Integer ==> inferred_type(d) == "integer"@,
        d is Number ==> inferred_type(d) == "number"@,
        d is Object ==> inferred_type(d) == "object"@,
        d is Array ==> inferred_type(d) == "array"@,
        d is String || d is Unit || d is Image || d is Tensor || d is Message || d is Error
            ==> inferred_type(d) == "string"@,
{
}

/// A configuration value is declared by an object whose `type`, if there is
/// one, is a text. Anything else is refused, naming the value.
pub proof fn config_declarations_are_objects(name: Seq<char>, d: Data)
    ensures
        !(d is Object) ==> declared_config(name, d) == Err::<ConfigSpecData, _>(
            ErrorData::InvalidConfig("AGENT.configs."@ + name + " must be an object"@),
        ),
        d matches Data::Object(es) ==> match lookup(es, "type"@) {
            Some(t) => if t is String {
                declared_config(name, d) is Ok
            } else {
                declared_config(name, d) == Err::<ConfigSpecData, _>(
                    ErrorData::InvalidConfig("AGENT.configs."@ + name + ".type must be a string"@),
                )
            },
            None => declared_config(name, d) is Ok,
        },
{
}

/// A declared configuration value has the type, the default, the title and the
/// description that its declaration gives, and is shown to the user. A missing
/// type goes by the default, a missing default by the type, and both are text
/// where both are missing.
pub proof fn config_declarations_are_taken_over(
    name: Seq<char>,
    es: Seq<(Seq<char>, Data)>,
    spec: ConfigSpecData,
)
    requires
        declared_config(name, Data::Object(es)) == Ok::<_, ErrorData>(spec),
    ensures
        match (lookup(es, "type"@), lookup(es, "value"@)) {
            (Some(Data::String(t)), Some(v)) => spec.type_ == Some(t) && spec.value == v,
            (Some(Data::String(t)), None) => spec.type_ == Some(t) && spec.value == type_default(t),
            (None, Some(v)) => spec.type_ == Some(inferred_type(v)) && spec.value == v,
            (None, None) => spec.type_ == Some("string"@) && spec.value == Data::String(
                Seq::empty(),
            ),
            _ => false,
        },
        match lookup(es, "title"@) {
            Some(Data::String(t)) => spec.title == Some(t),
            _ => spec.title is None,
        },
        match lookup(es, "description"@) {
            Some(Data::String(t)) => spec.description == Some(t),
            _ => spec.description is None,
        },
        !spec.hide_title && !spec.hidden && !spec.readonly && !spec.detail,
{
}

proof fn configs_are_read_entry_by_entry(es: Seq<(Seq<char>, Data)>)
    ensures
        declared_configs(es) is Ok <==> forall|i: int|
            0 <= i < es.len() ==> name_flaw((#[trigger] es[i]).0) is None && declared_config(
                es[i].0,
                es[i].1,
            ) is Ok,
        declared_configs(es) matches Ok(configs) ==> configs.len() == es.len() && forall|i: int|
            0 <= i < es.len() ==> (#[trigger] configs[i]).0 == es[i].0 && declared_config(
                es[i].0,
                es[i].1,
            ) == Ok::<_, ErrorData>(configs[i].1),
    decreases es.len(),
{
    if es.len() > 0 {
        let init = es.drop_last();
        configs_are_read_entry_by_entry(init);
        assert(es.last() == es[es.len() - 1]);
        if declared_configs(init) is Ok {
            assert forall|i: int| 0 <= i < init.len() implies name_flaw((#[trigger] es[i]).0) is None
                && declared_config(es[i].0, es[i].1) is Ok by {
                assert(init[i] == es[i]);
            }
        } else {
            let i = choose|i: int|
                0 <= i < init.len() && !(name_flaw((#[trigger] init[i]).0) is None
                    && declared_config(init[i].0, init[i].1) is Ok);
            assert(es[i] == init[i]);
        }
        if declared_configs(es) is Ok {
            let configs = declared_configs(es)->Ok_0;
            let done = declared_configs(init)->Ok_0;
            assert forall|i: int| 0 <= i < es.len() implies (#[trigger] configs[i]).0 == es[i].0
                && declared_config(es[i].0, es[i].1) == Ok::<_, ErrorData>(configs[i].1) by {
                if i < init.len() {
                    assert(configs[i] == done[i]);
                    assert(init[i] == es[i]);
                }
            }
        }
    }
}

/// The ports of a node are the listed ones, in their order, each by its name;
/// a list that is missing stands for one port called `value`.
pub proof fn listed_ports_are_declared(es: Seq<(Seq<char>, Data)>)
    ensures
        declared(Data::Object(es)) matches Ok(decl) ==> {
            &&& match lookup(es, "inputs"@) {
                None => decl.inputs == seq!["value"@],
                Some(Data::Array(items)) => decl.inputs.len() == items.len() && forall|i: int|
                    0 <= i < items.len() ==> #[trigger] items[i] == Data::String(decl.inputs[i]),
                Some(_) => false,
            }
            &&& match lookup(es, "outputs"@) {
                None => decl.outputs == seq!["value"@],
                Some(Data::Array(items)) => decl.outputs.len() == items.len() && forall|i: int|
                    0 <= i < items.len() ==> #[trigger] items[i] == Data::String(decl.outputs[i]),
                Some(_) => false,
            }
        },
{
}

/// The declared configuration values are those of the object under `configs`,
/// all of them and no others, each described by its own declaration.
pub proof fn listed_configs_are_declared(es: Seq<(Seq<char>, Data)>, name: Seq<char>)
    ensures
        declared(Data::Object(es)) matches Ok(decl) ==> match lookup(es, "configs"@) {
            None => decl.configs.len() == 0,
            Some(Data::Object(cs)) => match lookup(cs, name) {
                Some(d) => lookup(decl.configs, name) is Some && declared_config(name, d) == Ok::<
                    _,
                    ErrorData,
                >(lookup(decl.configs, name)->0),
                None => lookup(decl.configs, name) is None,
            },
            Some(_) => false,
        },
{
    if declared(Data::Object(es)) is Ok {
        let configs = declared(Data::Object(es))->Ok_0.configs;
        if let Some(Data::Object(cs)) = lookup(es, "configs"@) {
            let sorted = sort_entries(cs);
            configs_are_read_entry_by_entry(sorted);
            sort_is_ordered(cs);
            ordered_is_distinct(sorted);
            sort_keeps_lookup(cs, name);
            lookup_finds(sorted, name);
            lookup_finds(configs, name);
            assert(distinct(configs)) by {
                assert forall|i: int, j: int| 0 <= i < j < configs.len() implies (
                #[trigger] configs[i]).0 != (#[trigger] configs[j]).0 by {
                    assert(sorted[i].0 != sorted[j].0);
                }
            }
            if lookup(sorted, name) is Some {
                let i = choose|i: int| 0 <= i < sorted.len() && (#[trigger] sorted[i]).0 == name;
                assert(configs[i].0 == name);
                lookup_at(sorted, i);
                lookup_at(configs, i);
            } else if lookup(configs, name) is Some {
                let i = choose|i: int| 0 <= i < configs.len() && (#[trigger] configs[i]).0 == name;
                assert(sorted[i].0 == name);
            }
        }
    }
}

/// Which declarations are accepted: objects whose port lists, where they are
/// given, are arrays of texts that are not empty, and whose `configs`, where
/// it is given, is an object of valid names with valid declarations.
pub proof fn well_formed_declarations_are_accepted(d: Data)
    ensures
        ({
            let ports_fine = |v: Option<Data>|
                match v {
                    None => true,
                    Some(Data::Array(items)) => forall|i: int|
                        0 <= i < items.len() ==> ((#[trigger] items[i]) matches Data::String(s)
                            && s.len() > 0),
                    Some(_) => false,
                };
            declared(d) is Ok <==> match d {
                Data::Object(es) => {
                    &&& ports_fine(lookup(es, "inputs"@))
                    &&& ports_fine(lookup(es, "outputs"@))
                    &&& match lookup(es, "configs"@) {
                        None => true,
                        Some(Data::Object(cs)) => forall|name: Seq<char>|
                            (#[trigger] lookup(cs, name)) matches Some(c) ==> name_flaw(name) is None
                                && declared_config(name, c) is Ok,
                        Some(_) => false,
                    }
                },
                _ => false,
            }
        }),
{
    if let Data::Object(es) = d {
        if let Some(Data::Object(cs)) = lookup(es, "configs"@) {
            let sorted = sort_entries(cs);
            configs_are_read_entry_by_entry(sorted);
            sort_is_ordered(cs);
            ordered_is_distinct(sorted);
            if declared_configs(sorted) is Ok {
                assert forall|name: Seq<char>| (#[trigger] lookup(
                    cs,
                    name,
                )) is Some implies name_flaw(name) is None && declared_config(
                    name,
                    lookup(cs, name)->0,
                ) is Ok by {
                    sort_keeps_lookup(cs, name);
                    lookup_finds(sorted, name);
                    let i = choose|i: int| 0 <= i < sorted.len() && (#[trigger] sorted[i]).0 == name;
                    lookup_at(sorted, i);
                }
            } else {
                let i = choose|i: int|
                    0 <= i < sorted.len() && !(name_flaw((#[trigger] sorted[i]).0) is None
                        && declared_config(sorted[i].0, sorted[i].1) is Ok);
                lookup_at(sorted, i);
                sort_keeps_lookup(cs, sorted[i].0);
                assert(lookup(cs, sorted[i].0) == Some(sorted[i].1));
            }
        }
    }
}

/// A declaration that is refused says why: what `AGENT` is, which port list is
/// wrong and in which way, that `configs` is no object, or what is wrong in
/// it. Flaws are found in this order.
pub proof fn refused_declarations_say_why(d: Data)
    ensures
        ({
            let fails = |text: Seq<char>|
                declared(d) == Err::<DeclarationData, _>(ErrorData::InvalidConfig(text));
            match d {
                Data::Unit => fails("the script must declare a top-level AGENT object"@),
                Data::Object(es) => {
                    let inputs = lookup(es, "inputs"@);
                    let outputs = lookup(es, "outputs"@);
                    let listed = |v: Option<Data>|
                        v is None || (v matches Some(Data::Array(items)) && forall|i: int|
                            0 <= i < items.len() ==> ((#[trigger] items[i]) matches Data::String(s)
                                && s.len() > 0));
                    &&& inputs is Some && !(inputs->0 is Array) ==> fails(
                        "AGENT."@ + "inputs"@ + " must be an array of strings"@,
                    )
                    &&& !listed(inputs) && inputs->0 is Array ==> fails(
                        "AGENT."@ + "inputs"@ + " must be an array of non-empty strings"@,
                    )
                    &&& listed(inputs) && outputs is Some && !(outputs->0 is Array) ==> fails(
                        "AGENT."@ + "outputs"@ + " must be an array of strings"@,
                    )
                    &&& listed(inputs) && !listed(outputs) && outputs->0 is Array ==> fails(
                        "AGENT."@ + "outputs"@ + " must be an array of non-empty strings"@,
                    )
                    &&& listed(inputs) && listed(outputs) ==> (lookup(es, "configs"@) matches Some(
                        c,
                    ) ==> !(c is Object) ==> fails("AGENT.configs must be an object"@))
                    &&& listed(inputs) && listed(outputs) ==> (lookup(es, "configs"@) matches Some(
                        Data::Object(cs),
                    ) ==> (declared_configs(sort_entries(cs)) matches Err(x) ==> declared(d)
                        == Err::<DeclarationData, _>(x)))
                },
                _ => fails("AGENT must be an object"@),
            }
        }),
{
}

/// Where the ports are fine, the first flaw among the configuration values, in
/// the order of their names, is the error: that of the name before that of the
/// declaration.
pub proof fn first_config_flaw_is_reported(es: Seq<(Seq<char>, Data)>, n: int)
    requires
        0 <= n < es.len(),
        forall|i: int|
            0 <= i < n ==> name_flaw((#[trigger] es[i]).0) is None && declared_config(
                es[i].0,
                es[i].1,
            ) is Ok,
        name_flaw(es[n].0) is Some || declared_config(es[n].0, es[n].1) is Err,
    ensures
        name_flaw(es[n].0) matches Some(x) ==> declared_configs(es) == Err::<
            Seq<(Seq<char>, ConfigSpecData)>,
            _,
        >(x),
        name_flaw(es[n].0) is None ==> declared_configs(es) == Err::<
            Seq<(Seq<char>, ConfigSpecData)>,
            _,
        >(declared_config(es[n].0, es[n].1)->Err_0),
{
    let head = es.take(n);
    let part = es.take(n + 1);
    assert(part.drop_last() =~= head);
    assert(part.last() == es[n]);
    configs_are_read_entry_by_entry(head);
    assert forall|i: int| 0 <= i < head.len() implies name_flaw((#[trigger] head[i]).0) is None
        && declared_config(head[i].0, head[i].1) is Ok by {
        assert(head[i] == es[i]);
    }
    flaw_stays(es, n + 1, declared_configs(part)->Err_0);
}

/// Reading the value of `AGENT` gives the listed ports in their order, `value`
/// where a list is missing.
pub proof fn read_declarations_have_the_listed_ports(
    value: &AgentValue,
    r: Result<Declaration, AgentError>,
)
    requires
        call_ensures(parse_declaration, (value,), r),
    ensures
        r matches Ok(decl) ==> (value@ matches Data::Object(es) && {
            &&& match lookup(es, "inputs"@) {
                None => views(decl.inputs@) == seq!["value"@],
                Some(Data::Array(items)) => items == views(decl.inputs@).map_values(
                    |s: Seq<char>| Data::String(s),
                ),
                Some(_) => false,
            }
            &&& match lookup(es, "outputs"@) {
                None => views(decl.outputs@) == seq!["value"@],
                Some(Data::Array(items)) => items == views(decl.outputs@).map_values(
                    |s: Seq<char>| Data::String(s),
                ),
                Some(_) => false,
            }
            &&& lookup(es, "configs"@) is None ==> decl.configs@.len() == 0
        }),
{
    if let Data::Object(es) = value@ {
        listed_ports_are_declared(es);
        if let Ok(decl) = r {
            if let Some(Data::Array(items)) = lookup(es, "inputs"@) {
                assert(items =~= views(decl.inputs@).map_values(|s: Seq<char>| Data::String(s)));
            }
            if let Some(Data::Array(items)) = lookup(es, "outputs"@) {
                assert(items =~= views(decl.outputs@).map_values(|s: Seq<char>| Data::String(s)));
            }
            if lookup(es, "configs"@) is None {
                assert(entry_views(decl.configs@).len() == 0);
            }
        }
    }
}

} // verus!

//! The shape of a module: its ports, its configuration values and what is
//! known about each of them.

use vstd::prelude::*;

use crate::configs::config_entries;
use crate::entries::{keys_of, lookup, put};
use crate::text::views;
use crate::value::{AgentValue, Data};

verus! {

/// A map of `indexmap` that keeps the order of insertion.
#[verifier::external_type_specification]
#[verifier::external_body]
#[verifier::reject_recursive_types(K)]
#[verifier::reject_recursive_types(V)]
#[verifier::reject_recursive_types(S)]
pub struct ExIndexMap<K, V, S>(indexmap::IndexMap<K, V, S>);

/// The entries of an `indexmap::IndexMap` of configuration descriptions, in
/// order.
pub uninterp spec fn spec_entries(m: indexmap::IndexMap<String, ConfigSpec>) -> Seq<
    (Seq<char>, ConfigSpecData),
>;

/// What is known about a configuration value.
#[derive(Debug)]
pub struct ConfigSpec {
    /// The default.
    pub value: AgentValue,
    /// The name of the type.
    pub type_: Option<String>,
    /// The title to show.
    pub title: Option<String>,
    /// Whether the title is hidden.
    pub hide_title: bool,
    /// The description to show.
    pub description: Option<String>,
    /// Whether the value is hidden from the user.
    pub hidden: bool,
    /// Whether the user cannot change the value.
    pub readonly: bool,
    /// Whether the value is shown in the detail view only.
    pub detail: bool,
}

/// What is known about a configuration value, as contracts speak of it.
pub struct ConfigSpecData {
    pub value: Data,
    pub type_: Option<Seq<char>>,
    pub title: Option<Seq<char>>,
    pub hide_title: bool,
    pub description: Option<Seq<char>>,
    pub hidden: bool,
    pub readonly: bool,
    pub detail: bool,
}

/// The view of a text that may be missing.
pub open spec fn text_view(t: Option<String>) -> Option<Seq<char>> {
    match t {
        Some(s) => Some(s@),
        None => None,
    }
}

impl View for ConfigSpec {
    type V = ConfigSpecData;

    open spec fn view(&self) -> ConfigSpecData {
        ConfigSpecData {
            value: self.value@,
            type_: text_view(self.type_),
            title: text_view(self.title),
            hide_title: self.hide_title,
            description: text_view(self.description),
            hidden: self.hidden,
            readonly: self.readonly,
            detail: self.detail,
        }
    }
}

/// A description with a default and a type alone.
pub open spec fn bare_spec(value: Data, type_: Seq<char>) -> ConfigSpecData {
    ConfigSpecData {
        value,
        type_: Some(type_),
        title: None,
        hide_title: false,
        description: None,
        hidden: false,
        readonly: false,
        detail: false,
    }
}

fn copy_text(t: &Option<String>) -> (r: Option<String>)
    ensures
        text_view(r) == text_view(*t),
{
    match t {
        Some(s) => Some(s.clone()),
        None => None,
    }
}

impl ConfigSpec {
    /// A description with a default and a type alone.
    pub fn new(value: AgentValue, type_: &str) -> (r: ConfigSpec)
        ensures
            r@ == bare_spec(value@, type_@),
    {
        ConfigSpec {
            value,
            type_: Some(type_.to_string()),
            title: None,
            hide_title: false,
            description: None,
            hidden: false,
            readonly: false,
            detail: false,
        }
    }

    /// A copy of the description.
    pub fn copy(&self) -> (r: ConfigSpec)
        ensures
            r@ == self@,
    {
        ConfigSpec {
            value: self.value.copy(),
            type_: copy_text(&self.type_),
            title: copy_text(&self.title),
            hide_title: self.hide_title,
            description: copy_text(&self.description),
            hidden: self.hidden,
            readonly: self.readonly,
            detail: self.detail,
        }
    }
}

/// Configuration descriptions by name, in the order in which they are shown.
#[derive(Debug)]
pub struct ConfigSpecs {
    map: indexmap::IndexMap<String, ConfigSpec>,
}

impl View for ConfigSpecs {
    type V = Seq<(Seq<char>, ConfigSpecData)>;

    closed spec fn view(&self) -> Seq<(Seq<char>, ConfigSpecData)> {
        spec_entries(self.map)
    }
}

/// Calls `indexmap::IndexMap::new`. The contract claims that the map is empty.
#[verifier::external_body]
fn new_map() -> (r: indexmap::IndexMap<String, ConfigSpec>)
    ensures
        spec_entries(r) == Seq::<(Seq<char>, ConfigSpecData)>::empty(),
{
    indexmap::IndexMap::new()
}

/// Calls `indexmap::IndexMap::insert`. The contract claims that the
/// description takes the place of the one with its name, or comes last.
#[verifier::external_body]
fn insert_into(m: &mut indexmap::IndexMap<String, ConfigSpec>, name: String, spec: ConfigSpec)
    ensures
        spec_entries(*final(m)) == put(spec_entries(*old(m)), name@, spec@),
{
    m.insert(name, spec);
}

/// Calls `indexmap::IndexMap::get`. The contract claims that the description
/// under the name comes out, if there is one.
#[verifier::external_body]
fn get_from<'a>(m: &'a indexmap::IndexMap<String, ConfigSpec>, name: &str) -> (r: Option<
    &'a ConfigSpec,
>)
    ensures
        match r {
            Some(spec) => lookup(spec_entries(*m), name@) == Some(spec@),
            None => lookup(spec_entries(*m), name@) is None,
        },
{
    m.get(name)
}

/// Calls `indexmap::IndexMap::keys`. The contract claims that the names come
/// out in order, and that no two of them are the same.
#[verifier::external_body]
fn keys_from(m: &indexmap::IndexMap<String, ConfigSpec>) -> (r: Vec<String>)
    ensures
        views(r@) == keys_of(spec_entries(*m)),
        views(r@).no_duplicates(),
{
    m.keys().cloned().collect()
}

impl ConfigSpecs {
    /// No descriptions.
    pub fn new() -> (r: ConfigSpecs)
        ensures
            r@ == Seq::<(Seq<char>, ConfigSpecData)>::empty(),
    {
        ConfigSpecs { map: new_map() }
    }

    /// Stores a description: in the place of the one with its name, or last.
    pub fn insert(&mut self, name: String, spec: ConfigSpec)
        ensures
            final(self)@ == put(old(self)@, name@, spec@),
    {
        insert_into(&mut self.map, name, spec);
    }

    /// The description under `name`.
    pub fn get(&self, name: &str) -> (r: Option<&ConfigSpec>)
        ensures
            match r {
                Some(spec) => lookup(self@, name@) == Some(spec@),
                None => lookup(self@, name@) is None,
            },
    {
        get_from(&self.map, name)
    }

    /// The names, in order.
    pub fn keys(&self) -> (r: Vec<String>)
        ensures
            views(r@) == keys_of(self@),
            views(r@).no_duplicates(),
    {
        keys_from(&self.map)
    }
}

/// The shape of a module.
#[derive(Debug)]
pub struct AgentSpec {
    /// The input ports, where they differ from the definition's.
    pub inputs: Option<Vec<String>>,
    /// The output ports, where they differ from the definition's.
    pub outputs: Option<Vec<String>>,
    /// The configuration values.
    pub configs: Option<modular_agent_core::ModuleConfigs>,
    /// The descriptions of the configuration values.
    pub config_specs: Option<ConfigSpecs>,
}

/// The shape of a module, as contracts speak of it.
pub struct SpecData {
    pub inputs: Option<Seq<Seq<char>>>,
    pub outputs: Option<Seq<Seq<char>>>,
    pub configs: Option<Seq<(Seq<char>, Data)>>,
    pub config_specs: Option<Seq<(Seq<char>, ConfigSpecData)>>,
}

/// The view of ports that may be missing.
pub open spec fn port_views(ports: Option<Vec<String>>) -> Option<Seq<Seq<char>>> {
    match ports {
        Some(p) => Some(views(p@)),
        None => None,
    }
}

impl View for AgentSpec {
    type V = SpecData;

    open spec fn view(&self) -> SpecData {
        SpecData {
            inputs: port_views(self.inputs),
            outputs: port_views(self.outputs),
            configs: match self.configs {
                Some(c) => Some(config_entries(c)),
                None => None,
            },
            config_specs: match self.config_specs {
                Some(s) => Some(s@),
                None => None,
            },
        }
    }
}

/// A copy of a description is the same in every part.
pub proof fn copies_keep_every_part(spec: &ConfigSpec, r: ConfigSpec)
    requires
        call_ensures(ConfigSpec::copy, (spec,), r),
    ensures
        r.value@ == spec.value@,
        text_view(r.type_) == text_view(spec.type_),
        text_view(r.title) == text_view(spec.title),
        text_view(r.description) == text_view(spec.description),
        r.hide_title == spec.hide_title,
        r.hidden == spec.hidden,
        r.readonly == spec.readonly,
        r.detail == spec.detail,
{
}

/// A new description has its default and its type, no texts, and nothing
/// hidden.
pub proof fn new_descriptions_are_bare(value: AgentValue, type_: &str, r: ConfigSpec)
    requires
        call_ensures(ConfigSpec::new, (value, type_), r),
    ensures
        r.value@ == value@,
        r.type_ is Some && r.type_->0@ == type_@,
        r.title is None && r.description is None,
        !r.hide_title && !r.hidden && !r.readonly && !r.detail,
{
}

} // verus!

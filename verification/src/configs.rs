//! The configuration of a module.

use vstd::prelude::*;

use crate::entries::{distinct, keys_of, lookup, put, put_then_lookup, without};
use crate::error::{AgentError, ErrorData};
use crate::exchange::{host_value, read_value, value_tree};
use crate::host::truncated;
use crate::text::views;
use crate::value::{integer_in, text_in, tidy, AgentValue, Data};

verus! {

/// The configuration values of a module, as the host framework keeps them.
#[verifier::external_type_specification]
#[verifier::external_body]
pub struct ExModuleConfigs(modular_agent_core::ModuleConfigs);

/// The entries of a `modular_agent_core::ModuleConfigs`, in order.
pub uninterp spec fn config_entries(c: modular_agent_core::ModuleConfigs) -> Seq<
    (Seq<char>, Data),
>;

/// The integer under `key`, or the default.
pub open spec fn integer_or(es: Seq<(Seq<char>, Data)>, key: Seq<char>, default: i64) -> i64 {
    match lookup(es, key) {
        Some(d) => match integer_in(d) {
            Some(i) => i,
            None => default,
        },
        None => default,
    }
}

/// The text under `key`, if there is one.
pub open spec fn string_under(es: Seq<(Seq<char>, Data)>, key: Seq<char>) -> Option<Seq<char>> {
    match lookup(es, key) {
        Some(d) => text_in(d),
        None => None,
    }
}

/// The text under `key`, or the empty text.
pub open spec fn string_or_default(es: Seq<(Seq<char>, Data)>, key: Seq<char>) -> Seq<char> {
    match string_under(es, key) {
        Some(s) => s,
        None => Seq::empty(),
    }
}

/// The boolean under `key`, or the default.
pub open spec fn bool_or(es: Seq<(Seq<char>, Data)>, key: Seq<char>, default: bool) -> bool {
    match lookup(es, key) {
        Some(Data::Boolean(b)) => b,
        _ => default,
    }
}

/// `modular_agent_core::ModuleConfigs::new` yields a configuration without
/// entries.
pub assume_specification[ modular_agent_core::ModuleConfigs::new ]() -> (r:
    modular_agent_core::ModuleConfigs)
    ensures
        config_entries(r) == Seq::<(Seq<char>, Data)>::empty(),
;

/// `modular_agent_core::ModuleConfigs::clone` yields the same configuration.
pub assume_specification[ <modular_agent_core::ModuleConfigs as Clone>::clone ](
    c: &modular_agent_core::ModuleConfigs,
) -> (r: modular_agent_core::ModuleConfigs)
    ensures
        r == *c,
;

/// `modular_agent_core::ModuleConfigs::set` stores a value in the place of the
/// one with its key, or at the end.
pub assume_specification[ modular_agent_core::ModuleConfigs::set ](
    c: &mut modular_agent_core::ModuleConfigs,
    key: String,
    value: modular_agent_core::Value,
)
    ensures
        config_entries(*final(c)) == put(config_entries(*old(c)), key@, value_tree(value)),
;

/// `modular_agent_core::ModuleConfigs::contains_key` tells whether there is a
/// value under the key.
pub assume_specification[ modular_agent_core::ModuleConfigs::contains_key ](
    c: &modular_agent_core::ModuleConfigs,
    key: &str,
) -> (r: bool)
    ensures
        r == (lookup(config_entries(*c), key@) is Some),
;

/// `modular_agent_core::ModuleConfigs::remove` takes the value under the key
/// out and keeps the order of the others.
pub assume_specification[ modular_agent_core::ModuleConfigs::remove ](
    c: &mut modular_agent_core::ModuleConfigs,
    key: &str,
) -> (r: Option<modular_agent_core::Value>)
    ensures
        config_entries(*final(c)) == without(config_entries(*old(c)), key@),
        match r {
            Some(v) => lookup(config_entries(*old(c)), key@) == Some(value_tree(v)),
            None => lookup(config_entries(*old(c)), key@) is None,
        },
;

/// `modular_agent_core::ModuleConfigs::get_integer_or` reads an integer, or a
/// number truncated to one, or yields the default.
pub assume_specification[ modular_agent_core::ModuleConfigs::get_integer_or ](
    c: &modular_agent_core::ModuleConfigs,
    key: &str,
    default: i64,
) -> (r: i64)
    ensures
        r == integer_or(config_entries(*c), key@, default),
;

/// `modular_agent_core::ModuleConfigs::get_string_or_default` reads a text, or
/// yields the empty one.
pub assume_specification[ modular_agent_core::ModuleConfigs::get_string_or_default ](
    c: &modular_agent_core::ModuleConfigs,
    key: &str,
) -> (r: String)
    ensures
        r@ == string_or_default(config_entries(*c), key@),
;

/// `modular_agent_core::ModuleConfigs::get_bool_or` reads a boolean, or yields
/// the default.
pub assume_specification[ modular_agent_core::ModuleConfigs::get_bool_or ](
    c: &modular_agent_core::ModuleConfigs,
    key: &str,
    default: bool,
) -> (r: bool)
    ensures
        r == bool_or(config_entries(*c), key@, default),
;

/// `modular_agent_core::ModuleConfigs::get_bool_or_default` reads a boolean,
/// or yields false.
pub assume_specification[ modular_agent_core::ModuleConfigs::get_bool_or_default ](
    c: &modular_agent_core::ModuleConfigs,
    key: &str,
) -> (r: bool)
    ensures
        r == bool_or(config_entries(*c), key@, false),
;

/// Calls `modular_agent_core::ModuleConfigs::get`. The contract claims that
/// the value under the key comes out, if there is one.
#[verifier::external_body]
pub(crate) fn stored_value(c: &modular_agent_core::ModuleConfigs, key: &str) -> (r: Option<
    modular_agent_core::Value,
>)
    ensures
        match r {
            Some(v) => lookup(config_entries(*c), key@) == Some(value_tree(v)),
            None => lookup(config_entries(*c), key@) is None,
        },
{
    c.get(key).ok().cloned()
}

/// Calls `modular_agent_core::ModuleConfigs::get_string`. The contract claims
/// that the text under the key comes out, if there is one.
#[verifier::external_body]
fn stored_string(c: &modular_agent_core::ModuleConfigs, key: &str) -> (r: Option<String>)
    ensures
        match r {
            Some(s) => string_under(config_entries(*c), key@) == Some(s@),
            None => string_under(config_entries(*c), key@) is None,
        },
{
    c.get_string(key).ok()
}

/// Calls `modular_agent_core::ModuleConfigs::keys`. The contract claims that
/// the keys come out in order, and that no two of them are the same.
#[verifier::external_body]
pub(crate) fn config_keys(c: &modular_agent_core::ModuleConfigs) -> (r: Vec<String>)
    ensures
        views(r@) == keys_of(config_entries(*c)),
        views(r@).no_duplicates(),
{
    c.keys().cloned().collect()
}

/// The value under `key`.
pub fn config_value(c: &modular_agent_core::ModuleConfigs, key: &str) -> (r: Option<AgentValue>)
    ensures
        match r {
            Some(v) => lookup(config_entries(*c), key@) == Some(v@),
            None => lookup(config_entries(*c), key@) is None,
        },
{
    match stored_value(c, key) {
        Some(v) => Some(read_value(v)),
        None => None,
    }
}

/// The text under `key`; a key without one is an unknown configuration.
pub fn config_string(c: &modular_agent_core::ModuleConfigs, key: &str) -> (r: Result<
    String,
    AgentError,
>)
    ensures
        match string_under(config_entries(*c), key@) {
            Some(s) => r matches Ok(t) && t@ == s,
            None => r matches Err(e) && e@ == ErrorData::UnknownConfig(key@),
        },
{
    match stored_string(c, key) {
        Some(s) => Ok(s),
        None => Err(AgentError::UnknownConfig(key.to_string())),
    }
}

/// Stores a value under `key`.
pub fn set_config(c: &mut modular_agent_core::ModuleConfigs, key: &str, value: &AgentValue)
    ensures
        config_entries(*final(c)) == put(config_entries(*old(c)), key@, tidy(value@)),
{
    c.set(key.to_string(), host_value(value));
}

/// A configuration reads back what was stored in it: the key holds the value,
/// with the entries of its objects in order, and every other key what it held
/// before.
pub proof fn configs_read_back(
    es: Seq<(Seq<char>, Data)>,
    key: Seq<char>,
    value: Data,
    other: Seq<char>,
)
    requires
        distinct(es),
    ensures
        lookup(put(es, key, tidy(value)), other) == if other == key {
            Some(tidy(value))
        } else {
            lookup(es, other)
        },
{
    put_then_lookup(es, key, tidy(value), other);
}

/// A configuration value is read by its kind: a text, a boolean, an integer or
/// a number cut down to one. A key that is missing, or holds another kind,
/// reads as the default.
pub proof fn values_are_read_by_kind(
    es: Seq<(Seq<char>, Data)>,
    key: Seq<char>,
    whole: i64,
    flag: bool,
)
    ensures
        lookup(es, key) matches Some(Data::Integer(i)) ==> integer_or(es, key, whole) == i,
        lookup(es, key) matches Some(Data::Number(n)) ==> integer_or(es, key, whole) == truncated(
            n,
        ),
        !(lookup(es, key) matches Some(Data::Integer(_))) && !(lookup(es, key) matches Some(
            Data::Number(_),
        )) ==> integer_or(es, key, whole) == whole,
        lookup(es, key) matches Some(Data::String(s)) ==> string_under(es, key) == Some(s)
            && string_or_default(es, key) == s,
        !(lookup(es, key) matches Some(Data::String(_))) ==> string_under(es, key) is None
            && string_or_default(es, key).len() == 0,
        lookup(es, key) matches Some(Data::Boolean(b)) ==> bool_or(es, key, flag) == b,
        !(lookup(es, key) matches Some(Data::Boolean(_))) ==> bool_or(es, key, flag) == flag,
{
}

/// A value that is stored is the value that is read.
pub proof fn stored_values_are_read(
    c: &mut modular_agent_core::ModuleConfigs,
    key: &str,
    value: &AgentValue,
    other: &str,
    r: Option<AgentValue>,
)
    requires
        distinct(config_entries(*old(c))),
        call_ensures(set_config, (c, key, value), ()),
        call_ensures(config_value, (final(c), other), r),
    ensures
        other@ == key@ ==> r is Some && r->0@ == tidy(value@),
        other@ != key@ ==> (r is Some <==> lookup(config_entries(*old(c)), other@) is Some),
        other@ != key@ && r is Some ==> lookup(config_entries(*old(c)), other@) == Some(r->0@),
{
    put_then_lookup(config_entries(*old(c)), key@, tidy(value@), other@);
}

} // verus!

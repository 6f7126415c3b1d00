//! The value bridge: what scripts receive and what they hand back.

use vstd::prelude::*;

use crate::entries::{
    collect, collect_is_distinct, collect_keeps_distinct, collect_keeps_lookup, collect_members,
    distinct, entry_map, entry_views, insert_sorted, lookup, lookup_of_map, map_entries, map_of_map,
    ordered, ordered_is_distinct, put, sort_depends_on_map, sort_entries, sort_is_ordered,
    sort_keeps_lookup, sort_members, sort_of_map,
};
use crate::error::{AgentError, ErrorData};
use crate::host::{
    error_text, json_form, number_views, tensor_bits, tensor_numbers, text_of_error, to_json, Number,
};
use crate::json::{json_tree, read_json, Json, JsonData};
use crate::pictures::{is_script_ready, script_ready, scriptable, scriptable_values_are_writable, writable};
use crate::text::{concat3, same};
use crate::value::{tidy, tidy_entries, AgentValue, Data};

verus! {

/// A value of the script interpreter.
#[derive(Debug)]
pub enum ZapValue {
    Undefined,
    Null,
    Bool(bool),
    Int(i64),
    Float(Number),
    String(String),
    Array(Vec<ZapValue>),
    Object(Vec<(String, ZapValue)>),
    Function,
    Generator,
    BuiltinMethod,
}

/// A value of the interpreter, as contracts speak of it.
pub enum ZapData {
    Undefined,
    Null,
    Bool(bool),
    Int(i64),
    Float(u64),
    String(Seq<char>),
    Array(Seq<ZapData>),
    Object(Seq<(Seq<char>, ZapData)>),
    Function,
    Generator,
    BuiltinMethod,
}

impl ZapValue {
    /// What the value stands for.
    pub open spec fn data(self) -> ZapData
        decreases self,
    {
        match self {
            ZapValue::Undefined => ZapData::Undefined,
            ZapValue::Null => ZapData::Null,
            ZapValue::Bool(b) => ZapData::Bool(b),
            ZapValue::Int(i) => ZapData::Int(i),
            ZapValue::Float(n) => ZapData::Float(n@),
            ZapValue::String(s) => ZapData::String(s@),
            ZapValue::Array(items) => ZapData::Array(
                Seq::new(
                    items@.len(),
                    |i: int|
                        if 0 <= i < items@.len() {
                            items@[i].data()
                        } else {
                            ZapData::Null
                        },
                ),
            ),
            ZapValue::Object(items) => ZapData::Object(
                Seq::new(
                    items@.len(),
                    |i: int|
                        if 0 <= i < items@.len() {
                            (items@[i].0@, items@[i].1.data())
                        } else {
                            (Seq::empty(), ZapData::Null)
                        },
                ),
            ),
            ZapValue::Function => ZapData::Function,
            ZapValue::Generator => ZapData::Generator,
            ZapValue::BuiltinMethod => ZapData::BuiltinMethod,
        }
    }
}

impl View for ZapValue {
    type V = ZapData;

    open spec fn view(&self) -> ZapData {
        self.data()
    }
}

/// The views of a list of interpreter values.
pub open spec fn zap_views(vs: Seq<ZapValue>) -> Seq<ZapData> {
    vs.map_values(|v: ZapValue| v@)
}

/// An array is viewed item by item, an object entry by entry.
pub broadcast proof fn zap_container_views(v: ZapValue)
    ensures
        #![trigger v.data()]
        v matches ZapValue::Array(items) ==> v.data() == ZapData::Array(zap_views(items@)),
        v matches ZapValue::Object(items) ==> v.data() == ZapData::Object(entry_views(items@)),
{
    match v {
        ZapValue::Array(items) => {
            assert(v.data()->Array_0 =~= zap_views(items@));
        },
        ZapValue::Object(items) => {
            assert(v.data()->Object_0 =~= entry_views(items@));
        },
        _ => {},
    }
}

/// What a script sees of a JSON tree: integers that fit are integers, other
/// numbers floating point, and objects keep the order of their entries.
pub open spec fn script_of_json(j: JsonData) -> ZapData
    decreases j,
{
    match j {
        JsonData::Null => ZapData::Null,
        JsonData::Bool(b) => ZapData::Bool(b),
        JsonData::Number(whole, float) => match whole {
            Some(i) => ZapData::Int(i),
            None => ZapData::Float(float),
        },
        JsonData::String(s) => ZapData::String(s),
        JsonData::Array(items) => ZapData::Array(
            Seq::new(
                items.len(),
                |i: int|
                    if 0 <= i < items.len() {
                        script_of_json(items[i])
                    } else {
                        ZapData::Null
                    },
            ),
        ),
        JsonData::Object(es) => ZapData::Object(collect(script_json_entries(es))),
    }
}

/// The entries of a JSON object as a script sees them.
pub open spec fn script_json_entries(es: Seq<(Seq<char>, JsonData)>) -> Seq<(Seq<char>, ZapData)>
    decreases es,
{
    Seq::new(
        es.len(),
        |i: int|
            if 0 <= i < es.len() {
                (es[i].0, script_of_json(es[i].1))
            } else {
                (Seq::empty(), ZapData::Null)
            },
    )
}

/// What a script sees of a value: unit and images are `null`, objects have
/// their keys in order, a tensor is an array of numbers, a message is its
/// JSON form and an error its text.
pub open spec fn script_of(d: Data) -> ZapData
    decreases d,
{
    match d {
        Data::Unit => ZapData::Null,
        Data::Boolean(b) => ZapData::Bool(b),
        Data::Integer(i) => ZapData::Int(i),
        Data::Number(n) => ZapData::Float(n),
        Data::String(s) => ZapData::String(s),
        Data::Image(_) => ZapData::Null,
        Data::Array(items) => ZapData::Array(
            Seq::new(
                items.len(),
                |i: int|
                    if 0 <= i < items.len() {
                        script_of(items[i])
                    } else {
                        ZapData::Null
                    },
            ),
        ),
        Data::Object(es) => ZapData::Object(sort_entries(script_entries(es))),
        Data::Tensor(h) => ZapData::Array(tensor_bits(h).map_values(|n: u64| ZapData::Float(n))),
        Data::Message(h) => script_of_json(json_form(h)),
        Data::Error(h) => ZapData::String(error_text(h)),
    }
}

/// The entries of an object as a script sees them, before they are ordered.
pub open spec fn script_entries(es: Seq<(Seq<char>, Data)>) -> Seq<(Seq<char>, ZapData)>
    decreases es,
{
    Seq::new(
        es.len(),
        |i: int|
            if 0 <= i < es.len() {
                (es[i].0, script_of(es[i].1))
            } else {
                (Seq::empty(), ZapData::Null)
            },
    )
}

/// A kind of value that has no data representation.
pub enum Callable {
    Function,
    Generator,
}

/// The first value without a data representation in a tree, depth first.
pub open spec fn first_callable(z: ZapData) -> Option<Callable>
    decreases z,
{
    match z {
        ZapData::Function => Some(Callable::Function),
        ZapData::BuiltinMethod => Some(Callable::Function),
        ZapData::Generator => Some(Callable::Generator),
        ZapData::Array(items) => first_callable_item(items),
        ZapData::Object(es) => first_callable_entry(es),
        _ => None,
    }
}

/// The first value without a data representation among items.
pub open spec fn first_callable_item(items: Seq<ZapData>) -> Option<Callable>
    decreases items,
{
    if items.len() == 0 {
        None
    } else {
        match first_callable(items[0]) {
            Some(c) => Some(c),
            None => first_callable_item(items.subrange(1, items.len() as int)),
        }
    }
}

/// The first value without a data representation among entries.
pub open spec fn first_callable_entry(es: Seq<(Seq<char>, ZapData)>) -> Option<Callable>
    decreases es,
{
    if es.len() == 0 {
        None
    } else {
        match first_callable(es[0].1) {
            Some(c) => Some(c),
            None => first_callable_entry(es.subrange(1, es.len() as int)),
        }
    }
}

/// The value that a script result without callables stands for: `undefined`
/// and `null` are both unit.
pub open spec fn value_of(z: ZapData) -> Data
    decreases z,
{
    match z {
        ZapData::Bool(b) => Data::Boolean(b),
        ZapData::Int(i) => Data::Integer(i),
        ZapData::Float(n) => Data::Number(n),
        ZapData::String(s) => Data::String(s),
        ZapData::Array(items) => Data::Array(
            Seq::new(
                items.len(),
                |i: int|
                    if 0 <= i < items.len() {
                        value_of(items[i])
                    } else {
                        Data::Unit
                    },
            ),
        ),
        ZapData::Object(es) => Data::Object(
            Seq::new(
                es.len(),
                |i: int|
                    if 0 <= i < es.len() {
                        (es[i].0, value_of(es[i].1))
                    } else {
                        (Seq::empty(), Data::Unit)
                    },
            ),
        ),
        _ => Data::Unit,
    }
}

/// The name of a kind of callable.
pub open spec fn callable_name(c: Callable) -> Seq<char> {
    match c {
        Callable::Function => "function"@,
        Callable::Generator => "generator"@,
    }
}

/// The error for a script result that holds a callable.
pub open spec fn callable_error(c: Callable) -> ErrorData {
    ErrorData::InvalidValue(
        "ZapCode result contains a "@ + callable_name(c)
            + ": the value of the last expression in the script is the output — did you forget to call the function (e.g. `myFunc()` instead of `myFunc`)?"@,
    )
}

/// Converts a JSON tree for use as a script input.
pub fn json_to_zapcode(value: &Json) -> (r: ZapValue)
    ensures
        r@ == script_of_json(value@),
    decreases *value,
{
    match value {
        Json::Null => ZapValue::Null,
        Json::Bool(b) => ZapValue::Bool(*b),
        Json::Number(n) => match n.whole {
            Some(i) => ZapValue::Int(i),
            None => ZapValue::Float(n.float.copy()),
        },
        Json::String(s) => ZapValue::String(s.clone()),
        Json::Array(items) => {
            let mut out: Vec<ZapValue> = Vec::new();
            let mut i: usize = 0;
            while i < items.len()
                invariant
                    i <= items.len(),
                    out.len() == i,
                    *value == Json::Array(*items),
                    forall|k: int|
                        0 <= k < i ==> (#[trigger] out@[k])@ == script_of_json(items@[k]@),
                decreases items.len() - i,
            {
                assert(decreases_to!(*value => value->Array_0@[i as int]));
                out.push(json_to_zapcode(&items[i]));
                i = i + 1;
            }
            let r = ZapValue::Array(out);
            assert(r.data()->Array_0 =~= script_of_json(value@)->Array_0);
            r
        },
        Json::Object(items) => {
            let mut out: Vec<(String, ZapValue)> = Vec::new();
            let mut i: usize = 0;
            let ghost all = Seq::new(
                items@.len(),
                |i: int| (items@[i].0@, script_of_json(items@[i].1@)),
            );
            assert(entry_views(out@) =~= collect(all.take(0)));
            while i < items.len()
                invariant
                    i <= items.len(),
                    *value == Json::Object(*items),
                    all == Seq::new(
                        items@.len(),
                        |i: int| (items@[i].0@, script_of_json(items@[i].1@)),
                    ),
                    entry_views(out@) == collect(all.take(i as int)),
                decreases items.len() - i,
            {
                assert(decreases_to!(*value => value->Object_0@[i as int].1));
                assert(all.take(i + 1).drop_last() =~= all.take(i as int));
                let v = json_to_zapcode(&items[i].1);
                put_entry(&mut out, items[i].0.clone(), v);
                i = i + 1;
            }
            let r = ZapValue::Object(out);
            proof {
                broadcast use zap_container_views;

                assert(all.take(i as int) =~= all);
                assert(all =~= script_json_entries(value@->Object_0));
            }
            r
        },
    }
}

/// Converts JSON of `serde_json` for use as a script input.
pub fn json_value_to_zapcode(value: serde_json::Value) -> (r: ZapValue)
    ensures
        r@ == script_of_json(json_tree(value)),
{
    json_to_zapcode(&read_json(value))
}

/// Stores an entry under its key: in the place of the one with that key, or
/// at the end.
fn put_entry(out: &mut Vec<(String, ZapValue)>, k: String, v: ZapValue)
    ensures
        entry_views(final(out)@) == put(entry_views(old(out)@), k@, v@),
{
    let ghost all = entry_views(out@);
    let ghost key = k@;
    let ghost val = v@;
    let mut i: usize = 0;
    assert(all.skip(0) =~= all);
    assert(all.take(0) + put(all.skip(0), key, val) =~= put(all, key, val));
    while i < out.len() && !same(out[i].0.as_str(), k.as_str())
        invariant
            i <= out.len(),
            key == k@,
            all == entry_views(out@),
            put(all, key, val) == all.take(i as int) + put(all.skip(i as int), key, val),
        decreases out.len() - i,
    {
        proof {
            let rest = all.skip(i as int);
            assert(rest[0] == all[i as int]);
            assert(rest.drop_first() =~= all.skip(i + 1));
            assert(all.take(i as int) + (seq![rest[0]] + put(rest.drop_first(), key, val))
                =~= all.take(i + 1) + put(all.skip(i + 1), key, val));
        }
        i = i + 1;
    }
    if i < out.len() {
        proof {
            let rest = all.skip(i as int);
            assert(rest[0] == all[i as int]);
            assert(all.take(i as int) + (seq![(key, val)] + rest.drop_first()) =~= all.update(
                i as int,
                (key, val),
            ));
        }
        let _ = out.remove(i);
        out.insert(i, (k, v));
        assert(entry_views(out@) =~= all.update(i as int, (key, val)));
    } else {
        assert(all.take(i as int) + seq![(key, val)] =~= all.push((key, val)));
        out.push((k, v));
        assert(entry_views(out@) =~= all.push((key, val)));
    }
}

/// Converts a value for use as a script input.
///
/// `Unit` becomes `Null`, while both `null` and `undefined` come back as
/// `Unit`. The messages in the value must be such that they can be written.
pub fn value_to_zapcode(value: &AgentValue) -> (r: ZapValue)
    requires
        script_ready(value@),
    ensures
        r@ == script_of(value@),
    decreases *value,
{
    match value {
        AgentValue::Unit => ZapValue::Null,
        AgentValue::Boolean(b) => ZapValue::Bool(*b),
        AgentValue::Integer(i) => ZapValue::Int(*i),
        AgentValue::Number(n) => ZapValue::Float(n.copy()),
        AgentValue::String(s) => ZapValue::String(s.clone()),
        AgentValue::Image(_) => ZapValue::Null,
        AgentValue::Array(items) => {
            let mut out: Vec<ZapValue> = Vec::new();
            let mut i: usize = 0;
            while i < items.len()
                invariant
                    i <= items.len(),
                    out.len() == i,
                    *value == AgentValue::Array(*items),
                    script_ready(value@),
                    forall|k: int| 0 <= k < i ==> (#[trigger] out@[k])@ == script_of(items@[k]@),
                decreases items.len() - i,
            {
                assert(decreases_to!(*value => value->Array_0@[i as int]));
                assert(value@->Array_0[i as int] == items@[i as int]@);
                out.push(value_to_zapcode(&items[i]));
                i = i + 1;
            }
            let r = ZapValue::Array(out);
            assert(r.data()->Array_0 =~= script_of(value@)->Array_0);
            r
        },
        AgentValue::Object(items) => {
            let mut out: Vec<(String, ZapValue)> = Vec::new();
            let mut i: usize = 0;
            let ghost all = Seq::new(
                items@.len(),
                |i: int| (items@[i].0@, script_of(items@[i].1@)),
            );
            assert(entry_views(out@) =~= sort_entries(all.take(0)));
            while i < items.len()
                invariant
                    i <= items.len(),
                    *value == AgentValue::Object(*items),
                    script_ready(value@),
                    all == Seq::new(
                        items@.len(),
                        |i: int| (items@[i].0@, script_of(items@[i].1@)),
                    ),
                    entry_views(out@) == sort_entries(all.take(i as int)),
                decreases items.len() - i,
            {
                assert(decreases_to!(*value => value->Object_0@[i as int].1));
                assert(all.take(i + 1).drop_last() =~= all.take(i as int));
                assert(value@->Object_0[i as int].1 == items@[i as int].1@);
                let v = value_to_zapcode(&items[i].1);
                insert_sorted(&mut out, items[i].0.clone(), v);
                i = i + 1;
            }
            let r = ZapValue::Object(out);
            proof {
                broadcast use zap_container_views;

                assert(all.take(i as int) =~= all);
                assert(all =~= script_entries(value@->Object_0));
            }
            r
        },
        AgentValue::Tensor(h) => {
            let ns = tensor_numbers(h);
            let mut out: Vec<ZapValue> = Vec::new();
            let mut i: usize = 0;
            while i < ns.len()
                invariant
                    i <= ns.len(),
                    out.len() == i,
                    number_views(ns@) == tensor_bits(*h),
                    forall|k: int|
                        0 <= k < i ==> (#[trigger] out@[k])@ == ZapData::Float(number_views(ns@)[k]),
                decreases ns.len() - i,
            {
                out.push(ZapValue::Float(ns[i].copy()));
                i = i + 1;
            }
            let r = ZapValue::Array(out);
            assert(r.data()->Array_0 =~= script_of(value@)->Array_0);
            r
        },
        AgentValue::Message(h) => json_value_to_zapcode(to_json(h)),
        AgentValue::Error(h) => ZapValue::String(text_of_error(h)),
    }
}

/// Converts a value for use as a script input, unless it holds a message that
/// cannot be written.
pub fn checked_value_to_zapcode(value: &AgentValue) -> (r: Option<ZapValue>)
    ensures
        match r {
            Some(z) => script_ready(value@) && z@ == script_of(value@),
            None => !script_ready(value@),
        },
{
    if is_script_ready(value) {
        Some(value_to_zapcode(value))
    } else {
        None
    }
}

fn refuse_callable(c: Callable) -> (r: AgentError)
    ensures
        r@ == callable_error(c),
{
    let name = match c {
        Callable::Function => "function",
        Callable::Generator => "generator",
    };
    AgentError::InvalidValue(
        concat3(
            "ZapCode result contains a ",
            name,
            ": the value of the last expression in the script is the output — did you forget to call the function (e.g. `myFunc()` instead of `myFunc`)?",
        ),
    )
}

fn result_value(value: &ZapValue) -> (r: Result<AgentValue, AgentError>)
    ensures
        match first_callable(value@) {
            None => r matches Ok(v) && v@ == value_of(value@),
            Some(c) => r matches Err(e) && e@ == callable_error(c),
        },
    decreases *value,
{
    match value {
        ZapValue::Undefined => Ok(AgentValue::Unit),
        ZapValue::Null => Ok(AgentValue::Unit),
        ZapValue::Bool(b) => Ok(AgentValue::Boolean(*b)),
        ZapValue::Int(i) => Ok(AgentValue::Integer(*i)),
        ZapValue::Float(n) => Ok(AgentValue::Number(n.copy())),
        ZapValue::String(s) => Ok(AgentValue::String(s.clone())),
        ZapValue::Array(items) => {
            let mut out: Vec<AgentValue> = Vec::new();
            let mut i: usize = 0;
            let ghost all = value@->Array_0;
            assert(all.subrange(0, all.len() as int) =~= all);
            while i < items.len()
                invariant
                    i <= items.len(),
                    out.len() == i,
                    *value == ZapValue::Array(*items),
                    value@ == ZapData::Array(all),
                    all.len() == items.len(),
                    forall|k: int| 0 <= k < items.len() ==> all[k] == #[trigger] items@[k]@,
                    first_callable(value@) == first_callable_item(
                        all.subrange(i as int, all.len() as int),
                    ),
                    forall|k: int| 0 <= k < i ==> (#[trigger] out@[k])@ == value_of(all[k]),
                decreases items.len() - i,
            {
                assert(decreases_to!(*value => value->Array_0@[i as int]));
                proof {
                    let rest = all.subrange(i as int, all.len() as int);
                    assert(rest[0] == items@[i as int]@);
                    assert(rest.subrange(1, rest.len() as int) =~= all.subrange(
                        i + 1,
                        all.len() as int,
                    ));
                }
                match result_value(&items[i]) {
                    Ok(v) => {
                        out.push(v);
                    },
                    Err(e) => {
                        return Err(e);
                    },
                }
                i = i + 1;
            }
            let r = AgentValue::Array(out);
            assert(r.data()->Array_0 =~= value_of(value@)->Array_0);
            Ok(r)
        },
        ZapValue::Object(items) => {
            let mut out: Vec<(String, AgentValue)> = Vec::new();
            let mut i: usize = 0;
            let ghost all = value@->Object_0;
            assert(all.subrange(0, all.len() as int) =~= all);
            while i < items.len()
                invariant
                    i <= items.len(),
                    out.len() == i,
                    *value == ZapValue::Object(*items),
                    value@ == ZapData::Object(all),
                    all.len() == items.len(),
                    forall|k: int|
                        0 <= k < items.len() ==> all[k] == ((#[trigger] items@[k]).0@, items@[k].1@),
                    first_callable(value@) == first_callable_entry(
                        all.subrange(i as int, all.len() as int),
                    ),
                    forall|k: int|
                        0 <= k < i ==> (#[trigger] out@[k]).0@ == all[k].0 && out@[k].1@ == value_of(
                            all[k].1,
                        ),
                decreases items.len() - i,
            {
                assert(decreases_to!(*value => value->Object_0@[i as int].1));
                proof {
                    let rest = all.subrange(i as int, all.len() as int);
                    assert(rest[0] == (items@[i as int].0@, items@[i as int].1@));
                    assert(rest.subrange(1, rest.len() as int) =~= all.subrange(
                        i + 1,
                        all.len() as int,
                    ));
                }
                match result_value(&items[i].1) {
                    Ok(v) => {
                        out.push((items[i].0.clone(), v));
                    },
                    Err(e) => {
                        return Err(e);
                    },
                }
                i = i + 1;
            }
            let r = AgentValue::Object(out);
            assert(r.data()->Object_0 =~= value_of(value@)->Object_0);
            Ok(r)
        },
        ZapValue::Function => Err(refuse_callable(Callable::Function)),
        ZapValue::BuiltinMethod => Err(refuse_callable(Callable::Function)),
        ZapValue::Generator => Err(refuse_callable(Callable::Generator)),
    }
}

/// Converts a script result into a value.
///
/// Both `undefined` and `null` become `Unit`. Functions, generators and
/// built-in methods have no data representation and are refused anywhere in
/// the result; the error speaks of the first one.
pub fn zapcode_to_value(value: ZapValue) -> (r: Result<AgentValue, AgentError>)
    ensures
        match first_callable(value@) {
            None => r matches Ok(v) && v@ == value_of(value@),
            Some(c) => r matches Err(e) && e@ == callable_error(c),
        },
{
    result_value(&value)
}

/// Whether a tree is plain data: no `undefined`, nothing callable, and no key
/// twice in an object.
pub open spec fn plain(z: ZapData) -> bool
    decreases z,
{
    match z {
        ZapData::Undefined => false,
        ZapData::Function => false,
        ZapData::Generator => false,
        ZapData::BuiltinMethod => false,
        ZapData::Array(items) => forall|i: int| 0 <= i < items.len() ==> plain(#[trigger] items[i]),
        ZapData::Object(es) => distinct(es) && forall|i: int|
            0 <= i < es.len() ==> plain((#[trigger] es[i]).1),
        _ => true,
    }
}

/// Scripts receive plain data: never `undefined`, never anything callable.
pub proof fn inputs_are_plain(d: Data)
    ensures
        plain(script_of(d)),
    decreases d,
{
    match d {
        Data::Array(items) => {
            let z = script_of(d)->Array_0;
            assert forall|i: int| 0 <= i < z.len() implies plain(#[trigger] z[i]) by {
                assert(decreases_to!(d => d->Array_0[i]));
                inputs_are_plain(items[i]);
            }
        },
        Data::Object(es) => {
            let all = script_entries(es);
            let z = sort_entries(all);
            sort_is_ordered(all);
            ordered_is_distinct(z);
            sort_members(all);
            assert forall|i: int| 0 <= i < z.len() implies plain((#[trigger] z[i]).1) by {
                assert(all.contains(z[i]));
                let j = choose|j: int| 0 <= j < all.len() && all[j] == z[i];
                assert(decreases_to!(d => d->Object_0[j].1));
                inputs_are_plain(es[j].1);
            }
        },
        Data::Tensor(h) => {
            let z = script_of(d)->Array_0;
            assert forall|i: int| 0 <= i < z.len() implies plain(#[trigger] z[i]) by {
                assert(z[i] == ZapData::Float(tensor_bits(h)[i]));
            }
        },
        Data::Message(h) => {
            json_is_plain(json_form(h));
        },
        _ => {},
    }
}

proof fn json_is_plain(j: JsonData)
    ensures
        plain(script_of_json(j)),
    decreases j,
{
    match j {
        JsonData::Array(items) => {
            let z = script_of_json(j)->Array_0;
            assert forall|i: int| 0 <= i < z.len() implies plain(#[trigger] z[i]) by {
                assert(decreases_to!(j => j->Array_0[i]));
                json_is_plain(items[i]);
            }
        },
        JsonData::Object(es) => {
            let all = script_json_entries(es);
            let z = collect(all);
            collect_is_distinct(all);
            collect_members(all);
            assert forall|i: int| 0 <= i < z.len() implies plain((#[trigger] z[i]).1) by {
                assert(all.contains(z[i]));
                let m = choose|m: int| 0 <= m < all.len() && all[m] == z[i];
                assert(decreases_to!(j => j->Object_0[m].1));
                json_is_plain(es[m].1);
            }
        },
        _ => {},
    }
}

/// The keys of an object that a script receives strictly increase.
pub proof fn object_keys_are_sorted(es: Seq<(Seq<char>, Data)>)
    ensures
        script_of(Data::Object(es)) matches ZapData::Object(zs) && ordered(zs),
{
    sort_is_ordered(script_entries(es));
}

/// Scripts observe one property order: objects that hold the same entries as
/// maps are the same to a script, whatever order the entries had.
pub proof fn entry_order_is_not_observable(a: Seq<(Seq<char>, Data)>, b: Seq<(Seq<char>, Data)>)
    requires
        entry_map(a) == entry_map(b),
    ensures
        script_of(Data::Object(a)) == script_of(Data::Object(b)),
{
    let f = |d: Data| script_of(d);
    map_of_map(a, f);
    map_of_map(b, f);
    assert(script_entries(a) =~= map_entries(a, f));
    assert(script_entries(b) =~= map_entries(b, f));
    sort_depends_on_map(script_entries(a), script_entries(b));
}

/// Whether nothing in a tree, at any depth, is callable.
pub open spec fn callable_free(z: ZapData) -> bool
    decreases z,
{
    match z {
        ZapData::Function => false,
        ZapData::Generator => false,
        ZapData::BuiltinMethod => false,
        ZapData::Array(items) => forall|i: int|
            0 <= i < items.len() ==> callable_free(#[trigger] items[i]),
        ZapData::Object(es) => forall|i: int|
            0 <= i < es.len() ==> callable_free((#[trigger] es[i]).1),
        _ => true,
    }
}

/// A script result is refused exactly if something in it, at any depth, is
/// callable.
pub proof fn callables_are_refused_anywhere(z: ZapData)
    ensures
        first_callable(z) is None <==> callable_free(z),
    decreases z,
{
    match z {
        ZapData::Array(items) => {
            assert forall|i: int| 0 <= i < items.len() implies (first_callable(
                #[trigger] items[i],
            ) is None <==> callable_free(items[i])) by {
                assert(decreases_to!(z => z->Array_0[i]));
                callables_are_refused_anywhere(items[i]);
            }
            first_item_is_found(items);
        },
        ZapData::Object(es) => {
            assert forall|i: int| 0 <= i < es.len() implies (first_callable(
                (#[trigger] es[i]).1,
            ) is None <==> callable_free(es[i].1)) by {
                assert(decreases_to!(z => z->Object_0[i].1));
                callables_are_refused_anywhere(es[i].1);
            }
            first_entry_is_found(es);
        },
        _ => {},
    }
}

proof fn first_item_is_found(items: Seq<ZapData>)
    ensures
        first_callable_item(items) is None <==> forall|i: int|
            0 <= i < items.len() ==> first_callable(#[trigger] items[i]) is None,
    decreases items.len(),
{
    if items.len() > 0 {
        let rest = items.subrange(1, items.len() as int);
        first_item_is_found(rest);
        if first_callable_item(items) is None {
            assert forall|i: int| 0 <= i < items.len() implies first_callable(
                #[trigger] items[i],
            ) is None by {
                if i > 0 {
                    assert(rest[i - 1] == items[i]);
                }
            }
        } else if first_callable(items[0]) is None {
            let i = choose|i: int| 0 <= i < rest.len() && first_callable(#[trigger] rest[i]) is Some;
            assert(items[i + 1] == rest[i]);
        }
    }
}

proof fn first_entry_is_found(es: Seq<(Seq<char>, ZapData)>)
    ensures
        first_callable_entry(es) is None <==> forall|i: int|
            0 <= i < es.len() ==> first_callable((#[trigger] es[i]).1) is None,
    decreases es.len(),
{
    if es.len() > 0 {
        let rest = es.subrange(1, es.len() as int);
        first_entry_is_found(rest);
        if first_callable_entry(es) is None {
            assert forall|i: int| 0 <= i < es.len() implies first_callable(
                (#[trigger] es[i]).1,
            ) is None by {
                if i > 0 {
                    assert(rest[i - 1] == es[i]);
                }
            }
        } else if first_callable(es[0].1) is None {
            let i = choose|i: int| 0 <= i < rest.len() && first_callable((#[trigger] rest[i]).1) is Some;
            assert(es[i + 1] == rest[i]);
        }
    }
}

proof fn plain_is_callable_free(z: ZapData)
    requires
        plain(z),
    ensures
        callable_free(z),
    decreases z,
{
    match z {
        ZapData::Array(items) => {
            assert forall|i: int| 0 <= i < items.len() implies callable_free(
                #[trigger] items[i],
            ) by {
                assert(decreases_to!(z => z->Array_0[i]));
                plain_is_callable_free(items[i]);
            }
        },
        ZapData::Object(es) => {
            assert forall|i: int| 0 <= i < es.len() implies callable_free(
                (#[trigger] es[i]).1,
            ) by {
                assert(decreases_to!(z => z->Object_0[i].1));
                plain_is_callable_free(es[i].1);
            }
        },
        _ => {},
    }
}

/// What a script hands over is made of the kinds that scripts have, so it can
/// always be written as JSON and be handed to a script again.
pub proof fn script_values_are_scriptable(z: ZapData)
    ensures
        scriptable(value_of(z)),
        writable(tidy(value_of(z))),
        script_ready(value_of(z)),
    decreases z,
{
    match z {
        ZapData::Array(items) => {
            assert forall|i: int| 0 <= i < items.len() implies scriptable(
                value_of(#[trigger] items[i]),
            ) by {
                assert(decreases_to!(z => z->Array_0[i]));
                script_values_are_scriptable(items[i]);
            }
        },
        ZapData::Object(es) => {
            assert forall|i: int| 0 <= i < es.len() implies scriptable(
                value_of((#[trigger] es[i]).1),
            ) by {
                assert(decreases_to!(z => z->Object_0[i].1));
                script_values_are_scriptable(es[i].1);
            }
        },
        _ => {},
    }
    scriptable_values_are_writable(value_of(z));
}

/// A value made of the kinds that scripts have survives the way through a
/// script that hands it back: it returns as the same value, with the entries
/// of its objects in order. A unit in particular returns as a unit.
pub proof fn round_trip(d: Data)
    requires
        scriptable(d),
    ensures
        first_callable(script_of(d)) is None,
        value_of(script_of(d)) == tidy(d),
    decreases d,
{
    inputs_are_plain(d);
    plain_is_callable_free(script_of(d));
    callables_are_refused_anywhere(script_of(d));
    match d {
        Data::Array(items) => {
            assert forall|i: int| 0 <= i < items.len() implies value_of(
                script_of(#[trigger] items[i]),
            ) == tidy(items[i]) by {
                assert(decreases_to!(d => d->Array_0[i]));
                round_trip(items[i]);
            }
            assert(value_of(script_of(d))->Array_0 =~= tidy(d)->Array_0);
        },
        Data::Object(es) => {
            assert forall|i: int| 0 <= i < es.len() implies value_of(
                script_of((#[trigger] es[i]).1),
            ) == tidy(es[i].1) by {
                assert(decreases_to!(d => d->Object_0[i].1));
                round_trip(es[i].1);
            }
            let f = |z: ZapData| value_of(z);
            let all = script_entries(es);
            sort_of_map(all, f);
            assert(map_entries(all, f) =~= tidy_entries(es));
            assert(value_of(script_of(d))->Object_0 =~= map_entries(sort_entries(all), f));
        },
        _ => {},
    }
}

/// What a script sees of each kind of value.
pub proof fn values_keep_their_kinds(d: Data)
    ensures
        d is Unit || d is Image ==> script_of(d) == ZapData::Null,
        d matches Data::Boolean(b) ==> script_of(d) == ZapData::Bool(b),
        d matches Data::Integer(i) ==> script_of(d) == ZapData::Int(i),
        d matches Data::Number(n) ==> script_of(d) == ZapData::Float(n),
        d matches Data::String(s) ==> script_of(d) == ZapData::String(s),
        d matches Data::Error(h) ==> script_of(d) == ZapData::String(error_text(h)),
        d matches Data::Message(h) ==> script_of(d) == script_of_json(json_form(h)),
        d matches Data::Tensor(h) ==> (script_of(d) matches ZapData::Array(zs) && zs.len()
            == tensor_bits(h).len() && forall|i: int|
            0 <= i < zs.len() ==> #[trigger] zs[i] == ZapData::Float(tensor_bits(h)[i])),
{
}

/// A script sees the items of an array in their order, and under each key of
/// an object what the object holds there.
pub proof fn containers_keep_their_contents(d: Data, key: Seq<char>)
    ensures
        d matches Data::Array(items) ==> (script_of(d) matches ZapData::Array(zs) && zs.len()
            == items.len() && forall|i: int|
            0 <= i < zs.len() ==> #[trigger] zs[i] == script_of(items[i])),
        d matches Data::Object(es) ==> (script_of(d) matches ZapData::Object(zs) && match lookup(
            es,
            key,
        ) {
            Some(v) => lookup(zs, key) == Some(script_of(v)),
            None => lookup(zs, key) is None,
        }),
{
    if let Data::Object(es) = d {
        let f = |v: Data| script_of(v);
        assert(script_entries(es) =~= map_entries(es, f));
        sort_keeps_lookup(script_entries(es), key);
        lookup_of_map(es, f, key);
    }
}

/// What the host gets of each kind of script value. `undefined` and `null` are
/// both unit.
pub proof fn results_keep_their_kinds(z: ZapData, key: Seq<char>)
    ensures
        z is Undefined || z is Null ==> value_of(z) == Data::Unit,
        z matches ZapData::Bool(b) ==> value_of(z) == Data::Boolean(b),
        z matches ZapData::Int(i) ==> value_of(z) == Data::Integer(i),
        z matches ZapData::Float(n) ==> value_of(z) == Data::Number(n),
        z matches ZapData::String(s) ==> value_of(z) == Data::String(s),
        z matches ZapData::Array(zs) ==> (value_of(z) matches Data::Array(items) && items.len()
            == zs.len() && forall|i: int|
            0 <= i < zs.len() ==> #[trigger] items[i] == value_of(zs[i])),
        z matches ZapData::Object(zs) ==> (value_of(z) matches Data::Object(es) && es.len()
            == zs.len() && forall|i: int|
            0 <= i < zs.len() ==> (#[trigger] es[i]).0 == zs[i].0 && es[i].1 == value_of(zs[i].1)),
{
}

/// A script sees a JSON tree as it is: an integer that fits as an integer, any
/// other number as a floating point number, items in their order, and under
/// each key what the object holds there.
pub proof fn json_keeps_its_contents(j: JsonData, key: Seq<char>)
    ensures
        j is Null ==> script_of_json(j) == ZapData::Null,
        j matches JsonData::Bool(b) ==> script_of_json(j) == ZapData::Bool(b),
        j matches JsonData::String(s) ==> script_of_json(j) == ZapData::String(s),
        j matches JsonData::Number(Some(i), f) ==> script_of_json(j) == ZapData::Int(i),
        j matches JsonData::Number(None, f) ==> script_of_json(j) == ZapData::Float(f),
        j matches JsonData::Array(items) ==> (script_of_json(j) matches ZapData::Array(zs)
            && zs.len() == items.len() && forall|i: int|
            0 <= i < zs.len() ==> #[trigger] zs[i] == script_of_json(items[i])),
        j matches JsonData::Object(es) ==> (script_of_json(j) matches ZapData::Object(zs)
            && distinct(zs) && match lookup(es, key) {
            Some(v) => lookup(zs, key) == Some(script_of_json(v)),
            None => lookup(zs, key) is None,
        }),
        j matches JsonData::Object(es) ==> distinct(es) ==> (script_of_json(j) matches ZapData::Object(
            zs,
        ) && zs.len() == es.len() && forall|i: int|
            0 <= i < es.len() ==> (#[trigger] zs[i]).0 == es[i].0 && zs[i].1 == script_of_json(
                es[i].1,
            )),
{
    if let JsonData::Object(es) = j {
        let f = |v: JsonData| script_of_json(v);
        let all = script_json_entries(es);
        assert(all =~= map_entries(es, f));
        lookup_of_map(es, f, key);
        collect_is_distinct(all);
        collect_keeps_lookup(all, key);
        if distinct(es) {
            assert forall|a: int, b: int| 0 <= a < b < all.len() implies (#[trigger] all[a]).0 != (
            #[trigger] all[b]).0 by {
                assert(es[a].0 != es[b].0);
            }
            collect_keeps_distinct(all);
        }
    }
}

/// The refusal of a script result names the kind of the first callable in it,
/// and asks whether the function should have been called.
pub proof fn refusals_name_the_first_callable(items: Seq<ZapData>, n: int)
    requires
        0 <= n < items.len(),
        forall|i: int| 0 <= i < n ==> callable_free(#[trigger] items[i]),
    ensures
        items[n] is Function || items[n] is BuiltinMethod ==> first_callable(ZapData::Array(items))
            == Some(Callable::Function),
        items[n] is Generator ==> first_callable(ZapData::Array(items)) == Some(
            Callable::Generator,
        ),
        !callable_free(items[n]) ==> first_callable(ZapData::Array(items)) == first_callable(
            items[n],
        ),
        callable_error(Callable::Function) == ErrorData::InvalidValue(
            "ZapCode result contains a "@ + "function"@
                + ": the value of the last expression in the script is the output — did you forget to call the function (e.g. `myFunc()` instead of `myFunc`)?"@,
        ),
        callable_error(Callable::Generator) == ErrorData::InvalidValue(
            "ZapCode result contains a "@ + "generator"@
                + ": the value of the last expression in the script is the output — did you forget to call the function (e.g. `myFunc()` instead of `myFunc`)?"@,
        ),
    decreases n,
{
    callables_are_refused_anywhere(items[0]);
    callables_are_refused_anywhere(items[n]);
    if n > 0 {
        let rest = items.subrange(1, items.len() as int);
        assert forall|i: int| 0 <= i < n - 1 implies callable_free(#[trigger] rest[i]) by {
            assert(rest[i] == items[i + 1]);
        }
        refusals_name_the_first_callable(rest, n - 1);
        assert(callable_free(items[0]));
        assert(rest[n - 1] == items[n]);
    }
}

/// What a script is handed and hands back unchanged is what the host had, with
/// the entries of objects in order.
pub proof fn values_survive_a_script(
    value: &AgentValue,
    z: ZapValue,
    back: Result<AgentValue, AgentError>,
)
    requires
        scriptable(value@),
        call_ensures(value_to_zapcode, (value,), z),
        call_ensures(zapcode_to_value, (z,), back),
    ensures
        back is Ok,
        back->Ok_0@ == tidy(value@),
{
    round_trip(value@);
}

/// A script result comes back exactly if nothing in it is callable.
pub proof fn plain_results_come_back(z: ZapValue, r: Result<AgentValue, AgentError>)
    requires
        call_ensures(zapcode_to_value, (z,), r),
    ensures
        r is Ok <==> callable_free(z@),
        r is Ok ==> r->Ok_0@ == value_of(z@),
{
    callables_are_refused_anywhere(z@);
}

/// A value of the interpreter stands for what it holds.
pub proof fn script_values_stand_for_what_they_hold(v: ZapValue)
    ensures
        v is Undefined ==> v@ == ZapData::Undefined,
        v is Null ==> v@ == ZapData::Null,
        v matches ZapValue::Bool(b) ==> v@ == ZapData::Bool(b),
        v matches ZapValue::Int(i) ==> v@ == ZapData::Int(i),
        v matches ZapValue::Float(n) ==> v@ == ZapData::Float(n@),
        v matches ZapValue::String(s) ==> v@ == ZapData::String(s@),
        v is Function ==> v@ == ZapData::Function,
        v is Generator ==> v@ == ZapData::Generator,
        v is BuiltinMethod ==> v@ == ZapData::BuiltinMethod,
        v matches ZapValue::Array(items) ==> (v@ matches ZapData::Array(ds) && ds.len()
            == items@.len() && forall|i: int| 0 <= i < ds.len() ==> #[trigger] ds[i] == items@[i]@),
        v matches ZapValue::Object(items) ==> (v@ matches ZapData::Object(ds) && ds.len()
            == items@.len() && forall|i: int|
            0 <= i < ds.len() ==> (#[trigger] ds[i]).0 == items@[i].0@ && ds[i].1 == items@[i].1@),
{
}

} // verus!

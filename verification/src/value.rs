//! The values that pass between modules.

use vstd::prelude::*;

use crate::entries::{
    entry_views, find, lookup, lookup_of_map, map_entries, ordered, sort_entries, sort_is_ordered,
    sort_keeps_lookup,
};
use crate::exchange::value_tree;
use crate::host::{truncated, Number};

verus! {

/// A value that passes between modules. Object entries stand for the map that
/// they build one after the other.
#[derive(Debug)]
pub enum AgentValue {
    Unit,
    Boolean(bool),
    Integer(i64),
    Number(Number),
    String(String),
    Image(modular_agent_core::Value),
    Array(Vec<AgentValue>),
    Object(Vec<(String, AgentValue)>),
    Tensor(modular_agent_core::Value),
    Message(modular_agent_core::Value),
    Error(modular_agent_core::Value),
}

/// A value, as contracts speak of it. Numbers are bit patterns, with one
/// pattern for every NaN.
pub enum Data {
    Unit,
    Boolean(bool),
    Integer(i64),
    Number(u64),
    String(Seq<char>),
    Image(modular_agent_core::Value),
    Array(Seq<Data>),
    Object(Seq<(Seq<char>, Data)>),
    Tensor(modular_agent_core::Value),
    Message(modular_agent_core::Value),
    Error(modular_agent_core::Value),
}

impl AgentValue {
    /// What the value stands for.
    pub open spec fn data(self) -> Data
        decreases self,
    {
        match self {
            AgentValue::Unit => Data::Unit,
            AgentValue::Boolean(b) => Data::Boolean(b),
            AgentValue::Integer(i) => Data::Integer(i),
            AgentValue::Number(n) => Data::Number(n@),
            AgentValue::String(s) => Data::String(s@),
            AgentValue::Image(h) => Data::Image(h),
            AgentValue::Array(items) => Data::Array(
                Seq::new(
                    items@.len(),
                    |i: int|
                        if 0 <= i < items@.len() {
                            items@[i].data()
                        } else {
                            Data::Unit
                        },
                ),
            ),
            AgentValue::Object(items) => Data::Object(
                Seq::new(
                    items@.len(),
                    |i: int|
                        if 0 <= i < items@.len() {
                            (items@[i].0@, items@[i].1.data())
                        } else {
                            (Seq::empty(), Data::Unit)
                        },
                ),
            ),
            AgentValue::Tensor(h) => Data::Tensor(h),
            AgentValue::Message(h) => Data::Message(h),
            AgentValue::Error(h) => Data::Error(h),
        }
    }
}

impl View for AgentValue {
    type V = Data;

    open spec fn view(&self) -> Data {
        self.data()
    }
}

/// The views of a list of values.
pub open spec fn value_views(vs: Seq<AgentValue>) -> Seq<Data> {
    vs.map_values(|v: AgentValue| v@)
}

/// The text in a string value.
pub open spec fn text_in(d: Data) -> Option<Seq<char>> {
    match d {
        Data::String(s) => Some(s),
        _ => None,
    }
}

/// The integer that a value is or truncates to, if it is a number.
pub open spec fn integer_in(d: Data) -> Option<i64> {
    match d {
        Data::Integer(i) => Some(i),
        Data::Number(bits) => Some(truncated(bits)),
        _ => None,
    }
}

/// The value that a call has at `index`; unit if there is none.
pub open spec fn value_argument(args: Seq<Data>, index: int) -> Data {
    if 0 <= index < args.len() {
        args[index]
    } else {
        Data::Unit
    }
}

/// The value under `key` in an object.
pub open spec fn member(d: Data, key: Seq<char>) -> Option<Data> {
    match d {
        Data::Object(es) => lookup(es, key),
        _ => None,
    }
}

/// The value as the host holds it: the entries of every object are ordered by
/// key, and an image, a tensor, a message or an error is the host's own value.
pub open spec fn tidy(d: Data) -> Data
    decreases d,
{
    match d {
        Data::Array(items) => Data::Array(
            Seq::new(
                items.len(),
                |i: int|
                    if 0 <= i < items.len() {
                        tidy(items[i])
                    } else {
                        Data::Unit
                    },
            ),
        ),
        Data::Object(es) => Data::Object(sort_entries(tidy_entries(es))),
        Data::Image(h) => value_tree(h),
        Data::Tensor(h) => value_tree(h),
        Data::Message(h) => value_tree(h),
        Data::Error(h) => value_tree(h),
        _ => d,
    }
}

/// The entries of an object, each value tidied.
pub open spec fn tidy_entries(es: Seq<(Seq<char>, Data)>) -> Seq<(Seq<char>, Data)>
    decreases es,
{
    Seq::new(
        es.len(),
        |i: int|
            if 0 <= i < es.len() {
                (es[i].0, tidy(es[i].1))
            } else {
                (Seq::empty(), Data::Unit)
            },
    )
}

/// Ordering the entries of objects changes nothing under their keys: each key
/// holds what it held, tidied in turn.
pub proof fn tidying_keeps_members(es: Seq<(Seq<char>, Data)>, key: Seq<char>)
    ensures
        member(tidy(Data::Object(es)), key) == match lookup(es, key) {
            Some(d) => Some(tidy(d)),
            None => None,
        },
{
    let f = |d: Data| tidy(d);
    assert(tidy_entries(es) =~= map_entries(es, f));
    sort_keeps_lookup(tidy_entries(es), key);
    lookup_of_map(es, f, key);
}

/// An array is viewed item by item, an object entry by entry.
pub broadcast proof fn container_views(v: AgentValue)
    ensures
        #![trigger v.data()]
        v matches AgentValue::Array(items) ==> v.data() == Data::Array(value_views(items@)),
        v matches AgentValue::Object(items) ==> v.data() == Data::Object(entry_views(items@)),
{
    match v {
        AgentValue::Array(items) => {
            assert(v.data()->Array_0 =~= value_views(items@));
        },
        AgentValue::Object(items) => {
            assert(v.data()->Object_0 =~= entry_views(items@));
        },
        _ => {},
    }
}

impl AgentValue {
    /// A copy of the value.
    pub fn copy(&self) -> (r: AgentValue)
        ensures
            r@ == self@,
        decreases *self,
    {
        match self {
            AgentValue::Unit => AgentValue::Unit,
            AgentValue::Boolean(b) => AgentValue::Boolean(*b),
            AgentValue::Integer(i) => AgentValue::Integer(*i),
            AgentValue::Number(n) => AgentValue::Number(n.copy()),
            AgentValue::String(s) => AgentValue::String(s.clone()),
            AgentValue::Image(h) => AgentValue::Image(h.clone()),
            AgentValue::Array(items) => {
                let mut out: Vec<AgentValue> = Vec::new();
                let mut i: usize = 0;
                while i < items.len()
                    invariant
                        i <= items.len(),
                        out.len() == i,
                        *self == AgentValue::Array(*items),
                        forall|k: int| 0 <= k < i ==> (#[trigger] out@[k])@ == items@[k]@,
                    decreases items.len() - i,
                {
                    assert(decreases_to!(*self => self->Array_0@[i as int]));
                    out.push(items[i].copy());
                    i = i + 1;
                }
                let r = AgentValue::Array(out);
                assert(r.data()->Array_0 =~= self.data()->Array_0);
                r
            },
            AgentValue::Object(items) => {
                let mut out: Vec<(String, AgentValue)> = Vec::new();
                let mut i: usize = 0;
                while i < items.len()
                    invariant
                        i <= items.len(),
                        out.len() == i,
                        *self == AgentValue::Object(*items),
                        forall|k: int|
                            0 <= k < i ==> (#[trigger] out@[k]).0@ == items@[k].0@ && out@[k].1@
                                == items@[k].1@,
                    decreases items.len() - i,
                {
                    assert(decreases_to!(*self => self->Object_0@[i as int].1));
                    out.push((items[i].0.clone(), items[i].1.copy()));
                    i = i + 1;
                }
                let r = AgentValue::Object(out);
                assert(r.data()->Object_0 =~= self.data()->Object_0);
                r
            },
            AgentValue::Tensor(h) => AgentValue::Tensor(h.clone()),
            AgentValue::Message(h) => AgentValue::Message(h.clone()),
            AgentValue::Error(h) => AgentValue::Error(h.clone()),
        }
    }

    /// The text, if this is a string.
    pub fn as_str(&self) -> (r: Option<&str>)
        ensures
            match r {
                Some(s) => text_in(self@) == Some(s@),
                None => text_in(self@) is None,
            },
    {
        match self {
            AgentValue::String(s) => Some(s.as_str()),
            _ => None,
        }
    }

    /// The integer that this is or truncates to, if it is a number.
    pub fn as_i64(&self) -> (r: Option<i64>)
        ensures
            r == integer_in(self@),
    {
        match self {
            AgentValue::Integer(i) => Some(*i),
            AgentValue::Number(n) => Some(n.as_i64()),
            _ => None,
        }
    }

    /// The value under `key`, if this is an object that has it.
    pub fn get(&self, key: &str) -> (r: Option<&AgentValue>)
        ensures
            match r {
                Some(v) => member(self@, key@) == Some(v@),
                None => member(self@, key@) is None,
            },
    {
        broadcast use container_views;

        match self {
            AgentValue::Object(items) => match find(items, key) {
                Some(i) => Some(&items[i].1),
                None => None,
            },
            _ => None,
        }
    }
}

/// The host keeps a value as it is, but for the order of the entries of its
/// objects: plain values are the same, arrays keep their items in order, and
/// objects hold each key once, in order. The host's own values stay what they
/// are.
pub proof fn tidying_keeps_values(d: Data)
    ensures
        d is Unit || d is Boolean || d is Integer || d is Number || d is String ==> tidy(d) == d,
        d matches Data::Array(items) ==> (tidy(d) matches Data::Array(ts) && ts.len() == items.len()
            && forall|i: int| 0 <= i < ts.len() ==> #[trigger] ts[i] == tidy(items[i])),
        d matches Data::Object(es) ==> (tidy(d) matches Data::Object(ts) && ordered(ts)),
        d matches Data::Image(h) ==> tidy(d) == value_tree(h),
        d matches Data::Tensor(h) ==> tidy(d) == value_tree(h),
        d matches Data::Message(h) ==> tidy(d) == value_tree(h),
        d matches Data::Error(h) ==> tidy(d) == value_tree(h),
{
    if let Data::Object(es) = d {
        sort_is_ordered(tidy_entries(es));
    }
}

/// An argument of a call is the one at its place; unit where there is none.
pub proof fn arguments_stand_at_their_places(args: Seq<Data>, index: int)
    ensures
        0 <= index < args.len() ==> value_argument(args, index) == args[index],
        index >= args.len() ==> value_argument(args, index) == Data::Unit,
{
}

/// A value has a text only if it is a text, a member only if it is an object,
/// and an integer only if it is a number.
pub proof fn kinds_are_read_as_such(d: Data, key: Seq<char>)
    ensures
        text_in(d) is Some <==> d is String,
        d matches Data::String(s) ==> text_in(d) == Some(s),
        member(d, key) is Some ==> d is Object,
        d matches Data::Object(es) ==> member(d, key) == lookup(es, key),
        integer_in(d) is Some <==> d is Integer || d is Number,
        d matches Data::Integer(i) ==> integer_in(d) == Some(i),
        d matches Data::Number(n) ==> integer_in(d) == Some(truncated(n)),
{
}

/// A value stands for what it holds.
pub proof fn values_stand_for_what_they_hold(v: AgentValue)
    ensures
        v is Unit ==> v@ == Data::Unit,
        v matches AgentValue::Boolean(b) ==> v@ == Data::Boolean(b),
        v matches AgentValue::Integer(i) ==> v@ == Data::Integer(i),
        v matches AgentValue::Number(n) ==> v@ == Data::Number(n@),
        v matches AgentValue::String(s) ==> v@ == Data::String(s@),
        v matches AgentValue::Image(h) ==> v@ == Data::Image(h),
        v matches AgentValue::Tensor(h) ==> v@ == Data::Tensor(h),
        v matches AgentValue::Message(h) ==> v@ == Data::Message(h),
        v matches AgentValue::Error(h) ==> v@ == Data::Error(h),
        v matches AgentValue::Array(items) ==> (v@ matches Data::Array(ds) && ds.len()
            == items@.len() && forall|i: int| 0 <= i < ds.len() ==> #[trigger] ds[i] == items@[i]@),
        v matches AgentValue::Object(items) ==> (v@ matches Data::Object(ds) && ds.len()
            == items@.len() && forall|i: int|
            0 <= i < ds.len() ==> (#[trigger] ds[i]).0 == items@[i].0@ && ds[i].1 == items@[i].1@),
{
}

} // verus!

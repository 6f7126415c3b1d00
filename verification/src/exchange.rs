//! Reading values of the host framework and handing values back to it.

use modular_agent_core::Value as HostValue;
use vstd::prelude::*;

use crate::entries::{
    distinct, entry_views, insert_sorted, lookup_at, lookup_finds, ordered_is_distinct,
    sort_entries, sort_is_ordered, sort_keeps_lookup,
};
use crate::host::Number;
use crate::pictures::writable;
use crate::value::{container_views, tidy, tidy_entries, value_views, AgentValue, Data};

verus! {

/// What a `modular_agent_core::Value` holds: its tree, with the entries of
/// each object ordered by key and every NaN as the same number. Images,
/// tensors, messages and errors stay the host's own values.
pub uninterp spec fn value_tree(v: modular_agent_core::Value) -> Data;

/// The text that the JSON form of a value has, as
/// `modular_agent_core::Value::to_json` and the display of `serde_json` give
/// it.
pub uninterp spec fn json_text(d: Data) -> Seq<char>;

/// One level of a value of the host.
enum ValueNode {
    Unit,
    Boolean(bool),
    Integer(i64),
    Number(Number),
    String(String),
    Image(modular_agent_core::Value),
    Array(Vec<modular_agent_core::Value>),
    Object(Vec<(String, modular_agent_core::Value)>),
    Tensor(modular_agent_core::Value),
    Message(modular_agent_core::Value),
    Error(modular_agent_core::Value),
}

/// One level of a value that is handed to the host.
enum PlainNode {
    Unit,
    Boolean(bool),
    Integer(i64),
    Number(Number),
    String(String),
    Array(Vec<modular_agent_core::Value>),
    Object(Vec<(String, modular_agent_core::Value)>),
}

/// The trees of a list of host values.
spec fn item_trees(items: Seq<modular_agent_core::Value>) -> Seq<Data> {
    items.map_values(|v: modular_agent_core::Value| value_tree(v))
}

/// The trees of a list of entries with host values.
spec fn entry_trees(items: Seq<(String, modular_agent_core::Value)>) -> Seq<(Seq<char>, Data)> {
    items.map_values(|e: (String, modular_agent_core::Value)| (e.0@, value_tree(e.1)))
}

spec fn node_tree(n: ValueNode) -> Data {
    match n {
        ValueNode::Unit => Data::Unit,
        ValueNode::Boolean(b) => Data::Boolean(b),
        ValueNode::Integer(i) => Data::Integer(i),
        ValueNode::Number(x) => Data::Number(x@),
        ValueNode::String(s) => Data::String(s@),
        ValueNode::Image(h) => Data::Image(h),
        ValueNode::Array(items) => Data::Array(item_trees(items@)),
        ValueNode::Object(items) => Data::Object(sort_entries(entry_trees(items@))),
        ValueNode::Tensor(h) => Data::Tensor(h),
        ValueNode::Message(h) => Data::Message(h),
        ValueNode::Error(h) => Data::Error(h),
    }
}

spec fn plain_tree(n: PlainNode) -> Data {
    match n {
        PlainNode::Unit => Data::Unit,
        PlainNode::Boolean(b) => Data::Boolean(b),
        PlainNode::Integer(i) => Data::Integer(i),
        PlainNode::Number(x) => Data::Number(x@),
        PlainNode::String(s) => Data::String(s@),
        PlainNode::Array(items) => Data::Array(item_trees(items@)),
        PlainNode::Object(items) => Data::Object(sort_entries(entry_trees(items@))),
    }
}

/// Takes one level of a `modular_agent_core::Value` apart. The contract claims
/// that the level is that of the tree the value holds, and that an object
/// hands out each key once; in which order it does so is left open.
#[verifier::external_body]
fn value_node(v: modular_agent_core::Value) -> (r: ValueNode)
    ensures
        node_tree(r) == value_tree(v),
        r matches ValueNode::Object(items) ==> distinct(entry_trees(items@)),
{
    match v {
        HostValue::Unit => ValueNode::Unit,
        HostValue::Boolean(b) => ValueNode::Boolean(b),
        HostValue::Integer(i) => ValueNode::Integer(i),
        HostValue::Number(_) => ValueNode::Number(Number::new(&v)),
        HostValue::String(s) => ValueNode::String(s.to_string()),
        HostValue::Image(_) => ValueNode::Image(v),
        HostValue::Array(items) => ValueNode::Array(items.into_iter().collect()),
        HostValue::Object(map) => ValueNode::Object(map.into_iter().collect()),
        HostValue::Tensor(_) => ValueNode::Tensor(v),
        HostValue::Message(_) => ValueNode::Message(v),
        HostValue::Error(_) => ValueNode::Error(v),
    }
}

/// Builds one level of a `modular_agent_core::Value`. The contract claims that
/// the value holds the tree of that level; of entries with the same key, the
/// last one stays.
#[verifier::external_body]
fn build_value(n: PlainNode) -> (r: modular_agent_core::Value)
    ensures
        value_tree(r) == plain_tree(n),
{
    match n {
        PlainNode::Unit => HostValue::Unit,
        PlainNode::Boolean(b) => HostValue::Boolean(b),
        PlainNode::Integer(i) => HostValue::Integer(i),
        PlainNode::Number(x) => x.to_host(),
        PlainNode::String(s) => HostValue::string(s),
        PlainNode::Array(items) => HostValue::Array(items.into_iter().collect()),
        PlainNode::Object(items) => HostValue::Object(items.into_iter().collect()),
    }
}

/// Each entry of an object is an entry of its tree.
proof fn entry_is_in_tree(items: Seq<(String, modular_agent_core::Value)>, i: int) -> (j: int)
    requires
        distinct(entry_trees(items)),
        0 <= i < items.len(),
    ensures
        0 <= j < sort_entries(entry_trees(items)).len(),
        sort_entries(entry_trees(items))[j] == entry_trees(items)[i],
{
    let trees = entry_trees(items);
    lookup_at(trees, i);
    sort_keeps_lookup(trees, trees[i].0);
    let sorted = sort_entries(trees);
    lookup_finds(sorted, trees[i].0);
    let j = choose|j: int| 0 <= j < sorted.len() && (#[trigger] sorted[j]).0 == trees[i].0;
    sort_is_ordered(trees);
    ordered_is_distinct(sorted);
    lookup_at(sorted, j);
    j
}

/// Reads a value of the host. The entries of objects come in order.
pub fn read_value(v: modular_agent_core::Value) -> (r: AgentValue)
    ensures
        r@ == value_tree(v),
    decreases value_tree(v),
{
    broadcast use container_views;

    let ghost tree = value_tree(v);
    match value_node(v) {
        ValueNode::Unit => AgentValue::Unit,
        ValueNode::Boolean(b) => AgentValue::Boolean(b),
        ValueNode::Integer(i) => AgentValue::Integer(i),
        ValueNode::Number(x) => AgentValue::Number(x),
        ValueNode::String(s) => AgentValue::String(s),
        ValueNode::Image(h) => AgentValue::Image(h),
        ValueNode::Array(items) => {
            let ghost all = items@;
            let mut out: Vec<AgentValue> = Vec::new();
            for item in it: items
                invariant
                    it.seq() == all,
                    out.len() == it.index(),
                    tree == value_tree(v),
                    tree == Data::Array(item_trees(all)),
                    forall|i: int| 0 <= i < out.len() ==> (#[trigger] out@[i])@ == value_tree(all[i]),
            {
                assert(value_tree(item) == item_trees(all)[it.index()]);
                assert(decreases_to!(tree => tree->Array_0[it.index()]));
                out.push(read_value(item));
            }
            assert(value_views(out@) =~= item_trees(all));
            AgentValue::Array(out)
        },
        ValueNode::Object(items) => {
            let ghost all = items@;
            let ghost trees = entry_trees(all);
            let mut out: Vec<(String, AgentValue)> = Vec::new();
            assert(entry_views(out@) =~= sort_entries(trees.take(0)));
            for item in it: items
                invariant
                    it.seq() == all,
                    tree == value_tree(v),
                    trees == entry_trees(all),
                    distinct(trees),
                    tree == Data::Object(sort_entries(trees)),
                    entry_views(out@) == sort_entries(trees.take(it.index() as int)),
            {
                let ghost at = it.index() as int;
                assert((item.0@, value_tree(item.1)) == trees[at]);
                proof {
                    let j = entry_is_in_tree(all, at);
                    assert(decreases_to!(tree => tree->Object_0[j].1));
                    assert(trees.take(at + 1).drop_last() =~= trees.take(at));
                    assert(trees.take(at + 1).last() == trees[at]);
                }
                let (k, x) = item;
                insert_sorted(&mut out, k, read_value(x));
            }
            assert(trees.take(trees.len() as int) =~= trees);
            AgentValue::Object(out)
        },
        ValueNode::Tensor(h) => AgentValue::Tensor(h),
        ValueNode::Message(h) => AgentValue::Message(h),
        ValueNode::Error(h) => AgentValue::Error(h),
    }
}

/// Hands a value to the host.
pub fn host_value(value: &AgentValue) -> (r: modular_agent_core::Value)
    ensures
        value_tree(r) == tidy(value@),
    decreases *value,
{
    match value {
        AgentValue::Unit => build_value(PlainNode::Unit),
        AgentValue::Boolean(b) => build_value(PlainNode::Boolean(*b)),
        AgentValue::Integer(i) => build_value(PlainNode::Integer(*i)),
        AgentValue::Number(x) => build_value(PlainNode::Number(x.copy())),
        AgentValue::String(s) => build_value(PlainNode::String(s.clone())),
        AgentValue::Image(h) => h.clone(),
        AgentValue::Array(items) => {
            let mut out: Vec<modular_agent_core::Value> = Vec::new();
            let mut i: usize = 0;
            while i < items.len()
                invariant
                    i <= items.len(),
                    out.len() == i,
                    *value == AgentValue::Array(*items),
                    forall|k: int| 0 <= k < i ==> value_tree(#[trigger] out@[k]) == tidy(items@[k]@),
                decreases items.len() - i,
            {
                assert(decreases_to!(*value => value->Array_0@[i as int]));
                out.push(host_value(&items[i]));
                i = i + 1;
            }
            assert(item_trees(out@) =~= tidy(value@)->Array_0);
            build_value(PlainNode::Array(out))
        },
        AgentValue::Object(items) => {
            let mut out: Vec<(String, modular_agent_core::Value)> = Vec::new();
            let mut i: usize = 0;
            while i < items.len()
                invariant
                    i <= items.len(),
                    out.len() == i,
                    *value == AgentValue::Object(*items),
                    forall|k: int|
                        0 <= k < i ==> (#[trigger] out@[k]).0@ == items@[k].0@ && value_tree(out@[k].1)
                            == tidy(items@[k].1@),
                decreases items.len() - i,
            {
                assert(decreases_to!(*value => value->Object_0@[i as int].1));
                out.push((items[i].0.clone(), host_value(&items[i].1)));
                i = i + 1;
            }
            assert(entry_trees(out@) =~= tidy_entries(value@->Object_0));
            build_value(PlainNode::Object(out))
        },
        AgentValue::Tensor(h) => h.clone(),
        AgentValue::Message(h) => h.clone(),
        AgentValue::Error(h) => h.clone(),
    }
}

/// Calls `modular_agent_core::Value::to_json` and displays the JSON. The
/// contract names the text. A picture that cannot be written makes the call
/// panic, so there must be none.
#[verifier::external_body]
fn display_json(v: &modular_agent_core::Value) -> (r: String)
    requires
        writable(value_tree(*v)),
    ensures
        r@ == json_text(value_tree(*v)),
{
    v.to_json().to_string()
}

/// The JSON text of a value that can be written.
pub fn json_string(value: &AgentValue) -> (r: String)
    requires
        writable(tidy(value@)),
    ensures
        r@ == json_text(tidy(value@)),
{
    display_json(&host_value(value))
}

/// A value that is handed to the host reads back as the same value, with the
/// entries of its objects in order.
pub proof fn handed_values_read_back(
    value: &AgentValue,
    host: modular_agent_core::Value,
    back: AgentValue,
)
    requires
        call_ensures(host_value, (value,), host),
        call_ensures(read_value, (host,), back),
    ensures
        back@ == tidy(value@),
{
}

} // verus!

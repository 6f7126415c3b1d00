//! JSON trees, as the host framework hands them out.

use vstd::prelude::*;

use crate::host::Number;

verus! {

/// A JSON tree of `serde_json`.
#[verifier::external_type_specification]
#[verifier::external_body]
pub struct ExJsonValue(serde_json::Value);

/// What a `serde_json::Value` holds: its tree, with the integer that
/// `serde_json::Number::as_i64` gives and the bits of what
/// `serde_json::Number::as_f64` gives for each number.
pub uninterp spec fn json_tree(v: serde_json::Value) -> JsonData;

/// A number of a JSON tree: the integer it is, if it is one that fits, and
/// its floating point reading.
#[derive(Debug)]
pub struct JsonNumber {
    pub whole: Option<i64>,
    pub float: Number,
}

/// A JSON tree.
#[derive(Debug)]
pub enum Json {
    Null,
    Bool(bool),
    Number(JsonNumber),
    String(String),
    Array(Vec<Json>),
    Object(Vec<(String, Json)>),
}

/// A JSON tree, as contracts speak of it.
pub enum JsonData {
    Null,
    Bool(bool),
    Number(Option<i64>, u64),
    String(Seq<char>),
    Array(Seq<JsonData>),
    Object(Seq<(Seq<char>, JsonData)>),
}

impl Json {
    /// The tree that the value stands for.
    pub open spec fn data(self) -> JsonData
        decreases self,
    {
        match self {
            Json::Null => JsonData::Null,
            Json::Bool(b) => JsonData::Bool(b),
            Json::Number(n) => JsonData::Number(n.whole, n.float@),
            Json::String(s) => JsonData::String(s@),
            Json::Array(items) => JsonData::Array(
                Seq::new(
                    items@.len(),
                    |i: int|
                        if 0 <= i < items@.len() {
                            items@[i].data()
                        } else {
                            JsonData::Null
                        },
                ),
            ),
            Json::Object(items) => JsonData::Object(
                Seq::new(
                    items@.len(),
                    |i: int|
                        if 0 <= i < items@.len() {
                            (items@[i].0@, items@[i].1.data())
                        } else {
                            (Seq::empty(), JsonData::Null)
                        },
                ),
            ),
        }
    }
}

impl View for Json {
    type V = JsonData;

    open spec fn view(&self) -> JsonData {
        self.data()
    }
}

/// One level of a JSON tree.
enum JsonNode {
    Null,
    Bool(bool),
    Number(Option<i64>, Number),
    String(String),
    Array(Vec<serde_json::Value>),
    Object(Vec<(String, serde_json::Value)>),
}

spec fn node_tree(n: JsonNode) -> JsonData {
    match n {
        JsonNode::Null => JsonData::Null,
        JsonNode::Bool(b) => JsonData::Bool(b),
        JsonNode::Number(i, f) => JsonData::Number(i, f@),
        JsonNode::String(s) => JsonData::String(s@),
        JsonNode::Array(items) => JsonData::Array(
            items@.map_values(|v: serde_json::Value| json_tree(v)),
        ),
        JsonNode::Object(items) => JsonData::Object(
            items@.map_values(|e: (String, serde_json::Value)| (e.0@, json_tree(e.1))),
        ),
    }
}

/// Takes one level of a `serde_json::Value` apart, reading a number with
/// `serde_json::Number::as_i64` and `serde_json::Number::as_f64`. The contract
/// claims that the level is that of the tree the value holds.
#[verifier::external_body]
fn json_node(v: serde_json::Value) -> (r: JsonNode)
    ensures
        node_tree(r) == json_tree(v),
{
    match v {
        serde_json::Value::Null => JsonNode::Null,
        serde_json::Value::Bool(b) => JsonNode::Bool(b),
        serde_json::Value::Number(n) => JsonNode::Number(
            n.as_i64(),
            Number::new(&modular_agent_core::Value::number(n.as_f64().unwrap_or_default())),
        ),
        serde_json::Value::String(s) => JsonNode::String(s),
        serde_json::Value::Array(items) => JsonNode::Array(items),
        serde_json::Value::Object(map) => JsonNode::Object(map.into_iter().collect()),
    }
}

/// Reads a `serde_json::Value` into a tree of the library.
pub fn read_json(v: serde_json::Value) -> (r: Json)
    ensures
        r@ == json_tree(v),
    decreases json_tree(v),
{
    let ghost tree = json_tree(v);
    match json_node(v) {
        JsonNode::Null => Json::Null,
        JsonNode::Bool(b) => Json::Bool(b),
        JsonNode::Number(whole, float) => Json::Number(JsonNumber { whole, float }),
        JsonNode::String(s) => Json::String(s),
        JsonNode::Array(items) => {
            let ghost all = items@;
            let ghost trees = all.map_values(|v: serde_json::Value| json_tree(v));
            let mut out: Vec<Json> = Vec::new();
            for item in it: items
                invariant
                    it.seq() == all,
                    out.len() == it.index(),
                    tree == json_tree(v),
                    tree == JsonData::Array(trees),
                    trees == all.map_values(|v: serde_json::Value| json_tree(v)),
                    forall|i: int| 0 <= i < out.len() ==> (#[trigger] out@[i])@ == trees[i],
            {
                assert(json_tree(item) == trees[it.index()]);
                assert(decreases_to!(tree => tree->Array_0[it.index()]));
                out.push(read_json(item));
            }
            let r = Json::Array(out);
            assert(r@->Array_0 =~= trees);
            r
        },
        JsonNode::Object(items) => {
            let ghost all = items@;
            let ghost trees = all.map_values(|e: (String, serde_json::Value)| (e.0@, json_tree(e.1)));
            let mut out: Vec<(String, Json)> = Vec::new();
            for item in it: items
                invariant
                    it.seq() == all,
                    out.len() == it.index(),
                    tree == json_tree(v),
                    tree == JsonData::Object(trees),
                    trees == all.map_values(
                        |e: (String, serde_json::Value)| (e.0@, json_tree(e.1)),
                    ),
                    forall|i: int|
                        0 <= i < out.len() ==> (#[trigger] out@[i]).0@ == trees[i].0 && out@[i].1@
                            == trees[i].1,
            {
                assert((item.0@, json_tree(item.1)) == trees[it.index()]);
                assert(decreases_to!(tree => tree->Object_0[it.index()].1));
                let (k, x) = item;
                out.push((k, read_json(x)));
            }
            let r = Json::Object(out);
            assert(r@->Object_0 =~= trees);
            r
        },
    }
}

} // verus!

//! Values of the host framework that the library carries without looking
//! inside: floating point numbers, images, messages and errors.

use vstd::prelude::*;

use crate::exchange::value_tree;
use crate::json::{json_tree, JsonData};
use crate::pictures::writable;

verus! {

/// A value of the host framework.
#[verifier::external_type_specification]
#[verifier::external_body]
pub struct ExHostValue(modular_agent_core::Value);

/// An error of the host framework.
#[verifier::external_type_specification]
#[verifier::external_body]
pub struct ExHostError(modular_agent_core::Error);

/// The floating point number that `modular_agent_core::Value::as_f64` reads,
/// zero where it reads none. A number is told by its bit pattern; all that are
/// not a number (NaN) count as one and the same pattern.
pub uninterp spec fn number_bits(v: modular_agent_core::Value) -> u64;

/// The integer that `modular_agent_core::Value::as_i64` gives for the
/// floating point number that is told by these bits.
pub uninterp spec fn truncated(bits: u64) -> i64;

/// The JSON that `modular_agent_core::Value::to_json` gives.
pub uninterp spec fn json_form(v: modular_agent_core::Value) -> JsonData;

/// The text that `modular_agent_core::Message::text` gives, empty for a value
/// that is no message.
pub uninterp spec fn message_text(v: modular_agent_core::Value) -> Seq<char>;

/// The text that an error value is displayed with, empty for a value that is
/// no error.
pub uninterp spec fn error_text(v: modular_agent_core::Value) -> Seq<char>;

/// The text that `modular_agent_core::Error` is displayed with.
pub uninterp spec fn host_error_text(e: modular_agent_core::Error) -> Seq<char>;

/// The floating point numbers that the elements of a tensor widen to, none for
/// a value that is no tensor. As in `number_bits`, each is told by its bit
/// pattern and every NaN by the same one: widening keeps a NaN a NaN, but not
/// its bits.
pub uninterp spec fn tensor_bits(v: modular_agent_core::Value) -> Seq<u64>;

/// `modular_agent_core::Value::clone` yields the same value.
pub assume_specification[ <modular_agent_core::Value as Clone>::clone ](
    v: &modular_agent_core::Value,
) -> (r: modular_agent_core::Value)
    ensures
        r == *v,
;

/// A floating point number, held as the host's own number value and viewed
/// as its bit pattern, with one pattern for every NaN.
#[derive(Debug)]
pub struct Number {
    raw: modular_agent_core::Value,
}

impl View for Number {
    type V = u64;

    closed spec fn view(&self) -> u64 {
        number_bits(self.raw)
    }
}

impl Number {
    /// Reads the number in `v` with `modular_agent_core::Value::as_f64`; a
    /// value that is no number reads as zero. The contract claims that the
    /// number kept is the one that was read.
    #[verifier::external_body]
    fn read(v: &modular_agent_core::Value) -> (r: Number)
        ensures
            r@ == number_bits(*v),
    {
        Number { raw: modular_agent_core::Value::number(v.as_f64().unwrap_or_default()) }
    }

    /// The number in a host value, zero if it holds none.
    pub fn new(v: &modular_agent_core::Value) -> (r: Number)
        ensures
            r@ == number_bits(*v),
    {
        Number::read(v)
    }

    /// The number zero, from `modular_agent_core::Value::number_default`. The
    /// contract claims that all its bits are zero.
    #[verifier::external_body]
    pub(crate) fn zero() -> (r: Number)
        ensures
            r@ == 0,
    {
        Number { raw: modular_agent_core::Value::number_default() }
    }

    /// Calls `modular_agent_core::Value::as_i64` on the number. The contract
    /// claims that the result depends on the number alone; every NaN gives the
    /// same integer.
    #[verifier::external_body]
    pub(crate) fn as_i64(&self) -> (r: i64)
        ensures
            r == truncated(self@),
    {
        self.raw.as_i64().unwrap_or_default()
    }

    /// The number as a value of the host.
    pub fn to_host(&self) -> (r: modular_agent_core::Value)
        ensures
            number_bits(r) == self@,
    {
        self.raw.clone()
    }

    /// A copy of the number.
    pub fn copy(&self) -> (r: Number)
        ensures
            r@ == self@,
    {
        Number { raw: self.raw.clone() }
    }
}

/// The bit patterns of a list of numbers.
pub open spec fn number_views(ns: Seq<Number>) -> Seq<u64> {
    ns.map_values(|n: Number| n@)
}

/// Calls `modular_agent_core::Value::as_tensor` and widens each element. The
/// contract names the numbers.
#[verifier::external_body]
pub(crate) fn tensor_numbers(v: &modular_agent_core::Value) -> (r: Vec<Number>)
    ensures
        number_views(r@) == tensor_bits(*v),
{
    v.as_tensor().into_iter().flatten().map(
        |x| Number::new(&modular_agent_core::Value::number((*x).into())),
    ).collect()
}

/// Calls `modular_agent_core::Value::to_json`. The contract names the JSON
/// tree that comes out. A picture that cannot be written makes the call panic,
/// so there must be none.
#[verifier::external_body]
pub(crate) fn to_json(v: &modular_agent_core::Value) -> (r: serde_json::Value)
    requires
        writable(value_tree(*v)),
    ensures
        json_tree(r) == json_form(*v),
{
    v.to_json()
}

/// Calls `modular_agent_core::Value::as_message` and then
/// `modular_agent_core::Message::text`. The contract names the text.
#[verifier::external_body]
pub(crate) fn text_of_message(v: &modular_agent_core::Value) -> (r: String)
    ensures
        r@ == message_text(*v),
{
    v.as_message().map(|m| m.text()).unwrap_or_default()
}

/// Displays the error in an error value. The contract names the text.
#[verifier::external_body]
pub(crate) fn text_of_error(v: &modular_agent_core::Value) -> (r: String)
    ensures
        r@ == error_text(*v),
{
    match v {
        modular_agent_core::Value::Error(e) => format!("{e}"),
        _ => String::new(),
    }
}

/// Displays a `modular_agent_core::Error`. The contract names the text.
#[verifier::external_body]
pub(crate) fn display_host_error(e: &modular_agent_core::Error) -> (r: String)
    ensures
        r@ == host_error_text(*e),
{
    format!("{e}")
}

} // verus!

//! Pictures inside values: which values can be written as JSON.
//!
//! The host writes a picture as a PNG file. That takes a picture with at least
//! one pixel whose bytes are all there, and a value can hold others.

use vstd::prelude::*;

use crate::entries::{entry_views, sort_members};
use crate::exchange::{host_value, read_value, value_tree};
use crate::value::{container_views, tidy, tidy_entries, value_views, AgentValue, Data};

verus! {

/// The width, the height and the number of bytes of the picture that a value
/// is, or that is attached to the message that it is; none for any other
/// value.
pub uninterp spec fn picture_size(v: modular_agent_core::Value) -> Option<(u32, u32, usize)>;

/// Measures the picture in a value with the getters of
/// `modular_agent_core::PhotonImage`. The contract names the measures.
#[verifier::external_body]
fn measure(v: &modular_agent_core::Value) -> (r: Option<(u32, u32, usize)>)
    ensures
        r == picture_size(*v),
{
    let picture = match v {
        modular_agent_core::Value::Image(p) => Some(p),
        modular_agent_core::Value::Message(m) => m.image.as_ref(),
        _ => None,
    };
    picture.map(|p| (p.get_width(), p.get_height(), p.get_raw_pixels().len()))
}

/// Whether the picture in a value, if there is one, can be written: it has a
/// pixel, and the four bytes of each pixel are there.
pub open spec fn drawable(v: modular_agent_core::Value) -> bool {
    match picture_size(v) {
        Some((width, height, bytes)) => width > 0 && height > 0 && 4 * (width * height) <= bytes,
        None => true,
    }
}

/// Whether every picture in a value can be written, those of messages too.
pub open spec fn writable(d: Data) -> bool
    decreases d,
{
    match d {
        Data::Image(h) => drawable(h),
        Data::Message(h) => drawable(h),
        Data::Array(items) => forall|i: int|
            0 <= i < items.len() ==> writable(#[trigger] items[i]),
        Data::Object(es) => forall|i: int|
            0 <= i < es.len() ==> writable((#[trigger] es[i]).1),
        _ => true,
    }
}

/// Whether every message in a value can be written. A script sees a message
/// as its JSON form, and nothing of a picture that stands by itself.
pub open spec fn script_ready(d: Data) -> bool
    decreases d,
{
    match d {
        Data::Message(h) => writable(value_tree(h)),
        Data::Array(items) => forall|i: int|
            0 <= i < items.len() ==> script_ready(#[trigger] items[i]),
        Data::Object(es) => forall|i: int|
            0 <= i < es.len() ==> script_ready((#[trigger] es[i]).1),
        _ => true,
    }
}

/// Whether the picture in a value of the host can be written.
fn can_draw(v: &modular_agent_core::Value) -> (r: bool)
    ensures
        r == drawable(*v),
{
    match measure(v) {
        Some((width, height, bytes)) => {
            assert(width * height <= 0xffff_ffff * 0xffff_ffff) by (nonlinear_arith)
                requires
                    0 <= width <= 0xffff_ffff,
                    0 <= height <= 0xffff_ffff,
            ;
            let pixels: u64 = (width as u64) * (height as u64);
            let full: usize = bytes / 4;
            width > 0 && height > 0 && pixels <= full as u64
        },
        None => true,
    }
}

fn can_write(value: &AgentValue) -> (r: bool)
    ensures
        r == writable(value@),
    decreases *value,
{
    broadcast use container_views;

    match value {
        AgentValue::Image(h) => can_draw(h),
        AgentValue::Message(h) => can_draw(h),
        AgentValue::Array(items) => {
            let mut i: usize = 0;
            while i < items.len()
                invariant
                    i <= items.len(),
                    *value == AgentValue::Array(*items),
                    value@ == Data::Array(value_views(items@)),
                    forall|k: int| 0 <= k < i ==> writable(#[trigger] value_views(items@)[k]),
                decreases items.len() - i,
            {
                assert(decreases_to!(*value => value->Array_0@[i as int]));
                assert(value_views(items@)[i as int] == items@[i as int]@);
                if !can_write(&items[i]) {
                    assert(!writable(value@->Array_0[i as int]));
                    return false;
                }
                i = i + 1;
            }
            true
        },
        AgentValue::Object(items) => {
            let mut i: usize = 0;
            while i < items.len()
                invariant
                    i <= items.len(),
                    *value == AgentValue::Object(*items),
                    value@ == Data::Object(entry_views(items@)),
                    forall|k: int| 0 <= k < i ==> writable((#[trigger] entry_views(items@)[k]).1),
                decreases items.len() - i,
            {
                assert(decreases_to!(*value => value->Object_0@[i as int].1));
                assert(entry_views(items@)[i as int].1 == items@[i as int].1@);
                if !can_write(&items[i].1) {
                    assert(!writable(value@->Object_0[i as int].1));
                    return false;
                }
                i = i + 1;
            }
            true
        },
        _ => true,
    }
}

/// Whether every picture in a value of the host can be written.
pub fn is_host_writable(v: &modular_agent_core::Value) -> (r: bool)
    ensures
        r == writable(value_tree(*v)),
{
    can_write(&read_value(v.clone()))
}

/// Whether a value can be written as JSON.
pub fn is_writable(value: &AgentValue) -> (r: bool)
    ensures
        r == writable(tidy(value@)),
{
    is_host_writable(&host_value(value))
}

/// Whether a script can be handed a value.
pub fn is_script_ready(value: &AgentValue) -> (r: bool)
    ensures
        r == script_ready(value@),
    decreases *value,
{
    broadcast use container_views;

    match value {
        AgentValue::Message(h) => is_host_writable(h),
        AgentValue::Array(items) => {
            let mut i: usize = 0;
            while i < items.len()
                invariant
                    i <= items.len(),
                    *value == AgentValue::Array(*items),
                    value@ == Data::Array(value_views(items@)),
                    forall|k: int| 0 <= k < i ==> script_ready(#[trigger] value_views(items@)[k]),
                decreases items.len() - i,
            {
                assert(decreases_to!(*value => value->Array_0@[i as int]));
                assert(value_views(items@)[i as int] == items@[i as int]@);
                if !is_script_ready(&items[i]) {
                    assert(!script_ready(value@->Array_0[i as int]));
                    return false;
                }
                i = i + 1;
            }
            true
        },
        AgentValue::Object(items) => {
            let mut i: usize = 0;
            while i < items.len()
                invariant
                    i <= items.len(),
                    *value == AgentValue::Object(*items),
                    value@ == Data::Object(entry_views(items@)),
                    forall|k: int|
                        0 <= k < i ==> script_ready((#[trigger] entry_views(items@)[k]).1),
                decreases items.len() - i,
            {
                assert(decreases_to!(*value => value->Object_0@[i as int].1));
                assert(entry_views(items@)[i as int].1 == items@[i as int].1@);
                if !is_script_ready(&items[i].1) {
                    assert(!script_ready(value@->Object_0[i as int].1));
                    return false;
                }
                i = i + 1;
            }
            true
        },
        _ => true,
    }
}

/// Whether a value is made of the kinds that scripts have too: no image,
/// tensor, message or error anywhere.
pub open spec fn scriptable(d: Data) -> bool
    decreases d,
{
    match d {
        Data::Image(_) => false,
        Data::Tensor(_) => false,
        Data::Message(_) => false,
        Data::Error(_) => false,
        Data::Array(items) => forall|i: int|
            0 <= i < items.len() ==> scriptable(#[trigger] items[i]),
        Data::Object(es) => forall|i: int|
            0 <= i < es.len() ==> scriptable((#[trigger] es[i]).1),
        _ => true,
    }
}

/// A value made of the kinds that scripts have can always be written and
/// always be handed to a script.
pub proof fn scriptable_values_are_writable(d: Data)
    requires
        scriptable(d),
    ensures
        writable(tidy(d)),
        script_ready(d),
    decreases d,
{
    match d {
        Data::Array(items) => {
            assert forall|i: int| 0 <= i < items.len() implies writable(
                tidy(#[trigger] items[i]),
            ) && script_ready(items[i]) by {
                assert(decreases_to!(d => d->Array_0[i]));
                scriptable_values_are_writable(items[i]);
            }
            let t = tidy(d)->Array_0;
            assert forall|i: int| 0 <= i < t.len() implies writable(#[trigger] t[i]) by {
                assert(t[i] == tidy(items[i]));
            }
        },
        Data::Object(es) => {
            assert forall|i: int| 0 <= i < es.len() implies writable(
                tidy((#[trigger] es[i]).1),
            ) && script_ready(es[i].1) by {
                assert(decreases_to!(d => d->Object_0[i].1));
                scriptable_values_are_writable(es[i].1);
            }
            let all = tidy_entries(es);
            let t = tidy(d)->Object_0;
            sort_members(all);
            assert forall|i: int| 0 <= i < t.len() implies writable((#[trigger] t[i]).1) by {
                assert(all.contains(t[i]));
                let j = choose|j: int| 0 <= j < all.len() && all[j] == t[i];
                assert(all[j].1 == tidy(es[j].1));
            }
        },
        _ => {},
    }
}

/// A picture can be written if it has a pixel and its bytes are all there, and
/// so can a message with such a picture, or with none. A container can be
/// written if all that it holds can. Everything else can be written.
pub proof fn whole_pictures_are_writable(d: Data)
    ensures
        d matches Data::Image(h) ==> (writable(d) <==> match picture_size(h) {
            Some((width, height, bytes)) => width >= 1 && height >= 1 && width * height * 4 <= bytes,
            None => true,
        }),
        d matches Data::Message(h) ==> (writable(d) <==> match picture_size(h) {
            Some((width, height, bytes)) => width >= 1 && height >= 1 && width * height * 4 <= bytes,
            None => true,
        }),
        d matches Data::Array(items) ==> (writable(d) <==> forall|i: int|
            0 <= i < items.len() ==> writable(#[trigger] items[i])),
        d matches Data::Object(es) ==> (writable(d) <==> forall|i: int|
            0 <= i < es.len() ==> writable((#[trigger] es[i]).1)),
        d is Unit || d is Boolean || d is Integer || d is Number || d is String || d is Tensor
            || d is Error ==> writable(d),
{
}

/// A script can be handed anything but a message that cannot be written.
pub proof fn only_broken_messages_are_kept_from_scripts(d: Data)
    ensures
        d matches Data::Message(h) ==> (script_ready(d) <==> writable(value_tree(h))),
        d matches Data::Array(items) ==> (script_ready(d) <==> forall|i: int|
            0 <= i < items.len() ==> script_ready(#[trigger] items[i])),
        d matches Data::Object(es) ==> (script_ready(d) <==> forall|i: int|
            0 <= i < es.len() ==> script_ready((#[trigger] es[i]).1)),
        !(d is Message) && !(d is Array) && !(d is Object) ==> script_ready(d),
{
}

} // verus!

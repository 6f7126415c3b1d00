//! Parked configuration values.
//!
//! When a patch is loaded, the host renames every stored value that the
//! definition of the module does not declare by putting an underscore in
//! front. That includes every value that a script declares.

use vstd::prelude::*;

use crate::configs::{config_entries, config_keys};
use crate::declaration::{is_parked, parked};
use crate::describe::{kept_value, parked_name};
use crate::entries::{
    keys_of, lookup, lookup_finds, put, put_appends, without, without_absent, without_then_lookup,
};
use crate::shape::{AgentSpec, SpecData};
use crate::text::views;
use crate::value::Data;

verus! {

/// The names that start with an underscore, in order.
pub open spec fn stale_keys(keys: Seq<Seq<char>>) -> Seq<Seq<char>>
    decreases keys.len(),
{
    if keys.len() == 0 {
        keys
    } else if parked(keys.last()) {
        stale_keys(keys.drop_last()).push(keys.last())
    } else {
        stale_keys(keys.drop_last())
    }
}

/// The entries after the value under a parked name got its plain name back. A
/// value that already has the plain name wins.
pub open spec fn restored_one(es: Seq<(Seq<char>, Data)>, key: Seq<char>) -> Seq<
    (Seq<char>, Data),
> {
    match lookup(es, key) {
        None => es,
        Some(v) => {
            let rest = without(es, key);
            let name = key.skip(1);
            if name.len() > 0 && lookup(rest, name) is None {
                put(rest, name, v)
            } else {
                rest
            }
        },
    }
}

/// The entries after the values under parked names got their plain names back
/// one after the other.
pub open spec fn restored_all(es: Seq<(Seq<char>, Data)>, keys: Seq<Seq<char>>) -> Seq<
    (Seq<char>, Data),
>
    decreases keys.len(),
{
    if keys.len() == 0 {
        es
    } else {
        restored_one(restored_all(es, keys.drop_last()), keys.last())
    }
}

/// The entries after every parked value got its plain name back.
pub open spec fn restored(es: Seq<(Seq<char>, Data)>) -> Seq<(Seq<char>, Data)> {
    restored_all(es, stale_keys(keys_of(es)))
}

/// The shape with its parked values restored.
pub open spec fn restored_shape(s: SpecData) -> SpecData {
    SpecData {
        configs: match s.configs {
            Some(es) => Some(restored(es)),
            None => None,
        },
        ..s
    }
}

/// The names that start with an underscore.
fn stale_list(keys: &Vec<String>) -> (r: Vec<String>)
    ensures
        views(r@) == stale_keys(views(keys@)),
{
    let ghost all = views(keys@);
    let mut out: Vec<String> = Vec::new();
    let mut i: usize = 0;
    assert(views(out@) =~= stale_keys(all.take(0)));
    while i < keys.len()
        invariant
            i <= keys.len(),
            all == views(keys@),
            views(out@) == stale_keys(all.take(i as int)),
        decreases keys.len() - i,
    {
        proof {
            assert(all.take(i + 1).drop_last() =~= all.take(i as int));
            assert(all.take(i + 1).last() == keys@[i as int]@);
        }
        if is_parked(keys[i].as_str()) {
            let ghost done = views(out@);
            out.push(keys[i].clone());
            assert(views(out@) =~= done.push(keys@[i as int]@));
        }
        i = i + 1;
    }
    assert(all.take(i as int) =~= all);
    out
}

/// Gives the value under a parked name its plain name back.
fn restore_one(configs: &mut modular_agent_core::ModuleConfigs, key: &String)
    requires
        parked(key@),
    ensures
        config_entries(*final(configs)) == restored_one(config_entries(*old(configs)), key@),
{
    proof {
        if lookup(config_entries(*configs), key@) is None {
            without_absent(config_entries(*configs), key@);
        }
    }
    if let Some(value) = configs.remove(key.as_str()) {
        let name = key.as_str().substring_char(1, key.as_str().unicode_len());
        assert(name@ =~= key@.skip(1));
        if name.unicode_len() > 0 && !configs.contains_key(name) {
            configs.set(name.to_string(), value);
        }
    }
}

/// Gives parked values their plain names back, so that a later declaration
/// still finds them. A value that already has the plain name wins.
pub fn restore_stale_configs(spec: &mut AgentSpec)
    ensures
        final(spec)@ == restored_shape(old(spec)@),
{
    let ghost before = spec@;
    if let Some(taken) = spec.configs.take() {
        let mut configs = taken;
        let ghost es = config_entries(configs);
        let keys = config_keys(&configs);
        let stale = stale_list(&keys);
        let ghost all = views(stale@);
        proof {
            stale_are_parked(views(keys@));
        }
        let mut i: usize = 0;
        assert(all.take(0) =~= Seq::empty());
        while i < stale.len()
            invariant
                i <= stale.len(),
                all == views(stale@),
                forall|k: int| 0 <= k < all.len() ==> parked(#[trigger] all[k]),
                config_entries(configs) == restored_all(es, all.take(i as int)),
            decreases stale.len() - i,
        {
            proof {
                assert(all.take(i + 1).drop_last() =~= all.take(i as int));
                assert(all.take(i + 1).last() == all[i as int]);
            }
            restore_one(&mut configs, &stale[i]);
            i = i + 1;
        }
        assert(all.take(i as int) =~= all);
        spec.configs = Some(configs);
    }
}

/// The stale names are the parked ones among the names, each as often.
proof fn stale_are_parked(keys: Seq<Seq<char>>)
    ensures
        forall|i: int| 0 <= i < stale_keys(keys).len() ==> parked(#[trigger] stale_keys(keys)[i]),
        forall|i: int|
            0 <= i < stale_keys(keys).len() ==> keys.contains(#[trigger] stale_keys(keys)[i]),
        forall|k: Seq<char>|
            parked(k) && keys.contains(k) ==> #[trigger] stale_keys(keys).contains(k),
        keys.no_duplicates() ==> stale_keys(keys).no_duplicates(),
    decreases keys.len(),
{
    if keys.len() > 0 {
        let init = keys.drop_last();
        let last = keys.last();
        stale_are_parked(init);
        let done = stale_keys(init);
        let all = stale_keys(keys);
        assert forall|i: int| 0 <= i < all.len() implies parked(#[trigger] all[i]) && keys.contains(
            all[i],
        ) by {
            if i < done.len() {
                assert(all[i] == done[i]);
                assert(init.contains(done[i]));
                let j = choose|j: int| 0 <= j < init.len() && init[j] == done[i];
                assert(keys[j] == all[i]);
            } else {
                assert(keys[keys.len() - 1] == all[i]);
            }
        }
        assert forall|k: Seq<char>| parked(k) && keys.contains(k) implies #[trigger] all.contains(
            k,
        ) by {
            let j = choose|j: int| 0 <= j < keys.len() && keys[j] == k;
            if j < init.len() {
                assert(init[j] == k);
                assert(done.contains(k));
                let i = choose|i: int| 0 <= i < done.len() && done[i] == k;
                assert(all[i] == k);
            } else {
                assert(all[all.len() - 1] == k);
            }
        }
        if keys.no_duplicates() {
            assert(init.no_duplicates());
            if parked(last) {
                assert forall|i: int, j: int| 0 <= i < j < all.len() implies all[i] != all[j] by {
                    assert(all[i] == done[i]);
                    if j < done.len() {
                        assert(all[j] == done[j]);
                    } else {
                        assert(init.contains(done[i]));
                        let m = choose|m: int| 0 <= m < init.len() && init[m] == done[i];
                        assert(keys[m] != keys[keys.len() - 1]);
                    }
                }
            }
        }
    }
}

/// How far the value of `name` has come when the parked names `done` have been
/// restored.
spec fn on_the_way(
    es: Seq<(Seq<char>, Data)>,
    now: Seq<(Seq<char>, Data)>,
    done: Seq<Seq<char>>,
    name: Seq<char>,
) -> bool {
    let p = parked_name(name);
    match (lookup(es, name), lookup(es, p)) {
        (Some(v), _) => lookup(now, name) == Some(v),
        (None, Some(v)) => if done.contains(p) {
            lookup(now, name) == Some(v)
        } else {
            lookup(now, name) is None && lookup(now, p) == Some(v)
        },
        (None, None) => lookup(now, name) is None,
    }
}

proof fn restoring_makes_way(es: Seq<(Seq<char>, Data)>, keys: Seq<Seq<char>>, name: Seq<char>)
    requires
        name.len() > 0,
        !parked(name),
        keys.no_duplicates(),
        forall|i: int| 0 <= i < keys.len() ==> parked(#[trigger] keys[i]),
        forall|i: int| 0 <= i < keys.len() ==> lookup(es, #[trigger] keys[i]) is Some,
    ensures
        on_the_way(es, restored_all(es, keys), keys, name),
    decreases keys.len(),
{
    if keys.len() > 0 {
        let p = parked_name(name);
        let done = keys.drop_last();
        let k = keys.last();
        let now = restored_all(es, done);
        assert(done.no_duplicates());
        assert forall|i: int| 0 <= i < done.len() implies parked(#[trigger] done[i]) && lookup(
            es,
            done[i],
        ) is Some by {
            assert(done[i] == keys[i]);
        }
        restoring_makes_way(es, done, name);
        assert(parked(keys[keys.len() - 1]));
        assert(lookup(es, keys[keys.len() - 1]) is Some);
        assert(k.skip(1) == name ==> k =~= p);
        assert(p.skip(1) =~= name);
        assert(!done.contains(k)) by {
            if done.contains(k) {
                let j = choose|j: int| 0 <= j < done.len() && done[j] == k;
                assert(keys[j] == keys[keys.len() - 1]);
            }
        }
        assert(keys.contains(p) <==> done.contains(p) || k == p) by {
            if keys.contains(p) {
                let j = choose|j: int| 0 <= j < keys.len() && keys[j] == p;
                if j < done.len() {
                    assert(done[j] == p);
                }
            }
            if done.contains(p) {
                let j = choose|j: int| 0 <= j < done.len() && done[j] == p;
                assert(keys[j] == p);
            }
            if k == p {
                assert(keys[keys.len() - 1] == p);
            }
        }
        let rest = without(now, k);
        without_then_lookup(now, k, name);
        without_then_lookup(now, k, p);
        if lookup(now, k) is Some && lookup(rest, k.skip(1)) is None {
            put_appends(rest, k.skip(1), lookup(now, k)->0);
        }
    }
}

proof fn keys_look_up(es: Seq<(Seq<char>, Data)>)
    ensures
        forall|i: int| 0 <= i < keys_of(es).len() ==> lookup(es, #[trigger] keys_of(es)[i]) is Some,
        forall|k: Seq<char>| lookup(es, k) is Some ==> #[trigger] keys_of(es).contains(k),
{
    assert forall|i: int| 0 <= i < keys_of(es).len() implies lookup(
        es,
        #[trigger] keys_of(es)[i],
    ) is Some by {
        lookup_finds(es, keys_of(es)[i]);
        assert(es[i].0 == keys_of(es)[i]);
    }
    assert forall|k: Seq<char>| lookup(es, k) is Some implies #[trigger] keys_of(es).contains(
        k,
    ) by {
        lookup_finds(es, k);
        let i = choose|i: int| 0 <= i < es.len() && (#[trigger] es[i]).0 == k;
        assert(keys_of(es)[i] == k);
    }
}

proof fn restored_come_from_stored(es: Seq<(Seq<char>, Data)>, keys: Seq<Seq<char>>, name: Seq<char>)
    requires
        forall|i: int| 0 <= i < keys.len() ==> parked(#[trigger] keys[i]),
        forall|i: int| 0 <= i < keys.len() ==> lookup(es, #[trigger] keys[i]) is Some,
        lookup(restored_all(es, keys), name) is Some,
    ensures
        lookup(es, name) is Some || (name.len() > 0 && lookup(es, parked_name(name)) is Some),
    decreases keys.len(),
{
    if keys.len() > 0 {
        let done = keys.drop_last();
        let k = keys.last();
        let now = restored_all(es, done);
        assert(parked(keys[keys.len() - 1]));
        assert(lookup(es, keys[keys.len() - 1]) is Some);
        assert forall|i: int| 0 <= i < done.len() implies parked(#[trigger] done[i]) && lookup(
            es,
            done[i],
        ) is Some by {
            assert(done[i] == keys[i]);
        }
        let rest = without(now, k);
        without_then_lookup(now, k, name);
        if lookup(now, k) is Some && lookup(rest, k.skip(1)) is None {
            put_appends(rest, k.skip(1), lookup(now, k)->0);
        }
        if lookup(now, name) is Some {
            restored_come_from_stored(es, done, name);
        } else {
            assert(k =~= parked_name(name));
        }
    }
}

/// Restoring makes up no names: each one was stored before, as it is or with
/// the underscore in front.
pub proof fn restoring_makes_up_no_names(es: Seq<(Seq<char>, Data)>, name: Seq<char>)
    requires
        lookup(restored(es), name) is Some,
    ensures
        lookup(es, name) is Some || (name.len() > 0 && lookup(es, parked_name(name)) is Some),
{
    let keys = keys_of(es);
    let stale = stale_keys(keys);
    stale_are_parked(keys);
    keys_look_up(es);
    assert forall|i: int| 0 <= i < stale.len() implies lookup(es, #[trigger] stale[i]) is Some by {
        assert(keys.contains(stale[i]));
    }
    restored_come_from_stored(es, stale, name);
}

/// After restoring, a plain name holds its own value if it had one, and the
/// parked one otherwise.
pub proof fn plain_name_wins(es: Seq<(Seq<char>, Data)>, name: Seq<char>)
    requires
        keys_of(es).no_duplicates(),
        name.len() > 0,
        !parked(name),
    ensures
        lookup(restored(es), name) == match lookup(es, name) {
            Some(v) => Some(v),
            None => lookup(es, parked_name(name)),
        },
{
    let keys = keys_of(es);
    let stale = stale_keys(keys);
    stale_are_parked(keys);
    keys_look_up(es);
    assert forall|i: int| 0 <= i < stale.len() implies lookup(es, #[trigger] stale[i]) is Some by {
        assert(keys.contains(stale[i]));
    }
    restoring_makes_way(es, stale, name);
    let p = parked_name(name);
    if lookup(es, p) is Some {
        assert(keys.contains(p));
        assert(parked(p));
        assert(stale.contains(p));
    }
}

/// The entries without the parked ones, which the host drops when it takes a
/// node in.
pub open spec fn unparked(es: Seq<(Seq<char>, Data)>) -> Seq<(Seq<char>, Data)>
    decreases es.len(),
{
    if es.len() == 0 {
        es
    } else if parked(es.last().0) {
        unparked(es.drop_last())
    } else {
        unparked(es.drop_last()).push(es.last())
    }
}

proof fn unparked_lookup(es: Seq<(Seq<char>, Data)>, k: Seq<char>)
    ensures
        lookup(unparked(es), k) == if parked(k) {
            None
        } else {
            lookup(es, k)
        },
    decreases es.len(),
{
    if es.len() > 0 {
        unparked_lookup(es.drop_last(), k);
        if !parked(es.last().0) {
            let u = unparked(es.drop_last());
            assert(u.push(es.last()).drop_last() =~= u);
        }
    }
}

/// Stored values outlive a script that is broken when its node is loaded:
/// what a later declaration finds after the parked values were restored, and
/// the host dropped what is still parked, is what it would have found before.
pub proof fn stored_values_outlive_a_broken_script(
    es: Seq<(Seq<char>, Data)>,
    name: Seq<char>,
    default: Data,
)
    requires
        keys_of(es).no_duplicates(),
        name.len() > 0,
        !parked(name),
    ensures
        kept_value(unparked(restored(es)), name, default) == kept_value(es, name, default),
{
    plain_name_wins(es, name);
    unparked_lookup(restored(es), name);
    unparked_lookup(restored(es), parked_name(name));
}

/// A saved value survives the reload of its patch, whether the host left it
/// under its name or parked it, and whether the script of the node is valid
/// at that time or only later.
pub proof fn saved_values_survive_a_reload(
    loaded: Seq<(Seq<char>, Data)>,
    name: Seq<char>,
    value: Data,
    default: Data,
)
    requires
        keys_of(loaded).no_duplicates(),
        name.len() > 0,
        !parked(name),
        lookup(loaded, name) == Some(value) || (lookup(loaded, name) is None && lookup(
            loaded,
            parked_name(name),
        ) == Some(value)),
    ensures
        kept_value(loaded, name, default) == value,
        kept_value(unparked(restored(loaded)), name, default) == value,
{
    stored_values_outlive_a_broken_script(loaded, name, default);
}

proof fn restored_names_leave(es: Seq<(Seq<char>, Data)>, keys: Seq<Seq<char>>, name: Seq<char>)
    requires
        parked(name),
        keys.no_duplicates(),
        forall|i: int| 0 <= i < keys.len() ==> parked(#[trigger] keys[i]),
        forall|i: int| 0 <= i < keys.len() ==> lookup(es, #[trigger] keys[i]) is Some,
        lookup(restored_all(es, keys), name) is Some,
    ensures
        lookup(es, seq!['_'] + name) is Some || (!keys.contains(name) && lookup(es, name) is Some),
    decreases keys.len(),
{
    if keys.len() > 0 {
        let done = keys.drop_last();
        let k = keys.last();
        let now = restored_all(es, done);
        assert(parked(keys[keys.len() - 1]));
        assert(lookup(es, keys[keys.len() - 1]) is Some);
        assert forall|i: int| 0 <= i < done.len() implies parked(#[trigger] done[i]) && lookup(
            es,
            done[i],
        ) is Some by {
            assert(done[i] == keys[i]);
        }
        let rest = without(now, k);
        without_then_lookup(now, k, name);
        if lookup(now, k) is Some && lookup(rest, k.skip(1)) is None {
            put_appends(rest, k.skip(1), lookup(now, k)->0);
        }
        if k.skip(1) == name {
            assert(k =~= seq!['_'] + name);
        } else {
            assert(k != name);
            restored_names_leave(es, done, name);
            if keys.contains(name) {
                let i = choose|i: int| 0 <= i < keys.len() && keys[i] == name;
                assert(done[i] == name);
            }
        }
    }
}

/// Restoring leaves no name with an underscore in front, but for one that had
/// two of them before.
pub proof fn restoring_takes_underscores_off(es: Seq<(Seq<char>, Data)>, name: Seq<char>)
    requires
        keys_of(es).no_duplicates(),
        name.len() > 0,
        name[0] == '_',
        lookup(restored(es), name) is Some,
    ensures
        lookup(es, seq!['_'] + name) is Some,
{
    let keys = keys_of(es);
    let stale = stale_keys(keys);
    stale_are_parked(keys);
    keys_look_up(es);
    assert forall|i: int| 0 <= i < stale.len() implies lookup(es, #[trigger] stale[i]) is Some by {
        assert(keys.contains(stale[i]));
    }
    restored_names_leave(es, stale, name);
    if lookup(es, name) is Some {
        assert(keys.contains(name));
        assert(stale.contains(name));
    }
}

/// Restoring a shape changes its configuration values alone: a plain name
/// keeps its value, or gets the one that was parked under it.
pub proof fn shapes_get_their_values_back(s: SpecData, name: Seq<char>)
    requires
        s.configs matches Some(es) ==> keys_of(es).no_duplicates(),
        name.len() > 0,
        name[0] != '_',
    ensures
        restored_shape(s).inputs == s.inputs,
        restored_shape(s).outputs == s.outputs,
        restored_shape(s).config_specs == s.config_specs,
        s.configs is None ==> restored_shape(s).configs is None,
        s.configs matches Some(es) ==> (restored_shape(s).configs matches Some(now) && {
            &&& lookup(es, name) is Some ==> lookup(now, name) == lookup(es, name)
            &&& lookup(es, name) is None ==> lookup(now, name) == lookup(es, seq!['_'] + name)
        }),
{
    if let Some(es) = s.configs {
        plain_name_wins(es, name);
    }
}

/// Restoring gives the values that are parked their plain names back, unless
/// those hold a value already, and changes nothing else about a shape.
pub proof fn parked_values_are_restored(spec: &mut AgentSpec, name: Seq<char>)
    requires
        call_ensures(restore_stale_configs, (spec,), ()),
        old(spec)@.configs matches Some(es) ==> keys_of(es).no_duplicates(),
        name.len() > 0,
        name[0] != '_',
    ensures
        final(spec)@.inputs == old(spec)@.inputs,
        final(spec)@.outputs == old(spec)@.outputs,
        final(spec)@.config_specs == old(spec)@.config_specs,
        old(spec)@.configs matches Some(es) ==> (final(spec)@.configs matches Some(now) && {
            &&& lookup(es, name) is Some ==> lookup(now, name) == lookup(es, name)
            &&& lookup(es, name) is None ==> lookup(now, name) == lookup(es, seq!['_'] + name)
        }),
{
    shapes_get_their_values_back(old(spec)@, name);
}

} // verus!

//! Association lists: the entries of an object, in order.
//!
//! A list stands for the map that its entries build one after the other: a
//! later entry replaces an earlier one with the same key.

use vstd::prelude::*;

use crate::text::{before, before_irreflexive, before_total, before_transitive, is_before, same};

verus! {

/// The entry `(k, v)` put in its place among entries ordered by key; an entry
/// with the same key is replaced.
pub open spec fn insert_entry<T>(es: Seq<(Seq<char>, T)>, k: Seq<char>, v: T) -> Seq<(Seq<char>, T)>
    decreases es.len(),
{
    if es.len() == 0 || before(k, es[0].0) {
        seq![(k, v)] + es
    } else if k == es[0].0 {
        seq![(k, v)] + es.drop_first()
    } else {
        seq![es[0]] + insert_entry(es.drop_first(), k, v)
    }
}

/// The entries ordered by key, each key once.
pub open spec fn sort_entries<T>(es: Seq<(Seq<char>, T)>) -> Seq<(Seq<char>, T)>
    decreases es.len(),
{
    if es.len() == 0 {
        es
    } else {
        insert_entry(sort_entries(es.drop_last()), es.last().0, es.last().1)
    }
}

/// The map that the entries stand for.
pub open spec fn entry_map<T>(es: Seq<(Seq<char>, T)>) -> Map<Seq<char>, T>
    decreases es.len(),
{
    if es.len() == 0 {
        Map::empty()
    } else {
        entry_map(es.drop_last()).insert(es.last().0, es.last().1)
    }
}

/// The value under `k`, if there is one.
pub open spec fn lookup<T>(es: Seq<(Seq<char>, T)>, k: Seq<char>) -> Option<T>
    decreases es.len(),
{
    if es.len() == 0 {
        None
    } else if es.last().0 == k {
        Some(es.last().1)
    } else {
        lookup(es.drop_last(), k)
    }
}

/// Whether the keys strictly increase.
pub open spec fn ordered<T>(es: Seq<(Seq<char>, T)>) -> bool {
    forall|i: int, j: int| 0 <= i < j < es.len() ==> before(#[trigger] es[i].0, #[trigger] es[j].0)
}

/// Whether no key stands twice.
pub open spec fn distinct<T>(es: Seq<(Seq<char>, T)>) -> bool {
    forall|i: int, j: int| 0 <= i < j < es.len() ==> (#[trigger] es[i]).0 != (#[trigger] es[j]).0
}

/// The entries after `v` was stored under `k`: in the place of the entry with
/// that key, or at the end.
pub open spec fn put<T>(es: Seq<(Seq<char>, T)>, k: Seq<char>, v: T) -> Seq<(Seq<char>, T)>
    decreases es.len(),
{
    if es.len() == 0 {
        seq![(k, v)]
    } else if es[0].0 == k {
        seq![(k, v)] + es.drop_first()
    } else {
        seq![es[0]] + put(es.drop_first(), k, v)
    }
}

/// The entries stored one after the other, each key once.
pub open spec fn collect<T>(es: Seq<(Seq<char>, T)>) -> Seq<(Seq<char>, T)>
    decreases es.len(),
{
    if es.len() == 0 {
        es
    } else {
        put(collect(es.drop_last()), es.last().0, es.last().1)
    }
}

/// The entries without the one under `k`; the others keep their order.
pub open spec fn without<T>(es: Seq<(Seq<char>, T)>, k: Seq<char>) -> Seq<(Seq<char>, T)>
    decreases es.len(),
{
    if es.len() == 0 {
        es
    } else if es.last().0 == k {
        without(es.drop_last(), k)
    } else {
        without(es.drop_last(), k).push(es.last())
    }
}

/// The entries with `f` applied to each value.
pub open spec fn map_entries<T, U>(es: Seq<(Seq<char>, T)>, f: spec_fn(T) -> U) -> Seq<
    (Seq<char>, U),
> {
    es.map_values(|e: (Seq<char>, T)| (e.0, f(e.1)))
}

/// The keys of a list of entries, in order.
pub open spec fn keys_of<T>(es: Seq<(Seq<char>, T)>) -> Seq<Seq<char>> {
    es.map_values(|e: (Seq<char>, T)| e.0)
}

/// The views of a list of entries.
pub open spec fn entry_views<T: View>(es: Seq<(String, T)>) -> Seq<(Seq<char>, T::V)> {
    es.map_values(|e: (String, T)| (e.0@, e.1@))
}

/// Puts an entry in its place in a list ordered by key.
pub fn insert_sorted<T: View>(out: &mut Vec<(String, T)>, k: String, v: T)
    ensures
        entry_views(final(out)@) == insert_entry(entry_views(old(out)@), k@, v@),
{
    let ghost all = entry_views(out@);
    let mut i: usize = 0;
    assert(all.skip(0) =~= all);
    assert(all.take(0) + insert_entry(all.skip(0), k@, v@) =~= insert_entry(all, k@, v@));
    while i < out.len() && !is_before(k.as_str(), out[i].0.as_str()) && !same(
        k.as_str(),
        out[i].0.as_str(),
    )
        invariant
            i <= out.len(),
            all == entry_views(out@),
            insert_entry(all, k@, v@) == all.take(i as int) + insert_entry(
                all.skip(i as int),
                k@,
                v@,
            ),
        decreases out.len() - i,
    {
        proof {
            let rest = all.skip(i as int);
            assert(rest[0] == all[i as int]);
            assert(rest.drop_first() =~= all.skip(i + 1));
            assert(all.take(i as int) + (seq![rest[0]] + insert_entry(rest.drop_first(), k@, v@))
                =~= all.take(i + 1) + insert_entry(all.skip(i + 1), k@, v@));
        }
        i = i + 1;
    }
    let ghost key = k@;
    let ghost val = v@;
    if i < out.len() && same(k.as_str(), out[i].0.as_str()) {
        proof {
            before_irreflexive(k@);
            let rest = all.skip(i as int);
            assert(rest[0] == all[i as int]);
            assert(all.take(i as int) + (seq![(key, val)] + rest.drop_first()) =~= all.update(
                i as int,
                (key, val),
            ));
        }
        let _ = out.remove(i);
        out.insert(i, (k, v));
        assert(entry_views(out@) =~= all.update(i as int, (key, val)));
    } else {
        proof {
            let rest = all.skip(i as int);
            if i < out.len() {
                assert(rest[0] == all[i as int]);
            }
            assert(all.take(i as int) + (seq![(key, val)] + rest) =~= all.insert(
                i as int,
                (key, val),
            ));
        }
        out.insert(i, (k, v));
        assert(entry_views(out@) =~= all.insert(i as int, (key, val)));
    }
}

/// The index of the entry that holds the value under `k`.
pub fn find<T: View>(es: &Vec<(String, T)>, k: &str) -> (r: Option<usize>)
    ensures
        match r {
            Some(i) => i < es.len() && es@[i as int].0@ == k@ && lookup(entry_views(es@), k@)
                == Some(es@[i as int].1@),
            None => lookup(entry_views(es@), k@) is None,
        },
{
    let ghost all = entry_views(es@);
    let mut n: usize = es.len();
    assert(all.take(n as int) =~= all);
    while n > 0
        invariant
            n <= es.len(),
            all == entry_views(es@),
            lookup(all, k@) == lookup(all.take(n as int), k@),
        decreases n,
    {
        assert(all.take(n as int).last() == all[n - 1]);
        assert(all.take(n as int).drop_last() =~= all.take(n - 1));
        if same(es[n - 1].0.as_str(), k) {
            return Some(n - 1);
        }
        n = n - 1;
    }
    None
}

/// Looking a key up in the list is looking it up in the map.
pub proof fn lookup_is_map<T>(es: Seq<(Seq<char>, T)>, k: Seq<char>)
    ensures
        lookup(es, k) is Some <==> entry_map(es).contains_key(k),
        lookup(es, k) matches Some(v) ==> entry_map(es)[k] == v,
    decreases es.len(),
{
    if es.len() > 0 {
        lookup_is_map(es.drop_last(), k);
    }
}

proof fn insert_ordered<T>(es: Seq<(Seq<char>, T)>, k: Seq<char>, v: T)
    requires
        ordered(es),
    ensures
        ordered(insert_entry(es, k, v)),
        insert_entry(es, k, v).len() > 0,
        insert_entry(es, k, v)[0].0 == k || (es.len() > 0 && insert_entry(es, k, v)[0] == es[0]),
    decreases es.len(),
{
    let r = insert_entry(es, k, v);
    if es.len() == 0 {
    } else if before(k, es[0].0) {
        assert forall|i: int, j: int| 0 <= i < j < r.len() implies before(
            #[trigger] r[i].0,
            #[trigger] r[j].0,
        ) by {
            assert(r[j] == es[j - 1]);
            if i == 0 {
                if j > 1 {
                    assert(before(es[0].0, es[j - 1].0));
                    before_transitive(k, es[0].0, es[j - 1].0);
                }
            } else {
                assert(r[i] == es[i - 1]);
            }
        }
    } else if k == es[0].0 {
        assert forall|i: int, j: int| 0 <= i < j < r.len() implies before(
            #[trigger] r[i].0,
            #[trigger] r[j].0,
        ) by {
            assert(r[j] == es[j]);
            if i > 0 {
                assert(r[i] == es[i]);
            } else {
                assert(before(es[0].0, es[j].0));
            }
        }
    } else {
        let rest = es.drop_first();
        assert forall|i: int, j: int| 0 <= i < j < rest.len() implies before(
            #[trigger] rest[i].0,
            #[trigger] rest[j].0,
        ) by {
            assert(before(es[i + 1].0, es[j + 1].0));
        }
        insert_ordered(rest, k, v);
        before_total(k, es[0].0);
        let tail = insert_entry(rest, k, v);
        assert forall|i: int, j: int| 0 <= i < j < r.len() implies before(
            #[trigger] r[i].0,
            #[trigger] r[j].0,
        ) by {
            assert(r[j] == tail[j - 1]);
            if i > 0 {
                assert(r[i] == tail[i - 1]);
            } else {
                if tail[0].0 != k {
                    assert(rest[0] == es[1]);
                    assert(before(es[0].0, es[1].0));
                }
                assert(before(es[0].0, tail[0].0));
                if j > 1 {
                    before_transitive(es[0].0, tail[0].0, tail[j - 1].0);
                }
            }
        }
    }
}

/// Sorting yields strictly increasing keys.
pub proof fn sort_is_ordered<T>(es: Seq<(Seq<char>, T)>)
    ensures
        ordered(sort_entries(es)),
    decreases es.len(),
{
    if es.len() > 0 {
        sort_is_ordered(es.drop_last());
        insert_ordered(sort_entries(es.drop_last()), es.last().0, es.last().1);
    }
}

/// The keys of the map are the keys of the list.
proof fn keys_of_map<T>(es: Seq<(Seq<char>, T)>, k: Seq<char>)
    ensures
        entry_map(es).contains_key(k) <==> exists|i: int| 0 <= i < es.len() && #[trigger] es[i].0 == k,
    decreases es.len(),
{
    if es.len() > 0 {
        let init = es.drop_last();
        keys_of_map(init, k);
        if entry_map(es).contains_key(k) {
            if k == es.last().0 {
                assert(es[es.len() - 1].0 == k);
            } else {
                let i = choose|i: int| 0 <= i < init.len() && #[trigger] init[i].0 == k;
                assert(es[i].0 == k);
            }
        }
        if exists|i: int| 0 <= i < es.len() && #[trigger] es[i].0 == k {
            let i = choose|i: int| 0 <= i < es.len() && #[trigger] es[i].0 == k;
            if i < init.len() {
                assert(init[i].0 == k);
            }
        }
    }
}

/// An entry in front gives way to the entries behind it.
proof fn map_of_cons<T>(e: (Seq<char>, T), es: Seq<(Seq<char>, T)>)
    ensures
        entry_map(seq![e] + es) == Map::empty().insert(e.0, e.1).union_prefer_right(entry_map(es)),
    decreases es.len(),
{
    let all = seq![e] + es;
    if es.len() == 0 {
        assert(all.drop_last() =~= Seq::<(Seq<char>, T)>::empty());
        assert(entry_map(all.drop_last()) == Map::<Seq<char>, T>::empty());
        assert(entry_map(all) =~= Map::empty().insert(e.0, e.1).union_prefer_right(entry_map(es)));
    } else {
        map_of_cons(e, es.drop_last());
        assert(all.drop_last() =~= seq![e] + es.drop_last());
        assert(all.last() == es.last());
        assert(entry_map(all) =~= Map::empty().insert(e.0, e.1).union_prefer_right(entry_map(es)));
    }
}

proof fn insert_into_map<T>(es: Seq<(Seq<char>, T)>, k: Seq<char>, v: T)
    requires
        ordered(es),
    ensures
        entry_map(insert_entry(es, k, v)) == entry_map(es).insert(k, v),
    decreases es.len(),
{
    if es.len() == 0 || before(k, es[0].0) {
        map_of_cons((k, v), es);
        keys_of_map(es, k);
        if entry_map(es).contains_key(k) {
            let i = choose|i: int| 0 <= i < es.len() && #[trigger] es[i].0 == k;
            before_irreflexive(k);
            if i > 0 {
                assert(before(es[0].0, es[i].0));
                before_transitive(k, es[0].0, k);
            }
        }
        assert(entry_map(insert_entry(es, k, v)) =~= entry_map(es).insert(k, v));
    } else {
        let rest = es.drop_first();
        assert(es =~= seq![es[0]] + rest);
        map_of_cons(es[0], rest);
        assert forall|i: int, j: int| 0 <= i < j < rest.len() implies before(
            #[trigger] rest[i].0,
            #[trigger] rest[j].0,
        ) by {
            assert(before(es[i + 1].0, es[j + 1].0));
        }
        keys_of_map(rest, es[0].0);
        if entry_map(rest).contains_key(es[0].0) {
            let i = choose|i: int| 0 <= i < rest.len() && #[trigger] rest[i].0 == es[0].0;
            assert(before(es[0].0, es[i + 1].0));
            before_irreflexive(es[0].0);
        }
        if k == es[0].0 {
            map_of_cons((k, v), rest);
        } else {
            insert_into_map(rest, k, v);
            map_of_cons(es[0], insert_entry(rest, k, v));
        }
        assert(entry_map(insert_entry(es, k, v)) =~= entry_map(es).insert(k, v));
    }
}

/// Sorting keeps the map that the entries stand for.
pub proof fn sort_keeps_map<T>(es: Seq<(Seq<char>, T)>)
    ensures
        entry_map(sort_entries(es)) == entry_map(es),
    decreases es.len(),
{
    if es.len() > 0 {
        sort_keeps_map(es.drop_last());
        sort_is_ordered(es.drop_last());
        insert_into_map(sort_entries(es.drop_last()), es.last().0, es.last().1);
    }
}

proof fn ordered_lists_agree<T>(a: Seq<(Seq<char>, T)>, b: Seq<(Seq<char>, T)>)
    requires
        ordered(a),
        ordered(b),
        entry_map(a) == entry_map(b),
    ensures
        a == b,
    decreases a.len(),
{
    if a.len() == 0 || b.len() == 0 {
        if a.len() > 0 {
            assert(entry_map(a).contains_key(a.last().0));
        }
        if b.len() > 0 {
            assert(entry_map(b).contains_key(b.last().0));
        }
        assert(a =~= b);
    } else {
        last_is_greatest(a, b);
        last_is_greatest(b, a);
        let k = a.last().0;
        before_irreflexive(k);
        if before(k, b.last().0) {
            before_transitive(k, b.last().0, k);
        }
        before_total(k, b.last().0);
        assert(b.last().0 == k);
        assert(entry_map(a)[k] == a.last().1);
        assert(entry_map(b)[k] == b.last().1);
        without_last(a);
        without_last(b);
        ordered_lists_agree(a.drop_last(), b.drop_last());
        assert(a =~= a.drop_last().push(a.last()));
        assert(b =~= b.drop_last().push(b.last()));
    }
}

/// No key of `b` comes after the last key of `a`, if both stand for one map.
proof fn last_is_greatest<T>(a: Seq<(Seq<char>, T)>, b: Seq<(Seq<char>, T)>)
    requires
        ordered(a),
        a.len() > 0,
        b.len() > 0,
        entry_map(a) == entry_map(b),
    ensures
        b.last().0 == a.last().0 || before(b.last().0, a.last().0),
{
    let k = b.last().0;
    keys_of_map(a, k);
    assert(entry_map(b).contains_key(k));
    let i = choose|i: int| 0 <= i < a.len() && #[trigger] a[i].0 == k;
    if i < a.len() - 1 {
        assert(before(a[i].0, a[a.len() - 1].0));
    }
}

proof fn without_last<T>(a: Seq<(Seq<char>, T)>)
    requires
        ordered(a),
        a.len() > 0,
    ensures
        ordered(a.drop_last()),
        entry_map(a.drop_last()) == entry_map(a).remove(a.last().0),
{
    let init = a.drop_last();
    assert forall|i: int, j: int| 0 <= i < j < init.len() implies before(
        #[trigger] init[i].0,
        #[trigger] init[j].0,
    ) by {
        assert(before(a[i].0, a[j].0));
    }
    keys_of_map(init, a.last().0);
    if entry_map(init).contains_key(a.last().0) {
        let i = choose|i: int| 0 <= i < init.len() && #[trigger] init[i].0 == a.last().0;
        assert(before(a[i].0, a[a.len() - 1].0));
        before_irreflexive(a.last().0);
    }
    assert(entry_map(init) =~= entry_map(a).remove(a.last().0));
}

/// Sorting depends on the map alone: two lists that stand for the same map
/// are sorted to the same list, whatever order their entries had.
pub proof fn sort_depends_on_map<T>(a: Seq<(Seq<char>, T)>, b: Seq<(Seq<char>, T)>)
    requires
        entry_map(a) == entry_map(b),
    ensures
        sort_entries(a) == sort_entries(b),
{
    sort_is_ordered(a);
    sort_is_ordered(b);
    sort_keeps_map(a);
    sort_keeps_map(b);
    ordered_lists_agree(sort_entries(a), sort_entries(b));
}

/// Where an entry goes when it is stored.
pub proof fn put_places<T>(es: Seq<(Seq<char>, T)>, k: Seq<char>, v: T)
    ensures
        forall|i: int| 0 <= i < es.len() ==> (#[trigger] es[i]).0 != k ==> put(es, k, v)[i] == es[i],
        (forall|i: int| 0 <= i < es.len() ==> (#[trigger] es[i]).0 != k) ==> put(es, k, v) == es.push(
            (k, v),
        ),
        es.len() <= put(es, k, v).len() <= es.len() + 1,
        exists|i: int|
            0 <= i < put(es, k, v).len() && #[trigger] put(es, k, v)[i] == (k, v) && (i < es.len() ==> es[i].0 == k
                && put(es, k, v) == es.update(i, (k, v))) && (i == es.len() ==> put(es, k, v) == es.push((k, v))),
    decreases es.len(),
{
    let r = put(es, k, v);
    if es.len() == 0 {
        assert(r =~= es.push((k, v)));
        assert(r[0] == (k, v));
    } else if es[0].0 == k {
        assert(r =~= es.update(0, (k, v)));
        assert(r[0] == (k, v));
    } else {
        let rest = es.drop_first();
        put_places(rest, k, v);
        let t = put(rest, k, v);
        let j = choose|i: int|
            0 <= i < t.len() && #[trigger] t[i] == (k, v) && (i < rest.len() ==> rest[i].0 == k && t
                == rest.update(i, (k, v))) && (i == rest.len() ==> t == rest.push((k, v)));
        assert(r[j + 1] == (k, v));
        if j < rest.len() {
            assert(es[j + 1].0 == k);
            assert(r =~= es.update(j + 1, (k, v)));
        } else {
            assert(r =~= es.push((k, v)));
        }
        assert forall|i: int| 0 <= i < es.len() && (#[trigger] es[i]).0 != k implies r[i] == es[i] by {
            if i > 0 {
                assert(rest[i - 1] == es[i]);
            }
        }
        if forall|i: int| 0 <= i < es.len() ==> (#[trigger] es[i]).0 != k {
            assert forall|i: int| 0 <= i < rest.len() implies (#[trigger] rest[i]).0 != k by {
                assert(es[i + 1].0 != k);
            }
            assert(r =~= es.push((k, v)));
        }
    }
}

/// Storing keeps the keys distinct.
pub proof fn put_is_distinct<T>(es: Seq<(Seq<char>, T)>, k: Seq<char>, v: T)
    requires
        distinct(es),
    ensures
        distinct(put(es, k, v)),
{
    put_places(es, k, v);
    let r = put(es, k, v);
    let at = choose|i: int|
        0 <= i < r.len() && #[trigger] r[i] == (k, v) && (i < es.len() ==> es[i].0 == k && r == es.update(
            i,
            (k, v),
        )) && (i == es.len() ==> r == es.push((k, v)));
    assert forall|i: int, j: int| 0 <= i < j < r.len() implies (#[trigger] r[i]).0 != (
    #[trigger] r[j]).0 by {
        if at < es.len() {
            assert(r[i].0 == es[i].0 && r[j].0 == es[j].0);
        } else if j < es.len() {
            assert(r[i] == es[i] && r[j] == es[j]);
        } else {
            assert(r[i] == es[i]);
            if es[i].0 == k {
                assert(r.len() == es.len() + 1);
                put_replaces(es, k, v, i);
            }
        }
    }
}

/// Storing under a key that is there adds no entry.
proof fn put_replaces<T>(es: Seq<(Seq<char>, T)>, k: Seq<char>, v: T, at: int)
    requires
        0 <= at < es.len(),
        es[at].0 == k,
    ensures
        put(es, k, v).len() == es.len(),
    decreases es.len(),
{
    if es[0].0 != k {
        assert(es.drop_first()[at - 1] == es[at]);
        put_replaces(es.drop_first(), k, v, at - 1);
    }
}

/// Collected entries have distinct keys.
pub proof fn collect_is_distinct<T>(es: Seq<(Seq<char>, T)>)
    ensures
        distinct(collect(es)),
    decreases es.len(),
{
    if es.len() > 0 {
        collect_is_distinct(es.drop_last());
        put_is_distinct(collect(es.drop_last()), es.last().0, es.last().1);
    }
}

/// Entries with distinct keys are collected as they are.
pub proof fn collect_keeps_distinct<T>(es: Seq<(Seq<char>, T)>)
    requires
        distinct(es),
    ensures
        collect(es) == es,
    decreases es.len(),
{
    if es.len() > 0 {
        let init = es.drop_last();
        assert forall|i: int, j: int| 0 <= i < j < init.len() implies (#[trigger] init[i]).0 != (
        #[trigger] init[j]).0 by {
            assert(es[i].0 != es[j].0);
        }
        collect_keeps_distinct(init);
        assert forall|i: int| 0 <= i < init.len() implies (#[trigger] init[i]).0 != es.last().0 by {
            assert(es[i].0 != es[es.len() - 1].0);
        }
        put_places(init, es.last().0, es.last().1);
        assert(init.push(es.last()) =~= es);
    }
}

/// Entries ordered by key have distinct keys.
pub proof fn ordered_is_distinct<T>(es: Seq<(Seq<char>, T)>)
    requires
        ordered(es),
    ensures
        distinct(es),
{
    assert forall|i: int, j: int| 0 <= i < j < es.len() implies (#[trigger] es[i]).0 != (
    #[trigger] es[j]).0 by {
        before_irreflexive(es[i].0);
        assert(before(es[i].0, es[j].0));
    }
}

/// After storing, the key holds the new value and every other key what it
/// held before.
pub proof fn put_then_lookup<T>(es: Seq<(Seq<char>, T)>, k: Seq<char>, v: T, q: Seq<char>)
    requires
        distinct(es),
    ensures
        lookup(put(es, k, v), q) == if q == k {
            Some(v)
        } else {
            lookup(es, q)
        },
{
    put_is_distinct(es, k, v);
    put_places(es, k, v);
    let r = put(es, k, v);
    let at = choose|i: int|
        0 <= i < r.len() && #[trigger] r[i] == (k, v) && (i < es.len() ==> es[i].0 == k && r == es.update(
            i,
            (k, v),
        )) && (i == es.len() ==> r == es.push((k, v)));
    if q == k {
        lookup_at(r, at);
    } else if at == es.len() {
        assert(r.drop_last() =~= es);
    } else {
        lookup_finds(es, q);
        lookup_finds(r, q);
        if lookup(es, q) is Some {
            let i = choose|i: int| 0 <= i < es.len() && (#[trigger] es[i]).0 == q;
            lookup_at(es, i);
            assert(r[i] == es[i]);
            lookup_at(r, i);
        } else if lookup(r, q) is Some {
            let i = choose|i: int| 0 <= i < r.len() && (#[trigger] r[i]).0 == q;
            assert(es[i].0 == q);
        }
    }
}

/// With distinct keys, each entry is what its key looks up.
pub proof fn lookup_at<T>(es: Seq<(Seq<char>, T)>, i: int)
    requires
        distinct(es),
        0 <= i < es.len(),
    ensures
        lookup(es, es[i].0) == Some(es[i].1),
    decreases es.len(),
{
    if i < es.len() - 1 {
        assert(es[i].0 != es[es.len() - 1].0);
        let init = es.drop_last();
        assert forall|a: int, b: int| 0 <= a < b < init.len() implies (#[trigger] init[a]).0 != (
        #[trigger] init[b]).0 by {
            assert(es[a].0 != es[b].0);
        }
        lookup_at(init, i);
    }
}

/// A key looks something up exactly if it stands in the list.
pub proof fn lookup_finds<T>(es: Seq<(Seq<char>, T)>, k: Seq<char>)
    ensures
        lookup(es, k) is Some <==> exists|i: int| 0 <= i < es.len() && (#[trigger] es[i]).0 == k,
    decreases es.len(),
{
    if es.len() > 0 {
        let init = es.drop_last();
        lookup_finds(init, k);
        if lookup(es, k) is Some {
            if es.last().0 == k {
                assert(es[es.len() - 1].0 == k);
            } else {
                let i = choose|i: int| 0 <= i < init.len() && (#[trigger] init[i]).0 == k;
                assert(es[i].0 == k);
            }
        }
        if exists|i: int| 0 <= i < es.len() && (#[trigger] es[i]).0 == k {
            let i = choose|i: int| 0 <= i < es.len() && (#[trigger] es[i]).0 == k;
            if i < init.len() {
                assert(init[i].0 == k);
            }
        }
    }
}

/// After removal, the key holds nothing and every other key what it held
/// before.
pub proof fn without_then_lookup<T>(es: Seq<(Seq<char>, T)>, k: Seq<char>, q: Seq<char>)
    ensures
        lookup(without(es, k), q) == if q == k {
            None
        } else {
            lookup(es, q)
        },
    decreases es.len(),
{
    if es.len() > 0 {
        without_then_lookup(es.drop_last(), k, q);
        if es.last().0 != k {
            let w = without(es.drop_last(), k);
            assert(w.push(es.last()).drop_last() =~= w);
        }
    }
}

/// A key that is not there leaves nothing to remove.
pub proof fn without_absent<T>(es: Seq<(Seq<char>, T)>, k: Seq<char>)
    requires
        lookup(es, k) is None,
    ensures
        without(es, k) == es,
    decreases es.len(),
{
    if es.len() > 0 {
        without_absent(es.drop_last(), k);
        assert(es.drop_last().push(es.last()) =~= es);
    }
}

/// A new key comes last, and holds its value; the others hold what they held.
pub proof fn put_appends<T>(es: Seq<(Seq<char>, T)>, k: Seq<char>, v: T)
    requires
        lookup(es, k) is None,
    ensures
        put(es, k, v) == es.push((k, v)),
        forall|q: Seq<char>|
            #![trigger lookup(put(es, k, v), q)]
            lookup(put(es, k, v), q) == if q == k {
                Some(v)
            } else {
                lookup(es, q)
            },
    decreases es.len(),
{
    lookup_finds(es, k);
    if es.len() > 0 {
        let rest = es.drop_first();
        assert(es[0].0 != k);
        lookup_finds(rest, k);
        if lookup(rest, k) is Some {
            let i = choose|i: int| 0 <= i < rest.len() && (#[trigger] rest[i]).0 == k;
            assert(es[i + 1].0 == k);
        }
        put_appends(rest, k, v);
        assert(seq![es[0]] + rest.push((k, v)) =~= es.push((k, v)));
    } else {
        assert(seq![(k, v)] =~= es.push((k, v)));
    }
    assert(es.push((k, v)).drop_last() =~= es);
}

proof fn insert_of_map<T, U>(es: Seq<(Seq<char>, T)>, k: Seq<char>, v: T, f: spec_fn(T) -> U)
    ensures
        insert_entry(map_entries(es, f), k, f(v)) == map_entries(insert_entry(es, k, v), f),
    decreases es.len(),
{
    let m = map_entries(es, f);
    if es.len() > 0 {
        assert(m[0].0 == es[0].0);
        assert(m.drop_first() =~= map_entries(es.drop_first(), f));
        insert_of_map(es.drop_first(), k, v, f);
    }
    assert(insert_entry(m, k, f(v)) =~= map_entries(insert_entry(es, k, v), f));
}

/// Sorting looks at keys alone: it commutes with a change of the values.
pub proof fn sort_of_map<T, U>(es: Seq<(Seq<char>, T)>, f: spec_fn(T) -> U)
    ensures
        sort_entries(map_entries(es, f)) == map_entries(sort_entries(es), f),
    decreases es.len(),
{
    let m = map_entries(es, f);
    if es.len() > 0 {
        assert(m.drop_last() =~= map_entries(es.drop_last(), f));
        assert(m.last() == (es.last().0, f(es.last().1)));
        sort_of_map(es.drop_last(), f);
        insert_of_map(sort_entries(es.drop_last()), es.last().0, es.last().1, f);
    } else {
        assert(m =~= map_entries(sort_entries(es), f));
    }
}

/// Looking a key up in changed entries gives the changed value.
pub proof fn lookup_of_map<T, U>(es: Seq<(Seq<char>, T)>, f: spec_fn(T) -> U, k: Seq<char>)
    ensures
        lookup(map_entries(es, f), k) == match lookup(es, k) {
            Some(v) => Some(f(v)),
            None => None,
        },
    decreases es.len(),
{
    if es.len() > 0 {
        let m = map_entries(es, f);
        assert(m.drop_last() =~= map_entries(es.drop_last(), f));
        assert(m.last() == (es.last().0, f(es.last().1)));
        lookup_of_map(es.drop_last(), f, k);
    }
}

/// The map of changed entries is the changed map.
pub proof fn map_of_map<T, U>(es: Seq<(Seq<char>, T)>, f: spec_fn(T) -> U)
    ensures
        entry_map(map_entries(es, f)) == entry_map(es).map_values(f),
    decreases es.len(),
{
    let m = map_entries(es, f);
    if es.len() > 0 {
        assert(m.drop_last() =~= map_entries(es.drop_last(), f));
        map_of_map(es.drop_last(), f);
    }
    assert(entry_map(m) =~= entry_map(es).map_values(f));
}

/// Every entry that was inserted or was there before is one of the two.
proof fn insert_members<T>(es: Seq<(Seq<char>, T)>, k: Seq<char>, v: T)
    ensures
        forall|i: int|
            0 <= i < insert_entry(es, k, v).len() ==> #[trigger] insert_entry(es, k, v)[i] == (k, v)
                || es.contains(insert_entry(es, k, v)[i]),
    decreases es.len(),
{
    let r = insert_entry(es, k, v);
    if es.len() > 0 {
        insert_members(es.drop_first(), k, v);
    }
    assert forall|i: int| 0 <= i < r.len() implies #[trigger] r[i] == (k, v) || es.contains(r[i]) by {
        if es.len() == 0 || before(k, es[0].0) {
            if i > 0 {
                assert(r[i] == es[i - 1]);
            }
        } else if k == es[0].0 {
            if i > 0 {
                assert(r[i] == es[i]);
            }
        } else {
            let t = insert_entry(es.drop_first(), k, v);
            if i == 0 {
                assert(r[0] == es[0]);
            } else {
                assert(r[i] == t[i - 1]);
                if t[i - 1] != (k, v) {
                    let j = choose|j: int|
                        0 <= j < es.drop_first().len() && es.drop_first()[j] == t[i - 1];
                    assert(es[j + 1] == r[i]);
                }
            }
        }
    }
}

/// Sorting makes up no entries.
pub proof fn sort_members<T>(es: Seq<(Seq<char>, T)>)
    ensures
        forall|i: int|
            0 <= i < sort_entries(es).len() ==> es.contains(#[trigger] sort_entries(es)[i]),
    decreases es.len(),
{
    if es.len() > 0 {
        let init = es.drop_last();
        sort_members(init);
        insert_members(sort_entries(init), es.last().0, es.last().1);
        assert forall|i: int| 0 <= i < sort_entries(es).len() implies es.contains(
            #[trigger] sort_entries(es)[i],
        ) by {
            let e = sort_entries(es)[i];
            if e == (es.last().0, es.last().1) {
                assert(es[es.len() - 1] == e);
            } else {
                assert(sort_entries(init).contains(e));
                let j = choose|j: int|
                    0 <= j < sort_entries(init).len() && sort_entries(init)[j] == e;
                assert(init.contains(sort_entries(init)[j]));
                let m = choose|m: int| 0 <= m < init.len() && init[m] == e;
                assert(es[m] == e);
            }
        }
    }
}

/// Collecting makes up no entries.
pub proof fn collect_members<T>(es: Seq<(Seq<char>, T)>)
    ensures
        forall|i: int| 0 <= i < collect(es).len() ==> es.contains(#[trigger] collect(es)[i]),
    decreases es.len(),
{
    if es.len() > 0 {
        let init = es.drop_last();
        collect_members(init);
        let c = collect(init);
        let (k, v) = es.last();
        put_places(c, k, v);
        let r = put(c, k, v);
        let at = choose|i: int|
            0 <= i < r.len() && #[trigger] r[i] == (k, v) && (i < c.len() ==> c[i].0 == k && r == c.update(
                i,
                (k, v),
            )) && (i == c.len() ==> r == c.push((k, v)));
        assert forall|i: int| 0 <= i < r.len() implies es.contains(#[trigger] r[i]) by {
            if i == at {
                assert(es[es.len() - 1] == r[i]);
            } else {
                assert(r[i] == c[i]);
                assert(init.contains(c[i]));
                let m = choose|m: int| 0 <= m < init.len() && init[m] == c[i];
                assert(es[m] == r[i]);
            }
        }
    }
}

/// Looking a key up in the sorted list gives what the list gives.
pub proof fn sort_keeps_lookup<T>(es: Seq<(Seq<char>, T)>, k: Seq<char>)
    ensures
        lookup(sort_entries(es), k) == lookup(es, k),
{
    sort_keeps_map(es);
    lookup_is_map(es, k);
    lookup_is_map(sort_entries(es), k);
}

/// Storing entries one after the other leaves under each key what the list
/// stands for.
pub proof fn collect_keeps_lookup<T>(es: Seq<(Seq<char>, T)>, k: Seq<char>)
    ensures
        lookup(collect(es), k) == lookup(es, k),
    decreases es.len(),
{
    if es.len() > 0 {
        let init = es.drop_last();
        collect_keeps_lookup(init, k);
        collect_is_distinct(init);
        put_then_lookup(collect(init), es.last().0, es.last().1, k);
    }
}

} // verus!

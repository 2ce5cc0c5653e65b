use rustc_hash::{FxHashMap, FxHashSet};
use vstd::prelude::*;

verus! {

/// The hasher builder of `rustc_hash`, which `FxHashSet` and `FxHashMap` are
/// parameterised by.
#[verifier::external_type_specification]
#[verifier::external_body]
pub struct ExFxBuildHasher(rustc_hash::FxBuildHasher);

/// `HashSet::insert` on an `FxHashSet` of raw ids: adds the id and reports
/// whether it was new.
#[verifier::external_body]
pub(crate) fn insert_id(s: &mut FxHashSet<u32>, id: u32) -> (new: bool)
    ensures
        final(s)@ == old(s)@.insert(id),
        new == !old(s)@.contains(id),
{
    s.insert(id)
}

/// `HashSet::contains` on an `FxHashSet` of raw ids.
#[verifier::external_body]
pub(crate) fn contains_id(s: &FxHashSet<u32>, id: u32) -> (found: bool)
    ensures
        found == s@.contains(id),
{
    s.contains(&id)
}

/// `HashSet::iter` on an `FxHashSet` of raw ids, collected: every id once, in
/// an order that is left open.
#[verifier::external_body]
pub(crate) fn list_ids(s: &FxHashSet<u32>) -> (ids: Vec<u32>)
    ensures
        ids@.no_duplicates(),
        forall|id: u32| #[trigger] ids@.contains(id) <==> s@.contains(id),
{
    s.iter().copied().collect()
}

/// `HashMap::insert` on an `FxHashMap` keyed by pairs of raw ids: binds the
/// pair, in place of what it was bound to.
#[verifier::external_body]
pub(crate) fn put_pair<V>(m: &mut FxHashMap<(u32, u32), V>, pair: (u32, u32), v: V)
    ensures
        final(m)@ == old(m)@.insert(pair, v),
{
    m.insert(pair, v);
}

/// `HashMap::extend` on an `FxHashMap` keyed by pairs of raw ids, with another
/// such map: binds every pair of the other map, in place of what it was bound
/// to.
#[verifier::external_body]
pub(crate) fn put_pairs<V>(m: &mut FxHashMap<(u32, u32), V>, from: FxHashMap<(u32, u32), V>)
    ensures
        final(m)@ == old(m)@.union_prefer_right(from@),
{
    m.extend(from);
}

/// `HashMap::get` on an `FxHashMap` keyed by pairs of raw ids.
#[verifier::external_body]
pub(crate) fn get_pair<V>(m: &FxHashMap<(u32, u32), V>, pair: (u32, u32)) -> (found: Option<&V>)
    ensures
        found is Some <==> m@.dom().contains(pair),
        found matches Some(v) ==> *v == m@[pair],
{
    m.get(&pair)
}

/// A map keyed by strings, read by the text of its keys.
pub open spec fn by_name<V>(m: Map<String, V>) -> Map<Seq<char>, V> {
    Map::new(
        |name: Seq<char>| exists|k: String| #[trigger] m.dom().contains(k) && k@ == name,
        |name: Seq<char>| m[choose|k: String| #[trigger] m.dom().contains(k) && k@ == name],
    )
}

/// `HashMap::insert` on an `FxHashMap` keyed by strings: binds the name, in
/// place of what it was bound to.
#[verifier::external_body]
pub(crate) fn put_name<V>(m: &mut FxHashMap<String, V>, name: String, v: V)
    ensures
        by_name(final(m)@) == by_name(old(m)@).insert(name@, v),
{
    m.insert(name, v);
}

/// `HashMap::get` on an `FxHashMap` keyed by strings.
#[verifier::external_body]
pub(crate) fn get_name<'a, V>(m: &'a FxHashMap<String, V>, name: &str) -> (found: Option<&'a V>)
    ensures
        found is Some <==> by_name(m@).dom().contains(name@),
        found matches Some(v) ==> *v == by_name(m@)[name@],
{
    m.get(name)
}

/// `HashMap::is_empty` on an `FxHashMap` keyed by strings.
#[verifier::external_body]
pub(crate) fn no_entries<V>(m: &FxHashMap<String, V>) -> (empty: bool)
    ensures
        empty == (forall|name: Seq<char>| !(#[trigger] by_name(m@).dom().contains(name))),
{
    m.is_empty()
}

/// `HashMap::iter` on an `FxHashMap` keyed by strings, collected: every entry
/// once, in an order that is left open.
#[verifier::external_body]
pub(crate) fn list_names<V>(m: &FxHashMap<String, V>) -> (es: Vec<(&String, &V)>)
    ensures
        forall|i: int, j: int|
            0 <= i < j < es@.len() ==> (#[trigger] es@[i]).0@ != (#[trigger] es@[j]).0@,
        forall|i: int|
            0 <= i < es@.len() ==> by_name(m@).dom().contains((#[trigger] es@[i]).0@)
                && *es@[i].1 == by_name(m@)[es@[i].0@],
        forall|name: Seq<char>| #[trigger]
            by_name(m@).dom().contains(name) ==> listed(es@, es@.len(), name),
{
    m.iter().collect()
}

/// A name is that of one of the first `k` entries.
pub open spec fn listed<V>(es: Seq<(&String, &V)>, k: nat, name: Seq<char>) -> bool {
    exists|i: int| 0 <= i < k && i < es.len() && (#[trigger] es[i]).0@ == name
}

/// Binds every name of another map, in place of what it was bound to.
pub(crate) fn put_names<V: Copy>(m: &mut FxHashMap<String, V>, from: &FxHashMap<String, V>)
    ensures
        by_name(final(m)@) == by_name(old(m)@).union_prefer_right(by_name(from@)),
{
    let ghost first = by_name(m@);
    let ghost given = by_name(from@);
    let es = list_names(from);
    let mut i: usize = 0;
    while i < es.len()
        invariant
            i <= es@.len(),
            given == by_name(from@),
            forall|k: int|
                0 <= k < es@.len() ==> given.dom().contains((#[trigger] es@[k]).0@)
                    && *es@[k].1 == given[es@[k].0@],
            forall|name: Seq<char>| #[trigger]
                by_name(m@).dom().contains(name) <==> first.dom().contains(name) || listed(
                    es@,
                    i as nat,
                    name,
                ),
            forall|name: Seq<char>| #[trigger]
                by_name(m@).dom().contains(name) ==> by_name(m@)[name] == if listed(
                    es@,
                    i as nat,
                    name,
                ) {
                    given[name]
                } else {
                    first[name]
                },
        decreases es@.len() - i,
    {
        let (name, v) = es[i];
        put_name(m, name.clone(), *v);
        assert forall|n: Seq<char>| #[trigger] listed(es@, (i + 1) as nat, n) <==> listed(
            es@,
            i as nat,
            n,
        ) || n == name@ by {
            if n == name@ {
                assert(es@[i as int].0@ == n);
            }
        }
        i = i + 1;
    }
    assert forall|n: Seq<char>| listed(es@, es@.len(), n) <==> #[trigger] given.dom().contains(
        n,
    ) by {}
    assert(by_name(m@) =~= first.union_prefer_right(given));
}

/// `ks` lists the keys of a map, each once.
pub open spec fn lists_keys<V>(ks: Seq<(u32, u32)>, m: Map<(u32, u32), V>) -> bool {
    ks.no_duplicates() && forall|k: (u32, u32)| #[trigger] ks.contains(k) <==> m.dom().contains(k)
}

/// `HashMap::values` on an `FxHashMap` keyed by pairs of raw ids, collected:
/// the value of every key once, in an order that is left open.
#[verifier::external_body]
pub(crate) fn list_values<V>(m: &FxHashMap<(u32, u32), V>) -> (vs: Vec<&V>)
    ensures
        exists|ks: Seq<(u32, u32)>| #[trigger]
            lists_keys(ks, m@) && ks.len() == vs@.len() && forall|i: int|
                0 <= i < ks.len() ==> *(#[trigger] vs@[i]) == m@[ks[i]],
{
    m.values().collect()
}

/// `HashMap::insert` on an `FxHashMap` keyed by raw ids: binds the id, in place
/// of what it was bound to.
#[verifier::external_body]
pub(crate) fn put_id<V>(m: &mut FxHashMap<u32, V>, id: u32, v: V)
    ensures
        final(m)@ == old(m)@.insert(id, v),
{
    m.insert(id, v);
}

} // verus!

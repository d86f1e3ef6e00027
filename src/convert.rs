//! What the generated implementations call at run time: building a map from a record's entries,
//! and reading a record's fields back out of a map.
use vstd::prelude::*;

use std::collections::BTreeMap;

verus! {

/// The map built by inserting `(key, value)` pairs in order: a later pair replaces an earlier
/// one with the same key.
pub open spec fn map_of<W>(s: Seq<(Seq<char>, W)>) -> Map<Seq<char>, W>
    decreases s.len(),
{
    if s.len() == 0 {
        Map::empty()
    } else {
        map_of(s.drop_last()).insert(s.last().0, s.last().1)
    }
}

/// The entries of a `Vec` of pairs, with keys and values viewed.
pub open spec fn entries_view<V: DeepView>(s: Seq<(String, V)>) -> Seq<(Seq<char>, V::V)> {
    s.map_values(|e: (String, V)| (e.0@, e.1.deep_view()))
}

/// The views of a sequence of keys.
pub open spec fn keys_view(keys: Seq<String>) -> Seq<Seq<char>> {
    keys.map_values(|k: String| k@)
}

/// No key occurs twice.
pub open spec fn distinct_keys(keys: Seq<Seq<char>>) -> bool {
    forall|i: int, j: int| 0 <= i < j < keys.len() ==> keys[i] != keys[j]
}

/// The value a map holds under a key, if any.
pub open spec fn lookup<W>(m: Map<Seq<char>, W>, k: Seq<char>) -> Option<W> {
    if m.contains_key(k) {
        Some(m[k])
    } else {
        None
    }
}

/// The fields read back from a map: each the map's value under its key, else its default.
pub open spec fn rebuilt<W>(m: Map<Seq<char>, W>, keys: Seq<Seq<char>>, defaults: Seq<W>) -> Seq<W> {
    Seq::new(
        keys.len(),
        |i: int|
            if m.contains_key(keys[i]) {
                m[keys[i]]
            } else {
                defaults[i]
            },
    )
}

pub open spec fn opt_deep<V: DeepView>(o: Option<V>) -> Option<V::V> {
    match o {
        Some(v) => Some(v.deep_view()),
        None => None,
    }
}

/// Relies on `BTreeMap::insert`: afterwards the map holds `v` under `k`, and its other entries
/// are unchanged (`String` keys are ordered by their characters).
#[verifier::external_body]
fn insert_entry<V: DeepView>(m: &mut BTreeMap<String, V>, k: String, v: V)
    ensures
        final(m).deep_view() == old(m).deep_view().insert(k@, v.deep_view()),
{
    m.insert(k, v);
}

/// Relies on `BTreeMap::remove`: it hands back the value under `k`, if there is one, and leaves
/// the other entries unchanged.
#[verifier::external_body]
fn remove_entry<V: DeepView>(m: &mut BTreeMap<String, V>, k: &String) -> (r: Option<V>)
    ensures
        final(m).deep_view() == old(m).deep_view().remove(k@),
        opt_deep(r) == lookup(old(m).deep_view(), k@),
{
    m.remove(k.as_str())
}

/// Builds the map of a record's entries, inserted in order.
pub fn collect_map<V: DeepView>(entries: Vec<(String, V)>) -> (m: BTreeMap<String, V>)
    ensures
        m.deep_view() == map_of(entries_view(entries@)),
{
    let ghost all = entries@;
    let n = entries.len();
    let mut rest = entries;
    let mut m: BTreeMap<String, V> = BTreeMap::new();
    proof {
        vstd::std_specs::btree::lemma_btree_map_deepview_dom(m);
        assert(m.deep_view() =~= Map::<Seq<char>, V::V>::empty());
    }
    let mut i: usize = 0;
    while i < n
        invariant
            n == all.len(),
            0 <= i <= all.len(),
            rest@ == all.subrange(i as int, all.len() as int),
            m.deep_view() == map_of(entries_view(all.subrange(0, i as int))),
        decreases rest@.len(),
    {
        let (k, v) = rest.remove(0);
        proof {
            assert(entries_view(all.subrange(0, i + 1)).drop_last() =~= entries_view(
                all.subrange(0, i as int),
            ));
        }
        insert_entry(&mut m, k, v);
        i = i + 1;
    }
    proof {
        assert(all.subrange(0, i as int) =~= all);
    }
    m
}

/// Takes out of a map the value under each key, in order.
pub fn take_fields<V: DeepView>(map: BTreeMap<String, V>, keys: &Vec<String>) -> (r: Vec<Option<V>>)
    requires
        distinct_keys(keys_view(keys@)),
    ensures
        r@.len() == keys@.len(),
        forall|i: int|
            0 <= i < keys@.len() ==> opt_deep(#[trigger] r@[i]) == lookup(map.deep_view(), keys@[i]@),
{
    let ghost orig = map.deep_view();
    let mut m = map;
    let mut out: Vec<Option<V>> = Vec::new();
    let mut i: usize = 0;
    while i < keys.len()
        invariant
            0 <= i <= keys@.len(),
            distinct_keys(keys_view(keys@)),
            out@.len() == i,
            forall|j: int| 0 <= j < i ==> opt_deep(#[trigger] out@[j]) == lookup(orig, keys@[j]@),
            forall|j: int| i <= j < keys@.len() ==> lookup(m.deep_view(), #[trigger] keys@[j]@) == lookup(orig, keys@[j]@),
        decreases keys@.len() - i,
    {
        let ghost before = m.deep_view();
        let found = remove_entry(&mut m, &keys[i]);
        proof {
            assert forall|j: int| i + 1 <= j < keys@.len() implies lookup(m.deep_view(), #[trigger] keys@[j]@) == lookup(orig, keys@[j]@) by {
                assert(keys_view(keys@)[i as int] != keys_view(keys@)[j]);
                assert(lookup(before, keys@[j]@) == lookup(orig, keys@[j]@));
            }
        }
        out.push(found);
        i = i + 1;
    }
    out
}

/// Reads a record's fields back out of a map: each takes the map's value under its key, and
/// keeps its default where the map has no such key.
pub fn rebuild_fields<V: DeepView>(map: BTreeMap<String, V>, keys: &Vec<String>, defaults: Vec<V>) -> (r: Vec<V>)
    requires
        distinct_keys(keys_view(keys@)),
        defaults@.len() == keys@.len(),
    ensures
        r@.map_values(|v: V| v.deep_view()) == rebuilt(
            map.deep_view(),
            keys_view(keys@),
            defaults@.map_values(|v: V| v.deep_view()),
        ),
{
    let ghost m0 = map.deep_view();
    let ghost d0 = defaults@;
    let mut found = take_fields(map, keys);
    let mut rest = defaults;
    let mut out: Vec<V> = Vec::new();
    let ghost f0 = found@;
    let mut i: usize = 0;
    while i < keys.len()
        invariant
            0 <= i <= keys@.len(),
            f0.len() == keys@.len(),
            d0.len() == keys@.len(),
            found@ == f0.subrange(i as int, f0.len() as int),
            rest@ == d0.subrange(i as int, d0.len() as int),
            forall|j: int| 0 <= j < keys@.len() ==> opt_deep(#[trigger] f0[j]) == lookup(m0, keys@[j]@),
            out@.len() == i,
            forall|j: int|
                0 <= j < i ==> (#[trigger] out@[j]).deep_view() == (if m0.contains_key(keys@[j]@) {
                    m0[keys@[j]@]
                } else {
                    d0[j].deep_view()
                }),
        decreases keys@.len() - i,
    {
        let d = rest.remove(0);
        let slot = found.remove(0);
        proof {
            assert(opt_deep(f0[i as int]) == lookup(m0, keys@[i as int]@));
        }
        match slot {
            Some(v) => out.push(v),
            None => out.push(d),
        }
        i = i + 1;
    }
    proof {
        assert(out@.map_values(|v: V| v.deep_view()) =~= rebuilt(
            m0,
            keys_view(keys@),
            d0.map_values(|v: V| v.deep_view()),
        ));
    }
    out
}

} // verus!

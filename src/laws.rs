//! Properties of the generated conversions, stated over the plans the engine produces and the
//! maps the run-time helpers build and read.
use vstd::prelude::*;

use crate::convert::{map_of, rebuilt};
use crate::decl::{distinct_fields, fields_of, RecordDecl};
use crate::derive::{
    effective_key, plans_from_map, plans_to_map, rename_of, renames, FromField, FromMapPlan,
    RenameFault, ToMapPlan,
};

verus! {

/// The entries that a `ToMap` plan writes for a record whose fields hold `values`.
pub open spec fn keyed<W>(plan: ToMapPlan, values: Seq<W>) -> Seq<(Seq<char>, W)> {
    Seq::new(values.len(), |i: int| (plan.entries@[i].key@, values[i]))
}

/// The keys that a `FromMap` plan reads, in field order.
pub open spec fn from_keys(plan: FromMapPlan) -> Seq<Seq<char>> {
    plan.fields@.map_values(|f: FromField| f.key@)
}

proof fn lemma_map_of_keys<W>(s: Seq<(Seq<char>, W)>, k: Seq<char>)
    ensures
        map_of(s).contains_key(k) <==> exists|j: int| 0 <= j < s.len() && (#[trigger] s[j]).0 == k,
    decreases s.len(),
{
    if s.len() > 0 {
        let t = s.drop_last();
        lemma_map_of_keys(t, k);
        if map_of(s).contains_key(k) {
            if s.last().0 == k {
                assert(s[s.len() - 1].0 == k);
            } else {
                let j = choose|j: int| 0 <= j < t.len() && (#[trigger] t[j]).0 == k;
                assert(s[j].0 == k);
            }
        }
        if exists|j: int| 0 <= j < s.len() && (#[trigger] s[j]).0 == k {
            let j = choose|j: int| 0 <= j < s.len() && (#[trigger] s[j]).0 == k;
            if j < s.len() - 1 {
                assert(t[j].0 == k);
            }
        }
    }
}

proof fn lemma_map_of_value<W>(s: Seq<(Seq<char>, W)>, j: int)
    requires
        0 <= j < s.len(),
        forall|l: int| j < l < s.len() ==> (#[trigger] s[l]).0 != s[j].0,
    ensures
        map_of(s).contains_key(s[j].0),
        map_of(s)[s[j].0] == s[j].1,
    decreases s.len(),
{
    if j < s.len() - 1 {
        let t = s.drop_last();
        assert(s.last().0 != s[j].0);
        assert forall|l: int| j < l < t.len() implies (#[trigger] t[l]).0 != t[j].0 by {
            assert(t[l] == s[l]);
        }
        lemma_map_of_value(t, j);
    }
}

/// Round trip: for a record without rename directives, whose fields have distinct names, the map
/// its `ToMap` plan writes from the fields' values, read back through its `FromMap` plan, gives
/// every field its own value again, whatever the defaults.
pub proof fn lemma_round_trip<W>(
    decl: RecordDecl,
    to: ToMapPlan,
    from: FromMapPlan,
    values: Seq<W>,
    defaults: Seq<W>,
)
    requires
        plans_to_map(decl, to),
        plans_from_map(decl, from),
        distinct_fields(decl),
        forall|i: int| 0 <= i < fields_of(decl).len() ==> #[trigger] renames(fields_of(decl)[i]).len() == 0,
        values.len() == fields_of(decl).len(),
        defaults.len() == fields_of(decl).len(),
    ensures
        rebuilt(map_of(keyed(to, values)), from_keys(from), defaults) == values,
{
    let fields = fields_of(decl);
    let s = keyed(to, values);
    let r = rebuilt(map_of(s), from_keys(from), defaults);
    assert forall|i: int| 0 <= i < values.len() implies #[trigger] r[i] == values[i] by {
        assert(renames(fields[i]).len() == 0);
        assert(to.entries@[i].key@ == fields[i].ident@);
        assert(from.fields@[i].key@ == fields[i].ident@);
        assert forall|l: int| i < l < s.len() implies (#[trigger] s[l]).0 != s[i].0 by {
            assert(renames(fields[l]).len() == 0);
            assert(to.entries@[l].key@ == fields[l].ident@);
        }
        lemma_map_of_value(s, i);
    }
    assert(r =~= values);
}

/// Missing keys: reading a record back through its `FromMap` plan gives each field the map's
/// value under the field's name where the map holds that key, and the field's default where it
/// does not.
pub proof fn lemma_missing_keys<W>(
    decl: RecordDecl,
    from: FromMapPlan,
    m: Map<Seq<char>, W>,
    defaults: Seq<W>,
)
    requires
        plans_from_map(decl, from),
        defaults.len() == fields_of(decl).len(),
    ensures
        rebuilt(m, from_keys(from), defaults).len() == fields_of(decl).len(),
        forall|i: int|
            0 <= i < fields_of(decl).len() ==> #[trigger] rebuilt(m, from_keys(from), defaults)[i]
                == if m.contains_key(fields_of(decl)[i].ident@) {
                m[fields_of(decl)[i].ident@]
            } else {
                defaults[i]
            },
{
    let fields = fields_of(decl);
    assert forall|i: int| 0 <= i < fields.len() implies #[trigger] rebuilt(
        m,
        from_keys(from),
        defaults,
    )[i] == if m.contains_key(fields[i].ident@) {
        m[fields[i].ident@]
    } else {
        defaults[i]
    } by {
        assert(from.fields@[i].key@ == fields[i].ident@);
    }
}

/// Rename: the map that a `ToMap` plan writes holds a renamed field's value under the directive's
/// key, where no other field is written under that key; and it holds nothing under the field's
/// own name, where no field is written under that name.
pub proof fn lemma_rename_key<W>(decl: RecordDecl, to: ToMapPlan, values: Seq<W>, i: int, k: Seq<char>)
    requires
        plans_to_map(decl, to),
        values.len() == fields_of(decl).len(),
        0 <= i < fields_of(decl).len(),
        rename_of(fields_of(decl)[i]) == Ok::<Option<Seq<char>>, RenameFault>(Some(k)),
        forall|j: int|
            0 <= j < fields_of(decl).len() && j != i ==> effective_key(#[trigger] fields_of(decl)[j])
                != k,
    ensures
        map_of(keyed(to, values)).contains_key(k),
        map_of(keyed(to, values))[k] == values[i],
        (forall|j: int|
            0 <= j < fields_of(decl).len() ==> effective_key(#[trigger] fields_of(decl)[j])
                != fields_of(decl)[i].ident@) ==> !map_of(keyed(to, values)).contains_key(
            fields_of(decl)[i].ident@,
        ),
{
    let fields = fields_of(decl);
    let s = keyed(to, values);
    assert(s[i].0 == k);
    assert forall|l: int| i < l < s.len() implies (#[trigger] s[l]).0 != s[i].0 by {
        assert(to.entries@[l].key@ == effective_key(fields[l]));
    }
    lemma_map_of_value(s, i);
    lemma_map_of_keys(s, fields[i].ident@);
    if forall|j: int| 0 <= j < fields.len() ==> effective_key(#[trigger] fields[j]) != fields[i].ident@ {
        assert forall|j: int| 0 <= j < s.len() implies (#[trigger] s[j]).0 != fields[i].ident@ by {
            assert(to.entries@[j].key@ == effective_key(fields[j]));
        }
    }
}

} // verus!

//! The derivation engine: from a record declaration to the plan of its `FromMap` and `ToMap`
//! implementations, or to the error that stops the derivation.
use vstd::prelude::*;

use crate::decl::{
    fields_of, AttrDecl, FieldDecl, LitDecl, MetaDecl, NestedDecl, RecordDecl, ShapeDecl, TypeDecl,
};

verus! {

/// Why a derivation fails. A field is given by its position in the declaration.
#[derive(Debug, Clone, Copy, PartialEq, Eq, Structural)]
pub enum DeriveError {
    /// The type is not a struct with named fields.
    UnsupportedShape,
    /// The field's type has no `Value` accessor.
    UnsupportedFieldType(usize),
    /// A `rename` attribute on the field is not of the form `#[rename(name = "KEY")]`.
    MalformedRename(usize),
    /// The field carries more than one `rename` attribute.
    DuplicateRename(usize),
}

impl DeriveError {
    /// A description of the error, for the diagnostic that stops compilation.
    pub fn message(&self) -> (r: &'static str) {
        match self {
            DeriveError::UnsupportedShape => "Implementation must be a struct with named fields",
            DeriveError::UnsupportedFieldType(_) => "Field type has no supported conversion",
            DeriveError::MalformedRename(_) => "Must be `#[rename(name = 'VALUE')]`",
            DeriveError::DuplicateRename(_) => "Cannot redefine field name multiple times",
        }
    }
}

/// The typed `Value` accessor that reads a field back from a `GenericMap`.
#[derive(Debug, Clone, Copy, PartialEq, Eq, Structural)]
pub enum Accessor {
    Bool,
    I64,
    U64,
    F64,
    String,
}

/// Whether an attribute is a rename directive.
pub open spec fn rename_filter() -> spec_fn(AttrDecl) -> bool {
    |a: AttrDecl| a.path@ == "rename"@
}

/// The rename attributes of a field, in order.
pub open spec fn renames(f: FieldDecl) -> Seq<AttrDecl> {
    f.attrs@.filter(rename_filter())
}

/// The key that a well-formed rename directive `#[rename(name = "KEY")]` carries.
pub open spec fn directive_key(a: AttrDecl) -> Option<Seq<char>> {
    match a.meta {
        MetaDecl::List(items) => {
            if items@.len() == 1 {
                match items@[0] {
                    NestedDecl::NameValue { path: Some(p), lit: LitDecl::Str(s) } => {
                        if p@ == "name"@ {
                            Some(s@)
                        } else {
                            None
                        }
                    },
                    _ => None,
                }
            } else {
                None
            }
        },
        _ => None,
    }
}

/// Why a field's rename attributes are refused.
#[derive(Debug, Clone, Copy, PartialEq, Eq, Structural)]
pub enum RenameFault {
    Malformed,
    Repeated,
}

/// The override key of a field: none without a rename attribute, the directive's key with one
/// well-formed one, a fault otherwise.
pub open spec fn rename_of(f: FieldDecl) -> Result<Option<Seq<char>>, RenameFault> {
    let rs = renames(f);
    if rs.len() == 0 {
        Ok(None)
    } else if directive_key(rs[0]) is None {
        Err(RenameFault::Malformed)
    } else if rs.len() > 1 {
        Err(RenameFault::Repeated)
    } else {
        Ok(directive_key(rs[0]))
    }
}

/// The error for a field at position `i` whose rename attributes are refused.
pub open spec fn rename_error(fault: RenameFault, i: int) -> DeriveError {
    match fault {
        RenameFault::Malformed => DeriveError::MalformedRename(i as usize),
        RenameFault::Repeated => DeriveError::DuplicateRename(i as usize),
    }
}

/// The key under which a field is written into a map: its override key, else its name.
pub open spec fn effective_key(f: FieldDecl) -> Seq<char> {
    match rename_of(f) {
        Ok(Some(k)) => k,
        _ => f.ident@,
    }
}

pub open spec fn opt_view(o: Option<String>) -> Option<Seq<char>> {
    match o {
        Some(s) => Some(s@),
        None => None,
    }
}

proof fn lemma_filter_step(s: Seq<AttrDecl>, j: int)
    requires
        0 <= j < s.len(),
    ensures
        s.subrange(0, j + 1).filter(rename_filter()) == (if rename_filter()(s[j]) {
            s.subrange(0, j).filter(rename_filter()).push(s[j])
        } else {
            s.subrange(0, j).filter(rename_filter())
        }),
{
    reveal(Seq::filter);
    assert(s.subrange(0, j + 1).drop_last() =~= s.subrange(0, j));
}

proof fn lemma_filter_split(s: Seq<AttrDecl>, j: int)
    requires
        0 <= j <= s.len(),
    ensures
        s.filter(rename_filter()) == s.subrange(0, j).filter(rename_filter()) + s.subrange(
            j,
            s.len() as int,
        ).filter(rename_filter()),
{
    assert(s =~= s.subrange(0, j) + s.subrange(j, s.len() as int));
    Seq::filter_distributes_over_add(s.subrange(0, j), s.subrange(j, s.len() as int), rename_filter());
}

proof fn lemma_filter_head(s: Seq<AttrDecl>)
    requires
        s.len() > 0,
        rename_filter()(s[0]),
    ensures
        s.filter(rename_filter()).len() > 0,
        s.filter(rename_filter())[0] == s[0],
{
    lemma_filter_split(s, 1);
    lemma_filter_step(s, 0);
    reveal(Seq::filter);
    assert(s.subrange(0, 0).filter(rename_filter()) =~= Seq::<AttrDecl>::empty());
}

fn is_rename_attr(a: &AttrDecl) -> (r: bool)
    ensures
        r == rename_filter()(*a),
{
    a.path == "rename".to_string()
}

/// The key of a rename directive, if it has the form `#[rename(name = "KEY")]`.
fn directive_key_of(a: &AttrDecl) -> (r: Option<String>)
    ensures
        opt_view(r) == directive_key(*a),
{
    match &a.meta {
        MetaDecl::List(items) => {
            if items.len() == 1 {
                match &items[0] {
                    NestedDecl::NameValue { path: Some(p), lit: LitDecl::Str(s) } => {
                        if *p == "name".to_string() {
                            Some(s.clone())
                        } else {
                            None
                        }
                    },
                    _ => None,
                }
            } else {
                None
            }
        },
        _ => None,
    }
}

/// The override key of one field.
fn field_rename(f: &FieldDecl) -> (r: Result<Option<String>, RenameFault>)
    ensures
        match r {
            Ok(o) => rename_of(*f) == Ok::<Option<Seq<char>>, RenameFault>(opt_view(o)),
            Err(e) => rename_of(*f) == Err::<Option<Seq<char>>, RenameFault>(e),
        },
{
    let ghost s = f.attrs@;
    let mut found: Option<String> = None;
    let mut j: usize = 0;
    while j < f.attrs.len()
        invariant
            0 <= j <= s.len(),
            s == f.attrs@,
            s.subrange(0, j as int).filter(rename_filter()).len() <= 1,
            s.subrange(0, j as int).filter(rename_filter()).len() == 0 ==> found is None,
            s.subrange(0, j as int).filter(rename_filter()).len() == 1 ==> opt_view(found)
                == directive_key(s.subrange(0, j as int).filter(rename_filter())[0]) && found
                is Some,
        decreases s.len() - j,
    {
        let attr = &f.attrs[j];
        proof {
            lemma_filter_step(s, j as int);
        }
        if is_rename_attr(attr) {
            proof {
                lemma_filter_split(s, j as int);
                lemma_filter_head(s.subrange(j as int, s.len() as int));
            }
            if found.is_some() {
                return Err(RenameFault::Repeated);
            }
            match directive_key_of(attr) {
                Some(k) => {
                    found = Some(k);
                },
                None => {
                    return Err(RenameFault::Malformed);
                },
            }
        }
        j = j + 1;
    }
    proof {
        assert(s.subrange(0, s.len() as int) =~= s);
    }
    Ok(found)
}

/// The override keys of a record's fields, one per field, or the error of the first field
/// whose rename attributes are refused.
pub fn parse_rename_attrs(fields: &Vec<FieldDecl>) -> (r: Result<Vec<Option<String>>, DeriveError>)
    ensures
        r is Ok <==> forall|i: int| 0 <= i < fields@.len() ==> (#[trigger] rename_of(fields@[i])) is Ok,
        r matches Ok(keys) ==> keys@.len() == fields@.len() && forall|i: int|
            0 <= i < fields@.len() ==> Ok::<Option<Seq<char>>, RenameFault>(opt_view(
                #[trigger] keys@[i],
            )) == rename_of(fields@[i]),
        r matches Err(e) ==> exists|i: int|
            0 <= i < fields@.len() && (forall|j: int| 0 <= j < i ==> (#[trigger] rename_of(
                fields@[j],
            )) is Ok) && #[trigger] rename_of(fields@[i]) is Err && e == rename_error(
                rename_of(fields@[i])->Err_0,
                i,
            ),
{
    let mut keys: Vec<Option<String>> = Vec::new();
    let mut i: usize = 0;
    while i < fields.len()
        invariant
            0 <= i <= fields@.len(),
            keys@.len() == i,
            forall|j: int|
                0 <= j < i ==> Ok::<Option<Seq<char>>, RenameFault>(opt_view(#[trigger] keys@[j]))
                    == rename_of(fields@[j]),
        decreases fields@.len() - i,
    {
        match field_rename(&fields[i]) {
            Ok(key) => {
                keys.push(key);
            },
            Err(fault) => {
                let e = match fault {
                    RenameFault::Malformed => DeriveError::MalformedRename(i),
                    RenameFault::Repeated => DeriveError::DuplicateRename(i),
                };
                proof {
                    assert forall|j: int| 0 <= j < i implies (#[trigger] rename_of(fields@[j])) is Ok by {
                        assert(opt_view(keys@[j]) == opt_view(keys@[j]));
                    }
                }
                return Err(e);
            },
        }
        i = i + 1;
    }
    proof {
        assert forall|j: int| 0 <= j < fields@.len() implies (#[trigger] rename_of(fields@[j])) is Ok by {
            assert(opt_view(keys@[j]) == opt_view(keys@[j]));
        }
    }
    Ok(keys)
}

/// The accessor that a lowercased type text names, if any.
pub open spec fn accessor_of(lowered: Seq<char>) -> Option<Accessor> {
    if lowered == "bool"@ {
        Some(Accessor::Bool)
    } else if lowered == "i64"@ {
        Some(Accessor::I64)
    } else if lowered == "u64"@ {
        Some(Accessor::U64)
    } else if lowered == "f64"@ {
        Some(Accessor::F64)
    } else if lowered == "string"@ {
        Some(Accessor::String)
    } else {
        None
    }
}

/// The lowercase form of a text, as `str::to_lowercase` gives it.
pub uninterp spec fn lower_of(s: Seq<char>) -> Seq<char>;

/// Relies on `str::to_lowercase`: the lowercase form depends on the characters alone.
#[verifier::external_body]
fn lowercase(s: &str) -> (r: String)
    ensures
        r@ == lower_of(s@),
{
    s.to_lowercase()
}

/// The accessor for a field's type: the type must be a path whose lowercased text names one.
pub open spec fn field_accessor(f: FieldDecl) -> Option<Accessor> {
    match f.ty {
        TypeDecl::Path(t) => accessor_of(lower_of(t@)),
        TypeDecl::Other => None,
    }
}

/// The accessor that an already lowercased type text names.
pub fn accessor_for_lowered(lowered: &String) -> (r: Option<Accessor>)
    ensures
        r == accessor_of(lowered@),
{
    if *lowered == "bool".to_string() {
        Some(Accessor::Bool)
    } else if *lowered == "i64".to_string() {
        Some(Accessor::I64)
    } else if *lowered == "u64".to_string() {
        Some(Accessor::U64)
    } else if *lowered == "f64".to_string() {
        Some(Accessor::F64)
    } else if *lowered == "string".to_string() {
        Some(Accessor::String)
    } else {
        None
    }
}

/// The accessor for a field's declared type.
pub fn accessor_for(f: &FieldDecl) -> (r: Option<Accessor>)
    ensures
        r == field_accessor(*f),
{
    match &f.ty {
        TypeDecl::Path(text) => {
            let lowered = lowercase(text.as_str());
            accessor_for_lowered(&lowered)
        },
        TypeDecl::Other => None,
    }
}

/// How the generated `FromMap` implementation reads one field.
pub struct FromField {
    /// The field's name.
    pub ident: String,
    /// The map key the field is read from.
    pub key: String,
    /// The accessor that takes the field's value out of a `Value`.
    pub accessor: Accessor,
}

/// The plan of a `FromMap` implementation: the record's name and its fields in order.
pub struct FromMapPlan {
    pub ident: String,
    pub fields: Vec<FromField>,
}

/// How the generated `ToMap` implementation writes one field.
pub struct ToEntry {
    /// The field's name.
    pub ident: String,
    /// The map key the field is written under.
    pub key: String,
}

/// The plan of a `ToMap` implementation: the record's name and its entries in field order.
pub struct ToMapPlan {
    pub ident: String,
    pub entries: Vec<ToEntry>,
}

/// `plan` reads each field of a struct with named fields from the key of its own name, through
/// the accessor of its type.
pub open spec fn plans_from_map(decl: RecordDecl, plan: FromMapPlan) -> bool {
    let fields = fields_of(decl);
    &&& decl.shape is Named
    &&& plan.ident@ == decl.ident@
    &&& plan.fields@.len() == fields.len()
    &&& forall|i: int|
        0 <= i < fields.len() ==> {
            &&& (#[trigger] plan.fields@[i]).ident@ == fields[i].ident@
            &&& plan.fields@[i].key@ == fields[i].ident@
            &&& field_accessor(fields[i]) == Some(plan.fields@[i].accessor)
        }
}

/// `plan` writes each field of a struct with named fields under the field's effective key.
pub open spec fn plans_to_map(decl: RecordDecl, plan: ToMapPlan) -> bool {
    let fields = fields_of(decl);
    &&& decl.shape is Named
    &&& plan.ident@ == decl.ident@
    &&& plan.entries@.len() == fields.len()
    &&& forall|i: int|
        0 <= i < fields.len() ==> {
            &&& (#[trigger] plan.entries@[i]).ident@ == fields[i].ident@
            &&& plan.entries@[i].key@ == effective_key(fields[i])
        }
}

/// Plans the `FromMap` implementation of a record: each field is read from the key of its own
/// name, through the accessor of its type.
pub fn from_map(decl: &RecordDecl) -> (r: Result<FromMapPlan, DeriveError>)
    ensures
        !(decl.shape is Named) ==> r == Err::<FromMapPlan, DeriveError>(DeriveError::UnsupportedShape),
        decl.shape matches ShapeDecl::Named(fields) ==> {
            &&& r is Ok <==> forall|i: int|
                0 <= i < fields@.len() ==> (#[trigger] field_accessor(fields@[i])) is Some
            &&& r matches Ok(plan) ==> plans_from_map(*decl, plan)
            &&& r matches Err(e) ==> exists|i: int|
                0 <= i < fields@.len() && (forall|j: int|
                    0 <= j < i ==> (#[trigger] field_accessor(fields@[j])) is Some)
                    && #[trigger] field_accessor(fields@[i]) is None && e
                    == DeriveError::UnsupportedFieldType(i as usize)
        },
{
    let fields = match &decl.shape {
        ShapeDecl::Named(fields) => fields,
        _ => {
            return Err(DeriveError::UnsupportedShape);
        },
    };
    let mut planned: Vec<FromField> = Vec::new();
    let mut i: usize = 0;
    while i < fields.len()
        invariant
            decl.shape == ShapeDecl::Named(*fields),
            0 <= i <= fields@.len(),
            planned@.len() == i,
            forall|j: int|
                0 <= j < i ==> {
                    &&& (#[trigger] planned@[j]).ident@ == fields@[j].ident@
                    &&& planned@[j].key@ == fields@[j].ident@
                    &&& field_accessor(fields@[j]) == Some(planned@[j].accessor)
                },
        decreases fields@.len() - i,
    {
        let field = &fields[i];
        match accessor_for(field) {
            Some(accessor) => {
                planned.push(
                    FromField { ident: field.ident.clone(), key: field.ident.clone(), accessor },
                );
            },
            None => {
                proof {
                    assert forall|j: int| 0 <= j < i implies (#[trigger] field_accessor(
                        fields@[j],
                    )) is Some by {
                        assert(planned@[j].ident@ == fields@[j].ident@);
                    }
                }
                return Err(DeriveError::UnsupportedFieldType(i));
            },
        }
        i = i + 1;
    }
    proof {
        assert forall|j: int| 0 <= j < fields@.len() implies (#[trigger] field_accessor(
            fields@[j],
        )) is Some by {
            assert(planned@[j].ident@ == fields@[j].ident@);
        }
    }
    Ok(FromMapPlan { ident: decl.ident.clone(), fields: planned })
}

proof fn lemma_accepted_renames(f: FieldDecl)
    requires
        rename_of(f) is Ok,
    ensures
        renames(f).len() <= 1,
        forall|k: int| 0 <= k < renames(f).len() ==> #[trigger] directive_key(renames(f)[k]) is Some,
{
}

/// Plans the `ToMap` implementation of a record: each field is written under its effective
/// key, the key of its rename directive or else its own name.
pub fn to_map(decl: &RecordDecl) -> (r: Result<ToMapPlan, DeriveError>)
    ensures
        !(decl.shape is Named) ==> r == Err::<ToMapPlan, DeriveError>(DeriveError::UnsupportedShape),
        decl.shape matches ShapeDecl::Named(fields) ==> {
            &&& r is Ok <==> forall|i: int|
                0 <= i < fields@.len() ==> (#[trigger] rename_of(fields@[i])) is Ok
            &&& r matches Ok(plan) ==> plans_to_map(*decl, plan)
            &&& r matches Err(e) ==> exists|i: int|
                0 <= i < fields@.len() && (forall|j: int|
                    0 <= j < i ==> (#[trigger] rename_of(fields@[j])) is Ok)
                    && #[trigger] rename_of(fields@[i]) is Err && e == rename_error(
                    rename_of(fields@[i])->Err_0,
                    i,
                )
            // a field with two rename directives is refused
            &&& (exists|i: int| 0 <= i < fields@.len() && #[trigger] renames(fields@[i]).len() > 1)
                ==> r is Err
            // so is a field with a rename directive of another form
            &&& (exists|i: int, k: int|
                0 <= i < fields@.len() && 0 <= k < renames(fields@[i]).len() && #[trigger] directive_key(
                    #[trigger] renames(fields@[i])[k],
                ) is None) ==> r is Err
        },
{
    let fields = match &decl.shape {
        ShapeDecl::Named(fields) => fields,
        _ => {
            return Err(DeriveError::UnsupportedShape);
        },
    };
    let keys = match parse_rename_attrs(fields) {
        Ok(keys) => keys,
        Err(e) => {
            proof {
                assert(exists|i: int|
                    0 <= i < fields@.len() && #[trigger] rename_of(fields@[i]) is Err);
            }
            return Err(e);
        },
    };
    let mut entries: Vec<ToEntry> = Vec::new();
    let mut i: usize = 0;
    while i < fields.len()
        invariant
            decl.shape == ShapeDecl::Named(*fields),
            0 <= i <= fields@.len(),
            keys@.len() == fields@.len(),
            forall|j: int|
                0 <= j < fields@.len() ==> Ok::<Option<Seq<char>>, RenameFault>(opt_view(
                    #[trigger] keys@[j],
                )) == rename_of(fields@[j]),
            entries@.len() == i,
            forall|j: int|
                0 <= j < i ==> {
                    &&& (#[trigger] entries@[j]).ident@ == fields@[j].ident@
                    &&& entries@[j].key@ == effective_key(fields@[j])
                },
        decreases fields@.len() - i,
    {
        let field = &fields[i];
        let key = match &keys[i] {
            Some(k) => k.clone(),
            None => field.ident.clone(),
        };
        proof {
            assert(Ok::<Option<Seq<char>>, RenameFault>(opt_view(keys@[i as int])) == rename_of(
                fields@[i as int],
            ));
        }
        entries.push(ToEntry { ident: field.ident.clone(), key });
        i = i + 1;
    }
    proof {
        assert forall|i: int| 0 <= i < fields@.len() implies (#[trigger] rename_of(
            fields@[i],
        )) is Ok by {
            assert(Ok::<Option<Seq<char>>, RenameFault>(opt_view(keys@[i])) == rename_of(
                fields@[i],
            ));
        }
        assert forall|i: int| 0 <= i < fields@.len() implies #[trigger] renames(fields@[i]).len()
            <= 1 && forall|k: int|
            0 <= k < renames(fields@[i]).len() ==> #[trigger] directive_key(renames(fields@[i])[k])
                is Some by {
            lemma_accepted_renames(fields@[i]);
        }
    }
    Ok(ToMapPlan { ident: decl.ident.clone(), entries })
}

} // verus!

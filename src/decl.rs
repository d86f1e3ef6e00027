//! The structure of a record declaration, as the derivation engine reads it: the type's name,
//! its shape, and for a record with named fields each field's name, type text and attributes.
use vstd::prelude::*;

verus! {

/// A literal in an attribute.
pub enum LitDecl {
    /// A string literal, with its escapes resolved.
    Str(String),
    /// Any other literal.
    Other,
}

/// One item inside the parentheses of a list attribute such as `#[rename(name = "k")]`.
pub enum NestedDecl {
    /// `path = lit`; `path` is `None` unless the path is a single identifier.
    NameValue { path: Option<String>, lit: LitDecl },
    /// Any other item (a bare path, a literal, a nested list).
    Other,
}

/// What follows an attribute's path.
pub enum MetaDecl {
    /// Nothing: `#[rename]`.
    Path,
    /// A parenthesised list: `#[rename(...)]`.
    List(Vec<NestedDecl>),
    /// `= lit`: `#[rename = "k"]`.
    NameValue(LitDecl),
    /// Tokens that do not form any of the above.
    Unparsed,
}

/// An attribute on a field: the text of its path and its contents.
pub struct AttrDecl {
    pub path: String,
    pub meta: MetaDecl,
}

/// The declared type of a field.
pub enum TypeDecl {
    /// A type path, as the text of its tokens (`String`, `i64`, `std :: string :: String`).
    Path(String),
    /// Any other type (a reference, a tuple, an array, ...).
    Other,
}

/// A named field of a record.
pub struct FieldDecl {
    pub ident: String,
    pub ty: TypeDecl,
    pub attrs: Vec<AttrDecl>,
}

/// The shape of a type declaration.
pub enum ShapeDecl {
    /// A struct with named fields, in declaration order.
    Named(Vec<FieldDecl>),
    /// A tuple-like struct.
    Unnamed,
    /// A unit struct.
    Unit,
    Enum,
    Union,
}

/// A type declaration handed to the derivation engine.
pub struct RecordDecl {
    pub ident: String,
    pub shape: ShapeDecl,
}

/// The fields of a declaration: those of a struct with named fields, else none.
pub open spec fn fields_of(decl: RecordDecl) -> Seq<FieldDecl> {
    match decl.shape {
        ShapeDecl::Named(fields) => fields@,
        _ => Seq::empty(),
    }
}

/// No two fields of the declaration share a name.
pub open spec fn distinct_fields(decl: RecordDecl) -> bool {
    forall|i: int, j: int|
        0 <= i < j < fields_of(decl).len() ==> fields_of(decl)[i].ident@ != fields_of(decl)[j].ident@
}

} // verus!

//! Conversion between records and string-keyed maps: the value type the maps hold, the
//! conversion traits, and the verified engine that plans their implementation for a record.
pub mod convert;
pub mod decl;
pub mod derive;
pub mod laws;
pub mod value;

use vstd::prelude::*;

use std::collections::BTreeMap;

use crate::value::Value;

verus! {

/// A map from field keys to field values written as text.
pub type StringMap = BTreeMap<String, String>;

/// A map from field keys to field values wrapped in a `Value`.
pub type GenericMap = BTreeMap<String, Value>;

/// A record that can be built from a map, starting from its default and overwriting each field
/// whose key the map holds.
pub trait FromMap: Default + Sized {
    /// Builds a record from a map of texts, each parsed into its field's type.
    fn from_stringmap(hashmap: StringMap) -> Self;

    /// Builds a record from a map of values, each of its field's variant.
    fn from_genericmap(hashmap: GenericMap) -> Self;
}

/// A record that can be written into a map, one entry per field.
pub trait ToMap: Default + Sized {
    /// Writes each field as text.
    fn to_stringmap(structure: Self) -> StringMap;

    /// Writes each field wrapped in a `Value`.
    fn to_genericmap(structure: Self) -> GenericMap;
}

} // verus!

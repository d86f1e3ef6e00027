//! The heterogeneous value that a `GenericMap` holds for each field of a record.
use vstd::prelude::*;

verus! {

/// A primitive that a record field converts into when it is written into a `GenericMap`.
#[derive(Debug, PartialEq)]
pub enum Value {
    Null,
    Bool(bool),
    Num(Num),
    String(String),
    Array(Vec<Value>),
}

/// The numeric primitives a `Value` can hold. A 64-bit float is kept as its IEEE-754 bit
/// pattern, so that the value stays exact and comparable.
#[derive(Debug, Clone, Copy, PartialEq, Eq)]
pub enum Num {
    I64(i64),
    U64(u64),
    F64(u64),
}

impl DeepView for Value {
    type V = Value;

    open spec fn deep_view(&self) -> Value {
        *self
    }
}

/// A type whose values convert into a `Value` of one fixed variant.
pub trait IntoValue: Sized {
    /// `v` is the `Value` that `self` converts into.
    spec fn wraps(&self, v: Value) -> bool;

    fn into_value(self) -> (v: Value)
        ensures
            self.wraps(v),
    ;
}

impl IntoValue for bool {
    open spec fn wraps(&self, v: Value) -> bool {
        v == Value::Bool(*self)
    }

    fn into_value(self) -> (v: Value) {
        Value::Bool(self)
    }
}

impl IntoValue for i64 {
    open spec fn wraps(&self, v: Value) -> bool {
        v == Value::Num(Num::I64(*self))
    }

    fn into_value(self) -> (v: Value) {
        Value::Num(Num::I64(self))
    }
}

impl IntoValue for u64 {
    open spec fn wraps(&self, v: Value) -> bool {
        v == Value::Num(Num::U64(*self))
    }

    fn into_value(self) -> (v: Value) {
        Value::Num(Num::U64(self))
    }
}

impl IntoValue for String {
    open spec fn wraps(&self, v: Value) -> bool {
        v matches Value::String(s) && s@ == self@
    }

    fn into_value(self) -> (v: Value) {
        Value::String(self)
    }
}

impl<'a> IntoValue for &'a str {
    open spec fn wraps(&self, v: Value) -> bool {
        v matches Value::String(s) && s@ == self@
    }

    fn into_value(self) -> (v: Value) {
        Value::String(self.to_string())
    }
}

impl IntoValue for Vec<Value> {
    open spec fn wraps(&self, v: Value) -> bool {
        v == Value::Array(*self)
    }

    fn into_value(self) -> (v: Value) {
        Value::Array(self)
    }
}

impl Value {
    /// Wraps a primitive in the variant of its type.
    pub fn new<T: IntoValue>(value: T) -> (v: Value)
        ensures
            value.wraps(v),
    {
        value.into_value()
    }

    pub fn bool(&self) -> (r: Option<bool>)
        ensures
            r == (match *self {
                Value::Bool(b) => Some(b),
                _ => None,
            }),
    {
        if let Value::Bool(val) = self {
            Some(*val)
        } else {
            None
        }
    }

    pub fn i64(&self) -> (r: Option<i64>)
        ensures
            r == (match *self {
                Value::Num(Num::I64(n)) => Some(n),
                _ => None,
            }),
    {
        if let Value::Num(Num::I64(val)) = self {
            Some(*val)
        } else {
            None
        }
    }

    pub fn u64(&self) -> (r: Option<u64>)
        ensures
            r == (match *self {
                Value::Num(Num::U64(n)) => Some(n),
                _ => None,
            }),
    {
        if let Value::Num(Num::U64(val)) = self {
            Some(*val)
        } else {
            None
        }
    }

    /// The bit pattern of the 64-bit float this value holds, if it holds one.
    pub fn f64_bits(&self) -> (r: Option<u64>)
        ensures
            r == (match *self {
                Value::Num(Num::F64(bits)) => Some(bits),
                _ => None,
            }),
    {
        if let Value::Num(Num::F64(bits)) = self {
            Some(*bits)
        } else {
            None
        }
    }

    #[allow(non_snake_case)]
    pub fn String(&self) -> (r: Option<String>)
        ensures
            match *self {
                Value::String(s) => r matches Some(t) && t@ == s@,
                _ => r is None,
            },
    {
        if let Value::String(string) = self {
            Some(string.clone())
        } else {
            None
        }
    }
}

} // verus!

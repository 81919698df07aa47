//! The document model: one node of a parsed extended-JSON tree.
use crate::calendar::{DatetimeFields, EpochTime};
use vstd::prelude::*;

verus! {

/// A key of a `Dict` entry. Keys are not always text; each kind is carried
/// through to the host unchanged.
#[derive(Debug, PartialEq, Eq, Hash)]
pub enum Key {
    Str(String),
    Int(i32),
    Bool(bool),
}

impl Key {
    /// A copy of the key, equal to it.
    pub fn duplicate(&self) -> (r: Key)
        ensures
            r == *self,
    {
        match self {
            Key::Str(s) => Key::Str(s.clone()),
            Key::Int(n) => Key::Int(*n),
            Key::Bool(b) => Key::Bool(*b),
        }
    }
}

/// An extension tag that the model does not interpret: a name and a value,
/// carried verbatim.
#[derive(Debug, PartialEq, Eq)]
pub struct CustomTypeRecord {
    pub name: String,
    pub value: String,
}

impl CustomTypeRecord {
    pub fn new(name: String, value: String) -> (r: CustomTypeRecord)
        ensures
            r.name == name,
            r.value == value,
    {
        CustomTypeRecord { name, value }
    }

    /// A copy of the record, equal to it.
    pub fn duplicate(&self) -> (r: CustomTypeRecord)
        ensures
            r == *self,
    {
        CustomTypeRecord { name: self.name.clone(), value: self.value.clone() }
    }
}

/// One node of an extended-JSON document. `Float` holds the IEEE-754 bit
/// pattern of a double; `Dict` holds its entries in document order, and its
/// keys are expected to be unique (the producer's duty, nothing here
/// removes duplicates).
#[derive(Debug, PartialEq)]
pub enum Value {
    Bool(bool),
    Int(i32),
    Float(u64),
    Str(String),
    Null,
    List(Vec<Value>),
    Dict(Vec<(Key, Value)>),
    Custom(CustomTypeRecord),
    Datetime(DatetimeFields),
    Timestamp(EpochTime),
}

} // verus!

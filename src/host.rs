//! The native value tree handed to an embedding host.
use crate::calendar::DatetimeFields;
use crate::value::Key;
use vstd::prelude::*;

verus! {

/// A native host value. `Sequence` is an immutable ordered sequence,
/// `Mapping` a key/value mapping given as its entries in order, `Record` a
/// two-field named record and `Datetime` a naive calendar datetime (no time
/// zone attached) whose fields are always valid.
#[derive(Debug, PartialEq)]
pub enum HostValue {
    Bool(bool),
    Int(i64),
    Double(u64),
    Str(String),
    Unit,
    Sequence(Vec<HostValue>),
    Mapping(Vec<(Key, HostValue)>),
    Record { name: String, value: String },
    Datetime(DatetimeFields),
}

} // verus!

//! What holds of `marshal` on every document: exact images of scalars, the
//! precise condition under which a tree can be marshalled, and which error
//! a failing tree can report.
use crate::host::HostValue;
use crate::marshal::{
    all_convertible, all_values_convertible, convertible, converts_to, fails_with,
    some_fails_with, some_value_fails_with, ConversionError, MAX_DEPTH,
};
use crate::value::{Key, Value};
use vstd::prelude::*;

verus! {

/// Number of container levels below the root that hold nodes: 0 for a
/// scalar or an empty container, one more than the tallest element otherwise.
pub open spec fn height(v: Value) -> nat
    decreases v,
{
    match v {
        Value::List(items) => if items.len() == 0 {
            0
        } else {
            1 + max_height(items@)
        },
        Value::Dict(entries) => if entries.len() == 0 {
            0
        } else {
            1 + max_value_height(entries@)
        },
        _ => 0,
    }
}

pub open spec fn max_height(s: Seq<Value>) -> nat
    decreases s,
{
    if s.len() == 0 {
        0
    } else {
        let a = max_height(s.drop_last());
        let b = height(s.last());
        if a >= b { a } else { b }
    }
}

pub open spec fn max_value_height(s: Seq<(Key, Value)>) -> nat
    decreases s,
{
    if s.len() == 0 {
        0
    } else {
        let a = max_value_height(s.drop_last());
        let b = height(s.last().1);
        if a >= b { a } else { b }
    }
}

/// Every `Datetime` node of `v` names a real moment and every `Timestamp`
/// node has a calendar reading.
pub open spec fn fields_valid(v: Value) -> bool
    decreases v,
{
    match v {
        Value::List(items) => all_fields_valid(items@),
        Value::Dict(entries) => all_value_fields_valid(entries@),
        Value::Datetime(f) => f.is_valid(),
        Value::Timestamp(t) => t.is_representable(),
        _ => true,
    }
}

pub open spec fn all_fields_valid(s: Seq<Value>) -> bool
    decreases s,
{
    s.len() == 0 || (all_fields_valid(s.drop_last()) && fields_valid(s.last()))
}

pub open spec fn all_value_fields_valid(s: Seq<(Key, Value)>) -> bool
    decreases s,
{
    s.len() == 0 || (all_value_fields_valid(s.drop_last()) && fields_valid(s.last().1))
}

pub open spec fn is_scalar(v: Value) -> bool {
    v is Bool || v is Int || v is Float || v is Str || v is Null
}

/// A scalar always marshals, to the host value of the matching kind with
/// the same content: a boolean, a (widened) integer, the same double bits,
/// the same string, or the unit value.
pub proof fn scalars_marshal_to_equal_content(v: Value, h: HostValue)
    requires
        is_scalar(v),
    ensures
        convertible(v, 0),
        converts_to(v, h) <==> h == match v {
            Value::Bool(b) => HostValue::Bool(b),
            Value::Int(n) => HostValue::Int(n as i64),
            Value::Float(bits) => HostValue::Double(bits),
            Value::Str(s) => HostValue::Str(s),
            _ => HostValue::Unit,
        },
{
}

/// A tree can be marshalled, from nesting level `level`, exactly when all
/// its datetimes and timestamps are valid and its height keeps every node
/// within `MAX_DEPTH`. So a well-formed tree that is not too deep always
/// converts, and one invalid datetime or a too deep branch makes the whole
/// conversion fail.
pub proof fn convertible_iff_valid_and_shallow(v: Value, level: nat)
    ensures
        convertible(v, level) <==> (fields_valid(v) && level + height(v) <= MAX_DEPTH),
    decreases v,
{
    match v {
        Value::List(items) => lemma_items_convertible(items@, level + 1),
        Value::Dict(entries) => lemma_entries_convertible(entries@, level + 1),
        _ => {},
    }
}

proof fn lemma_items_convertible(s: Seq<Value>, level: nat)
    ensures
        all_convertible(s, level) <==> (all_fields_valid(s) && (s.len() == 0 || level
            + max_height(s) <= MAX_DEPTH)),
    decreases s,
{
    if s.len() > 0 {
        lemma_items_convertible(s.drop_last(), level);
        convertible_iff_valid_and_shallow(s.last(), level);
    }
}

proof fn lemma_entries_convertible(s: Seq<(Key, Value)>, level: nat)
    ensures
        all_values_convertible(s, level) <==> (all_value_fields_valid(s) && (s.len() == 0
            || level + max_value_height(s) <= MAX_DEPTH)),
    decreases s,
{
    if s.len() > 0 {
        lemma_entries_convertible(s.drop_last(), level);
        convertible_iff_valid_and_shallow(s.last().1, level);
    }
}

/// The depth-limit error is never reported for a tree that fits within
/// `MAX_DEPTH`, and a tree whose datetimes and timestamps are all valid can
/// fail with nothing else.
pub proof fn depth_error_only_when_too_deep(v: Value, level: nat, e: ConversionError)
    requires
        fails_with(v, level, e),
    ensures
        e == ConversionError::DepthLimit ==> level + height(v) > MAX_DEPTH,
        fields_valid(v) ==> e == ConversionError::DepthLimit,
    decreases v,
{
    if level <= MAX_DEPTH {
        match v {
            Value::List(items) => lemma_items_fail(items@, level + 1, e),
            Value::Dict(entries) => lemma_entries_fail(entries@, level + 1, e),
            _ => {},
        }
    }
}

proof fn lemma_items_fail(s: Seq<Value>, level: nat, e: ConversionError)
    requires
        some_fails_with(s, level, e),
    ensures
        s.len() > 0,
        e == ConversionError::DepthLimit ==> level + max_height(s) > MAX_DEPTH,
        all_fields_valid(s) ==> e == ConversionError::DepthLimit,
    decreases s,
{
    if some_fails_with(s.drop_last(), level, e) {
        lemma_items_fail(s.drop_last(), level, e);
    } else {
        depth_error_only_when_too_deep(s.last(), level, e);
    }
}

proof fn lemma_entries_fail(s: Seq<(Key, Value)>, level: nat, e: ConversionError)
    requires
        some_value_fails_with(s, level, e),
    ensures
        s.len() > 0,
        e == ConversionError::DepthLimit ==> level + max_value_height(s) > MAX_DEPTH,
        all_value_fields_valid(s) ==> e == ConversionError::DepthLimit,
    decreases s,
{
    if some_value_fails_with(s.drop_last(), level, e) {
        lemma_entries_fail(s.drop_last(), level, e);
    } else {
        depth_error_only_when_too_deep(s.last().1, level, e);
    }
}

} // verus!

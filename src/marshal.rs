//! The marshaller: a total, deterministic conversion of a document tree into
//! the host's native value tree, refusing invalid datetimes and trees nested
//! past `MAX_DEPTH`.
use crate::calendar::{DatetimeFields, EpochTime};
use crate::host::HostValue;
use crate::value::{Key, Value};
use vstd::prelude::*;

verus! {

/// Deepest nesting level that `marshal` visits; the root is at level 0 and
/// the elements of a container one level below it.
pub const MAX_DEPTH: usize = 512;

/// Why a document could not be marshalled.
#[derive(Debug, PartialEq, Eq)]
pub enum ConversionError {
    /// A `Datetime` node whose fields name no real moment.
    InvalidDatetime(DatetimeFields),
    /// A `Timestamp` node with no calendar reading in range, or a
    /// microsecond part of a million or more.
    InvalidTimestamp(EpochTime),
    /// A node nested deeper than `MAX_DEPTH`.
    DepthLimit,
}

/// Every node of `v`, with `v` at nesting level `level`, can be marshalled.
pub open spec fn convertible(v: Value, level: nat) -> bool
    decreases v,
{
    level <= MAX_DEPTH && match v {
        Value::List(items) => all_convertible(items@, level + 1),
        Value::Dict(entries) => all_values_convertible(entries@, level + 1),
        Value::Datetime(f) => f.is_valid(),
        Value::Timestamp(t) => t.is_representable(),
        _ => true,
    }
}

/// Each element of `s` is convertible at `level`.
pub open spec fn all_convertible(s: Seq<Value>, level: nat) -> bool
    decreases s,
{
    s.len() == 0 || (all_convertible(s.drop_last(), level) && convertible(s.last(), level))
}

/// Each entry's value in `s` is convertible at `level`.
pub open spec fn all_values_convertible(s: Seq<(Key, Value)>, level: nat) -> bool
    decreases s,
{
    s.len() == 0 || (all_values_convertible(s.drop_last(), level) && convertible(s.last().1, level))
}

/// `e` is the error of some node of `v`, with `v` at nesting level `level`.
pub open spec fn fails_with(v: Value, level: nat, e: ConversionError) -> bool
    decreases v,
{
    if level > MAX_DEPTH {
        e == ConversionError::DepthLimit
    } else {
        match v {
            Value::List(items) => some_fails_with(items@, level + 1, e),
            Value::Dict(entries) => some_value_fails_with(entries@, level + 1, e),
            Value::Datetime(f) => !f.is_valid() && e == ConversionError::InvalidDatetime(f),
            Value::Timestamp(t) => !t.is_representable() && e == ConversionError::InvalidTimestamp(
                t,
            ),
            _ => false,
        }
    }
}

/// Some element of `s`, at `level`, fails with `e`.
pub open spec fn some_fails_with(s: Seq<Value>, level: nat, e: ConversionError) -> bool
    decreases s,
{
    s.len() > 0 && (some_fails_with(s.drop_last(), level, e) || fails_with(s.last(), level, e))
}

/// Some entry's value of `s`, at `level`, fails with `e`.
pub open spec fn some_value_fails_with(s: Seq<(Key, Value)>, level: nat, e: ConversionError) -> bool
    decreases s,
{
    s.len() > 0 && (some_value_fails_with(s.drop_last(), level, e) || fails_with(
        s.last().1,
        level,
        e,
    ))
}

/// `h` is the host image of `v`, node for node: same variant, same content,
/// same sequence order and length, same keys in the same order.
pub open spec fn converts_to(v: Value, h: HostValue) -> bool
    decreases v,
{
    match v {
        Value::Bool(b) => h == HostValue::Bool(b),
        Value::Int(n) => h == HostValue::Int(n as i64),
        Value::Float(bits) => h == HostValue::Double(bits),
        Value::Str(s) => h == HostValue::Str(s),
        Value::Null => h == HostValue::Unit,
        Value::List(items) => match h {
            HostValue::Sequence(outs) => all_convert_to(items@, outs@),
            _ => false,
        },
        Value::Dict(entries) => match h {
            HostValue::Mapping(outs) => all_entries_convert_to(entries@, outs@),
            _ => false,
        },
        Value::Custom(c) => h == (HostValue::Record { name: c.name, value: c.value }),
        Value::Datetime(f) => h == HostValue::Datetime(f),
        Value::Timestamp(t) => match h {
            HostValue::Datetime(f) => f.is_valid() && f.epoch_seconds() == t.seconds
                && f.microsecond == t.micros,
            _ => false,
        },
    }
}

/// `outs` is `s` converted element by element, in order.
pub open spec fn all_convert_to(s: Seq<Value>, outs: Seq<HostValue>) -> bool
    decreases s,
{
    s.len() == outs.len() && (s.len() == 0 || (all_convert_to(s.drop_last(), outs.drop_last())
        && converts_to(s.last(), outs.last())))
}

/// `outs` holds the entries of `s` in order, each key unchanged and each
/// value converted.
pub open spec fn all_entries_convert_to(s: Seq<(Key, Value)>, outs: Seq<(Key, HostValue)>) -> bool
    decreases s,
{
    s.len() == outs.len() && (s.len() == 0 || (all_entries_convert_to(
        s.drop_last(),
        outs.drop_last(),
    ) && outs.last().0 == s.last().0 && converts_to(s.last().1, outs.last().1)))
}

proof fn lemma_all_convertible(s: Seq<Value>, level: nat)
    ensures
        all_convertible(s, level) <==> forall|i: int|
            0 <= i < s.len() ==> convertible(#[trigger] s[i], level),
    decreases s.len(),
{
    if s.len() > 0 {
        let t = s.drop_last();
        lemma_all_convertible(t, level);
        if forall|i: int| 0 <= i < s.len() ==> convertible(#[trigger] s[i], level) {
            assert forall|i: int| 0 <= i < t.len() implies convertible(#[trigger] t[i], level) by {
                assert(t[i] == s[i]);
            }
        }
        if all_convertible(s, level) {
            assert forall|i: int| 0 <= i < s.len() implies convertible(#[trigger] s[i], level) by {
                if i < t.len() {
                    assert(t[i] == s[i]);
                }
            }
        }
    }
}

proof fn lemma_all_values_convertible(s: Seq<(Key, Value)>, level: nat)
    ensures
        all_values_convertible(s, level) <==> forall|i: int|
            0 <= i < s.len() ==> convertible(#[trigger] s[i].1, level),
    decreases s.len(),
{
    if s.len() > 0 {
        let t = s.drop_last();
        lemma_all_values_convertible(t, level);
        if forall|i: int| 0 <= i < s.len() ==> convertible(#[trigger] s[i].1, level) {
            assert forall|i: int| 0 <= i < t.len() implies convertible(#[trigger] t[i].1, level) by {
                assert(t[i] == s[i]);
            }
        }
        if all_values_convertible(s, level) {
            assert forall|i: int| 0 <= i < s.len() implies convertible(#[trigger] s[i].1, level) by {
                if i < t.len() {
                    assert(t[i] == s[i]);
                }
            }
        }
    }
}

proof fn lemma_some_fails_with(s: Seq<Value>, level: nat, e: ConversionError)
    ensures
        some_fails_with(s, level, e) <==> exists|i: int|
            0 <= i < s.len() && fails_with(#[trigger] s[i], level, e),
    decreases s.len(),
{
    if s.len() > 0 {
        lemma_some_fails_with(s.drop_last(), level, e);
        assert(forall|i: int| 0 <= i < s.len() - 1 ==> #[trigger] s.drop_last()[i] == s[i]);
        if exists|i: int| 0 <= i < s.len() && fails_with(#[trigger] s[i], level, e) {
            let i = choose|i: int| 0 <= i < s.len() && fails_with(#[trigger] s[i], level, e);
            if i < s.len() - 1 {
                assert(fails_with(s.drop_last()[i], level, e));
            }
        }
    }
}

proof fn lemma_some_value_fails_with(s: Seq<(Key, Value)>, level: nat, e: ConversionError)
    ensures
        some_value_fails_with(s, level, e) <==> exists|i: int|
            0 <= i < s.len() && fails_with(#[trigger] s[i].1, level, e),
    decreases s.len(),
{
    if s.len() > 0 {
        lemma_some_value_fails_with(s.drop_last(), level, e);
        assert(forall|i: int| 0 <= i < s.len() - 1 ==> #[trigger] s.drop_last()[i] == s[i]);
        if exists|i: int| 0 <= i < s.len() && fails_with(#[trigger] s[i].1, level, e) {
            let i = choose|i: int| 0 <= i < s.len() && fails_with(#[trigger] s[i].1, level, e);
            if i < s.len() - 1 {
                assert(fails_with(s.drop_last()[i].1, level, e));
            }
        }
    }
}

proof fn lemma_all_convert_to(s: Seq<Value>, outs: Seq<HostValue>)
    ensures
        all_convert_to(s, outs) <==> (s.len() == outs.len() && forall|i: int|
            0 <= i < s.len() ==> converts_to(#[trigger] s[i], outs[i])),
    decreases s.len(),
{
    if s.len() > 0 && s.len() == outs.len() {
        let t = s.drop_last();
        let u = outs.drop_last();
        lemma_all_convert_to(t, u);
        if forall|i: int| 0 <= i < s.len() ==> converts_to(#[trigger] s[i], outs[i]) {
            assert forall|i: int| 0 <= i < t.len() implies converts_to(#[trigger] t[i], u[i]) by {
                assert(t[i] == s[i] && u[i] == outs[i]);
            }
        }
        if all_convert_to(s, outs) {
            assert forall|i: int| 0 <= i < s.len() implies converts_to(#[trigger] s[i], outs[i]) by {
                if i < t.len() {
                    assert(t[i] == s[i] && u[i] == outs[i]);
                }
            }
        }
    }
}

proof fn lemma_all_entries_convert_to(s: Seq<(Key, Value)>, outs: Seq<(Key, HostValue)>)
    ensures
        all_entries_convert_to(s, outs) <==> (s.len() == outs.len() && forall|i: int|
            0 <= i < s.len() ==> outs[i].0 == (#[trigger] s[i]).0 && converts_to(s[i].1, outs[i].1)),
    decreases s.len(),
{
    if s.len() > 0 && s.len() == outs.len() {
        let t = s.drop_last();
        let u = outs.drop_last();
        lemma_all_entries_convert_to(t, u);
        if forall|i: int|
            0 <= i < s.len() ==> outs[i].0 == (#[trigger] s[i]).0 && converts_to(s[i].1, outs[i].1) {
            assert forall|i: int| 0 <= i < t.len() implies u[i].0 == (#[trigger] t[i]).0
                && converts_to(t[i].1, u[i].1) by {
                assert(t[i] == s[i] && u[i] == outs[i]);
            }
        }
        if all_entries_convert_to(s, outs) {
            assert forall|i: int| 0 <= i < s.len() implies outs[i].0 == (#[trigger] s[i]).0
                && converts_to(s[i].1, outs[i].1) by {
                if i < t.len() {
                    assert(t[i] == s[i] && u[i] == outs[i]);
                }
            }
        }
    }
}

/// Converts a document tree into its host image. Succeeds exactly when
/// every datetime and timestamp in the tree is valid and no node lies below
/// `MAX_DEPTH`; otherwise it returns the error of one failing node and no
/// partial result.
pub fn marshal(v: &Value) -> (r: Result<HostValue, ConversionError>)
    ensures
        r.is_ok() == convertible(*v, 0),
        r matches Ok(h) ==> converts_to(*v, h),
        r matches Err(e) ==> fails_with(*v, 0, e),
{
    marshal_at(v, 0)
}

fn marshal_at(v: &Value, level: usize) -> (r: Result<HostValue, ConversionError>)
    requires
        level <= MAX_DEPTH + 1,
    ensures
        r.is_ok() == convertible(*v, level as nat),
        r matches Ok(h) ==> converts_to(*v, h),
        r matches Err(e) ==> fails_with(*v, level as nat, e),
    decreases MAX_DEPTH + 1 - level,
{
    if level > MAX_DEPTH {
        return Err(ConversionError::DepthLimit);
    }
    match v {
        Value::Bool(b) => Ok(HostValue::Bool(*b)),
        Value::Int(n) => Ok(HostValue::Int(*n as i64)),
        Value::Float(bits) => Ok(HostValue::Double(*bits)),
        Value::Str(s) => Ok(HostValue::Str(s.clone())),
        Value::Null => Ok(HostValue::Unit),
        Value::List(items) => {
            let mut outs: Vec<HostValue> = Vec::new();
            let mut i: usize = 0;
            while i < items.len()
                invariant
                    *v == Value::List(*items),
                    level <= MAX_DEPTH,
                    i <= items.len(),
                    outs.len() == i,
                    forall|j: int| 0 <= j < i ==> convertible(#[trigger] items[j], level as nat + 1),
                    forall|j: int| 0 <= j < i ==> converts_to(#[trigger] items[j], outs[j]),
                decreases items.len() - i,
            {
                match marshal_at(&items[i], level + 1) {
                    Ok(h) => outs.push(h),
                    Err(e) => {
                        proof {
                            lemma_all_convertible(items@, level as nat + 1);
                            lemma_some_fails_with(items@, level as nat + 1, e);
                            assert(fails_with(items@[i as int], level as nat + 1, e));
                        }
                        return Err(e);
                    },
                }
                i += 1;
            }
            proof {
                lemma_all_convertible(items@, level as nat + 1);
                lemma_all_convert_to(items@, outs@);
            }
            Ok(HostValue::Sequence(outs))
        },
        Value::Dict(entries) => {
            let mut outs: Vec<(Key, HostValue)> = Vec::new();
            let mut i: usize = 0;
            while i < entries.len()
                invariant
                    *v == Value::Dict(*entries),
                    level <= MAX_DEPTH,
                    i <= entries.len(),
                    outs.len() == i,
                    forall|j: int|
                        0 <= j < i ==> convertible(#[trigger] entries[j].1, level as nat + 1),
                    forall|j: int|
                        0 <= j < i ==> outs[j].0 == (#[trigger] entries[j]).0 && converts_to(
                            entries[j].1,
                            outs[j].1,
                        ),
                decreases entries.len() - i,
            {
                let (k, item) = &entries[i];
                match marshal_at(item, level + 1) {
                    Ok(h) => outs.push((k.duplicate(), h)),
                    Err(e) => {
                        proof {
                            lemma_all_values_convertible(entries@, level as nat + 1);
                            lemma_some_value_fails_with(entries@, level as nat + 1, e);
                            assert(fails_with(entries@[i as int].1, level as nat + 1, e));
                        }
                        return Err(e);
                    },
                }
                i += 1;
            }
            proof {
                lemma_all_values_convertible(entries@, level as nat + 1);
                lemma_all_entries_convert_to(entries@, outs@);
            }
            Ok(HostValue::Mapping(outs))
        },
        Value::Custom(c) => Ok(HostValue::Record { name: c.name.clone(), value: c.value.clone() }),
        Value::Datetime(f) => {
            if f.check() {
                Ok(HostValue::Datetime(*f))
            } else {
                Err(ConversionError::InvalidDatetime(*f))
            }
        },
        Value::Timestamp(t) => match t.to_fields() {
            Some(f) => Ok(HostValue::Datetime(f)),
            None => Err(ConversionError::InvalidTimestamp(*t)),
        },
    }
}

} // verus!

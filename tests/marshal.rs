use magicjson::calendar::{DatetimeFields, EpochTime, MAX_YEAR, MIN_YEAR};
use magicjson::host::HostValue;
use magicjson::marshal::{marshal, ConversionError, MAX_DEPTH};
use magicjson::value::{CustomTypeRecord, Key, Value};

fn dt(year: i32, month: u32, day: u32, hour: u32, minute: u32, second: u32, microsecond: u32) -> DatetimeFields {
    DatetimeFields { year, month, day, hour, minute, second, microsecond }
}

fn nested_lists(levels: usize, innermost: Value) -> Value {
    let mut v = innermost;
    for _ in 0..levels {
        v = Value::List(vec![v]);
    }
    v
}

// Takes a deep chain of single-element lists apart one level at a time, so
// that dropping it never recurses deeply.
fn dismantle(v: Value) {
    let mut cur = v;
    loop {
        match cur {
            Value::List(mut items) => match items.pop() {
                Some(inner) => cur = inner,
                None => break,
            },
            _ => break,
        }
    }
}

fn dismantle_host(h: HostValue) {
    let mut cur = h;
    loop {
        match cur {
            HostValue::Sequence(mut items) => match items.pop() {
                Some(inner) => cur = inner,
                None => break,
            },
            _ => break,
        }
    }
}

#[test]
fn scalars_keep_kind_and_content() {
    assert_eq!(marshal(&Value::Bool(true)), Ok(HostValue::Bool(true)));
    assert_eq!(marshal(&Value::Bool(false)), Ok(HostValue::Bool(false)));
    assert_eq!(marshal(&Value::Int(-7)), Ok(HostValue::Int(-7)));
    assert_eq!(marshal(&Value::Int(i32::MIN)), Ok(HostValue::Int(-2147483648)));
    assert_eq!(marshal(&Value::Int(i32::MAX)), Ok(HostValue::Int(2147483647)));
    let bits = 1.5f64.to_bits();
    assert_eq!(marshal(&Value::Float(bits)), Ok(HostValue::Double(bits)));
    assert_eq!(marshal(&Value::Str("héllo \u{1F600}".to_string())), Ok(HostValue::Str("héllo \u{1F600}".to_string())));
    assert_eq!(marshal(&Value::Str(String::new())), Ok(HostValue::Str(String::new())));
    assert_eq!(marshal(&Value::Null), Ok(HostValue::Unit));
}

#[test]
fn float_bits_pass_unchanged() {
    for x in [0.1f64, -0.0, f64::MAX, f64::MIN_POSITIVE, f64::INFINITY] {
        let r = marshal(&Value::Float(x.to_bits()));
        match r {
            Ok(HostValue::Double(b)) => assert_eq!(f64::from_bits(b).to_bits(), x.to_bits()),
            other => panic!("unexpected {:?}", other),
        }
    }
}

#[test]
fn list_keeps_order() {
    let v = Value::List(vec![Value::Int(1), Value::Int(2), Value::Int(3)]);
    assert_eq!(
        marshal(&v),
        Ok(HostValue::Sequence(vec![HostValue::Int(1), HostValue::Int(2), HostValue::Int(3)]))
    );
}

#[test]
fn empty_containers() {
    assert_eq!(marshal(&Value::List(vec![])), Ok(HostValue::Sequence(vec![])));
    assert_eq!(marshal(&Value::Dict(vec![])), Ok(HostValue::Mapping(vec![])));
}

#[test]
fn dict_single_entry() {
    let v = Value::Dict(vec![(Key::Str("a".to_string()), Value::Int(1))]);
    assert_eq!(
        marshal(&v),
        Ok(HostValue::Mapping(vec![(Key::Str("a".to_string()), HostValue::Int(1))]))
    );
}

#[test]
fn dict_keys_of_every_kind_pass_through() {
    let v = Value::Dict(vec![
        (Key::Int(5), Value::Null),
        (Key::Bool(true), Value::Str("x".to_string())),
        (Key::Str(String::new()), Value::Bool(false)),
    ]);
    assert_eq!(
        marshal(&v),
        Ok(HostValue::Mapping(vec![
            (Key::Int(5), HostValue::Unit),
            (Key::Bool(true), HostValue::Str("x".to_string())),
            (Key::Str(String::new()), HostValue::Bool(false)),
        ]))
    );
}

#[test]
fn duplicate_keys_are_not_removed() {
    let v = Value::Dict(vec![
        (Key::Str("k".to_string()), Value::Int(1)),
        (Key::Str("k".to_string()), Value::Int(2)),
    ]);
    assert_eq!(
        marshal(&v),
        Ok(HostValue::Mapping(vec![
            (Key::Str("k".to_string()), HostValue::Int(1)),
            (Key::Str("k".to_string()), HostValue::Int(2)),
        ]))
    );
}

#[test]
fn custom_record_verbatim() {
    let v = Value::Custom(CustomTypeRecord::new("point".to_string(), "1,2".to_string()));
    assert_eq!(
        marshal(&v),
        Ok(HostValue::Record { name: "point".to_string(), value: "1,2".to_string() })
    );
    let odd = Value::Custom(CustomTypeRecord::new("  n\t".to_string(), "\"v\"\n".to_string()));
    assert_eq!(
        marshal(&odd),
        Ok(HostValue::Record { name: "  n\t".to_string(), value: "\"v\"\n".to_string() })
    );
}

#[test]
fn datetime_fields_kept() {
    let f = dt(2024, 1, 2, 3, 4, 5, 600000);
    match marshal(&Value::Datetime(f)) {
        Ok(HostValue::Datetime(g)) => {
            assert_eq!(g.year, 2024);
            assert_eq!(g.month, 1);
            assert_eq!(g.day, 2);
            assert_eq!(g.hour, 3);
            assert_eq!(g.minute, 4);
            assert_eq!(g.second, 5);
            assert_eq!(g.microsecond, 600000);
        },
        other => panic!("unexpected {:?}", other),
    }
}

#[test]
fn timestamp_zero_is_epoch() {
    let t = EpochTime { seconds: 0, micros: 0 };
    assert_eq!(marshal(&Value::Timestamp(t)), Ok(HostValue::Datetime(dt(1970, 1, 1, 0, 0, 0, 0))));
}

#[test]
fn timestamp_readings() {
    let cases = [
        (90061i64, 500u32, dt(1970, 1, 2, 1, 1, 1, 500)),
        (-1, 0, dt(1969, 12, 31, 23, 59, 59, 0)),
        (-1, 999999, dt(1969, 12, 31, 23, 59, 59, 999999)),
        (951782400, 0, dt(2000, 2, 29, 0, 0, 0, 0)),
        (253402300799, 123456, dt(9999, 12, 31, 23, 59, 59, 123456)),
        (-62135596800, 0, dt(1, 1, 1, 0, 0, 0, 0)),
    ];
    for (seconds, micros, want) in cases {
        let t = EpochTime { seconds, micros };
        assert_eq!(t.to_fields(), Some(want));
        assert_eq!(marshal(&Value::Timestamp(t)), Ok(HostValue::Datetime(want)));
    }
}

#[test]
fn timestamp_out_of_range() {
    for t in [
        EpochTime { seconds: i64::MAX, micros: 0 },
        EpochTime { seconds: i64::MIN, micros: 0 },
        EpochTime { seconds: 0, micros: 1_000_000 },
        EpochTime { seconds: 0, micros: u32::MAX },
    ] {
        assert_eq!(t.to_fields(), None);
        assert_eq!(marshal(&Value::Timestamp(t)), Err(ConversionError::InvalidTimestamp(t)));
    }
}

#[test]
fn calendar_validity() {
    assert!(dt(2024, 2, 29, 0, 0, 0, 0).check());
    assert!(!dt(2023, 2, 29, 0, 0, 0, 0).check());
    assert!(dt(2000, 2, 29, 0, 0, 0, 0).check());
    assert!(!dt(1900, 2, 29, 0, 0, 0, 0).check());
    assert!(!dt(2024, 4, 31, 0, 0, 0, 0).check());
    assert!(dt(2024, 12, 31, 23, 59, 59, 999999).check());
    assert!(!dt(2024, 13, 1, 0, 0, 0, 0).check());
    assert!(!dt(2024, 0, 1, 0, 0, 0, 0).check());
    assert!(!dt(2024, 1, 0, 0, 0, 0, 0).check());
    assert!(!dt(2024, 1, 1, 24, 0, 0, 0).check());
    assert!(!dt(2024, 1, 1, 0, 60, 0, 0).check());
    assert!(!dt(2024, 1, 1, 0, 0, 60, 0).check());
    assert!(dt(2024, 1, 1, 23, 59, 59, 1_500_000).check());
    assert!(!dt(2024, 1, 1, 23, 59, 58, 1_500_000).check());
    assert!(!dt(2024, 1, 1, 23, 59, 59, 2_000_000).check());
    assert!(dt(MAX_YEAR, 12, 31, 0, 0, 0, 0).check());
    assert!(!dt(MAX_YEAR + 1, 1, 1, 0, 0, 0, 0).check());
    assert!(dt(MIN_YEAR, 1, 1, 0, 0, 0, 0).check());
    assert!(!dt(MIN_YEAR - 1, 12, 31, 0, 0, 0, 0).check());
}

#[test]
fn invalid_datetime_fails_whole_tree() {
    let bad = dt(2023, 2, 29, 0, 0, 0, 0);
    assert_eq!(marshal(&Value::Datetime(bad)), Err(ConversionError::InvalidDatetime(bad)));
    let tree = Value::Dict(vec![
        (Key::Str("ok".to_string()), Value::Int(1)),
        (
            Key::Str("list".to_string()),
            Value::List(vec![Value::Null, Value::Datetime(bad), Value::Int(2)]),
        ),
    ]);
    assert_eq!(marshal(&tree), Err(ConversionError::InvalidDatetime(bad)));
}

#[test]
fn well_formed_tree_is_isomorphic() {
    let f = dt(1999, 12, 31, 23, 59, 59, 1);
    let tree = Value::List(vec![
        Value::Dict(vec![
            (Key::Str("when".to_string()), Value::Datetime(f)),
            (Key::Int(2), Value::List(vec![Value::Bool(true), Value::Null])),
        ]),
        Value::Timestamp(EpochTime { seconds: 86400, micros: 7 }),
        Value::Custom(CustomTypeRecord::new("t".to_string(), "v".to_string())),
    ]);
    let want = HostValue::Sequence(vec![
        HostValue::Mapping(vec![
            (Key::Str("when".to_string()), HostValue::Datetime(f)),
            (Key::Int(2), HostValue::Sequence(vec![HostValue::Bool(true), HostValue::Unit])),
        ]),
        HostValue::Datetime(dt(1970, 1, 2, 0, 0, 0, 7)),
        HostValue::Record { name: "t".to_string(), value: "v".to_string() },
    ]);
    assert_eq!(marshal(&tree), Ok(want));
}

#[test]
fn nesting_up_to_the_limit_converts() {
    let v = nested_lists(MAX_DEPTH, Value::Int(9));
    let h = marshal(&v).unwrap();
    let mut cur = &h;
    let mut levels = 0usize;
    while let HostValue::Sequence(items) = cur {
        assert_eq!(items.len(), 1);
        cur = &items[0];
        levels += 1;
    }
    assert_eq!(levels, MAX_DEPTH);
    assert_eq!(cur, &HostValue::Int(9));
    dismantle_host(h);
    dismantle(v);
}

#[test]
fn empty_list_at_the_bottom_does_not_count() {
    let v = nested_lists(MAX_DEPTH + 1, Value::List(vec![]));
    assert_eq!(marshal(&v), Err(ConversionError::DepthLimit));
    dismantle(v);
    let w = nested_lists(MAX_DEPTH, Value::List(vec![]));
    let h = marshal(&w);
    assert!(h.is_ok());
    dismantle_host(h.unwrap());
    dismantle(w);
}

#[test]
fn nesting_past_the_limit_is_refused() {
    let v = nested_lists(MAX_DEPTH + 1, Value::Int(9));
    assert_eq!(marshal(&v), Err(ConversionError::DepthLimit));
    dismantle(v);
    let d = Value::Dict(vec![(Key::Int(0), nested_lists(MAX_DEPTH, Value::Null))]);
    assert_eq!(marshal(&d), Err(ConversionError::DepthLimit));
    if let Value::Dict(mut entries) = d {
        if let Some((_, inner)) = entries.pop() {
            dismantle(inner);
        }
    }
}

#[test]
fn very_deep_nesting_reports_depth_limit() {
    let v = nested_lists(100_000, Value::Int(1));
    assert_eq!(marshal(&v), Err(ConversionError::DepthLimit));
    dismantle(v);
}

#[test]
fn key_and_record_copies_are_equal() {
    let k = Key::Str("abc".to_string());
    assert_eq!(k.duplicate(), k);
    assert_eq!(Key::Int(-3).duplicate(), Key::Int(-3));
    let r = CustomTypeRecord::new("n".to_string(), "v".to_string());
    assert_eq!(r.name, "n");
    assert_eq!(r.value, "v");
    assert_eq!(r.duplicate(), r);
}

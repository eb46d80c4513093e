use rugen::keys::string_less;
use rugen::markers::{
    bit_or, bit_or_marker, boolean, choice, mul_alpha, mul_range, optional, range,
    range_inclusive, string, values, variable_values, weighted,
};
use rugen::{
    checked_from_value, make_description, to_description, try_build_description, DataDescription,
    DescriptionError, FloatBits, Marker, ScriptValue, TargetType, TypeKey,
};

fn float(x: f64) -> ScriptValue {
    ScriptValue::Float(FloatBits { bits: x.to_bits() })
}

fn marker(m: Marker) -> ScriptValue {
    ScriptValue::Marker(Box::new(m))
}

fn key(s: &str) -> String {
    s.to_string()
}

#[test]
fn plain_number_describes_itself() {
    let d = to_description(&ScriptValue::Signed(10)).unwrap();
    match d {
        DataDescription::Just(ScriptValue::Signed(10)) => {}
        other => panic!("unexpected {:?}", other),
    }
}

#[test]
fn plain_string_describes_itself() {
    let d = to_description(&ScriptValue::String(key("abc"))).unwrap();
    match d {
        DataDescription::Just(ScriptValue::String(s)) => assert_eq!(s, "abc"),
        other => panic!("unexpected {:?}", other),
    }
}

#[test]
fn non_negative_range_is_unsigned() {
    let v = ScriptValue::Range(Box::new(ScriptValue::Signed(1)), Box::new(ScriptValue::Signed(10)));
    match to_description(&v).unwrap() {
        DataDescription::UInt { min: 1, max: 10, inclusive: false } => {}
        other => panic!("unexpected {:?}", other),
    }
}

#[test]
fn negative_range_is_signed() {
    let v = ScriptValue::RangeInclusive(Box::new(ScriptValue::Signed(-100)), Box::new(ScriptValue::Signed(100)));
    match to_description(&v).unwrap() {
        DataDescription::Int { min: -100, max: 100, inclusive: true } => {}
        other => panic!("unexpected {:?}", other),
    }
}

#[test]
fn range_with_negative_end_is_refused() {
    let v = ScriptValue::Range(Box::new(ScriptValue::Signed(0)), Box::new(ScriptValue::Signed(-5)));
    match to_description(&v) {
        Err(DescriptionError::InvalidRangeEnd(None)) => {}
        other => panic!("unexpected {:?}", other),
    }
}

#[test]
fn float_range_keeps_its_bounds() {
    let v = ScriptValue::Range(Box::new(float(0.5)), Box::new(float(2.5)));
    match to_description(&v).unwrap() {
        DataDescription::Float { min, max, inclusive: false } => {
            assert_eq!(f64::from_bits(min.bits), 0.5);
            assert_eq!(f64::from_bits(max.bits), 2.5);
        }
        other => panic!("unexpected {:?}", other),
    }
}

#[test]
fn char_range_is_a_char_range() {
    let v = ScriptValue::RangeInclusive(Box::new(ScriptValue::Char('a')), Box::new(ScriptValue::Char('z')));
    match to_description(&v).unwrap() {
        DataDescription::Char { min: 'a', max: 'z', inclusive: true } => {}
        other => panic!("unexpected {:?}", other),
    }
}

#[test]
fn range_of_two_types_is_refused() {
    let v = ScriptValue::Range(Box::new(ScriptValue::Signed(1)), Box::new(float(2.0)));
    match make_description(&v, 7) {
        Err(DescriptionError::MinMaxTypeMismatch(Some(7))) => {}
        other => panic!("unexpected {:?}", other),
    }
}

#[test]
fn range_of_booleans_is_unsupported() {
    let v = ScriptValue::Range(Box::new(ScriptValue::Bool(false)), Box::new(ScriptValue::Bool(true)));
    match to_description(&v) {
        Err(DescriptionError::UnsupportedType(None)) => {}
        other => panic!("unexpected {:?}", other),
    }
}

#[test]
fn range_from_reaches_the_maximum() {
    let v = ScriptValue::RangeFrom(Box::new(ScriptValue::Signed(100)));
    match to_description(&v).unwrap() {
        DataDescription::UInt { min: 100, max, inclusive: true } => assert_eq!(max, i64::MAX as u64),
        other => panic!("unexpected {:?}", other),
    }
}

#[test]
fn range_to_starts_at_the_minimum() {
    let v = ScriptValue::RangeTo(Box::new(ScriptValue::Signed(100)));
    match to_description(&v).unwrap() {
        DataDescription::Int { min: i64::MIN, max: 100, inclusive: false } => {}
        other => panic!("unexpected {:?}", other),
    }
}

#[test]
fn range_to_of_a_float_starts_at_the_least_float() {
    let v = ScriptValue::RangeTo(Box::new(float(1.0)));
    match to_description(&v).unwrap() {
        DataDescription::Float { min, max, inclusive: false } => {
            assert_eq!(f64::from_bits(min.bits), f64::MIN);
            assert_eq!(f64::from_bits(max.bits), 1.0);
        }
        other => panic!("unexpected {:?}", other),
    }
}

#[test]
fn range_to_of_an_unsigned_number_mixes_types() {
    let v = ScriptValue::RangeTo(Box::new(ScriptValue::Unsigned(100)));
    match to_description(&v) {
        Err(DescriptionError::MinMaxTypeMismatch(None)) => {}
        other => panic!("unexpected {:?}", other),
    }
}

#[test]
fn full_range_is_unsupported() {
    match make_description(&ScriptValue::RangeFull, 3) {
        Err(DescriptionError::UnsupportedType(Some(3))) => {}
        other => panic!("unexpected {:?}", other),
    }
}

#[test]
fn empty_choice_is_refused() {
    match make_description(&marker(choice(vec![])), 12) {
        Err(DescriptionError::NoValueToChooseFrom(Some(12))) => {}
        other => panic!("unexpected {:?}", other),
    }
}

#[test]
fn choice_describes_each_value() {
    let m = choice(vec![ScriptValue::Signed(1), ScriptValue::Signed(2)]);
    match to_description(&marker(m)).unwrap() {
        DataDescription::Choice(ds) => {
            assert_eq!(ds.len(), 2);
            assert!(matches!(ds[0], DataDescription::Just(ScriptValue::Signed(1))));
            assert!(matches!(ds[1], DataDescription::Just(ScriptValue::Signed(2))));
        }
        other => panic!("unexpected {:?}", other),
    }
}

#[test]
fn probability_above_one_is_refused() {
    let m = optional(float(1.5), ScriptValue::Signed(1));
    match make_description(&marker(m), 4) {
        Err(DescriptionError::InvalidProbability(p, Some(4))) => assert_eq!(f64::from_bits(p.bits), 1.5),
        other => panic!("unexpected {:?}", other),
    }
}

#[test]
fn negative_probability_is_refused() {
    let m = optional(float(-0.25), ScriptValue::Signed(1));
    assert!(matches!(to_description(&marker(m)), Err(DescriptionError::InvalidProbability(_, None))));
}

#[test]
fn probability_bounds_are_accepted() {
    for p in [0.0, -0.0, 0.5, 1.0] {
        let m = optional(float(p), ScriptValue::Signed(1));
        match to_description(&marker(m)).unwrap() {
            DataDescription::Optional { p: q, .. } => assert_eq!(q.bits, p.to_bits()),
            other => panic!("unexpected {:?}", other),
        }
    }
}

#[test]
fn nan_probability_is_refused() {
    let m = optional(float(f64::NAN), ScriptValue::Signed(1));
    assert!(matches!(to_description(&marker(m)), Err(DescriptionError::InvalidProbability(_, None))));
}

#[test]
fn probability_that_is_no_float_is_a_conversion_error() {
    let m = optional(ScriptValue::Signed(1), ScriptValue::Signed(1));
    match make_description(&marker(m), 9) {
        Err(DescriptionError::ConversionError(name, Some(9))) => assert_eq!(name, "f64"),
        other => panic!("unexpected {:?}", other),
    }
}

#[test]
fn object_describes_each_entry() {
    let obj = ScriptValue::Object(vec![
        (key("a"), ScriptValue::Range(Box::new(ScriptValue::Signed(1)), Box::new(ScriptValue::Signed(10)))),
        (key("b"), ScriptValue::Bool(true)),
    ]);
    match to_description(&obj).unwrap() {
        DataDescription::Object(es) => {
            assert_eq!(es.len(), 2);
            assert_eq!(es[0].0, "a");
            assert!(matches!(es[0].1, DataDescription::UInt { min: 1, max: 10, inclusive: false }));
            assert_eq!(es[1].0, "b");
            assert!(matches!(es[1].1, DataDescription::Just(ScriptValue::Bool(true))));
        }
        other => panic!("unexpected {:?}", other),
    }
}

#[test]
fn later_entry_of_a_key_wins() {
    let obj = ScriptValue::Object(vec![
        (key("a"), ScriptValue::Signed(1)),
        (key("b"), ScriptValue::Signed(2)),
        (key("a"), ScriptValue::Signed(3)),
    ]);
    match to_description(&obj).unwrap() {
        DataDescription::Object(es) => {
            assert_eq!(es.len(), 2);
            assert_eq!(es[0].0, "a");
            assert!(matches!(es[0].1, DataDescription::Just(ScriptValue::Signed(3))));
        }
        other => panic!("unexpected {:?}", other),
    }
}

#[test]
fn first_error_of_a_list_is_reported() {
    let list = ScriptValue::Vec(vec![
        ScriptValue::Signed(1),
        ScriptValue::RangeFull,
        marker(choice(vec![])),
    ]);
    assert!(matches!(to_description(&list), Err(DescriptionError::UnsupportedType(None))));
}

#[test]
fn list_describes_each_item() {
    let list = ScriptValue::Vec(vec![ScriptValue::Signed(1), marker(boolean())]);
    match to_description(&list).unwrap() {
        DataDescription::Vec(ds) => {
            assert_eq!(ds.len(), 2);
            assert!(matches!(ds[1], DataDescription::Bool));
        }
        other => panic!("unexpected {:?}", other),
    }
}

#[test]
fn description_value_is_taken_as_is() {
    let v = ScriptValue::Description(Box::new(DataDescription::Bool));
    assert!(matches!(to_description(&v), Ok(DataDescription::Bool)));
}

#[test]
fn result_holding_a_marker_is_unwrapped() {
    let v = ScriptValue::Result(Ok(Box::new(marker(boolean()))));
    assert!(matches!(to_description(&v), Ok(DataDescription::Bool)));
}

#[test]
fn result_holding_an_error_is_the_error() {
    let v = ScriptValue::Result(Err(Box::new(ScriptValue::Error(DescriptionError::CountMustBeNonNegative(Some(2))))));
    assert!(matches!(to_description(&v), Err(DescriptionError::CountMustBeNonNegative(Some(2)))));
}

#[test]
fn result_holding_another_error_describes_itself() {
    let v = ScriptValue::Result(Err(Box::new(ScriptValue::Signed(5))));
    assert!(matches!(to_description(&v), Ok(DataDescription::Just(ScriptValue::Result(Err(_))))));
}

#[test]
fn checked_value_unwraps_results() {
    let v = ScriptValue::Result(Ok(Box::new(ScriptValue::Signed(5))));
    assert!(matches!(checked_from_value(&v, TargetType::Value), Ok(ScriptValue::Signed(5))));
    let e = ScriptValue::Result(Err(Box::new(ScriptValue::Error(DescriptionError::UnsupportedType(None)))));
    assert!(matches!(checked_from_value(&e, TargetType::F64), Err(DescriptionError::UnsupportedType(None))));
    assert!(matches!(checked_from_value(&ScriptValue::Unit, TargetType::Value), Ok(ScriptValue::Unit)));
}

#[test]
fn checked_value_converts_to_the_target_type() {
    match checked_from_value(&ScriptValue::String("x".to_string()), TargetType::F64) {
        Err(DescriptionError::ConversionError(name, None)) => assert_eq!(name, "f64"),
        other => panic!("unexpected {:?}", other),
    }
    assert!(matches!(checked_from_value(&ScriptValue::Signed(5), TargetType::U64), Ok(ScriptValue::Unsigned(5))));
    assert!(matches!(checked_from_value(&ScriptValue::Unsigned(5), TargetType::I64), Ok(ScriptValue::Signed(5))));
    match checked_from_value(&ScriptValue::Signed(-1), TargetType::U64) {
        Err(DescriptionError::ConversionError(name, None)) => assert_eq!(name, "u64"),
        other => panic!("unexpected {:?}", other),
    }
    match checked_from_value(&ScriptValue::Bool(true), TargetType::String) {
        Err(DescriptionError::ConversionError(name, None)) => assert_eq!(name, "alloc::string::String"),
        other => panic!("unexpected {:?}", other),
    }
    let v = ScriptValue::Result(Ok(Box::new(float(0.25))));
    assert!(matches!(checked_from_value(&v, TargetType::F64), Ok(ScriptValue::Float(f)) if f.bits == 0.25f64.to_bits()));
    assert!(matches!(checked_from_value(&ScriptValue::Char('c'), TargetType::Char), Ok(ScriptValue::Char('c'))));
    assert!(matches!(checked_from_value(&ScriptValue::Bool(false), TargetType::Bool), Ok(ScriptValue::Bool(false))));
}

#[test]
fn negative_fixed_count_is_refused() {
    let m = values(-1, ScriptValue::Signed(1));
    assert!(matches!(make_description(&marker(m), 5), Err(DescriptionError::CountMustBeNonNegative(Some(5)))));
    let m = values(0, ScriptValue::Signed(1));
    assert!(matches!(make_description(&marker(m), 5), Ok(DataDescription::FixedLengthArray { count: 0, .. })));
}

#[test]
fn string_marker_describes_its_length() {
    let m = string(ScriptValue::Signed(10));
    match to_description(&marker(m)).unwrap() {
        DataDescription::String { len } => assert!(matches!(*len, DataDescription::Just(ScriptValue::Signed(10)))),
        other => panic!("unexpected {:?}", other),
    }
}

#[test]
fn range_markers_build_ranges() {
    let r = range(ScriptValue::Signed(1), ScriptValue::Signed(5));
    assert!(matches!(to_description(&marker(r)), Ok(DataDescription::UInt { min: 1, max: 5, inclusive: false })));
    let r = range_inclusive(ScriptValue::Signed(-1), ScriptValue::Signed(5));
    assert!(matches!(to_description(&marker(r)), Ok(DataDescription::Int { min: -1, max: 5, inclusive: true })));
}

#[test]
fn fixed_and_variable_values() {
    let f = values(3, ScriptValue::Signed(7));
    match to_description(&marker(f)).unwrap() {
        DataDescription::FixedLengthArray { count: 3, value } => assert!(matches!(*value, DataDescription::Just(ScriptValue::Signed(7)))),
        other => panic!("unexpected {:?}", other),
    }
    let v = variable_values(ScriptValue::Range(Box::new(ScriptValue::Signed(1)), Box::new(ScriptValue::Signed(3))), ScriptValue::Bool(true));
    match to_description(&marker(v)).unwrap() {
        DataDescription::VariableLengthArray { count, .. } => assert!(matches!(*count, DataDescription::UInt { min: 1, max: 3, inclusive: false })),
        other => panic!("unexpected {:?}", other),
    }
}

#[test]
fn weighted_keeps_its_weights() {
    let w = weighted(vec![(3, ScriptValue::Signed(1)), (0, ScriptValue::Signed(2))]);
    match to_description(&marker(w)).unwrap() {
        DataDescription::Weighted(ws) => {
            assert_eq!(ws.len(), 2);
            assert_eq!(ws[0].0, 3);
            assert_eq!(ws[1].0, 0);
        }
        other => panic!("unexpected {:?}", other),
    }
}

#[test]
fn alternatives_collect_in_order() {
    let obj = vec![(key("a"), ScriptValue::Signed(1))];
    let m = bit_or(obj, ScriptValue::Signed(2));
    let m = bit_or_marker(m, ScriptValue::Signed(3));
    match m {
        Marker::Choice(vs) => {
            assert_eq!(vs.len(), 3);
            assert!(matches!(vs[0], ScriptValue::Object(_)));
            assert!(matches!(vs[1], ScriptValue::Signed(2)));
            assert!(matches!(vs[2], ScriptValue::Signed(3)));
        }
        other => panic!("unexpected {:?}", other),
    }
}

#[test]
fn object_joins_an_existing_choice_at_its_end() {
    let existing = marker(choice(vec![ScriptValue::Signed(1)]));
    match bit_or(vec![], existing) {
        Marker::Choice(vs) => {
            assert_eq!(vs.len(), 2);
            assert!(matches!(vs[0], ScriptValue::Signed(1)));
            assert!(matches!(vs[1], ScriptValue::Object(_)));
        }
        other => panic!("unexpected {:?}", other),
    }
}

#[test]
fn non_choice_marker_becomes_an_alternative() {
    match bit_or_marker(boolean(), ScriptValue::Signed(3)) {
        Marker::Choice(vs) => {
            assert_eq!(vs.len(), 2);
            assert!(matches!(vs[0], ScriptValue::Marker(_)));
        }
        other => panic!("unexpected {:?}", other),
    }
}

#[test]
fn range_times_count_is_a_variable_array() {
    match mul_range(ScriptValue::Signed(1), ScriptValue::Signed(10), ScriptValue::Signed(3)) {
        Marker::VariableLengthArray { count: ScriptValue::Signed(3), value: ScriptValue::Range(a, b) } => {
            assert!(matches!(*a, ScriptValue::Signed(1)));
            assert!(matches!(*b, ScriptValue::Signed(10)));
        }
        other => panic!("unexpected {:?}", other),
    }
    assert!(matches!(mul_alpha(ScriptValue::Signed(4)), Marker::String { len: ScriptValue::Signed(4) }));
}

#[test]
fn type_keys_tell_types_apart() {
    assert_eq!(ScriptValue::Unit.type_key(), TypeKey::Tuple);
    assert_eq!(ScriptValue::Signed(1).type_key(), TypeKey::Signed);
    assert_eq!(ScriptValue::Unsigned(1).type_key(), TypeKey::Unsigned);
    assert_eq!(ScriptValue::Opaque(TypeKey::Other(9), 0).type_key(), TypeKey::Other(9));
}

#[test]
fn usize_reading_of_values() {
    assert_eq!(ScriptValue::Signed(5).as_usize(), Ok(5));
    assert_eq!(ScriptValue::Signed(-1).as_usize(), Err(rugen::UsizeError::SignedOutOfRange(-1)));
    assert_eq!(ScriptValue::Bool(true).as_usize(), Err(rugen::UsizeError::ExpectedNumber(TypeKey::Bool)));
}

#[test]
fn try_build_reports_the_line() {
    assert!(matches!(try_build_description(&ScriptValue::RangeFull, Some(42)), Err(DescriptionError::UnsupportedType(Some(42)))));
}

#[test]
fn object_entries_stand_in_the_order_of_keys() {
    let obj = ScriptValue::Object(vec![
        (key("zeta"), ScriptValue::Signed(1)),
        (key("alpha"), ScriptValue::Signed(2)),
        (key("Beta"), ScriptValue::Signed(3)),
        (key("al"), ScriptValue::Signed(4)),
        (key("alpha"), ScriptValue::Signed(5)),
    ]);
    match to_description(&obj).unwrap() {
        DataDescription::Object(es) => {
            let keys: Vec<&str> = es.iter().map(|e| e.0.as_str()).collect();
            assert_eq!(keys, vec!["Beta", "al", "alpha", "zeta"]);
            assert!(matches!(es[2].1, DataDescription::Just(ScriptValue::Signed(5))));
        }
        other => panic!("unexpected {:?}", other),
    }
}

#[test]
fn keys_order_as_strings_do() {
    let words = ["", "a", "ab", "b", "B", "é", "z", "zz", "ä", "日本", "\u{10FFFF}"];
    for x in words.iter() {
        for y in words.iter() {
            assert_eq!(string_less(&key(x), &key(y)), key(x) < key(y), "{x} < {y}");
        }
    }
}

#[test]
fn range_helpers_match_range_syntax() {
    let helper = to_description(&marker(range(ScriptValue::Signed(-3), ScriptValue::Signed(4)))).unwrap();
    let syntax = to_description(&ScriptValue::Range(Box::new(ScriptValue::Signed(-3)), Box::new(ScriptValue::Signed(4)))).unwrap();
    assert_eq!(format!("{:?}", helper), format!("{:?}", syntax));
    let helper = to_description(&marker(range_inclusive(ScriptValue::Char('a'), ScriptValue::Char('f')))).unwrap();
    let syntax = to_description(&ScriptValue::RangeInclusive(Box::new(ScriptValue::Char('a')), Box::new(ScriptValue::Char('f')))).unwrap();
    assert_eq!(format!("{:?}", helper), format!("{:?}", syntax));
    assert!(matches!(syntax, DataDescription::Char { min: 'a', max: 'f', inclusive: true }));
}

#[test]
fn formatter_lays_out_a_script() {
    let formatted = rugen::format::format_rune_source("pub fn main(){ 1+2 }").unwrap();
    assert_eq!(rugen::format::format_rune_source(&formatted).as_deref(), Some(formatted.as_str()));
    assert_ne!(formatted, "pub fn main(){ 1+2 }");
}

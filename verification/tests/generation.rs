use rugen::markers::{choice, string, values, weighted};
use rugen::{
    generate, generate_instance, to_description, DataDescription, EvaluationError,
    FloatBits, Marker, ScriptValue, UsizeError, WeightError,
};

fn lower_bound(min: FloatBits, _max: FloatBits, _inclusive: bool) -> FloatBits {
    min
}

fn always(_p: FloatBits) -> bool {
    true
}

fn never(_p: FloatBits) -> bool {
    false
}

fn run(d: DataDescription) -> Result<ScriptValue, EvaluationError> {
    generate(d, &lower_bound, &always)
}

fn marker(m: Marker) -> ScriptValue {
    ScriptValue::Marker(Box::new(m))
}

#[test]
fn just_generates_itself() {
    for _ in 0..20 {
        let v = run(DataDescription::Just(ScriptValue::Signed(10))).unwrap();
        assert!(matches!(v, ScriptValue::Signed(10)));
    }
}

#[test]
fn unsigned_range_stays_in_bounds() {
    for _ in 0..200 {
        match run(DataDescription::UInt { min: 1, max: 10, inclusive: false }).unwrap() {
            ScriptValue::Unsigned(x) => assert!((1..10).contains(&x)),
            other => panic!("unexpected {:?}", other),
        }
    }
}

#[test]
fn inclusive_single_value_range_gives_that_value() {
    match run(DataDescription::UInt { min: 5, max: 5, inclusive: true }).unwrap() {
        ScriptValue::Unsigned(5) => {}
        other => panic!("unexpected {:?}", other),
    }
}

#[test]
fn signed_range_stays_in_bounds() {
    for _ in 0..200 {
        match run(DataDescription::Int { min: -100, max: 100, inclusive: true }).unwrap() {
            ScriptValue::Signed(x) => assert!((-100..=100).contains(&x)),
            other => panic!("unexpected {:?}", other),
        }
    }
}

#[test]
fn char_range_stays_in_bounds() {
    for _ in 0..200 {
        match run(DataDescription::Char { min: 'a', max: 'z', inclusive: true }).unwrap() {
            ScriptValue::Char(c) => assert!(('a'..='z').contains(&c)),
            other => panic!("unexpected {:?}", other),
        }
    }
}

#[test]
fn float_comes_from_the_sampler() {
    let d = DataDescription::Float {
        min: FloatBits { bits: 0.5f64.to_bits() },
        max: FloatBits { bits: 2.5f64.to_bits() },
        inclusive: false,
    };
    match run(d).unwrap() {
        ScriptValue::Float(f) => assert_eq!(f64::from_bits(f.bits), 0.5),
        other => panic!("unexpected {:?}", other),
    }
}

#[test]
fn string_has_the_length_and_is_alphanumeric() {
    let d = to_description(&marker(string(ScriptValue::Signed(10)))).unwrap();
    match run(d).unwrap() {
        ScriptValue::String(s) => {
            assert_eq!(s.chars().count(), 10);
            assert!(s.chars().all(|c| c.is_ascii_alphanumeric()));
        }
        other => panic!("unexpected {:?}", other),
    }
}

#[test]
fn string_of_negative_length_is_a_runtime_error() {
    let d = DataDescription::String { len: Box::new(DataDescription::Just(ScriptValue::Signed(-1))) };
    assert_eq!(run(d).unwrap_err(), EvaluationError::RuntimeError(UsizeError::SignedOutOfRange(-1)));
}

#[test]
fn choice_picks_one_of_the_values() {
    let d = to_description(&marker(choice(vec![ScriptValue::Signed(1), ScriptValue::Signed(2), ScriptValue::Signed(3)]))).unwrap();
    for _ in 0..100 {
        let d = to_description(&ScriptValue::Description(Box::new(d.duplicate()))).unwrap();
        match run(d).unwrap() {
            ScriptValue::Signed(x) => assert!((1..=3).contains(&x)),
            other => panic!("unexpected {:?}", other),
        }
    }
}

#[test]
fn empty_choice_cannot_generate() {
    assert_eq!(run(DataDescription::Choice(vec![])).unwrap_err(), EvaluationError::NoValueToChooseFrom);
}

#[test]
fn weighted_never_picks_a_zero_weight() {
    let d = to_description(&marker(weighted(vec![(0, ScriptValue::Signed(1)), (5, ScriptValue::Signed(2))]))).unwrap();
    for _ in 0..100 {
        match run(d.duplicate()).unwrap() {
            ScriptValue::Signed(2) => {}
            other => panic!("unexpected {:?}", other),
        }
    }
}

#[test]
fn weighted_with_only_zero_weights_fails() {
    let d = DataDescription::Weighted(vec![(0, DataDescription::Bool), (0, DataDescription::Bool)]);
    assert_eq!(run(d).unwrap_err(), EvaluationError::WeightError(WeightError::InsufficientNonZero));
}

#[test]
fn weighted_with_nothing_fails() {
    assert_eq!(run(DataDescription::Weighted(vec![])).unwrap_err(), EvaluationError::WeightError(WeightError::InvalidInput));
}

#[test]
fn weighted_with_overflowing_weights_fails() {
    let d = DataDescription::Weighted(vec![(u32::MAX, DataDescription::Bool), (1, DataDescription::Bool)]);
    assert_eq!(run(d).unwrap_err(), EvaluationError::WeightError(WeightError::Overflow));
}

#[test]
fn fixed_count_gives_that_many_values() {
    let d = to_description(&marker(values(4, ScriptValue::Signed(7)))).unwrap();
    match run(d).unwrap() {
        ScriptValue::Vec(items) => {
            assert_eq!(items.len(), 4);
            assert!(items.iter().all(|v| matches!(v, ScriptValue::Signed(7))));
        }
        other => panic!("unexpected {:?}", other),
    }
}

#[test]
fn negative_fixed_count_gives_no_values() {
    let d = DataDescription::FixedLengthArray { count: -3, value: Box::new(DataDescription::Bool) };
    match run(d).unwrap() {
        ScriptValue::Vec(items) => assert!(items.is_empty()),
        other => panic!("unexpected {:?}", other),
    }
}

#[test]
fn variable_count_is_drawn_from_its_range() {
    let d = DataDescription::VariableLengthArray {
        count: Box::new(DataDescription::UInt { min: 2, max: 4, inclusive: true }),
        value: Box::new(DataDescription::Bool),
    };
    for _ in 0..50 {
        match run(d.duplicate()).unwrap() {
            ScriptValue::Vec(items) => assert!((2..=4).contains(&items.len())),
            other => panic!("unexpected {:?}", other),
        }
    }
}

#[test]
fn variable_count_that_is_no_number_fails() {
    let d = DataDescription::VariableLengthArray {
        count: Box::new(DataDescription::Bool),
        value: Box::new(DataDescription::Bool),
    };
    assert_eq!(
        run(d).unwrap_err(),
        EvaluationError::RuntimeError(UsizeError::ExpectedNumber(rugen::TypeKey::Bool))
    );
}

#[test]
fn object_keeps_its_keys() {
    let obj = ScriptValue::Object(vec![
        ("a".to_string(), ScriptValue::Range(Box::new(ScriptValue::Signed(1)), Box::new(ScriptValue::Signed(10)))),
        ("b".to_string(), ScriptValue::Bool(true)),
    ]);
    let d = to_description(&obj).unwrap();
    match run(d).unwrap() {
        ScriptValue::Object(entries) => {
            assert_eq!(entries.len(), 2);
            assert_eq!(entries[0].0, "a");
            assert!(matches!(entries[0].1, ScriptValue::Unsigned(x) if (1..10).contains(&x)));
            assert_eq!(entries[1].0, "b");
            assert!(matches!(entries[1].1, ScriptValue::Bool(true)));
        }
        other => panic!("unexpected {:?}", other),
    }
}

#[test]
fn optional_follows_the_chance() {
    let d = DataDescription::Optional { p: FloatBits { bits: 0.5f64.to_bits() }, value: Box::new(DataDescription::Just(ScriptValue::Signed(1))) };
    match generate(d.duplicate(), &lower_bound, &always).unwrap() {
        ScriptValue::Option(Some(x)) => assert!(matches!(*x, ScriptValue::Signed(1))),
        other => panic!("unexpected {:?}", other),
    }
    match generate(d, &lower_bound, &never).unwrap() {
        ScriptValue::Option(None) => {}
        other => panic!("unexpected {:?}", other),
    }
}

#[test]
fn list_generates_each_item_in_order() {
    let d = DataDescription::Vec(vec![
        DataDescription::Just(ScriptValue::Signed(1)),
        DataDescription::Bool,
        DataDescription::Just(ScriptValue::Signed(3)),
    ]);
    match generate_instance(d, &lower_bound, &always).unwrap() {
        ScriptValue::Vec(items) => {
            assert_eq!(items.len(), 3);
            assert!(matches!(items[0], ScriptValue::Signed(1)));
            assert!(matches!(items[1], ScriptValue::Bool(_)));
            assert!(matches!(items[2], ScriptValue::Signed(3)));
        }
        other => panic!("unexpected {:?}", other),
    }
}

#[test]
fn empty_ranges_cannot_generate() {
    assert_eq!(run(DataDescription::UInt { min: 10, max: 1, inclusive: false }).unwrap_err(), EvaluationError::EmptyRange);
    assert_eq!(run(DataDescription::Int { min: 3, max: 3, inclusive: false }).unwrap_err(), EvaluationError::EmptyRange);
    assert_eq!(run(DataDescription::Char { min: 'b', max: 'a', inclusive: true }).unwrap_err(), EvaluationError::EmptyRange);
    assert!(matches!(run(DataDescription::Int { min: 3, max: 3, inclusive: true }), Ok(ScriptValue::Signed(3))));
    let list = DataDescription::Vec(vec![DataDescription::Bool, DataDescription::Char { min: 'b', max: 'a', inclusive: true }]);
    assert_eq!(run(list).unwrap_err(), EvaluationError::EmptyRange);
}

#[test]
fn empty_range_that_is_not_reached_does_not_fail() {
    let empty = || Box::new(DataDescription::UInt { min: 5, max: 5, inclusive: false });
    let d = DataDescription::Optional { p: FloatBits { bits: 0.5f64.to_bits() }, value: empty() };
    assert!(matches!(generate(d, &lower_bound, &never), Ok(ScriptValue::Option(None))));
    let d = DataDescription::FixedLengthArray { count: 0, value: empty() };
    match run(d).unwrap() {
        ScriptValue::Vec(items) => assert!(items.is_empty()),
        other => panic!("unexpected {:?}", other),
    }
}

#[test]
fn repeated_keys_each_get_a_value() {
    let d = DataDescription::Object(vec![("a".to_string(), DataDescription::Bool), ("a".to_string(), DataDescription::Bool)]);
    match run(d).unwrap() {
        ScriptValue::Object(entries) => {
            assert_eq!(entries.len(), 2);
            assert!(entries.iter().all(|e| e.0 == "a"));
        }
        other => panic!("unexpected {:?}", other),
    }
}

#[test]
fn plain_data_comes_back() {
    let inner = ScriptValue::Object(vec![("c".to_string(), ScriptValue::Bool(true))]);
    let list = ScriptValue::Vec(vec![ScriptValue::Signed(1), ScriptValue::String("x".to_string()), inner]);
    let v = ScriptValue::Object(vec![("b".to_string(), list), ("a".to_string(), ScriptValue::Unsigned(5))]);
    let d = to_description(&v).unwrap();
    let w = run(d).unwrap();
    assert_eq!(
        format!("{:?}", w),
        format!(
            "{:?}",
            ScriptValue::Object(vec![
                ("a".to_string(), ScriptValue::Unsigned(5)),
                (
                    "b".to_string(),
                    ScriptValue::Vec(vec![
                        ScriptValue::Signed(1),
                        ScriptValue::String("x".to_string()),
                        ScriptValue::Object(vec![("c".to_string(), ScriptValue::Bool(true))]),
                    ])
                ),
            ])
        )
    );
}

#[test]
fn optional_with_certain_and_no_chance() {
    let d = |p: f64| DataDescription::Optional { p: FloatBits { bits: p.to_bits() }, value: Box::new(DataDescription::Just(ScriptValue::Signed(7))) };
    let certain = |p: FloatBits| f64::from_bits(p.bits) >= 1.0;
    let none = |p: FloatBits| f64::from_bits(p.bits) > 0.0;
    assert!(matches!(generate(d(1.0), &lower_bound, &certain), Ok(ScriptValue::Option(Some(_)))));
    assert!(matches!(generate(d(0.0), &lower_bound, &none), Ok(ScriptValue::Option(None))));
}

#[test]
fn values_of_count_zero_never_draw_an_element() {
    let d = DataDescription::VariableLengthArray {
        count: Box::new(DataDescription::Just(ScriptValue::Signed(0))),
        value: Box::new(DataDescription::UInt { min: 5, max: 5, inclusive: false }),
    };
    match run(d).unwrap() {
        ScriptValue::Vec(items) => assert!(items.is_empty()),
        other => panic!("unexpected {:?}", other),
    }
}

#[test]
fn count_is_drawn_before_the_values() {
    let d = DataDescription::VariableLengthArray {
        count: Box::new(DataDescription::Just(ScriptValue::Bool(true))),
        value: Box::new(DataDescription::UInt { min: 5, max: 5, inclusive: false }),
    };
    assert_eq!(
        run(d).unwrap_err(),
        EvaluationError::RuntimeError(UsizeError::ExpectedNumber(rugen::TypeKey::Bool))
    );
}

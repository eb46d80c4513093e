use std::collections::HashSet;

use rugen::{generate, DataDescription, FloatBits, ScriptValue};

fn lower_bound(min: FloatBits, _max: FloatBits, _inclusive: bool) -> FloatBits {
    min
}

fn always(_p: FloatBits) -> bool {
    true
}

fn draw(d: &DataDescription) -> ScriptValue {
    generate(d.duplicate(), &lower_bound, &always).unwrap()
}

fn distinct_draws(d: &DataDescription, n: usize) -> HashSet<String> {
    (0..n).map(|_| format!("{:?}", draw(d))).collect()
}

#[test]
fn unsigned_draws_vary() {
    let d = DataDescription::UInt { min: 1, max: 10, inclusive: false };
    assert!(distinct_draws(&d, 200).len() > 1);
    let d = DataDescription::UInt { min: 1, max: 10, inclusive: true };
    assert!(distinct_draws(&d, 200).len() > 1);
}

#[test]
fn signed_draws_vary() {
    let d = DataDescription::Int { min: -5, max: 5, inclusive: false };
    assert!(distinct_draws(&d, 200).len() > 1);
    let d = DataDescription::Int { min: -5, max: 5, inclusive: true };
    assert!(distinct_draws(&d, 200).len() > 1);
}

#[test]
fn char_draws_vary() {
    let d = DataDescription::Char { min: 'a', max: 'z', inclusive: false };
    assert!(distinct_draws(&d, 200).len() > 1);
    let d = DataDescription::Char { min: 'a', max: 'z', inclusive: true };
    assert!(distinct_draws(&d, 200).len() > 1);
}

#[test]
fn booleans_take_both_values() {
    assert_eq!(distinct_draws(&DataDescription::Bool, 200).len(), 2);
}

#[test]
fn choices_vary() {
    let d = DataDescription::Choice(vec![
        DataDescription::Just(ScriptValue::Signed(1)),
        DataDescription::Just(ScriptValue::Signed(2)),
        DataDescription::Just(ScriptValue::Signed(3)),
    ]);
    assert_eq!(distinct_draws(&d, 300).len(), 3);
}

#[test]
fn weighted_choices_of_positive_weight_all_come_up() {
    let d = DataDescription::Weighted(vec![
        (1, DataDescription::Just(ScriptValue::Signed(1))),
        (0, DataDescription::Just(ScriptValue::Signed(2))),
        (1, DataDescription::Just(ScriptValue::Signed(3))),
    ]);
    let seen = distinct_draws(&d, 300);
    assert_eq!(seen.len(), 2);
    assert!(!seen.contains(&format!("{:?}", ScriptValue::Signed(2))));
}

#[test]
fn string_characters_vary() {
    let d = DataDescription::String { len: Box::new(DataDescription::Just(ScriptValue::Signed(64))) };
    match draw(&d) {
        ScriptValue::String(s) => {
            let chars: HashSet<char> = s.chars().collect();
            assert!(chars.len() > 1);
        }
        other => panic!("unexpected {:?}", other),
    }
}

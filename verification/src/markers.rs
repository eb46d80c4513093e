//! The helper functions and operators that a script builds markers with.
use vstd::prelude::*;
use crate::model::{view_entries, view_values, view_weighted_values, Marker, ScriptValue, SpecMarker, SpecValue};

verus! {

/// A random number between `min` and `max` (exclusive).
pub fn range(min: ScriptValue, max: ScriptValue) -> (r: Marker)
    ensures
        r@ == (SpecMarker::Range { min: min@, max: max@, inclusive: false }),
{
    Marker::Range { min, max, inclusive: false }
}

/// A random number between `min` and `max` (inclusive).
pub fn range_inclusive(min: ScriptValue, max: ScriptValue) -> (r: Marker)
    ensures
        r@ == (SpecMarker::Range { min: min@, max: max@, inclusive: true }),
{
    Marker::Range { min, max, inclusive: true }
}

/// A random boolean.
pub fn boolean() -> (r: Marker)
    ensures
        r@ == SpecMarker::Bool,
{
    Marker::Bool
}

/// An alphanumeric string whose length is drawn from `len`.
pub fn string(len: ScriptValue) -> (r: Marker)
    ensures
        r@ == (SpecMarker::String { len: len@ }),
{
    Marker::String { len }
}

/// A value drawn from one of `values`.
pub fn choice(values: Vec<ScriptValue>) -> (r: Marker)
    ensures
        r@ == SpecMarker::Choice(view_values(values@)),
{
    Marker::Choice(values)
}

/// `count` values drawn from `value`.
pub fn values(count: i64, value: ScriptValue) -> (r: Marker)
    ensures
        r@ == (SpecMarker::FixedLengthArray { count, value: value@ }),
{
    Marker::FixedLengthArray { count, value }
}

/// As many values drawn from `value` as a count drawn from `count` says.
pub fn variable_values(count: ScriptValue, value: ScriptValue) -> (r: Marker)
    ensures
        r@ == (SpecMarker::VariableLengthArray { count: count@, value: value@ }),
{
    Marker::VariableLengthArray { count, value }
}

/// A value drawn from one of `values`, picked by weight.
pub fn weighted(values: Vec<(u32, ScriptValue)>) -> (r: Marker)
    ensures
        r@ == SpecMarker::Weighted(view_weighted_values(values@)),
{
    Marker::Weighted(values)
}

/// With probability `p`, a value drawn from `value`; otherwise nothing.
pub fn optional(p: ScriptValue, value: ScriptValue) -> (r: Marker)
    ensures
        r@ == (SpecMarker::Optional { p: p@, value: value@ }),
{
    Marker::Optional { p, value }
}

/// What `object | right` stands for: a choice between the object and
/// `right`, or, where `right` is a choice already, that choice with the
/// object added at its end.
pub open spec fn spec_bit_or(left: SpecValue, right: SpecValue) -> SpecMarker {
    match right {
        SpecValue::Mark(m) => match *m {
            SpecMarker::Choice(values) => SpecMarker::Choice(values.push(left)),
            _ => SpecMarker::Choice(seq![left, right]),
        },
        _ => SpecMarker::Choice(seq![left, right]),
    }
}

/// What `marker | right` stands for: the choice with `right` added at its
/// end, where the marker is a choice; else a choice between the two.
pub open spec fn spec_bit_or_marker(left: SpecMarker, right: SpecValue) -> SpecMarker {
    match left {
        SpecMarker::Choice(values) => SpecMarker::Choice(values.push(right)),
        _ => SpecMarker::Choice(seq![SpecValue::Mark(Box::new(left)), right]),
    }
}

/// `object | right`.
pub fn bit_or(left: Vec<(String, ScriptValue)>, right: ScriptValue) -> (r: Marker)
    ensures
        r@ == spec_bit_or(SpecValue::Object(view_entries(left@)), right@),
{
    let left = ScriptValue::Object(left);
    match right {
        ScriptValue::Marker(m) => {
            let m = *m;
            match m {
                Marker::Choice(values) => {
                    let mut values = values;
                    let ghost before = values@;
                    values.push(left);
                    proof {
                        assert(view_values(values@) =~= view_values(before).push(left@));
                    }
                    Marker::Choice(values)
                },
                other => {
                    let right = ScriptValue::Marker(Box::new(other));
                    let items = vec![left, right];
                    proof {
                        assert(view_values(items@) =~= seq![left@, right@]);
                    }
                    Marker::Choice(items)
                },
            }
        },
        other => {
            let items = vec![left, other];
            proof {
                assert(view_values(items@) =~= seq![items@[0]@, items@[1]@]);
            }
            Marker::Choice(items)
        },
    }
}

/// `marker | right`.
pub fn bit_or_marker(left: Marker, right: ScriptValue) -> (r: Marker)
    ensures
        r@ == spec_bit_or_marker(left@, right@),
{
    match left {
        Marker::Choice(values) => {
            let mut values = values;
            let ghost before = values@;
            values.push(right);
            proof {
                assert(view_values(values@) =~= view_values(before).push(right@));
            }
            Marker::Choice(values)
        },
        other => {
            let left = ScriptValue::Marker(Box::new(other));
            let items = vec![left, right];
            proof {
                assert(view_values(items@) =~= seq![left@, right@]);
            }
            Marker::Choice(items)
        },
    }
}

/// `(start..end) * count`: as many values drawn from the range as a count
/// drawn from `count` says.
pub fn mul_range(start: ScriptValue, end: ScriptValue, count: ScriptValue) -> (r: Marker)
    ensures
        r@ == (SpecMarker::VariableLengthArray {
            count: count@,
            value: SpecValue::Range(Box::new(start@), Box::new(end@)),
        }),
{
    Marker::VariableLengthArray { count, value: ScriptValue::Range(Box::new(start), Box::new(end)) }
}

/// `ALPHA * len`: an alphanumeric string whose length is drawn from `len`.
pub fn mul_alpha(len: ScriptValue) -> (r: Marker)
    ensures
        r@ == (SpecMarker::String { len: len@ }),
{
    Marker::String { len }
}

} // verus!

//! Deep copies of values, markers and descriptions.
use vstd::prelude::*;
use crate::model::{
    view_desc, view_desc_entries, view_descs, view_entries, view_value, view_values,
    view_weighted_descs, view_weighted_values, DataDescription, DescriptionError, Marker,
    ScriptValue,
};

verus! {

impl DescriptionError {
    /// A copy of this error.
    pub fn duplicate(&self) -> (r: DescriptionError)
        ensures
            r@ == self@,
    {
        match self {
            DescriptionError::InvalidRangeStart(l) => DescriptionError::InvalidRangeStart(*l),
            DescriptionError::InvalidRangeEnd(l) => DescriptionError::InvalidRangeEnd(*l),
            DescriptionError::UnsupportedType(l) => DescriptionError::UnsupportedType(*l),
            DescriptionError::NoValueToChooseFrom(l) => DescriptionError::NoValueToChooseFrom(*l),
            DescriptionError::MinMaxTypeMismatch(l) => DescriptionError::MinMaxTypeMismatch(*l),
            DescriptionError::InvalidProbability(p, l) => DescriptionError::InvalidProbability(*p, *l),
            DescriptionError::CountMustBeNonNegative(l) => DescriptionError::CountMustBeNonNegative(*l),
            DescriptionError::ConversionError(t, l) => DescriptionError::ConversionError(t.clone(), *l),
        }
    }
}

fn duplicate_values(v: &Vec<ScriptValue>) -> (r: Vec<ScriptValue>)
    ensures
        view_values(r@) == view_values(v@),
    decreases v,
{
    let mut out: Vec<ScriptValue> = Vec::new();
    let mut i: usize = 0;
    while i < v.len()
        invariant
            i <= v.len(),
            out.len() == i,
            forall|j: int| 0 <= j < i ==> #[trigger] view_value(out@[j]) == view_value(v@[j]),
            forall|j: int| 0 <= j < v.len() ==> decreases_to!(*v => #[trigger] v@[j]),
        decreases v.len() - i,
    {
        out.push(v[i].duplicate());
        i += 1;
    }
    assert forall|k: int| 0 <= k < out.len() implies view_values(out@)[k] == view_values(v@)[k] by {
        assert(view_value(out@[k]) == view_value(v@[k]));
    }
    assert(view_values(out@) =~= view_values(v@));
    out
}

fn duplicate_entries(v: &Vec<(String, ScriptValue)>) -> (r: Vec<(String, ScriptValue)>)
    ensures
        view_entries(r@) == view_entries(v@),
    decreases v,
{
    let mut out: Vec<(String, ScriptValue)> = Vec::new();
    let mut i: usize = 0;
    while i < v.len()
        invariant
            i <= v.len(),
            out.len() == i,
            forall|j: int| 0 <= j < i ==> (#[trigger] out@[j]).0@ == v@[j].0@ && view_value(out@[j].1) == view_value(v@[j].1),
            forall|j: int| 0 <= j < v.len() ==> decreases_to!(*v => #[trigger] v@[j].1),
        decreases v.len() - i,
    {
        let key = v[i].0.clone();
        let value = v[i].1.duplicate();
        out.push((key, value));
        i += 1;
    }
    assert forall|k: int| 0 <= k < out.len() implies view_entries(out@)[k] == view_entries(v@)[k] by {
        assert(out@[k].0@ == v@[k].0@ && view_value(out@[k].1) == view_value(v@[k].1));
    }
    assert(view_entries(out@) =~= view_entries(v@));
    out
}

fn duplicate_weighted_values(v: &Vec<(u32, ScriptValue)>) -> (r: Vec<(u32, ScriptValue)>)
    ensures
        view_weighted_values(r@) == view_weighted_values(v@),
    decreases v,
{
    let mut out: Vec<(u32, ScriptValue)> = Vec::new();
    let mut i: usize = 0;
    while i < v.len()
        invariant
            i <= v.len(),
            out.len() == i,
            forall|j: int| 0 <= j < i ==> (#[trigger] out@[j]).0 == v@[j].0 && view_value(out@[j].1) == view_value(v@[j].1),
            forall|j: int| 0 <= j < v.len() ==> decreases_to!(*v => #[trigger] v@[j].1),
        decreases v.len() - i,
    {
        let w = v[i].0;
        let value = v[i].1.duplicate();
        out.push((w, value));
        i += 1;
    }
    assert forall|k: int| 0 <= k < out.len() implies view_weighted_values(out@)[k] == view_weighted_values(v@)[k] by {
        assert(out@[k].0 == v@[k].0 && view_value(out@[k].1) == view_value(v@[k].1));
    }
    assert(view_weighted_values(out@) =~= view_weighted_values(v@));
    out
}

fn duplicate_descs(v: &Vec<DataDescription>) -> (r: Vec<DataDescription>)
    ensures
        view_descs(r@) == view_descs(v@),
    decreases v,
{
    let mut out: Vec<DataDescription> = Vec::new();
    let mut i: usize = 0;
    while i < v.len()
        invariant
            i <= v.len(),
            out.len() == i,
            forall|j: int| 0 <= j < i ==> #[trigger] view_desc(out@[j]) == view_desc(v@[j]),
            forall|j: int| 0 <= j < v.len() ==> decreases_to!(*v => #[trigger] v@[j]),
        decreases v.len() - i,
    {
        out.push(v[i].duplicate());
        i += 1;
    }
    assert forall|k: int| 0 <= k < out.len() implies view_descs(out@)[k] == view_descs(v@)[k] by {
        assert(view_desc(out@[k]) == view_desc(v@[k]));
    }
    assert(view_descs(out@) =~= view_descs(v@));
    out
}

fn duplicate_weighted_descs(v: &Vec<(u32, DataDescription)>) -> (r: Vec<(u32, DataDescription)>)
    ensures
        view_weighted_descs(r@) == view_weighted_descs(v@),
    decreases v,
{
    let mut out: Vec<(u32, DataDescription)> = Vec::new();
    let mut i: usize = 0;
    while i < v.len()
        invariant
            i <= v.len(),
            out.len() == i,
            forall|j: int| 0 <= j < i ==> (#[trigger] out@[j]).0 == v@[j].0 && view_desc(out@[j].1) == view_desc(v@[j].1),
            forall|j: int| 0 <= j < v.len() ==> decreases_to!(*v => #[trigger] v@[j].1),
        decreases v.len() - i,
    {
        let w = v[i].0;
        let d = v[i].1.duplicate();
        out.push((w, d));
        i += 1;
    }
    assert forall|k: int| 0 <= k < out.len() implies view_weighted_descs(out@)[k] == view_weighted_descs(v@)[k] by {
        assert(out@[k].0 == v@[k].0 && view_desc(out@[k].1) == view_desc(v@[k].1));
    }
    assert(view_weighted_descs(out@) =~= view_weighted_descs(v@));
    out
}

fn duplicate_desc_entries(v: &Vec<(String, DataDescription)>) -> (r: Vec<(String, DataDescription)>)
    ensures
        view_desc_entries(r@) == view_desc_entries(v@),
    decreases v,
{
    let mut out: Vec<(String, DataDescription)> = Vec::new();
    let mut i: usize = 0;
    while i < v.len()
        invariant
            i <= v.len(),
            out.len() == i,
            forall|j: int| 0 <= j < i ==> (#[trigger] out@[j]).0@ == v@[j].0@ && view_desc(out@[j].1) == view_desc(v@[j].1),
            forall|j: int| 0 <= j < v.len() ==> decreases_to!(*v => #[trigger] v@[j].1),
        decreases v.len() - i,
    {
        let key = v[i].0.clone();
        let d = v[i].1.duplicate();
        out.push((key, d));
        i += 1;
    }
    assert forall|k: int| 0 <= k < out.len() implies view_desc_entries(out@)[k] == view_desc_entries(v@)[k] by {
        assert(out@[k].0@ == v@[k].0@ && view_desc(out@[k].1) == view_desc(v@[k].1));
    }
    assert(view_desc_entries(out@) =~= view_desc_entries(v@));
    out
}

impl ScriptValue {
    /// A deep copy of this value.
    pub fn duplicate(&self) -> (r: ScriptValue)
        ensures
            r@ == self@,
        decreases self, 1nat,
    {
        match self {
            ScriptValue::Unit => ScriptValue::Unit,
            ScriptValue::Bool(b) => ScriptValue::Bool(*b),
            ScriptValue::Char(c) => ScriptValue::Char(*c),
            ScriptValue::Signed(i) => ScriptValue::Signed(*i),
            ScriptValue::Unsigned(u) => ScriptValue::Unsigned(*u),
            ScriptValue::Float(f) => ScriptValue::Float(*f),
            ScriptValue::String(s) => ScriptValue::String(s.clone()),
            ScriptValue::Vec(items) => ScriptValue::Vec(duplicate_values(items)),
            ScriptValue::Object(entries) => ScriptValue::Object(duplicate_entries(entries)),
            ScriptValue::Option(o) => match o {
                Some(x) => ScriptValue::Option(Some(Box::new((**x).duplicate()))),
                None => ScriptValue::Option(None),
            },
            ScriptValue::Result(r) => match r {
                Ok(x) => ScriptValue::Result(Ok(Box::new((**x).duplicate()))),
                Err(x) => ScriptValue::Result(Err(Box::new((**x).duplicate()))),
            },
            ScriptValue::Range(a, b) => ScriptValue::Range(
                Box::new((**a).duplicate()),
                Box::new((**b).duplicate()),
            ),
            ScriptValue::RangeInclusive(a, b) => ScriptValue::RangeInclusive(
                Box::new((**a).duplicate()),
                Box::new((**b).duplicate()),
            ),
            ScriptValue::RangeFrom(a) => ScriptValue::RangeFrom(Box::new((**a).duplicate())),
            ScriptValue::RangeTo(b) => ScriptValue::RangeTo(Box::new((**b).duplicate())),
            ScriptValue::RangeFull => ScriptValue::RangeFull,
            ScriptValue::Description(d) => ScriptValue::Description(Box::new((**d).duplicate())),
            ScriptValue::Marker(m) => ScriptValue::Marker(Box::new((**m).duplicate())),
            ScriptValue::Error(e) => ScriptValue::Error(e.duplicate()),
            ScriptValue::Opaque(k, h) => ScriptValue::Opaque(*k, *h),
        }
    }
}

impl Marker {
    /// A deep copy of this marker.
    pub fn duplicate(&self) -> (r: Marker)
        ensures
            r@ == self@,
        decreases self, 1nat,
    {
        match self {
            Marker::Bool => Marker::Bool,
            Marker::Range { min, max, inclusive } => Marker::Range {
                min: min.duplicate(),
                max: max.duplicate(),
                inclusive: *inclusive,
            },
            Marker::String { len } => Marker::String { len: len.duplicate() },
            Marker::Choice(values) => Marker::Choice(duplicate_values(values)),
            Marker::Weighted(values) => Marker::Weighted(duplicate_weighted_values(values)),
            Marker::FixedLengthArray { count, value } => Marker::FixedLengthArray {
                count: *count,
                value: value.duplicate(),
            },
            Marker::VariableLengthArray { count, value } => Marker::VariableLengthArray {
                count: count.duplicate(),
                value: value.duplicate(),
            },
            Marker::Optional { p, value } => Marker::Optional {
                p: p.duplicate(),
                value: value.duplicate(),
            },
        }
    }
}

impl DataDescription {
    /// A deep copy of this description.
    pub fn duplicate(&self) -> (r: DataDescription)
        ensures
            r@ == self@,
        decreases self, 1nat,
    {
        match self {
            DataDescription::Bool => DataDescription::Bool,
            DataDescription::Just(v) => DataDescription::Just(v.duplicate()),
            DataDescription::UInt { min, max, inclusive } => DataDescription::UInt {
                min: *min,
                max: *max,
                inclusive: *inclusive,
            },
            DataDescription::Int { min, max, inclusive } => DataDescription::Int {
                min: *min,
                max: *max,
                inclusive: *inclusive,
            },
            DataDescription::Char { min, max, inclusive } => DataDescription::Char {
                min: *min,
                max: *max,
                inclusive: *inclusive,
            },
            DataDescription::Float { min, max, inclusive } => DataDescription::Float {
                min: *min,
                max: *max,
                inclusive: *inclusive,
            },
            DataDescription::String { len } => DataDescription::String {
                len: Box::new((**len).duplicate()),
            },
            DataDescription::Choice(ds) => DataDescription::Choice(duplicate_descs(ds)),
            DataDescription::Weighted(ds) => DataDescription::Weighted(duplicate_weighted_descs(ds)),
            DataDescription::FixedLengthArray { count, value } => DataDescription::FixedLengthArray {
                count: *count,
                value: Box::new((**value).duplicate()),
            },
            DataDescription::VariableLengthArray { count, value } =>
                DataDescription::VariableLengthArray {
                    count: Box::new((**count).duplicate()),
                    value: Box::new((**value).duplicate()),
                },
            DataDescription::Object(entries) => DataDescription::Object(duplicate_desc_entries(entries)),
            DataDescription::Optional { p, value } => DataDescription::Optional {
                p: *p,
                value: Box::new((**value).duplicate()),
            },
            DataDescription::Vec(ds) => DataDescription::Vec(duplicate_descs(ds)),
        }
    }
}

} // verus!

//! Building a data description from a script value.
use vstd::prelude::*;
use crate::convert::{spec_as_char, spec_as_float, spec_as_i64, spec_as_u64, spec_type_key};
use crate::keys::{
    assoc_insert, key_less, keys_sorted, lemma_assoc_insert_sorted, lemma_insert_position,
    lemma_key_less_irreflexive, lemma_key_less_total, lemma_key_less_transitive,
    lemma_key_position, lemma_sorted_keys_distinct, string_less,
};
use crate::model::{
    view_desc, view_descs, view_entries, view_error, view_value, view_values,
    view_weighted_descs, view_weighted_values, view_desc_entries, DataDescription,
    DescriptionError, FloatBits, Marker, ScriptValue, SpecDescription, SpecDescriptionError,
    SpecMarker, SpecValue, TargetType,
};

verus! {

/// The bits of `f64::MIN`.
pub const F64_MIN_BITS: u64 = 0xFFEF_FFFF_FFFF_FFFFu64;

/// The bits of `f64::MAX`.
pub const F64_MAX_BITS: u64 = 0x7FEF_FFFF_FFFF_FFFFu64;

/// The bits of `1.0`.
pub const ONE_BITS: u64 = 0x3FF0_0000_0000_0000u64;

/// The bits of `-0.0`.
pub const NEGATIVE_ZERO_BITS: u64 = 0x8000_0000_0000_0000u64;

/// The float lies in `[0.0, 1.0]`. For a float whose sign bit is clear the
/// order of bit patterns is the order of values (the patterns of NaN lie
/// above infinity); of the floats whose sign bit is set only `-0.0` is in
/// the interval.
pub open spec fn in_unit_interval(p: FloatBits) -> bool {
    p.bits == NEGATIVE_ZERO_BITS || p.bits <= ONE_BITS
}

/// The model of a build result.
pub open spec fn view_result(r: Result<DataDescription, DescriptionError>) -> Result<
    SpecDescription,
    SpecDescriptionError,
> {
    match r {
        Ok(d) => Ok(view_desc(d)),
        Err(e) => Err(view_error(e)),
    }
}

/// A value read as a script value: a result that holds a value, or an
/// error of this library, stands for what it holds; any other value
/// stands for itself.
pub open spec fn spec_checked_value(v: SpecValue) -> Result<SpecValue, SpecDescriptionError> {
    match v {
        SpecValue::Res(Ok(x)) => Ok(*x),
        SpecValue::Res(Err(e)) => match *e {
            SpecValue::Error(de) => Err(de),
            _ => Ok(v),
        },
        _ => Ok(v),
    }
}

/// The name of a target type, as a conversion error reports it.
pub open spec fn target_name(t: TargetType) -> Seq<char> {
    match t {
        TargetType::Value => "rune::runtime::value::Value"@,
        TargetType::Bool => "bool"@,
        TargetType::Char => "char"@,
        TargetType::I64 => "i64"@,
        TargetType::U64 => "u64"@,
        TargetType::F64 => "f64"@,
        TargetType::String => "alloc::string::String"@,
    }
}

/// A value read as type `t`: integers convert where they fit, other
/// values only to their own type, and any value to `Value`.
pub open spec fn spec_convert(w: SpecValue, t: TargetType) -> Option<SpecValue> {
    match t {
        TargetType::Value => Some(w),
        TargetType::Bool => if w is Bool { Some(w) } else { None },
        TargetType::Char => if w is Char { Some(w) } else { None },
        TargetType::I64 => match spec_as_i64(w) {
            Some(i) => Some(SpecValue::Signed(i)),
            None => None,
        },
        TargetType::U64 => match spec_as_u64(w) {
            Some(u) => Some(SpecValue::Unsigned(u)),
            None => None,
        },
        TargetType::F64 => if w is Float { Some(w) } else { None },
        TargetType::String => if w is Str { Some(w) } else { None },
    }
}

/// A value read as type `t`, as [`spec_checked_value`] unwraps it; a value
/// that is not of the type is a conversion error at `line`.
pub open spec fn spec_checked_from_value(v: SpecValue, t: TargetType, line: Option<i64>) -> Result<SpecValue, SpecDescriptionError> {
    match spec_checked_value(v) {
        Err(e) => Err(e),
        Ok(w) => match spec_convert(w, t) {
            Some(x) => Ok(x),
            None => Err(SpecDescriptionError::ConversionError(target_name(t), line)),
        },
    }
}

/// A value read as a float, as [`spec_checked_from_value`] reads it.
pub open spec fn spec_checked_float(v: SpecValue, line: Option<i64>) -> Result<FloatBits, SpecDescriptionError> {
    match spec_checked_from_value(v, TargetType::F64, line) {
        Err(e) => Err(e),
        Ok(w) => match spec_as_float(w) {
            Some(f) => Ok(f),
            None => Err(SpecDescriptionError::ConversionError(target_name(TargetType::F64), line)),
        },
    }
}

/// The description of a range from `min` to `max`: both of one type, and
/// read as `u64`, `i64`, float or character, in this order of preference
/// on `min`.
pub open spec fn spec_range(min: SpecValue, max: SpecValue, inclusive: bool, line: Option<i64>) -> Result<
    SpecDescription,
    SpecDescriptionError,
> {
    if spec_type_key(min) != spec_type_key(max) {
        Err(SpecDescriptionError::MinMaxTypeMismatch(line))
    } else if spec_as_u64(min) is Some {
        match spec_as_u64(max) {
            Some(b) => Ok(SpecDescription::UInt { min: spec_as_u64(min)->0, max: b, inclusive }),
            None => Err(SpecDescriptionError::InvalidRangeEnd(line)),
        }
    } else if spec_as_i64(min) is Some {
        match spec_as_i64(max) {
            Some(b) => Ok(SpecDescription::Int { min: spec_as_i64(min)->0, max: b, inclusive }),
            None => Err(SpecDescriptionError::InvalidRangeEnd(line)),
        }
    } else if spec_as_float(min) is Some {
        match spec_as_float(max) {
            Some(b) => Ok(SpecDescription::Float { min: spec_as_float(min)->0, max: b, inclusive }),
            None => Err(SpecDescriptionError::InvalidRangeEnd(line)),
        }
    } else if spec_as_char(min) is Some {
        match spec_as_char(max) {
            Some(b) => Ok(SpecDescription::Char { min: spec_as_char(min)->0, max: b, inclusive }),
            None => Err(SpecDescriptionError::InvalidRangeEnd(line)),
        }
    } else {
        Err(SpecDescriptionError::UnsupportedType(line))
    }
}

/// The least value of the type of `v`, for a range without a start.
pub open spec fn spec_value_min(v: SpecValue) -> Option<SpecValue> {
    if spec_as_i64(v) is Some {
        Some(SpecValue::Signed(i64::MIN))
    } else if spec_as_u64(v) is Some {
        Some(SpecValue::Unsigned(0))
    } else if spec_as_float(v) is Some {
        Some(SpecValue::Float(FloatBits { bits: F64_MIN_BITS }))
    } else if spec_as_char(v) is Some {
        Some(SpecValue::Char('\0'))
    } else {
        None
    }
}

/// The greatest value of the type of `v`, for a range without an end.
pub open spec fn spec_value_max(v: SpecValue) -> Option<SpecValue> {
    if spec_as_i64(v) is Some {
        Some(SpecValue::Signed(i64::MAX))
    } else if spec_as_u64(v) is Some {
        Some(SpecValue::Unsigned(u64::MAX))
    } else if spec_as_float(v) is Some {
        Some(SpecValue::Float(FloatBits { bits: F64_MAX_BITS }))
    } else if spec_as_char(v) is Some {
        Some(SpecValue::Char('\u{10FFFF}'))
    } else {
        None
    }
}

/// The description that a script value stands for.
pub open spec fn spec_build(v: SpecValue, line: Option<i64>) -> Result<SpecDescription, SpecDescriptionError>
    decreases v, 2nat,
{
    match v {
        SpecValue::Res(Ok(x)) => spec_classify(*x, line),
        SpecValue::Res(Err(e)) => match *e {
            SpecValue::Error(de) => Err(de),
            _ => spec_classify(v, line),
        },
        _ => spec_classify(v, line),
    }
}

/// The description that a value stands for, once results are unwrapped.
pub open spec fn spec_classify(w: SpecValue, line: Option<i64>) -> Result<SpecDescription, SpecDescriptionError>
    decreases w, 1nat,
{
    match w {
        SpecValue::Desc(d) => Ok(*d),
        SpecValue::Res(r) => match r {
            Ok(x) => match *x {
                SpecValue::Mark(m) => spec_build_marker(*m, line),
                _ => Ok(SpecDescription::Just(w)),
            },
            Err(e) => match *e {
                SpecValue::Error(de) => Err(de),
                _ => Ok(SpecDescription::Just(w)),
            },
        },
        SpecValue::Mark(m) => spec_build_marker(*m, line),
        SpecValue::Object(es) => match spec_build_object(es, line) {
            Ok(m) => Ok(SpecDescription::Object(m)),
            Err(e) => Err(e),
        },
        SpecValue::Range(a, b) => spec_range(*a, *b, false, line),
        SpecValue::RangeInclusive(a, b) => spec_range(*a, *b, true, line),
        SpecValue::RangeFrom(a) => match spec_value_max(*a) {
            Some(m) => spec_range(*a, m, true, line),
            None => Err(SpecDescriptionError::UnsupportedType(line)),
        },
        SpecValue::RangeTo(b) => match spec_value_min(*b) {
            Some(m) => spec_range(m, *b, false, line),
            None => Err(SpecDescriptionError::UnsupportedType(line)),
        },
        SpecValue::RangeFull => Err(SpecDescriptionError::UnsupportedType(line)),
        SpecValue::List(items) => match spec_build_list(items, line) {
            Ok(ds) => Ok(SpecDescription::List(ds)),
            Err(e) => Err(e),
        },
        _ => Ok(SpecDescription::Just(w)),
    }
}

/// The descriptions of a list of values, in order; the first error stops.
pub open spec fn spec_build_list(s: Seq<SpecValue>, line: Option<i64>) -> Result<Seq<SpecDescription>, SpecDescriptionError>
    decreases s, 1nat,
{
    if s.len() == 0 {
        Ok(Seq::empty())
    } else {
        match spec_build_list(s.drop_last(), line) {
            Err(e) => Err(e),
            Ok(ds) => match spec_build(s.last(), line) {
                Err(e) => Err(e),
                Ok(d) => Ok(ds.push(d)),
            },
        }
    }
}

/// The descriptions of weighted values, in order; the first error stops.
pub open spec fn spec_build_weighted(s: Seq<(u32, SpecValue)>, line: Option<i64>) -> Result<Seq<(u32, SpecDescription)>, SpecDescriptionError>
    decreases s, 1nat,
{
    if s.len() == 0 {
        Ok(Seq::empty())
    } else {
        match spec_build_weighted(s.drop_last(), line) {
            Err(e) => Err(e),
            Ok(ds) => match spec_build(s.last().1, line) {
                Err(e) => Err(e),
                Ok(d) => Ok(ds.push((s.last().0, d))),
            },
        }
    }
}

/// The description of an object's entries, taken in order; the first
/// error stops, a later entry of a key replaces an earlier one, and the
/// entries stand in the order of their keys.
pub open spec fn spec_build_object(s: Seq<(Seq<char>, SpecValue)>, line: Option<i64>) -> Result<Seq<(Seq<char>, SpecDescription)>, SpecDescriptionError>
    decreases s, 1nat,
{
    if s.len() == 0 {
        Ok(Seq::empty())
    } else {
        match spec_build_object(s.drop_last(), line) {
            Err(e) => Err(e),
            Ok(m) => match spec_build(s.last().1, line) {
                Err(e) => Err(e),
                Ok(d) => Ok(assoc_insert(m, s.last().0, d)),
            },
        }
    }
}

/// The description that a marker asks for.
pub open spec fn spec_build_marker(m: SpecMarker, line: Option<i64>) -> Result<SpecDescription, SpecDescriptionError>
    decreases m, 1nat,
{
    match m {
        SpecMarker::Bool => Ok(SpecDescription::Bool),
        SpecMarker::String { len } => match spec_build(len, line) {
            Ok(d) => Ok(SpecDescription::String { len: Box::new(d) }),
            Err(e) => Err(e),
        },
        SpecMarker::Range { min, max, inclusive } => spec_range(min, max, inclusive, line),
        SpecMarker::Choice(values) => if values.len() == 0 {
            Err(SpecDescriptionError::NoValueToChooseFrom(line))
        } else {
            match spec_build_list(values, line) {
                Ok(ds) => Ok(SpecDescription::Choice(ds)),
                Err(e) => Err(e),
            }
        },
        SpecMarker::Weighted(values) => match spec_build_weighted(values, line) {
            Ok(ws) => Ok(SpecDescription::Weighted(ws)),
            Err(e) => Err(e),
        },
        SpecMarker::FixedLengthArray { count, value } => if count < 0 {
            Err(SpecDescriptionError::CountMustBeNonNegative(line))
        } else {
            match spec_build(value, line) {
                Ok(d) => Ok(SpecDescription::FixedLengthArray { count, value: Box::new(d) }),
                Err(e) => Err(e),
            }
        },
        SpecMarker::VariableLengthArray { count, value } => match spec_build(count, line) {
            Err(e) => Err(e),
            Ok(c) => match spec_build(value, line) {
                Ok(d) => Ok(SpecDescription::VariableLengthArray { count: Box::new(c), value: Box::new(d) }),
                Err(e) => Err(e),
            },
        },
        SpecMarker::Optional { p, value } => match spec_checked_float(p, line) {
            Err(e) => Err(e),
            Ok(pf) => if !in_unit_interval(pf) {
                Err(SpecDescriptionError::InvalidProbability(pf, line))
            } else {
                match spec_build(value, line) {
                    Ok(d) => Ok(SpecDescription::Optional { p: pf, value: Box::new(d) }),
                    Err(e) => Err(e),
                }
            },
        },
    }
}

/// The model of a read value.
pub open spec fn view_value_result(r: Result<ScriptValue, DescriptionError>) -> Result<SpecValue, SpecDescriptionError> {
    match r {
        Ok(v) => Ok(view_value(v)),
        Err(e) => Err(view_error(e)),
    }
}

/// Unwraps a value: a result that holds a value, or an error of this
/// library, stands for what it holds.
fn checked_value(value: &ScriptValue) -> (r: Result<ScriptValue, DescriptionError>)
    ensures
        view_value_result(r) == spec_checked_value(value@),
{
    match value {
        ScriptValue::Result(Ok(x)) => Ok((**x).duplicate()),
        ScriptValue::Result(Err(e)) => match &**e {
            ScriptValue::Error(de) => Err(de.duplicate()),
            _ => {
                proof {
                    assert(!(view_value(**e) is Error));
                }
                Ok(value.duplicate())
            },
        },
        _ => {
            proof {
                assert(!(value@ is Res));
            }
            Ok(value.duplicate())
        },
    }
}

/// The name of a target type.
fn target_type_name(t: TargetType) -> (r: String)
    ensures
        r@ == target_name(t),
{
    match t {
        TargetType::Value => String::from_str("rune::runtime::value::Value"),
        TargetType::Bool => String::from_str("bool"),
        TargetType::Char => String::from_str("char"),
        TargetType::I64 => String::from_str("i64"),
        TargetType::U64 => String::from_str("u64"),
        TargetType::F64 => String::from_str("f64"),
        TargetType::String => String::from_str("alloc::string::String"),
    }
}

/// Reads `w` as type `t`.
fn convert(w: ScriptValue, t: TargetType) -> (r: Option<ScriptValue>)
    ensures
        match r {
            Some(x) => spec_convert(w@, t) == Some(x@),
            None => spec_convert(w@, t) is None,
        },
{
    match t {
        TargetType::Value => Some(w),
        TargetType::Bool => if let ScriptValue::Bool(_) = w { Some(w) } else { None },
        TargetType::Char => if let ScriptValue::Char(_) = w { Some(w) } else { None },
        TargetType::I64 => match w.as_i64() {
            Some(i) => Some(ScriptValue::Signed(i)),
            None => None,
        },
        TargetType::U64 => match w.as_u64() {
            Some(u) => Some(ScriptValue::Unsigned(u)),
            None => None,
        },
        TargetType::F64 => if let ScriptValue::Float(_) = w { Some(w) } else { None },
        TargetType::String => if let ScriptValue::String(_) = w { Some(w) } else { None },
    }
}

/// Reads a value as type `t`, reporting `line` in a conversion error.
fn checked_from_value_at(value: &ScriptValue, t: TargetType, line: Option<i64>) -> (r: Result<ScriptValue, DescriptionError>)
    ensures
        view_value_result(r) == spec_checked_from_value(value@, t, line),
{
    let w = match checked_value(value) {
        Ok(w) => w,
        Err(e) => {
            return Err(e);
        },
    };
    match convert(w, t) {
        Some(x) => Ok(x),
        None => Err(DescriptionError::ConversionError(target_type_name(t), line)),
    }
}

/// Reads a value as type `t`: a result that holds a value, or an error of
/// this library, stands for what it holds, and a value that is not of the
/// type is a conversion error.
pub fn checked_from_value(value: &ScriptValue, t: TargetType) -> (r: Result<ScriptValue, DescriptionError>)
    ensures
        view_value_result(r) == spec_checked_from_value(value@, t, None),
{
    checked_from_value_at(value, t, None)
}

/// Reads a value as a float; a value that is no float is a conversion
/// error at `line`.
fn checked_float(value: &ScriptValue, line: Option<i64>) -> (r: Result<FloatBits, DescriptionError>)
    ensures
        match r {
            Ok(f) => spec_checked_float(value@, line) == Ok::<FloatBits, SpecDescriptionError>(f),
            Err(e) => spec_checked_float(value@, line) == Err::<FloatBits, SpecDescriptionError>(view_error(e)),
        },
{
    let w = match checked_from_value_at(value, TargetType::F64, line) {
        Ok(w) => w,
        Err(e) => {
            return Err(e);
        },
    };
    match w.as_float() {
        Some(f) => Ok(f),
        None => Err(DescriptionError::ConversionError(target_type_name(TargetType::F64), line)),
    }
}

/// The description of a range from `min` to `max`.
fn range_impl(min: &ScriptValue, max: &ScriptValue, inclusive: bool, line: Option<i64>) -> (r: Result<DataDescription, DescriptionError>)
    ensures
        view_result(r) == spec_range(min@, max@, inclusive, line),
{
    if min.type_key() != max.type_key() {
        return Err(DescriptionError::MinMaxTypeMismatch(line));
    }
    if let Some(a) = min.as_u64() {
        return match max.as_u64() {
            Some(b) => Ok(DataDescription::UInt { min: a, max: b, inclusive }),
            None => Err(DescriptionError::InvalidRangeEnd(line)),
        };
    }
    if let Some(a) = min.as_i64() {
        return match max.as_i64() {
            Some(b) => Ok(DataDescription::Int { min: a, max: b, inclusive }),
            None => Err(DescriptionError::InvalidRangeEnd(line)),
        };
    }
    if let Some(a) = min.as_float() {
        return match max.as_float() {
            Some(b) => Ok(DataDescription::Float { min: a, max: b, inclusive }),
            None => Err(DescriptionError::InvalidRangeEnd(line)),
        };
    }
    if let Some(a) = min.as_char() {
        return match max.as_char() {
            Some(b) => Ok(DataDescription::Char { min: a, max: b, inclusive }),
            None => Err(DescriptionError::InvalidRangeEnd(line)),
        };
    }
    Err(DescriptionError::UnsupportedType(line))
}

/// The least value of the type of `value`.
fn value_min(value: &ScriptValue) -> (r: Option<ScriptValue>)
    ensures
        match r {
            Some(m) => spec_value_min(value@) == Some(m@),
            None => spec_value_min(value@) is None,
        },
{
    if value.as_i64().is_some() {
        Some(ScriptValue::Signed(i64::MIN))
    } else if value.as_u64().is_some() {
        Some(ScriptValue::Unsigned(0))
    } else if value.as_float().is_some() {
        Some(ScriptValue::Float(FloatBits { bits: F64_MIN_BITS }))
    } else if value.as_char().is_some() {
        Some(ScriptValue::Char('\0'))
    } else {
        None
    }
}

/// The greatest value of the type of `value`.
fn value_max(value: &ScriptValue) -> (r: Option<ScriptValue>)
    ensures
        match r {
            Some(m) => spec_value_max(value@) == Some(m@),
            None => spec_value_max(value@) is None,
        },
{
    if value.as_i64().is_some() {
        Some(ScriptValue::Signed(i64::MAX))
    } else if value.as_u64().is_some() {
        Some(ScriptValue::Unsigned(u64::MAX))
    } else if value.as_float().is_some() {
        Some(ScriptValue::Float(FloatBits { bits: F64_MAX_BITS }))
    } else if value.as_char().is_some() {
        Some(ScriptValue::Char('\u{10FFFF}'))
    } else {
        None
    }
}

/// An error among the first values of a list is the list's error.
proof fn lemma_list_prefix_error(s: Seq<SpecValue>, i: int, line: Option<i64>)
    requires
        0 <= i <= s.len(),
        spec_build_list(s.take(i), line) is Err,
    ensures
        spec_build_list(s, line) == spec_build_list(s.take(i), line),
    decreases s.len() - i,
{
    if i < s.len() {
        assert(s.take(i + 1).drop_last() =~= s.take(i));
        lemma_list_prefix_error(s, i + 1, line);
    } else {
        assert(s.take(i) =~= s);
    }
}

/// An error among the first weighted values is the whole's error.
proof fn lemma_weighted_prefix_error(s: Seq<(u32, SpecValue)>, i: int, line: Option<i64>)
    requires
        0 <= i <= s.len(),
        spec_build_weighted(s.take(i), line) is Err,
    ensures
        spec_build_weighted(s, line) == spec_build_weighted(s.take(i), line),
    decreases s.len() - i,
{
    if i < s.len() {
        assert(s.take(i + 1).drop_last() =~= s.take(i));
        lemma_weighted_prefix_error(s, i + 1, line);
    } else {
        assert(s.take(i) =~= s);
    }
}

/// An error among the first entries of an object is the object's error.
proof fn lemma_object_prefix_error(s: Seq<(Seq<char>, SpecValue)>, i: int, line: Option<i64>)
    requires
        0 <= i <= s.len(),
        spec_build_object(s.take(i), line) is Err,
    ensures
        spec_build_object(s, line) == spec_build_object(s.take(i), line),
    decreases s.len() - i,
{
    if i < s.len() {
        assert(s.take(i + 1).drop_last() =~= s.take(i));
        lemma_object_prefix_error(s, i + 1, line);
    } else {
        assert(s.take(i) =~= s);
    }
}

/// Sets `key` to `d` among the entries of an object description: in
/// place where the key is already, else at its place in the order of keys.
fn object_insert(m: &mut Vec<(String, DataDescription)>, key: String, d: DataDescription)
    requires
        keys_sorted(view_desc_entries(old(m)@)),
    ensures
        view_desc_entries(final(m)@) == assoc_insert(view_desc_entries(old(m)@), key@, view_desc(d)),
        keys_sorted(view_desc_entries(final(m)@)),
{
    let ghost m0 = view_desc_entries(m@);
    proof {
        lemma_key_position(m0, key@);
        lemma_assoc_insert_sorted(m0, key@, view_desc(d));
        lemma_sorted_keys_distinct(m0);
        lemma_key_less_irreflexive(key@);
    }
    let mut i: usize = 0;
    while i < m.len()
        invariant
            i <= m.len(),
            m0 == view_desc_entries(m@),
            m0 == view_desc_entries(old(m)@),
            keys_sorted(m0),
            !key_less(key@, key@),
            forall|j: int| 0 <= j < i ==> key_less((#[trigger] m0[j]).0, key@),
        decreases m.len() - i,
    {
        if m[i].0 == key {
            proof {
                assert(m0[i as int].0 == key@);
                lemma_sorted_keys_distinct(m0);
                lemma_key_position(m0, key@);
            }
            m[i] = (key, d);
            proof {
                assert(view_desc_entries(m@) =~= m0.update(i as int, (key@, view_desc(d))));
            }
            return;
        }
        if string_less(&key, &m[i].0) {
            proof {
                assert(m0[i as int].0 == m@[i as int].0@);
                assert forall|j: int| i <= j < m0.len() implies key_less(key@, (#[trigger] m0[j]).0) by {
                    if j > i {
                        lemma_key_less_transitive(key@, m0[i as int].0, m0[j].0);
                    }
                }
                lemma_insert_position(m0, key@, i as int);
                assert forall|j: int| 0 <= j < m0.len() implies (#[trigger] m0[j]).0 != key@ by {
                    if j < i {
                        assert(key_less(m0[j].0, key@));
                    } else {
                        assert(key_less(key@, m0[j].0));
                    }
                }
                lemma_key_position(m0, key@);
            }
            m.insert(i, (key, d));
            proof {
                assert(view_desc_entries(m@) =~= m0.insert(i as int, (key@, view_desc(d))));
            }
            return;
        }
        proof {
            assert(m0[i as int].0 == m@[i as int].0@);
            lemma_key_less_total(m0[i as int].0, key@);
        }
        i += 1;
    }
    proof {
        lemma_insert_position(m0, key@, m0.len() as int);
        assert forall|j: int| 0 <= j < m0.len() implies (#[trigger] m0[j]).0 != key@ by {
            assert(key_less(m0[j].0, key@));
        }
        lemma_key_position(m0, key@);
    }
    m.push((key, d));
    proof {
        assert(view_desc_entries(m@) =~= m0.insert(m0.len() as int, (key@, view_desc(d))));
    }
}

/// Builds the description of a list of values, in order.
fn build_list(items: &Vec<ScriptValue>, line: Option<i64>) -> (r: Result<Vec<DataDescription>, DescriptionError>)
    ensures
        match r {
            Ok(ds) => spec_build_list(view_values(items@), line) == Ok::<Seq<SpecDescription>, SpecDescriptionError>(view_descs(ds@)),
            Err(e) => spec_build_list(view_values(items@), line) == Err::<Seq<SpecDescription>, SpecDescriptionError>(view_error(e)),
        },
    decreases items, 0nat,
{
    let ghost s = view_values(items@);
    proof {
        assert(decreases_to!(*items => items@));
        assert(s.take(0) =~= Seq::<SpecValue>::empty());
        assert(view_descs(Seq::<DataDescription>::empty()) =~= Seq::<SpecDescription>::empty());
    }
    let mut out: Vec<DataDescription> = Vec::new();
    let mut i: usize = 0;
    while i < items.len()
        invariant
            i <= items.len(),
            s == view_values(items@),
            spec_build_list(s.take(i as int), line) == Ok::<Seq<SpecDescription>, SpecDescriptionError>(view_descs(out@)),
            forall|j: int| 0 <= j < items@.len() ==> decreases_to!(*items => #[trigger] items@[j]),
        decreases items.len() - i,
    {
        proof {
            assert(s.take(i + 1).drop_last() =~= s.take(i as int));
            assert(s.take(i + 1).last() == view_value(items@[i as int]));
        }
        match try_build_description(&items[i], line) {
            Ok(d) => {
                proof {
                    assert(view_descs(out@.push(d)) =~= view_descs(out@).push(view_desc(d)));
                }
                out.push(d);
            },
            Err(e) => {
                proof {
                    lemma_list_prefix_error(s, i + 1, line);
                }
                return Err(e);
            },
        }
        i += 1;
    }
    proof {
        assert(s.take(items.len() as int) =~= s);
    }
    Ok(out)
}

/// Builds the descriptions of weighted values, in order.
fn build_weighted(items: &Vec<(u32, ScriptValue)>, line: Option<i64>) -> (r: Result<Vec<(u32, DataDescription)>, DescriptionError>)
    ensures
        match r {
            Ok(ds) => spec_build_weighted(view_weighted_values(items@), line) == Ok::<Seq<(u32, SpecDescription)>, SpecDescriptionError>(view_weighted_descs(ds@)),
            Err(e) => spec_build_weighted(view_weighted_values(items@), line) == Err::<Seq<(u32, SpecDescription)>, SpecDescriptionError>(view_error(e)),
        },
    decreases items, 0nat,
{
    let ghost s = view_weighted_values(items@);
    proof {
        assert(decreases_to!(*items => items@));
        assert(s.take(0) =~= Seq::<(u32, SpecValue)>::empty());
        assert(view_weighted_descs(Seq::<(u32, DataDescription)>::empty()) =~= Seq::<(u32, SpecDescription)>::empty());
    }
    let mut out: Vec<(u32, DataDescription)> = Vec::new();
    let mut i: usize = 0;
    while i < items.len()
        invariant
            i <= items.len(),
            s == view_weighted_values(items@),
            spec_build_weighted(s.take(i as int), line) == Ok::<Seq<(u32, SpecDescription)>, SpecDescriptionError>(view_weighted_descs(out@)),
            forall|j: int| 0 <= j < items@.len() ==> decreases_to!(*items => #[trigger] items@[j].1),
        decreases items.len() - i,
    {
        proof {
            assert(s.take(i + 1).drop_last() =~= s.take(i as int));
            assert(s.take(i + 1).last() == (items@[i as int].0, view_value(items@[i as int].1)));
        }
        match try_build_description(&items[i].1, line) {
            Ok(d) => {
                let w = items[i].0;
                proof {
                    assert(view_weighted_descs(out@.push((w, d))) =~= view_weighted_descs(out@).push((w, view_desc(d))));
                }
                out.push((w, d));
            },
            Err(e) => {
                proof {
                    lemma_weighted_prefix_error(s, i + 1, line);
                }
                return Err(e);
            },
        }
        i += 1;
    }
    proof {
        assert(s.take(items.len() as int) =~= s);
    }
    Ok(out)
}

/// Builds the description of an object's entries, taken in order; a
/// later entry of a key replaces an earlier one, and the entries stand in
/// the order of their keys.
fn build_object(items: &Vec<(String, ScriptValue)>, line: Option<i64>) -> (r: Result<Vec<(String, DataDescription)>, DescriptionError>)
    ensures
        match r {
            Ok(ds) => spec_build_object(view_entries(items@), line) == Ok::<Seq<(Seq<char>, SpecDescription)>, SpecDescriptionError>(view_desc_entries(ds@))
                && keys_sorted(view_desc_entries(ds@)),
            Err(e) => spec_build_object(view_entries(items@), line) == Err::<Seq<(Seq<char>, SpecDescription)>, SpecDescriptionError>(view_error(e)),
        },
    decreases items, 0nat,
{
    let ghost s = view_entries(items@);
    proof {
        assert(decreases_to!(*items => items@));
        assert(s.take(0) =~= Seq::<(Seq<char>, SpecValue)>::empty());
        assert(view_desc_entries(Seq::<(String, DataDescription)>::empty()) =~= Seq::<(Seq<char>, SpecDescription)>::empty());
    }
    let mut out: Vec<(String, DataDescription)> = Vec::new();
    let mut i: usize = 0;
    while i < items.len()
        invariant
            i <= items.len(),
            s == view_entries(items@),
            spec_build_object(s.take(i as int), line) == Ok::<Seq<(Seq<char>, SpecDescription)>, SpecDescriptionError>(view_desc_entries(out@)),
            keys_sorted(view_desc_entries(out@)),
            forall|j: int| 0 <= j < items@.len() ==> decreases_to!(*items => #[trigger] items@[j].1),
        decreases items.len() - i,
    {
        proof {
            assert(s.take(i + 1).drop_last() =~= s.take(i as int));
            assert(s.take(i + 1).last() == (items@[i as int].0@, view_value(items@[i as int].1)));
        }
        match try_build_description(&items[i].1, line) {
            Ok(d) => {
                let key = items[i].0.clone();
                object_insert(&mut out, key, d);
            },
            Err(e) => {
                proof {
                    lemma_object_prefix_error(s, i + 1, line);
                }
                return Err(e);
            },
        }
        i += 1;
    }
    proof {
        assert(s.take(items.len() as int) =~= s);
    }
    Ok(out)
}

/// Builds the description that a script value stands for; `line` is the
/// script line that errors report.
pub fn try_build_description(value: &ScriptValue, line: Option<i64>) -> (r: Result<DataDescription, DescriptionError>)
    ensures
        view_result(r) == spec_build(value@, line),
    decreases value, 2nat,
{
    match value {
        ScriptValue::Result(Ok(x)) => classify_value(&**x, line),
        ScriptValue::Result(Err(e)) => match &**e {
            ScriptValue::Error(de) => Err(de.duplicate()),
            _ => {
                proof {
                    assert(!(view_value(**e) is Error));
                }
                classify_value(value, line)
            },
        },
        _ => {
            proof {
                assert(!(value@ is Res));
            }
            classify_value(value, line)
        },
    }
}

/// The description that a value stands for, once results are unwrapped.
fn classify_value(w: &ScriptValue, line: Option<i64>) -> (r: Result<DataDescription, DescriptionError>)
    ensures
        view_result(r) == spec_classify(w@, line),
    decreases w, 1nat,
{
    match w {
        ScriptValue::Description(d) => Ok((**d).duplicate()),
        ScriptValue::Result(res) => match res {
            Ok(x) => match &**x {
                ScriptValue::Marker(m) => try_build_from_marker(&**m, line),
                _ => {
                    proof {
                        assert(!(view_value(**x) is Mark));
                    }
                    Ok(DataDescription::Just(w.duplicate()))
                },
            },
            Err(e) => match &**e {
                ScriptValue::Error(de) => Err(de.duplicate()),
                _ => {
                    proof {
                        assert(!(view_value(**e) is Error));
                    }
                    Ok(DataDescription::Just(w.duplicate()))
                },
            },
        },
        ScriptValue::Marker(m) => try_build_from_marker(&**m, line),
        ScriptValue::Object(entries) => match build_object(entries, line) {
            Ok(m) => Ok(DataDescription::Object(m)),
            Err(e) => Err(e),
        },
        ScriptValue::Range(a, b) => range_impl(&**a, &**b, false, line),
        ScriptValue::RangeInclusive(a, b) => range_impl(&**a, &**b, true, line),
        ScriptValue::RangeFrom(a) => match value_max(&**a) {
            Some(m) => range_impl(&**a, &m, true, line),
            None => Err(DescriptionError::UnsupportedType(line)),
        },
        ScriptValue::RangeTo(b) => match value_min(&**b) {
            Some(m) => range_impl(&m, &**b, false, line),
            None => Err(DescriptionError::UnsupportedType(line)),
        },
        ScriptValue::RangeFull => Err(DescriptionError::UnsupportedType(line)),
        ScriptValue::Vec(items) => match build_list(items, line) {
            Ok(ds) => Ok(DataDescription::Vec(ds)),
            Err(e) => Err(e),
        },
        _ => Ok(DataDescription::Just(w.duplicate())),
    }
}

/// Builds the description that a marker asks for.
fn try_build_from_marker(m: &Marker, line: Option<i64>) -> (r: Result<DataDescription, DescriptionError>)
    ensures
        view_result(r) == spec_build_marker(m@, line),
    decreases m, 1nat,
{
    match m {
        Marker::Bool => Ok(DataDescription::Bool),
        Marker::String { len } => match try_build_description(len, line) {
            Ok(d) => Ok(DataDescription::String { len: Box::new(d) }),
            Err(e) => Err(e),
        },
        Marker::Range { min, max, inclusive } => range_impl(min, max, *inclusive, line),
        Marker::Choice(values) => {
            if values.len() == 0 {
                Err(DescriptionError::NoValueToChooseFrom(line))
            } else {
                match build_list(values, line) {
                    Ok(ds) => Ok(DataDescription::Choice(ds)),
                    Err(e) => Err(e),
                }
            }
        },
        Marker::Weighted(values) => match build_weighted(values, line) {
            Ok(ws) => Ok(DataDescription::Weighted(ws)),
            Err(e) => Err(e),
        },
        Marker::FixedLengthArray { count, value } => {
            if *count < 0 {
                return Err(DescriptionError::CountMustBeNonNegative(line));
            }
            match try_build_description(value, line) {
                Ok(d) => Ok(DataDescription::FixedLengthArray { count: *count, value: Box::new(d) }),
                Err(e) => Err(e),
            }
        },
        Marker::VariableLengthArray { count, value } => {
            let c = match try_build_description(count, line) {
                Ok(c) => c,
                Err(e) => {
                    return Err(e);
                },
            };
            match try_build_description(value, line) {
                Ok(d) => Ok(DataDescription::VariableLengthArray { count: Box::new(c), value: Box::new(d) }),
                Err(e) => Err(e),
            }
        },
        Marker::Optional { p, value } => {
            let pf = match checked_float(p, line) {
                Ok(f) => f,
                Err(e) => {
                    return Err(e);
                },
            };
            if !(pf.bits == NEGATIVE_ZERO_BITS || pf.bits <= ONE_BITS) {
                return Err(DescriptionError::InvalidProbability(pf, line));
            }
            match try_build_description(value, line) {
                Ok(d) => Ok(DataDescription::Optional { p: pf, value: Box::new(d) }),
                Err(e) => Err(e),
            }
        },
    }
}

/// The description that a value stands for, reporting `line` in errors.
pub fn make_description(this: &ScriptValue, line: i64) -> (r: Result<DataDescription, DescriptionError>)
    ensures
        view_result(r) == spec_build(this@, Some(line)),
{
    try_build_description(this, Some(line))
}

/// The description that a value stands for, with no line in errors.
pub fn to_description(this: &ScriptValue) -> (r: Result<DataDescription, DescriptionError>)
    ensures
        view_result(r) == spec_build(this@, None),
{
    try_build_description(this, None)
}

} // verus!

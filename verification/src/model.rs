//! The data the library works on: script values, markers built by the
//! helper functions of a script, data descriptions, their errors, and the
//! mathematical model (the views) that every contract speaks of.
use vstd::prelude::*;

verus! {

/// A 64-bit floating-point number, held as its IEEE-754 bit pattern.
///
/// The library never does arithmetic on floats: it only carries them
/// and tests the bit pattern where a rule asks for it.
#[derive(Clone, Copy, Debug, PartialEq, Eq, Structural)]
pub struct FloatBits {
    pub bits: u64,
}

/// The runtime type of a script value. Two script values have the same
/// type exactly when their keys are equal.
#[derive(Clone, Copy, Debug, PartialEq, Eq, Structural)]
pub enum TypeKey {
    Tuple,
    Bool,
    Char,
    Signed,
    Unsigned,
    Float,
    String,
    Vec,
    Object,
    Option,
    Result,
    Range,
    RangeInclusive,
    RangeFrom,
    RangeTo,
    RangeFull,
    Description,
    Marker,
    DescriptionError,
    /// Any other type, named by its type hash.
    Other(u64),
}

/// The type that a script value is read as.
#[derive(Clone, Copy, Debug, PartialEq, Eq, Structural)]
pub enum TargetType {
    /// Any value, as it is.
    Value,
    Bool,
    Char,
    I64,
    U64,
    F64,
    String,
}

/// A value of the scripting language, as far as the library reads it.
///
/// Values that the library only carries through (functions, structs,
/// tuples, ...) are `Opaque`: a type key and a handle by which the
/// embedding program finds the value again.
#[derive(Debug)]
pub enum ScriptValue {
    Unit,
    Bool(bool),
    Char(char),
    Signed(i64),
    Unsigned(u64),
    Float(FloatBits),
    String(String),
    Vec(Vec<ScriptValue>),
    /// An object: its entries in the order the script runtime gave them.
    Object(Vec<(String, ScriptValue)>),
    Option(Option<Box<ScriptValue>>),
    Result(Result<Box<ScriptValue>, Box<ScriptValue>>),
    /// `start..end`
    Range(Box<ScriptValue>, Box<ScriptValue>),
    /// `start..=end`
    RangeInclusive(Box<ScriptValue>, Box<ScriptValue>),
    /// `start..`
    RangeFrom(Box<ScriptValue>),
    /// `..end`
    RangeTo(Box<ScriptValue>),
    /// `..`
    RangeFull,
    Description(Box<DataDescription>),
    Marker(Box<Marker>),
    Error(DescriptionError),
    Opaque(TypeKey, u64),
}

/// What the helper functions of a script (`range`, `choose`, `values`, ...)
/// return: a request for a description, not yet checked.
#[derive(Debug)]
#[allow(inconsistent_fields)]
pub enum Marker {
    Bool,
    Range { min: ScriptValue, max: ScriptValue, inclusive: bool },
    String { len: ScriptValue },
    Choice(Vec<ScriptValue>),
    Weighted(Vec<(u32, ScriptValue)>),
    FixedLengthArray { count: i64, value: ScriptValue },
    VariableLengthArray { count: ScriptValue, value: ScriptValue },
    Optional { p: ScriptValue, value: ScriptValue },
}

/// A description of the data to generate.
#[derive(Debug)]
#[allow(inconsistent_fields)]
pub enum DataDescription {
    Bool,
    Just(ScriptValue),
    UInt { min: u64, max: u64, inclusive: bool },
    Int { min: i64, max: i64, inclusive: bool },
    Char { min: char, max: char, inclusive: bool },
    Float { min: FloatBits, max: FloatBits, inclusive: bool },
    String { len: Box<DataDescription> },
    Choice(Vec<DataDescription>),
    Weighted(Vec<(u32, DataDescription)>),
    FixedLengthArray { count: i64, value: Box<DataDescription> },
    VariableLengthArray { count: Box<DataDescription>, value: Box<DataDescription> },
    /// An object description: its entries, each key once.
    Object(Vec<(String, DataDescription)>),
    Optional { p: FloatBits, value: Box<DataDescription> },
    Vec(Vec<DataDescription>),
}

/// Why a script value does not describe data. Each error carries the
/// script line it comes from, where one is known.
#[derive(Debug)]
pub enum DescriptionError {
    InvalidRangeStart(Option<i64>),
    InvalidRangeEnd(Option<i64>),
    UnsupportedType(Option<i64>),
    NoValueToChooseFrom(Option<i64>),
    MinMaxTypeMismatch(Option<i64>),
    InvalidProbability(FloatBits, Option<i64>),
    CountMustBeNonNegative(Option<i64>),
    ConversionError(String, Option<i64>),
}

/// Why a value could not be used as a length or count.
#[derive(Clone, Copy, Debug, PartialEq, Eq, Structural)]
pub enum UsizeError {
    /// The value is not a number; its type.
    ExpectedNumber(TypeKey),
    /// A signed number out of the range of `usize`.
    SignedOutOfRange(i64),
    /// An unsigned number out of the range of `usize`.
    UnsignedOutOfRange(u64),
}

/// Why weights could not be sampled from.
#[derive(Clone, Copy, Debug, PartialEq, Eq, Structural)]
pub enum WeightError {
    /// There are no weights.
    InvalidInput,
    /// A weight is not a valid weight.
    InvalidWeight,
    /// No weight is greater than zero.
    InsufficientNonZero,
    /// The sum of the weights does not fit.
    Overflow,
    /// A kind of error that the sampler may add in a later version.
    Other,
}

/// Why data could not be generated from a description.
#[derive(Clone, Copy, Debug, PartialEq, Eq, Structural)]
pub enum EvaluationError {
    NoValueToChooseFrom,
    /// A range to draw a number from holds no number.
    EmptyRange,
    RuntimeError(UsizeError),
    WeightError(WeightError),
}

/// Any error of the library.
#[derive(Debug)]
pub enum RuGenError {
    DescriptionError(DescriptionError),
    EvaluationError(EvaluationError),
}

// ---------------------------------------------------------------------
// The mathematical model
// ---------------------------------------------------------------------

/// The model of a [`ScriptValue`].
pub enum SpecValue {
    Unit,
    Bool(bool),
    Char(char),
    Signed(i64),
    Unsigned(u64),
    Float(FloatBits),
    Str(Seq<char>),
    List(Seq<SpecValue>),
    Object(Seq<(Seq<char>, SpecValue)>),
    Opt(Option<Box<SpecValue>>),
    Res(Result<Box<SpecValue>, Box<SpecValue>>),
    Range(Box<SpecValue>, Box<SpecValue>),
    RangeInclusive(Box<SpecValue>, Box<SpecValue>),
    RangeFrom(Box<SpecValue>),
    RangeTo(Box<SpecValue>),
    RangeFull,
    Desc(Box<SpecDescription>),
    Mark(Box<SpecMarker>),
    Error(SpecDescriptionError),
    Opaque(TypeKey, u64),
}

/// The model of a [`Marker`].
#[allow(inconsistent_fields)]
pub enum SpecMarker {
    Bool,
    Range { min: SpecValue, max: SpecValue, inclusive: bool },
    String { len: SpecValue },
    Choice(Seq<SpecValue>),
    Weighted(Seq<(u32, SpecValue)>),
    FixedLengthArray { count: i64, value: SpecValue },
    VariableLengthArray { count: SpecValue, value: SpecValue },
    Optional { p: SpecValue, value: SpecValue },
}

/// The model of a [`DataDescription`].
#[allow(inconsistent_fields)]
pub enum SpecDescription {
    Bool,
    Just(SpecValue),
    UInt { min: u64, max: u64, inclusive: bool },
    Int { min: i64, max: i64, inclusive: bool },
    Char { min: char, max: char, inclusive: bool },
    Float { min: FloatBits, max: FloatBits, inclusive: bool },
    String { len: Box<SpecDescription> },
    Choice(Seq<SpecDescription>),
    Weighted(Seq<(u32, SpecDescription)>),
    FixedLengthArray { count: i64, value: Box<SpecDescription> },
    VariableLengthArray { count: Box<SpecDescription>, value: Box<SpecDescription> },
    Object(Seq<(Seq<char>, SpecDescription)>),
    Optional { p: FloatBits, value: Box<SpecDescription> },
    List(Seq<SpecDescription>),
}

/// The model of a [`DescriptionError`].
pub enum SpecDescriptionError {
    InvalidRangeStart(Option<i64>),
    InvalidRangeEnd(Option<i64>),
    UnsupportedType(Option<i64>),
    NoValueToChooseFrom(Option<i64>),
    MinMaxTypeMismatch(Option<i64>),
    InvalidProbability(FloatBits, Option<i64>),
    CountMustBeNonNegative(Option<i64>),
    ConversionError(Seq<char>, Option<i64>),
}

pub open spec fn view_error(e: DescriptionError) -> SpecDescriptionError {
    match e {
        DescriptionError::InvalidRangeStart(l) => SpecDescriptionError::InvalidRangeStart(l),
        DescriptionError::InvalidRangeEnd(l) => SpecDescriptionError::InvalidRangeEnd(l),
        DescriptionError::UnsupportedType(l) => SpecDescriptionError::UnsupportedType(l),
        DescriptionError::NoValueToChooseFrom(l) => SpecDescriptionError::NoValueToChooseFrom(l),
        DescriptionError::MinMaxTypeMismatch(l) => SpecDescriptionError::MinMaxTypeMismatch(l),
        DescriptionError::InvalidProbability(p, l) => SpecDescriptionError::InvalidProbability(p, l),
        DescriptionError::CountMustBeNonNegative(l) => SpecDescriptionError::CountMustBeNonNegative(l),
        DescriptionError::ConversionError(t, l) => SpecDescriptionError::ConversionError(t@, l),
    }
}

pub open spec fn view_value(v: ScriptValue) -> SpecValue
    decreases v, 1nat,
{
    match v {
        ScriptValue::Unit => SpecValue::Unit,
        ScriptValue::Bool(b) => SpecValue::Bool(b),
        ScriptValue::Char(c) => SpecValue::Char(c),
        ScriptValue::Signed(i) => SpecValue::Signed(i),
        ScriptValue::Unsigned(u) => SpecValue::Unsigned(u),
        ScriptValue::Float(f) => SpecValue::Float(f),
        ScriptValue::String(s) => SpecValue::Str(s@),
        ScriptValue::Vec(items) => SpecValue::List(view_values(items@)),
        ScriptValue::Object(entries) => SpecValue::Object(view_entries(entries@)),
        ScriptValue::Option(o) => SpecValue::Opt(
            match o {
                Some(x) => Some(Box::new(view_value(*x))),
                None => None,
            },
        ),
        ScriptValue::Result(r) => SpecValue::Res(
            match r {
                Ok(x) => Ok(Box::new(view_value(*x))),
                Err(x) => Err(Box::new(view_value(*x))),
            },
        ),
        ScriptValue::Range(a, b) => SpecValue::Range(
            Box::new(view_value(*a)),
            Box::new(view_value(*b)),
        ),
        ScriptValue::RangeInclusive(a, b) => SpecValue::RangeInclusive(
            Box::new(view_value(*a)),
            Box::new(view_value(*b)),
        ),
        ScriptValue::RangeFrom(a) => SpecValue::RangeFrom(Box::new(view_value(*a))),
        ScriptValue::RangeTo(b) => SpecValue::RangeTo(Box::new(view_value(*b))),
        ScriptValue::RangeFull => SpecValue::RangeFull,
        ScriptValue::Description(d) => SpecValue::Desc(Box::new(view_desc(*d))),
        ScriptValue::Marker(m) => SpecValue::Mark(Box::new(view_marker(*m))),
        ScriptValue::Error(e) => SpecValue::Error(view_error(e)),
        ScriptValue::Opaque(k, h) => SpecValue::Opaque(k, h),
    }
}

pub open spec fn view_values(s: Seq<ScriptValue>) -> Seq<SpecValue>
    decreases s, 0nat,
{
    Seq::new(
        s.len(),
        |i: int|
            if 0 <= i < s.len() {
                view_value(s[i])
            } else {
                SpecValue::Unit
            },
    )
}

pub open spec fn view_entries(s: Seq<(String, ScriptValue)>) -> Seq<(Seq<char>, SpecValue)>
    decreases s, 0nat,
{
    Seq::new(
        s.len(),
        |i: int|
            if 0 <= i < s.len() {
                (s[i].0@, view_value(s[i].1))
            } else {
                (Seq::empty(), SpecValue::Unit)
            },
    )
}

pub open spec fn view_weighted_values(s: Seq<(u32, ScriptValue)>) -> Seq<(u32, SpecValue)>
    decreases s, 0nat,
{
    Seq::new(
        s.len(),
        |i: int|
            if 0 <= i < s.len() {
                (s[i].0, view_value(s[i].1))
            } else {
                (0u32, SpecValue::Unit)
            },
    )
}

pub open spec fn view_marker(m: Marker) -> SpecMarker
    decreases m, 1nat,
{
    match m {
        Marker::Bool => SpecMarker::Bool,
        Marker::Range { min, max, inclusive } => SpecMarker::Range {
            min: view_value(min),
            max: view_value(max),
            inclusive,
        },
        Marker::String { len } => SpecMarker::String { len: view_value(len) },
        Marker::Choice(values) => SpecMarker::Choice(view_values(values@)),
        Marker::Weighted(values) => SpecMarker::Weighted(view_weighted_values(values@)),
        Marker::FixedLengthArray { count, value } => SpecMarker::FixedLengthArray {
            count,
            value: view_value(value),
        },
        Marker::VariableLengthArray { count, value } => SpecMarker::VariableLengthArray {
            count: view_value(count),
            value: view_value(value),
        },
        Marker::Optional { p, value } => SpecMarker::Optional {
            p: view_value(p),
            value: view_value(value),
        },
    }
}

pub open spec fn view_desc(d: DataDescription) -> SpecDescription
    decreases d, 1nat,
{
    match d {
        DataDescription::Bool => SpecDescription::Bool,
        DataDescription::Just(v) => SpecDescription::Just(view_value(v)),
        DataDescription::UInt { min, max, inclusive } => SpecDescription::UInt {
            min,
            max,
            inclusive,
        },
        DataDescription::Int { min, max, inclusive } => SpecDescription::Int {
            min,
            max,
            inclusive,
        },
        DataDescription::Char { min, max, inclusive } => SpecDescription::Char {
            min,
            max,
            inclusive,
        },
        DataDescription::Float { min, max, inclusive } => SpecDescription::Float {
            min,
            max,
            inclusive,
        },
        DataDescription::String { len } => SpecDescription::String {
            len: Box::new(view_desc(*len)),
        },
        DataDescription::Choice(ds) => SpecDescription::Choice(view_descs(ds@)),
        DataDescription::Weighted(ds) => SpecDescription::Weighted(view_weighted_descs(ds@)),
        DataDescription::FixedLengthArray { count, value } => SpecDescription::FixedLengthArray {
            count,
            value: Box::new(view_desc(*value)),
        },
        DataDescription::VariableLengthArray { count, value } =>
            SpecDescription::VariableLengthArray {
                count: Box::new(view_desc(*count)),
                value: Box::new(view_desc(*value)),
            },
        DataDescription::Object(entries) => SpecDescription::Object(view_desc_entries(entries@)),
        DataDescription::Optional { p, value } => SpecDescription::Optional {
            p,
            value: Box::new(view_desc(*value)),
        },
        DataDescription::Vec(ds) => SpecDescription::List(view_descs(ds@)),
    }
}

pub open spec fn view_descs(s: Seq<DataDescription>) -> Seq<SpecDescription>
    decreases s, 0nat,
{
    Seq::new(
        s.len(),
        |i: int|
            if 0 <= i < s.len() {
                view_desc(s[i])
            } else {
                SpecDescription::Bool
            },
    )
}

pub open spec fn view_weighted_descs(s: Seq<(u32, DataDescription)>) -> Seq<(u32, SpecDescription)>
    decreases s, 0nat,
{
    Seq::new(
        s.len(),
        |i: int|
            if 0 <= i < s.len() {
                (s[i].0, view_desc(s[i].1))
            } else {
                (0u32, SpecDescription::Bool)
            },
    )
}

pub open spec fn view_desc_entries(s: Seq<(String, DataDescription)>) -> Seq<(Seq<char>, SpecDescription)>
    decreases s, 0nat,
{
    Seq::new(
        s.len(),
        |i: int|
            if 0 <= i < s.len() {
                (s[i].0@, view_desc(s[i].1))
            } else {
                (Seq::empty(), SpecDescription::Bool)
            },
    )
}

impl View for ScriptValue {
    type V = SpecValue;

    open spec fn view(&self) -> SpecValue {
        view_value(*self)
    }
}

impl View for Marker {
    type V = SpecMarker;

    open spec fn view(&self) -> SpecMarker {
        view_marker(*self)
    }
}

impl View for DataDescription {
    type V = SpecDescription;

    open spec fn view(&self) -> SpecDescription {
        view_desc(*self)
    }
}

impl View for DescriptionError {
    type V = SpecDescriptionError;

    open spec fn view(&self) -> SpecDescriptionError {
        view_error(*self)
    }
}

} // verus!

//! How script values read as types and numbers.
use vstd::prelude::*;
use crate::model::{FloatBits, ScriptValue, SpecValue, TypeKey, UsizeError};

verus! {

/// The runtime type of a value.
pub open spec fn spec_type_key(v: SpecValue) -> TypeKey {
    match v {
        SpecValue::Unit => TypeKey::Tuple,
        SpecValue::Bool(_) => TypeKey::Bool,
        SpecValue::Char(_) => TypeKey::Char,
        SpecValue::Signed(_) => TypeKey::Signed,
        SpecValue::Unsigned(_) => TypeKey::Unsigned,
        SpecValue::Float(_) => TypeKey::Float,
        SpecValue::Str(_) => TypeKey::String,
        SpecValue::List(_) => TypeKey::Vec,
        SpecValue::Object(_) => TypeKey::Object,
        SpecValue::Opt(_) => TypeKey::Option,
        SpecValue::Res(_) => TypeKey::Result,
        SpecValue::Range(_, _) => TypeKey::Range,
        SpecValue::RangeInclusive(_, _) => TypeKey::RangeInclusive,
        SpecValue::RangeFrom(_) => TypeKey::RangeFrom,
        SpecValue::RangeTo(_) => TypeKey::RangeTo,
        SpecValue::RangeFull => TypeKey::RangeFull,
        SpecValue::Desc(_) => TypeKey::Description,
        SpecValue::Mark(_) => TypeKey::Marker,
        SpecValue::Error(_) => TypeKey::DescriptionError,
        SpecValue::Opaque(k, _) => k,
    }
}

/// A value as a length or count: a signed or unsigned number in the range
/// of `usize`.
pub open spec fn spec_as_usize(v: SpecValue) -> Result<usize, UsizeError> {
    match v {
        SpecValue::Signed(i) => if 0 <= i && i <= usize::MAX {
            Ok(i as usize)
        } else {
            Err(UsizeError::SignedOutOfRange(i))
        },
        SpecValue::Unsigned(u) => if u <= usize::MAX {
            Ok(u as usize)
        } else {
            Err(UsizeError::UnsignedOutOfRange(u))
        },
        _ => Err(UsizeError::ExpectedNumber(spec_type_key(v))),
    }
}

/// A value as a `u64`: a non-negative signed number, or an unsigned one.
pub open spec fn spec_as_u64(v: SpecValue) -> Option<u64> {
    match v {
        SpecValue::Signed(i) => if 0 <= i {
            Some(i as u64)
        } else {
            None
        },
        SpecValue::Unsigned(u) => Some(u),
        _ => None,
    }
}

/// A value as an `i64`: a signed number, or an unsigned one up to
/// `i64::MAX`.
pub open spec fn spec_as_i64(v: SpecValue) -> Option<i64> {
    match v {
        SpecValue::Signed(i) => Some(i),
        SpecValue::Unsigned(u) => if u <= i64::MAX {
            Some(u as i64)
        } else {
            None
        },
        _ => None,
    }
}

/// A value as a float: only a float is one.
pub open spec fn spec_as_float(v: SpecValue) -> Option<FloatBits> {
    match v {
        SpecValue::Float(f) => Some(f),
        _ => None,
    }
}

/// A value as a character: only a character is one.
pub open spec fn spec_as_char(v: SpecValue) -> Option<char> {
    match v {
        SpecValue::Char(c) => Some(c),
        _ => None,
    }
}

impl ScriptValue {
    /// The runtime type of this value.
    pub fn type_key(&self) -> (r: TypeKey)
        ensures
            r == spec_type_key(self@),
    {
        match self {
            ScriptValue::Unit => TypeKey::Tuple,
            ScriptValue::Bool(_) => TypeKey::Bool,
            ScriptValue::Char(_) => TypeKey::Char,
            ScriptValue::Signed(_) => TypeKey::Signed,
            ScriptValue::Unsigned(_) => TypeKey::Unsigned,
            ScriptValue::Float(_) => TypeKey::Float,
            ScriptValue::String(_) => TypeKey::String,
            ScriptValue::Vec(_) => TypeKey::Vec,
            ScriptValue::Object(_) => TypeKey::Object,
            ScriptValue::Option(_) => TypeKey::Option,
            ScriptValue::Result(_) => TypeKey::Result,
            ScriptValue::Range(_, _) => TypeKey::Range,
            ScriptValue::RangeInclusive(_, _) => TypeKey::RangeInclusive,
            ScriptValue::RangeFrom(_) => TypeKey::RangeFrom,
            ScriptValue::RangeTo(_) => TypeKey::RangeTo,
            ScriptValue::RangeFull => TypeKey::RangeFull,
            ScriptValue::Description(_) => TypeKey::Description,
            ScriptValue::Marker(_) => TypeKey::Marker,
            ScriptValue::Error(_) => TypeKey::DescriptionError,
            ScriptValue::Opaque(k, _) => *k,
        }
    }

    /// This value as a length or count.
    pub fn as_usize(&self) -> (r: Result<usize, UsizeError>)
        ensures
            r == spec_as_usize(self@),
    {
        match self {
            ScriptValue::Signed(i) => {
                if 0 <= *i && (*i as u64) <= (usize::MAX as u64) {
                    Ok(*i as usize)
                } else {
                    Err(UsizeError::SignedOutOfRange(*i))
                }
            },
            ScriptValue::Unsigned(u) => {
                if (*u as u128) <= (usize::MAX as u128) {
                    Ok(*u as usize)
                } else {
                    Err(UsizeError::UnsignedOutOfRange(*u))
                }
            },
            _ => Err(UsizeError::ExpectedNumber(self.type_key())),
        }
    }

    /// This value as a `u64`.
    pub fn as_u64(&self) -> (r: Option<u64>)
        ensures
            r == spec_as_u64(self@),
    {
        match self {
            ScriptValue::Signed(i) => if 0 <= *i {
                Some(*i as u64)
            } else {
                None
            },
            ScriptValue::Unsigned(u) => Some(*u),
            _ => None,
        }
    }

    /// This value as an `i64`.
    pub fn as_i64(&self) -> (r: Option<i64>)
        ensures
            r == spec_as_i64(self@),
    {
        match self {
            ScriptValue::Signed(i) => Some(*i),
            ScriptValue::Unsigned(u) => if *u <= (i64::MAX as u64) {
                Some(*u as i64)
            } else {
                None
            },
            _ => None,
        }
    }

    /// This value as a float.
    pub fn as_float(&self) -> (r: Option<FloatBits>)
        ensures
            r == spec_as_float(self@),
    {
        match self {
            ScriptValue::Float(f) => Some(*f),
            _ => None,
        }
    }

    /// This value as a character.
    pub fn as_char(&self) -> (r: Option<char>)
        ensures
            r == spec_as_char(self@),
    {
        match self {
            ScriptValue::Char(c) => Some(*c),
            _ => None,
        }
    }
}

} // verus!

//! Random data generation from data descriptions.
//!
//! A script builds a description of the data it wants out of plain values,
//! objects, lists, ranges and markers (`range`, `choice`, `values`,
//! `weighted`, `optional`, ...). [`try_build_description`] turns such a
//! value into a [`DataDescription`], checking it; [`generate`] draws random
//! data from a description.
pub mod classify;
pub mod convert;
pub mod copy;
pub mod expand;
pub mod format;
pub mod generate;
pub mod keys;
pub mod laws;
pub mod markers;
pub mod model;
pub mod random;

pub use classify::{checked_from_value, make_description, to_description, try_build_description};
pub use generate::{generate, generate_instance};
pub use model::{
    DataDescription, DescriptionError, EvaluationError, FloatBits, Marker, RuGenError, ScriptValue,
    TargetType, TypeKey, UsizeError, WeightError,
};

//! The random draws that generation makes, each one call into `rand`.
//!
//! What a draw returns depends on the thread's random generator, so these
//! contracts state only what holds of every outcome.
use vstd::prelude::*;
use rand::distr::Alphanumeric;
use rand::seq::IndexedRandom;
use rand::RngExt;
use crate::model::WeightError;

verus! {

/// A letter `A`-`Z`, `a`-`z` or a digit `0`-`9`.
pub open spec fn is_alphanumeric(c: char) -> bool {
    ('0' <= c && c <= '9') || ('A' <= c && c <= 'Z') || ('a' <= c && c <= 'z')
}

/// The sum of a sequence of weights.
pub open spec fn weight_sum(s: Seq<u32>) -> int
    decreases s.len(),
{
    if s.len() == 0 {
        0
    } else {
        weight_sum(s.drop_last()) + s.last()
    }
}

/// Weights whose sum does not fit in a `u32`.
pub open spec fn weights_overflow(s: Seq<u32>) -> bool {
    s.len() > 0 && weight_sum(s) > u32::MAX
}

/// Weights that add up to zero.
pub open spec fn weights_all_zero(s: Seq<u32>) -> bool {
    s.len() > 0 && weight_sum(s) == 0
}

/// Weights that a weighted choice can be made from.
pub open spec fn weights_usable(s: Seq<u32>) -> bool {
    s.len() > 0 && 0 < weight_sum(s) && weight_sum(s) <= u32::MAX
}

/// The weights of indexed entries.
pub open spec fn entry_weights(s: Seq<(usize, u32)>) -> Seq<u32> {
    s.map_values(|p: (usize, u32)| p.1)
}

/// Calls `rand::rng().random_range(min..max)` on `u64`: a number in
/// `[min, max)`. The range must not be empty (`random_range` panics on an
/// empty range).
#[verifier::external_body]
pub(crate) fn random_u64_below(min: u64, max: u64) -> (r: u64)
    requires
        min < max,
    ensures
        min <= r < max,
{
    rand::rng().random_range(min..max)
}

/// Calls `rand::rng().random_range(min..=max)` on `u64`: a number in
/// `[min, max]`. The range must not be empty.
#[verifier::external_body]
pub(crate) fn random_u64_through(min: u64, max: u64) -> (r: u64)
    requires
        min <= max,
    ensures
        min <= r <= max,
{
    rand::rng().random_range(min..=max)
}

/// Calls `rand::rng().random_range(min..max)` on `i64`: a number in
/// `[min, max)`. The range must not be empty.
#[verifier::external_body]
pub(crate) fn random_i64_below(min: i64, max: i64) -> (r: i64)
    requires
        min < max,
    ensures
        min <= r < max,
{
    rand::rng().random_range(min..max)
}

/// Calls `rand::rng().random_range(min..=max)` on `i64`: a number in
/// `[min, max]`. The range must not be empty.
#[verifier::external_body]
pub(crate) fn random_i64_through(min: i64, max: i64) -> (r: i64)
    requires
        min <= max,
    ensures
        min <= r <= max,
{
    rand::rng().random_range(min..=max)
}

/// Calls `rand::rng().random_range(min..max)` on `char`: a character in
/// `[min, max)`. The range must not be empty.
#[verifier::external_body]
pub(crate) fn random_char_below(min: char, max: char) -> (r: char)
    requires
        min < max,
    ensures
        min <= r < max,
{
    rand::rng().random_range(min..max)
}

/// Calls `rand::rng().random_range(min..=max)` on `char`: a character in
/// `[min, max]`. The range must not be empty.
#[verifier::external_body]
pub(crate) fn random_char_through(min: char, max: char) -> (r: char)
    requires
        min <= max,
    ensures
        min <= r <= max,
{
    rand::rng().random_range(min..=max)
}

/// Calls `rand::rng().random_range(0..len)` on `usize`: an index below
/// `len`, which must be positive.
#[verifier::external_body]
pub(crate) fn random_index(len: usize) -> (r: usize)
    requires
        0 < len,
    ensures
        r < len,
{
    rand::rng().random_range(0..len)
}

/// Calls `rand::rng().random::<bool>()`: either boolean.
#[verifier::external_body]
pub(crate) fn random_bool() -> (r: bool) {
    rand::rng().random::<bool>()
}

/// Calls `rand::rng().sample(Alphanumeric)`: the ASCII code of a letter or
/// a digit (the distribution picks from `A-Z`, `a-z`, `0-9`).
#[verifier::external_body]
pub(crate) fn random_alphanumeric() -> (r: u8)
    ensures
        is_alphanumeric(r as char),
{
    rand::rng().sample(Alphanumeric)
}

/// Calls `choose_weighted` of `rand::seq::IndexedRandom` on indexed
/// entries, with each entry's weight its second field, and returns a copy
/// of the entry chosen.
///
/// As `rand::distr::weighted::WeightedIndex::new` shows: with no entries
/// the error is `InvalidInput`; when the weights add up to more than
/// `u32::MAX` it is `Overflow`; when they add up to zero it is
/// `InsufficientNonZero`; otherwise one of the entries is chosen, and only
/// an entry of positive weight can be. Which one is chosen is left open.
#[verifier::external_body]
pub(crate) fn choose_weighted_entry(entries: &Vec<(usize, u32)>) -> (r: Result<(usize, u32), WeightError>)
    ensures
        entries@.len() == 0 ==> r matches Err(WeightError::InvalidInput),
        weights_overflow(entry_weights(entries@)) ==> r matches Err(WeightError::Overflow),
        weights_all_zero(entry_weights(entries@)) ==> r matches Err(WeightError::InsufficientNonZero),
        weights_usable(entry_weights(entries@)) ==> r is Ok && r->Ok_0.1 > 0 && entries@.contains(r->Ok_0),
{
    match entries.as_slice().choose_weighted(&mut rand::rng(), |e| e.1) {
        Ok(p) => Ok(*p),
        Err(rand::seq::WeightError::InvalidInput) => Err(WeightError::InvalidInput),
        Err(rand::seq::WeightError::InvalidWeight) => Err(WeightError::InvalidWeight),
        Err(rand::seq::WeightError::InsufficientNonZero) => Err(WeightError::InsufficientNonZero),
        Err(rand::seq::WeightError::Overflow) => Err(WeightError::Overflow),
        Err(_) => Err(WeightError::Other),
    }
}

/// `String::push`: appends one character.
pub assume_specification[ std::string::String::push ](s: &mut std::string::String, ch: char)
    ensures
        final(s)@ == old(s)@.push(ch),
;

} // verus!

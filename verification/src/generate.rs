//! Generating random data from a description.
use vstd::prelude::*;
use crate::convert::spec_as_usize;
use crate::model::{
    view_desc, view_desc_entries, view_descs, view_entries, view_value, view_values,
    view_weighted_descs, DataDescription, EvaluationError, FloatBits, ScriptValue,
    SpecDescription, SpecValue, UsizeError, WeightError,
};
use crate::random::{
    choose_weighted_entry, entry_weights, is_alphanumeric, random_alphanumeric, random_bool,
    random_char_below, random_char_through, random_i64_below, random_i64_through, random_index,
    random_u64_below, random_u64_through, weight_sum, weights_all_zero, weights_overflow,
    weights_usable,
};

verus! {

/// The weights of a weighted description.
pub open spec fn desc_weights(ws: Seq<(u32, SpecDescription)>) -> Seq<u32> {
    ws.map_values(|p: (u32, SpecDescription)| p.0)
}

/// The error that a weighted choice among `ws` always ends in, if any.
pub open spec fn weighted_error(ws: Seq<(u32, SpecDescription)>) -> Option<WeightError> {
    if ws.len() == 0 {
        Some(WeightError::InvalidInput)
    } else if weight_sum(desc_weights(ws)) > u32::MAX {
        Some(WeightError::Overflow)
    } else if weight_sum(desc_weights(ws)) == 0 {
        Some(WeightError::InsufficientNonZero)
    } else {
        None
    }
}

/// Every flag is set.
pub open spec fn all_true(b: Seq<bool>) -> bool {
    forall|i: int| 0 <= i < b.len() ==> #[trigger] b[i]
}

/// Some flag is set.
pub open spec fn any_true(b: Seq<bool>) -> bool {
    exists|i: int| 0 <= i < b.len() && #[trigger] b[i]
}

/// No number lies between `min` and `max`.
pub open spec fn range_is_empty(min: int, max: int, inclusive: bool) -> bool {
    if inclusive {
        min > max
    } else {
        min >= max
    }
}

/// What a float sampler may return: `x` for the bounds `min`, `max` and
/// whether the range is inclusive.
pub open spec fn float_draws<F>(
    sample_float: &F,
) -> spec_fn(FloatBits, FloatBits, bool, FloatBits) -> bool
    where
        F: Fn(FloatBits, FloatBits, bool) -> FloatBits,
{
    |min: FloatBits, max: FloatBits, inclusive: bool, x: FloatBits| sample_float.ensures((min, max, inclusive), x)
}

/// What a chance may return: `b` for the probability `p`.
pub open spec fn chance_draws<G>(chance: &G) -> spec_fn(FloatBits, bool) -> bool
    where
        G: Fn(FloatBits) -> bool,
{
    |p: FloatBits, b: bool| chance.ensures((p,), b)
}

/// `v` is a value that description `d` can generate, when floats come
/// from draws `fl` allows and optional values are present as a chance
/// `ch` allows.
pub open spec fn conforms(
    d: SpecDescription,
    v: SpecValue,
    fl: spec_fn(FloatBits, FloatBits, bool, FloatBits) -> bool,
    ch: spec_fn(FloatBits, bool) -> bool,
) -> bool
    decreases d, 1nat,
{
    match d {
        SpecDescription::Bool => v is Bool,
        SpecDescription::Just(x) => v == x,
        SpecDescription::UInt { min, max, inclusive } => v matches SpecValue::Unsigned(u) && min <= u
            && if inclusive {
            u <= max
        } else {
            u < max
        },
        SpecDescription::Int { min, max, inclusive } => v matches SpecValue::Signed(x) && min <= x
            && if inclusive {
            x <= max
        } else {
            x < max
        },
        SpecDescription::Char { min, max, inclusive } => v matches SpecValue::Char(c) && min <= c
            && if inclusive {
            c <= max
        } else {
            c < max
        },
        SpecDescription::Float { min, max, inclusive } => v matches SpecValue::Float(x) && fl(min, max, inclusive, x),
        SpecDescription::String { len } => v matches SpecValue::Str(s) && (forall|i: int|
            0 <= i < s.len() ==> is_alphanumeric(#[trigger] s[i])) && count_conforms(*len, s.len()),
        SpecDescription::Choice(ds) => any_true(conforms_choice(ds, v, fl, ch)),
        SpecDescription::Weighted(ws) => weighted_error(ws) is None && any_true(conforms_weighted(ws, v, fl, ch)),
        SpecDescription::FixedLengthArray { count, value } => v matches SpecValue::List(items)
            && items.len() == (if count > 0 {
            count as int
        } else {
            0
        }) && all_true(conforms_items(*value, items, fl, ch)),
        SpecDescription::VariableLengthArray { count, value } => v matches SpecValue::List(items)
            && count_conforms(*count, items.len()) && all_true(conforms_items(*value, items, fl, ch)),
        SpecDescription::Object(es) => v matches SpecValue::Object(out) && out.len() == es.len()
            && all_true(conforms_entries(es, out, fl, ch)),
        SpecDescription::Optional { p, value } => v matches SpecValue::Opt(o) && ch(p, o is Some)
            && (o matches Some(x) ==> conforms(*value, *x, fl, ch)),
        SpecDescription::List(ds) => v matches SpecValue::List(items) && items.len() == ds.len()
            && all_true(conforms_list(ds, items, fl, ch)),
    }
}

/// `n` is a count that `c` can generate: a value of `c` that is a
/// number equal to `n`.
pub open spec fn count_conforms(c: SpecDescription, n: nat) -> bool
    decreases c, 1nat,
{
    match c {
        SpecDescription::Just(x) => n <= usize::MAX && spec_as_usize(x) == Ok::<usize, UsizeError>(n as usize),
        SpecDescription::UInt { min, max, inclusive } => n <= usize::MAX && min <= n && if inclusive {
            n <= max
        } else {
            n < max
        },
        SpecDescription::Int { min, max, inclusive } => n <= usize::MAX && min <= n && if inclusive {
            n <= max
        } else {
            n < max
        },
        SpecDescription::Choice(ds) => any_true(count_conforms_choice(ds, n)),
        SpecDescription::Weighted(ws) => weighted_error(ws) is None && any_true(count_conforms_weighted(ws, n)),
        _ => false,
    }
}

pub open spec fn count_conforms_choice(ds: Seq<SpecDescription>, n: nat) -> Seq<bool>
    decreases ds, 0nat,
{
    Seq::new(ds.len(), |i: int| 0 <= i < ds.len() && count_conforms(ds[i], n))
}

pub open spec fn count_conforms_weighted(ws: Seq<(u32, SpecDescription)>, n: nat) -> Seq<bool>
    decreases ws, 0nat,
{
    Seq::new(ws.len(), |i: int| 0 <= i < ws.len() && ws[i].0 > 0 && count_conforms(ws[i].1, n))
}

/// For each choice, whether `v` conforms to it.
pub open spec fn conforms_choice(
    ds: Seq<SpecDescription>,
    v: SpecValue,
    fl: spec_fn(FloatBits, FloatBits, bool, FloatBits) -> bool,
    ch: spec_fn(FloatBits, bool) -> bool,
) -> Seq<bool>
    decreases ds, 0nat,
{
    Seq::new(ds.len(), |i: int| 0 <= i < ds.len() && conforms(ds[i], v, fl, ch))
}

/// For each weighted choice, whether it has a positive weight and `v`
/// conforms to it.
pub open spec fn conforms_weighted(
    ws: Seq<(u32, SpecDescription)>,
    v: SpecValue,
    fl: spec_fn(FloatBits, FloatBits, bool, FloatBits) -> bool,
    ch: spec_fn(FloatBits, bool) -> bool,
) -> Seq<bool>
    decreases ws, 0nat,
{
    Seq::new(ws.len(), |i: int| 0 <= i < ws.len() && ws[i].0 > 0 && conforms(ws[i].1, v, fl, ch))
}

/// For each item, whether it conforms to `d`.
pub open spec fn conforms_items(
    d: SpecDescription,
    items: Seq<SpecValue>,
    fl: spec_fn(FloatBits, FloatBits, bool, FloatBits) -> bool,
    ch: spec_fn(FloatBits, bool) -> bool,
) -> Seq<bool>
    decreases d, 2nat,
{
    Seq::new(items.len(), |i: int| 0 <= i < items.len() && conforms(d, items[i], fl, ch))
}

/// For each position, whether the item there conforms to the description
/// there.
pub open spec fn conforms_list(
    ds: Seq<SpecDescription>,
    items: Seq<SpecValue>,
    fl: spec_fn(FloatBits, FloatBits, bool, FloatBits) -> bool,
    ch: spec_fn(FloatBits, bool) -> bool,
) -> Seq<bool>
    decreases ds, 0nat,
{
    Seq::new(ds.len(), |i: int| 0 <= i < ds.len() && i < items.len() && conforms(ds[i], items[i], fl, ch))
}

/// For each entry, whether the generated entry there has its key and a
/// value that conforms to its description.
pub open spec fn conforms_entries(
    es: Seq<(Seq<char>, SpecDescription)>,
    out: Seq<(Seq<char>, SpecValue)>,
    fl: spec_fn(FloatBits, FloatBits, bool, FloatBits) -> bool,
    ch: spec_fn(FloatBits, bool) -> bool,
) -> Seq<bool>
    decreases es, 0nat,
{
    Seq::new(es.len(), |i: int| 0 <= i < es.len() && i < out.len() && out[i].0 == es[i].0 && conforms(es[i].1, out[i].1, fl, ch))
}

/// A length or count drawn from `c` may fail to be a `usize`, with `e`.
pub open spec fn count_may_fail_with(
    c: SpecDescription,
    e: EvaluationError,
    fl: spec_fn(FloatBits, FloatBits, bool, FloatBits) -> bool,
    ch: spec_fn(FloatBits, bool) -> bool,
) -> bool {
    exists|cv: SpecValue| #[trigger] conforms(c, cv, fl, ch) && (spec_as_usize(cv) matches Err(u) && e == EvaluationError::RuntimeError(u))
}

/// A count drawn from `c` may be positive.
pub open spec fn count_may_be_positive(c: SpecDescription) -> bool {
    exists|n: nat| n > 0 && #[trigger] count_conforms(c, n)
}

/// Generating from `d` can end in error `e`: `e` arises at a part of `d`
/// that generation may reach.
pub open spec fn may_fail_with(
    d: SpecDescription,
    e: EvaluationError,
    fl: spec_fn(FloatBits, FloatBits, bool, FloatBits) -> bool,
    ch: spec_fn(FloatBits, bool) -> bool,
) -> bool
    decreases d, 1nat,
{
    match d {
        SpecDescription::UInt { min, max, inclusive } => range_is_empty(min as int, max as int, inclusive) && e == EvaluationError::EmptyRange,
        SpecDescription::Int { min, max, inclusive } => range_is_empty(min as int, max as int, inclusive) && e == EvaluationError::EmptyRange,
        SpecDescription::Char { min, max, inclusive } => range_is_empty(min as int, max as int, inclusive) && e == EvaluationError::EmptyRange,
        SpecDescription::String { len } => may_fail_with(*len, e, fl, ch) || count_may_fail_with(*len, e, fl, ch),
        SpecDescription::Choice(ds) => (ds.len() == 0 && e == EvaluationError::NoValueToChooseFrom)
            || any_true(may_fail_each(ds, e, fl, ch)),
        SpecDescription::Weighted(ws) => (weighted_error(ws) matches Some(w) && e == EvaluationError::WeightError(w))
            || (weighted_error(ws) is None && any_true(may_fail_each_weighted(ws, e, fl, ch))),
        SpecDescription::FixedLengthArray { count, value } => count > 0 && may_fail_with(*value, e, fl, ch),
        SpecDescription::VariableLengthArray { count, value } => may_fail_with(*count, e, fl, ch)
            || count_may_fail_with(*count, e, fl, ch) || (count_may_be_positive(*count) && may_fail_with(*value, e, fl, ch)),
        SpecDescription::Object(es) => any_true(may_fail_each_entry(es, e, fl, ch)),
        SpecDescription::Optional { p, value } => ch(p, true) && may_fail_with(*value, e, fl, ch),
        SpecDescription::List(ds) => any_true(may_fail_each(ds, e, fl, ch)),
        _ => false,
    }
}

pub open spec fn may_fail_each(
    ds: Seq<SpecDescription>,
    e: EvaluationError,
    fl: spec_fn(FloatBits, FloatBits, bool, FloatBits) -> bool,
    ch: spec_fn(FloatBits, bool) -> bool,
) -> Seq<bool>
    decreases ds, 0nat,
{
    Seq::new(ds.len(), |i: int| 0 <= i < ds.len() && may_fail_with(ds[i], e, fl, ch))
}

/// Only a choice of positive weight can be generated from.
pub open spec fn may_fail_each_weighted(
    ws: Seq<(u32, SpecDescription)>,
    e: EvaluationError,
    fl: spec_fn(FloatBits, FloatBits, bool, FloatBits) -> bool,
    ch: spec_fn(FloatBits, bool) -> bool,
) -> Seq<bool>
    decreases ws, 0nat,
{
    Seq::new(ws.len(), |i: int| 0 <= i < ws.len() && ws[i].0 > 0 && may_fail_with(ws[i].1, e, fl, ch))
}

pub open spec fn may_fail_each_entry(
    es: Seq<(Seq<char>, SpecDescription)>,
    e: EvaluationError,
    fl: spec_fn(FloatBits, FloatBits, bool, FloatBits) -> bool,
    ch: spec_fn(FloatBits, bool) -> bool,
) -> Seq<bool>
    decreases es, 0nat,
{
    Seq::new(es.len(), |i: int| 0 <= i < es.len() && may_fail_with(es[i].1, e, fl, ch))
}

/// A generated value that is a count is a count that its description
/// can generate.
proof fn lemma_generated_count(
    c: SpecDescription,
    cv: SpecValue,
    n: nat,
    fl: spec_fn(FloatBits, FloatBits, bool, FloatBits) -> bool,
    ch: spec_fn(FloatBits, bool) -> bool,
)
    requires
        conforms(c, cv, fl, ch),
        spec_as_usize(cv) == Ok::<usize, UsizeError>(n as usize),
        n <= usize::MAX,
    ensures
        count_conforms(c, n),
    decreases c,
{
    match c {
        SpecDescription::Choice(ds) => {
            let i = choose|i: int| 0 <= i < conforms_choice(ds, cv, fl, ch).len() && #[trigger] conforms_choice(ds, cv, fl, ch)[i];
            assert(conforms(ds[i], cv, fl, ch));
            lemma_generated_count(ds[i], cv, n, fl, ch);
            assert(count_conforms_choice(ds, n)[i]);
        },
        SpecDescription::Weighted(ws) => {
            let i = choose|i: int| 0 <= i < conforms_weighted(ws, cv, fl, ch).len() && #[trigger] conforms_weighted(ws, cv, fl, ch)[i];
            assert(conforms(ws[i].1, cv, fl, ch));
            lemma_generated_count(ws[i].1, cv, n, fl, ch);
            assert(count_conforms_weighted(ws, n)[i]);
        },
        _ => {},
    }
}

proof fn lemma_weight_sum_nonnegative(s: Seq<u32>)
    ensures
        weight_sum(s) >= 0,
    decreases s.len(),
{
    if s.len() > 0 {
        lemma_weight_sum_nonnegative(s.drop_last());
    }
}

/// The closures that generation draws floats and optional values from can
/// be called on any arguments.
pub open spec fn samplers_total<F, G>(sample_float: &F, chance: &G) -> bool
    where
        F: Fn(FloatBits, FloatBits, bool) -> FloatBits,
        G: Fn(FloatBits) -> bool,
{
    &&& forall|a: FloatBits, b: FloatBits, c: bool| sample_float.requires((a, b, c))
    &&& forall|p: FloatBits| chance.requires((p,))
}

/// A random string of letters and digits, `len` long in the end, whose
/// length is drawn from `len`.
fn generate_string<F, G>(len: &DataDescription, sample_float: &F, chance: &G) -> (r: Result<ScriptValue, EvaluationError>)
    where
        F: Fn(FloatBits, FloatBits, bool) -> FloatBits,
        G: Fn(FloatBits) -> bool,
    requires
        samplers_total(sample_float, chance),
    ensures
        r matches Ok(v) ==> conforms(SpecDescription::String { len: Box::new(len@) }, v@, float_draws(sample_float), chance_draws(chance)),
        r matches Err(e) ==> may_fail_with(SpecDescription::String { len: Box::new(len@) }, e, float_draws(sample_float), chance_draws(chance)),
    decreases len, 2nat,
{
    let lv = match generate_inner(len, sample_float, chance) {
        Ok(v) => v,
        Err(e) => {
            return Err(e);
        },
    };
    let n = match lv.as_usize() {
        Ok(n) => n,
        Err(u) => {
            proof {
                assert(conforms(len@, lv@, float_draws(sample_float), chance_draws(chance)));
            }
            return Err(EvaluationError::RuntimeError(u));
        },
    };
    let mut s = String::new();
    let mut i: usize = 0;
    while i < n
        invariant
            i <= n,
            s@.len() == i,
            forall|k: int| 0 <= k < s@.len() ==> is_alphanumeric(#[trigger] s@[k]),
        decreases n - i,
    {
        let b = random_alphanumeric();
        s.push(b as char);
        i += 1;
    }
    let res = ScriptValue::String(s);
    proof {
        assert(conforms(len@, lv@, float_draws(sample_float), chance_draws(chance)));
        assert(spec_as_usize(lv@) == Ok::<usize, UsizeError>(s@.len() as usize));
        assert(res@ == SpecValue::Str(s@));
        assert(forall|k: int| 0 <= k < s@.len() ==> is_alphanumeric(#[trigger] s@[k]));
        lemma_generated_count(len@, lv@, s@.len(), float_draws(sample_float), chance_draws(chance));
    }
    Ok(res)
}

/// A value generated from one of `values`, picked at random.
fn generate_choice<F, G>(values: &Vec<DataDescription>, sample_float: &F, chance: &G) -> (r: Result<ScriptValue, EvaluationError>)
    where
        F: Fn(FloatBits, FloatBits, bool) -> FloatBits,
        G: Fn(FloatBits) -> bool,
    requires
        samplers_total(sample_float, chance),
    ensures
        r matches Ok(v) ==> conforms(SpecDescription::Choice(view_descs(values@)), v@, float_draws(sample_float), chance_draws(chance)),
        r matches Err(e) ==> may_fail_with(SpecDescription::Choice(view_descs(values@)), e, float_draws(sample_float), chance_draws(chance)),
    decreases values, 0nat,
{
    if values.len() == 0 {
        return Err(EvaluationError::NoValueToChooseFrom);
    }
    let i = random_index(values.len());
    proof {
        assert(decreases_to!(*values => values@));
        assert(view_descs(values@)[i as int] == view_desc(values@[i as int]));
    }
    let r = generate_inner(&values[i], sample_float, chance);
    proof {
        if r is Ok {
            assert(conforms_choice(view_descs(values@), r->Ok_0@, float_draws(sample_float), chance_draws(chance))[i as int]);
        } else {
            assert(may_fail_each(view_descs(values@), r->Err_0, float_draws(sample_float), chance_draws(chance))[i as int]);
        }
    }
    r
}

/// A value generated from one of `values`, picked at random by weight.
fn generate_weighted<F, G>(values: &Vec<(u32, DataDescription)>, sample_float: &F, chance: &G) -> (r: Result<ScriptValue, EvaluationError>)
    where
        F: Fn(FloatBits, FloatBits, bool) -> FloatBits,
        G: Fn(FloatBits) -> bool,
    requires
        samplers_total(sample_float, chance),
    ensures
        r matches Ok(v) ==> conforms(SpecDescription::Weighted(view_weighted_descs(values@)), v@, float_draws(sample_float), chance_draws(chance)),
        r matches Err(e) ==> may_fail_with(SpecDescription::Weighted(view_weighted_descs(values@)), e, float_draws(sample_float), chance_draws(chance)),
    decreases values, 0nat,
{
    let mut indexed: Vec<(usize, u32)> = Vec::new();
    let mut k: usize = 0;
    while k < values.len()
        invariant
            k <= values.len(),
            indexed@.len() == k,
            forall|j: int| 0 <= j < k ==> #[trigger] indexed@[j] == (j as usize, values@[j].0),
        decreases values.len() - k,
    {
        indexed.push((k, values[k].0));
        k += 1;
    }
    proof {
        assert(entry_weights(indexed@) =~= desc_weights(view_weighted_descs(values@)));
        lemma_weight_sum_nonnegative(entry_weights(indexed@));
    }
    match choose_weighted_entry(&indexed) {
        Ok(chosen) => {
            let i = chosen.0;
            proof {
                let j = choose|j: int| 0 <= j < indexed@.len() && indexed@[j] == chosen;
                assert(indexed@[j] == (j as usize, values@[j].0));
                assert(view_weighted_descs(values@)[i as int] == (values@[i as int].0, view_desc(values@[i as int].1)));
                assert(decreases_to!(*values => values@));
                assert(decreases_to!(values@ => values@[i as int]));
            }
            let r = generate_inner(&values[i].1, sample_float, chance);
            proof {
                if r is Ok {
                    assert(conforms_weighted(view_weighted_descs(values@), r->Ok_0@, float_draws(sample_float), chance_draws(chance))[i as int]);
                } else {
                    assert(may_fail_each_weighted(view_weighted_descs(values@), r->Err_0, float_draws(sample_float), chance_draws(chance))[i as int]);
                }
            }
            r
        },
        Err(w) => Err(EvaluationError::WeightError(w)),
    }
}

/// A list with one value generated from each of `values`, in order.
fn generate_list<F, G>(values: &Vec<DataDescription>, sample_float: &F, chance: &G) -> (r: Result<ScriptValue, EvaluationError>)
    where
        F: Fn(FloatBits, FloatBits, bool) -> FloatBits,
        G: Fn(FloatBits) -> bool,
    requires
        samplers_total(sample_float, chance),
    ensures
        r matches Ok(v) ==> conforms(SpecDescription::List(view_descs(values@)), v@, float_draws(sample_float), chance_draws(chance)),
        r matches Err(e) ==> may_fail_with(SpecDescription::List(view_descs(values@)), e, float_draws(sample_float), chance_draws(chance)),
    decreases values, 0nat,
{
    proof {
        assert(decreases_to!(*values => values@));
    }
    let mut items: Vec<ScriptValue> = Vec::new();
    let mut i: usize = 0;
    while i < values.len()
        invariant
            i <= values.len(),
            items@.len() == i,
            forall|j: int| 0 <= j < i ==> conforms(view_desc(values@[j]), #[trigger] view_value(items@[j]), float_draws(sample_float), chance_draws(chance)),
            forall|j: int| 0 <= j < values@.len() ==> decreases_to!(*values => #[trigger] values@[j]),
            samplers_total(sample_float, chance),
        decreases values.len() - i,
    {
        match generate_inner(&values[i], sample_float, chance) {
            Ok(v) => {
                items.push(v);
            },
            Err(e) => {
                proof {
                    assert(view_descs(values@)[i as int] == view_desc(values@[i as int]));
                    assert(may_fail_each(view_descs(values@), e, float_draws(sample_float), chance_draws(chance))[i as int]);
                }
                return Err(e);
            },
        }
        i += 1;
    }
    proof {
        assert forall|j: int| 0 <= j < values@.len() implies #[trigger] conforms_list(view_descs(values@), view_values(items@), float_draws(sample_float), chance_draws(chance))[j] by {
            assert(conforms(view_desc(values@[j]), view_value(items@[j]), float_draws(sample_float), chance_draws(chance)));
        }
        assert(all_true(conforms_list(view_descs(values@), view_values(items@), float_draws(sample_float), chance_draws(chance))));
    }
    Ok(ScriptValue::Vec(items))
}

/// `n` values generated from `value`.
fn generate_repeated<F, G>(n: u64, value: &DataDescription, sample_float: &F, chance: &G) -> (r: Result<Vec<ScriptValue>, EvaluationError>)
    where
        F: Fn(FloatBits, FloatBits, bool) -> FloatBits,
        G: Fn(FloatBits) -> bool,
    requires
        samplers_total(sample_float, chance),
    ensures
        r matches Ok(items) ==> items@.len() == n && all_true(conforms_items(value@, view_values(items@), float_draws(sample_float), chance_draws(chance))),
        r matches Err(e) ==> n > 0 && may_fail_with(value@, e, float_draws(sample_float), chance_draws(chance)),
    decreases value, 2nat,
{
    let mut items: Vec<ScriptValue> = Vec::new();
    let mut i: u64 = 0;
    while i < n
        invariant
            i <= n,
            items@.len() == i,
            forall|j: int| 0 <= j < items@.len() ==> conforms(value@, #[trigger] view_value(items@[j]), float_draws(sample_float), chance_draws(chance)),
            samplers_total(sample_float, chance),
        decreases n - i,
    {
        match generate_inner(value, sample_float, chance) {
            Ok(v) => {
                items.push(v);
            },
            Err(e) => {
                return Err(e);
            },
        }
        i += 1;
    }
    proof {
        assert forall|j: int| 0 <= j < items@.len() implies #[trigger] conforms_items(value@, view_values(items@), float_draws(sample_float), chance_draws(chance))[j] by {
            assert(conforms(value@, view_value(items@[j]), float_draws(sample_float), chance_draws(chance)));
        }
    }
    Ok(items)
}

/// An object with a value generated for each entry of `entries`.
fn generate_object<F, G>(entries: &Vec<(String, DataDescription)>, sample_float: &F, chance: &G) -> (r: Result<ScriptValue, EvaluationError>)
    where
        F: Fn(FloatBits, FloatBits, bool) -> FloatBits,
        G: Fn(FloatBits) -> bool,
    requires
        samplers_total(sample_float, chance),
    ensures
        r matches Ok(v) ==> conforms(SpecDescription::Object(view_desc_entries(entries@)), v@, float_draws(sample_float), chance_draws(chance)),
        r matches Err(e) ==> may_fail_with(SpecDescription::Object(view_desc_entries(entries@)), e, float_draws(sample_float), chance_draws(chance)),
    decreases entries, 0nat,
{
    proof {
        assert(decreases_to!(*entries => entries@));
    }
    let mut out: Vec<(String, ScriptValue)> = Vec::new();
    let mut i: usize = 0;
    while i < entries.len()
        invariant
            i <= entries.len(),
            out@.len() == i,
            forall|j: int| 0 <= j < out@.len() ==> (#[trigger] out@[j]).0@ == entries@[j].0@
                && conforms(view_desc(entries@[j].1), view_value(out@[j].1), float_draws(sample_float), chance_draws(chance)),
            forall|j: int| 0 <= j < entries@.len() ==> decreases_to!(*entries => #[trigger] entries@[j].1),
            samplers_total(sample_float, chance),
        decreases entries.len() - i,
    {
        match generate_inner(&entries[i].1, sample_float, chance) {
            Ok(v) => {
                let key = entries[i].0.clone();
                out.push((key, v));
            },
            Err(e) => {
                proof {
                    assert(view_desc_entries(entries@)[i as int].1 == view_desc(entries@[i as int].1));
                    assert(may_fail_each_entry(view_desc_entries(entries@), e, float_draws(sample_float), chance_draws(chance))[i as int]);
                }
                return Err(e);
            },
        }
        i += 1;
    }
    proof {
        assert forall|j: int| 0 <= j < entries@.len() implies #[trigger] conforms_entries(view_desc_entries(entries@), view_entries(out@), float_draws(sample_float), chance_draws(chance))[j] by {
            assert(out@[j].0@ == entries@[j].0@);
            assert(conforms(view_desc(entries@[j].1), view_value(out@[j].1), float_draws(sample_float), chance_draws(chance)));
        }
        assert(all_true(conforms_entries(view_desc_entries(entries@), view_entries(out@), float_draws(sample_float), chance_draws(chance))));
    }
    Ok(ScriptValue::Object(out))
}

/// Generates a value from `d`; floats come from `sample_float` (given the
/// range's bounds and whether it is inclusive) and optional values are
/// present when `chance` (given the probability) says so.
fn generate_inner<F, G>(d: &DataDescription, sample_float: &F, chance: &G) -> (r: Result<ScriptValue, EvaluationError>)
    where
        F: Fn(FloatBits, FloatBits, bool) -> FloatBits,
        G: Fn(FloatBits) -> bool,
    requires
        samplers_total(sample_float, chance),
    ensures
        may_generate(d@, outcome(r), float_draws(sample_float), chance_draws(chance)),
    decreases d, 1nat,
{
    match d {
        DataDescription::Just(v) => Ok(v.duplicate()),
        DataDescription::Bool => Ok(ScriptValue::Bool(random_bool())),
        DataDescription::UInt { min, max, inclusive } => {
            let empty = if *inclusive {
                *min > *max
            } else {
                *min >= *max
            };
            if empty {
                return Err(EvaluationError::EmptyRange);
            }
            let x = if *inclusive {
                random_u64_through(*min, *max)
            } else {
                random_u64_below(*min, *max)
            };
            Ok(ScriptValue::Unsigned(x))
        },
        DataDescription::Int { min, max, inclusive } => {
            let empty = if *inclusive {
                *min > *max
            } else {
                *min >= *max
            };
            if empty {
                return Err(EvaluationError::EmptyRange);
            }
            let x = if *inclusive {
                random_i64_through(*min, *max)
            } else {
                random_i64_below(*min, *max)
            };
            Ok(ScriptValue::Signed(x))
        },
        DataDescription::Char { min, max, inclusive } => {
            let empty = if *inclusive {
                *min > *max
            } else {
                *min >= *max
            };
            if empty {
                return Err(EvaluationError::EmptyRange);
            }
            let x = if *inclusive {
                random_char_through(*min, *max)
            } else {
                random_char_below(*min, *max)
            };
            Ok(ScriptValue::Char(x))
        },
        DataDescription::Float { min, max, inclusive } => {
            let x = sample_float(*min, *max, *inclusive);
            Ok(ScriptValue::Float(x))
        },
        DataDescription::String { len } => generate_string(&**len, sample_float, chance),
        DataDescription::Choice(values) => generate_choice(values, sample_float, chance),
        DataDescription::Weighted(values) => generate_weighted(values, sample_float, chance),
        DataDescription::Vec(values) => generate_list(values, sample_float, chance),
        DataDescription::Object(entries) => generate_object(entries, sample_float, chance),
        DataDescription::FixedLengthArray { count, value } => {
            let n: u64 = if *count > 0 {
                *count as u64
            } else {
                0
            };
            match generate_repeated(n, &**value, sample_float, chance) {
                Ok(items) => Ok(ScriptValue::Vec(items)),
                Err(e) => Err(e),
            }
        },
        DataDescription::VariableLengthArray { count, value } => {
            let cv = match generate_inner(&**count, sample_float, chance) {
                Ok(v) => v,
                Err(e) => {
                    return Err(e);
                },
            };
            let n = match cv.as_usize() {
                Ok(n) => n,
                Err(u) => {
                    proof {
                        assert(conforms(view_desc(**count), cv@, float_draws(sample_float), chance_draws(chance)));
                    }
                    return Err(EvaluationError::RuntimeError(u));
                },
            };
            match generate_repeated(n as u64, &**value, sample_float, chance) {
                Ok(items) => {
                    proof {
                        lemma_generated_count(view_desc(**count), cv@, items@.len(), float_draws(sample_float), chance_draws(chance));
                    }
                    Ok(ScriptValue::Vec(items))
                },
                Err(e) => {
                    proof {
                        lemma_generated_count(view_desc(**count), cv@, n as nat, float_draws(sample_float), chance_draws(chance));
                        assert(count_conforms(view_desc(**count), n as nat));
                        assert(count_may_be_positive(view_desc(**count)));
                    }
                    Err(e)
                },
            }
        },
        DataDescription::Optional { p, value } => {
            if chance(*p) {
                proof {
                    assert(chance_draws(chance)(*p, true));
                }
                match generate_inner(&**value, sample_float, chance) {
                    Ok(x) => Ok(ScriptValue::Option(Some(Box::new(x)))),
                    Err(e) => Err(e),
                }
            } else {
                Ok(ScriptValue::Option(None))
            }
        },
    }
}

/// The model of a generation result.
pub open spec fn outcome(r: Result<ScriptValue, EvaluationError>) -> Result<SpecValue, EvaluationError> {
    match r {
        Ok(v) => Ok(v@),
        Err(e) => Err(e),
    }
}

/// `r` is an outcome that generating from `d` can have: a value that
/// conforms to `d`, or an error that `d` can end in.
pub open spec fn may_generate(
    d: SpecDescription,
    r: Result<SpecValue, EvaluationError>,
    fl: spec_fn(FloatBits, FloatBits, bool, FloatBits) -> bool,
    ch: spec_fn(FloatBits, bool) -> bool,
) -> bool {
    match r {
        Ok(v) => conforms(d, v, fl, ch),
        Err(e) => may_fail_with(d, e, fl, ch),
    }
}

/// Generates random data from a description.
///
/// A float is what `sample_float` gives for the range's bounds (and
/// whether the range is inclusive); an optional value is present exactly
/// when `chance` gives `true` for its probability.
pub fn generate<F, G>(description: DataDescription, sample_float: &F, chance: &G) -> (r: Result<ScriptValue, EvaluationError>)
    where
        F: Fn(FloatBits, FloatBits, bool) -> FloatBits,
        G: Fn(FloatBits) -> bool,
    requires
        samplers_total(sample_float, chance),
    ensures
        may_generate(description@, outcome(r), float_draws(sample_float), chance_draws(chance)),
{
    generate_inner(&description, sample_float, chance)
}

/// [`generate`], called on a description as a method of the script; it
/// has the outcomes that [`generate`] has.
pub fn generate_instance<F, G>(description: DataDescription, sample_float: &F, chance: &G) -> (r: Result<ScriptValue, EvaluationError>)
    where
        F: Fn(FloatBits, FloatBits, bool) -> FloatBits,
        G: Fn(FloatBits) -> bool,
    requires
        samplers_total(sample_float, chance),
    ensures
        may_generate(description@, outcome(r), float_draws(sample_float), chance_draws(chance)),
{
    generate_inner(&description, sample_float, chance)
}

} // verus!

//! What holds of descriptions and of the data generated from them.
use vstd::prelude::*;
use crate::classify::{
    in_unit_interval, spec_build, spec_build_list, spec_build_marker, spec_build_object,
    spec_build_weighted, spec_classify, spec_range,
};
use crate::keys::{
    assoc_insert, keys_distinct, keys_sorted, lemma_assoc_insert_keys, lemma_assoc_insert_sorted,
    lemma_sorted_keys_distinct,
};
use crate::convert::{spec_as_usize, spec_type_key};
use crate::generate::{
    all_true, any_true, conforms, conforms_choice, conforms_entries, conforms_list, conforms_weighted,
    may_fail_each, may_fail_each_entry, may_fail_with,
};
use crate::markers::{spec_bit_or, spec_bit_or_marker};
use crate::model::{FloatBits, SpecDescription, SpecDescriptionError, SpecMarker, SpecValue, UsizeError};
use crate::random::is_alphanumeric;

verus! {

/// A value that stands for itself in a description: not a description,
/// marker, result, object, range or list.
pub open spec fn is_plain(v: SpecValue) -> bool {
    match v {
        SpecValue::Desc(_) | SpecValue::Mark(_) | SpecValue::Res(_) | SpecValue::Object(_)
        | SpecValue::Range(_, _) | SpecValue::RangeInclusive(_, _) | SpecValue::RangeFrom(_)
        | SpecValue::RangeTo(_) | SpecValue::RangeFull | SpecValue::List(_) => false,
        _ => true,
    }
}

/// A plain value describes itself: the description of `10` is `10`, it
/// always generates `10`, and generating from it never fails.
pub proof fn law_plain_value_describes_itself(
    v: SpecValue,
    line: Option<i64>,
    x: SpecValue,
    e: crate::model::EvaluationError,
    fl: spec_fn(FloatBits, FloatBits, bool, FloatBits) -> bool,
    ch: spec_fn(FloatBits, bool) -> bool,
)
    requires
        is_plain(v),
    ensures
        spec_build(v, line) == Ok::<SpecDescription, SpecDescriptionError>(SpecDescription::Just(v)),
        conforms(SpecDescription::Just(v), x, fl, ch) <==> x == v,
        !may_fail_with(SpecDescription::Just(v), e, fl, ch),
{
}

/// A value that is a description already describes that description.
pub proof fn law_description_describes_itself(d: SpecDescription, line: Option<i64>)
    ensures
        spec_build(SpecValue::Desc(Box::new(d)), line) == Ok::<SpecDescription, SpecDescriptionError>(d),
{
}

/// A result that holds a value describes what that value describes; one
/// that holds an error of this library is that error.
pub proof fn law_results_are_unwrapped(x: SpecValue, de: SpecDescriptionError, line: Option<i64>)
    ensures
        spec_build(SpecValue::Res(Ok(Box::new(x))), line) == spec_classify(x, line),
        !(x is Res) ==> spec_build(SpecValue::Res(Ok(Box::new(x))), line) == spec_build(x, line),
        spec_build(SpecValue::Res(Err(Box::new(SpecValue::Error(de)))), line) == Err::<SpecDescription, SpecDescriptionError>(de),
{
}

/// The full range `..` describes nothing.
pub proof fn law_full_range_is_unsupported(line: Option<i64>)
    ensures
        spec_build(SpecValue::RangeFull, line) == Err::<SpecDescription, SpecDescriptionError>(SpecDescriptionError::UnsupportedType(line)),
{
}

/// A range between values of two types describes nothing.
pub proof fn law_range_bounds_share_a_type(min: SpecValue, max: SpecValue, inclusive: bool, line: Option<i64>)
    requires
        spec_type_key(min) != spec_type_key(max),
    ensures
        spec_range(min, max, inclusive, line) == Err::<SpecDescription, SpecDescriptionError>(SpecDescriptionError::MinMaxTypeMismatch(line)),
{
}

/// A number drawn from `a..b` (or `a..=b`) lies in the range.
pub proof fn law_range_draws_within_bounds(
    a: i64,
    b: i64,
    inclusive: bool,
    line: Option<i64>,
    d: SpecDescription,
    x: SpecValue,
    fl: spec_fn(FloatBits, FloatBits, bool, FloatBits) -> bool,
    ch: spec_fn(FloatBits, bool) -> bool,
)
    requires
        spec_build(
            if inclusive {
                SpecValue::RangeInclusive(Box::new(SpecValue::Signed(a)), Box::new(SpecValue::Signed(b)))
            } else {
                SpecValue::Range(Box::new(SpecValue::Signed(a)), Box::new(SpecValue::Signed(b)))
            },
            line,
        ) == Ok::<SpecDescription, SpecDescriptionError>(d),
        conforms(d, x, fl, ch),
    ensures
        (x matches SpecValue::Signed(n) && a <= n && (if inclusive { n <= b } else { n < b }))
            || (x matches SpecValue::Unsigned(n) && a <= n && (if inclusive { n <= b } else { n < b })),
{
}

/// `a..` reaches the greatest value of `a`'s type; a non-negative start
/// makes it a range of unsigned numbers.
pub proof fn law_range_from_reaches_the_maximum(a: i64, line: Option<i64>)
    ensures
        spec_build(SpecValue::RangeFrom(Box::new(SpecValue::Signed(a))), line) == if a >= 0 {
            Ok::<SpecDescription, SpecDescriptionError>(SpecDescription::UInt { min: a as u64, max: i64::MAX as u64, inclusive: true })
        } else {
            Ok::<SpecDescription, SpecDescriptionError>(SpecDescription::Int { min: a, max: i64::MAX, inclusive: true })
        },
{
}

/// `..b` starts at the least value of `b`'s type.
pub proof fn law_range_to_starts_at_the_minimum(b: i64, c: char, line: Option<i64>)
    ensures
        spec_build(SpecValue::RangeTo(Box::new(SpecValue::Signed(b))), line)
            == Ok::<SpecDescription, SpecDescriptionError>(SpecDescription::Int { min: i64::MIN, max: b, inclusive: false }),
        spec_build(SpecValue::RangeTo(Box::new(SpecValue::Char(c))), line)
            == Ok::<SpecDescription, SpecDescriptionError>(SpecDescription::Char { min: '\0', max: c, inclusive: false }),
{
}

/// The helpers and the range syntax describe alike: `range(a, b)` what
/// `a..b` does, and `range_inclusive(a, b)` what `a..=b` does.
pub proof fn law_range_helpers_match_range_syntax(a: SpecValue, b: SpecValue, line: Option<i64>)
    ensures
        spec_build(SpecValue::Mark(Box::new(SpecMarker::Range { min: a, max: b, inclusive: false })), line)
            == spec_build(SpecValue::Range(Box::new(a), Box::new(b)), line),
        spec_build(SpecValue::Mark(Box::new(SpecMarker::Range { min: a, max: b, inclusive: true })), line)
            == spec_build(SpecValue::RangeInclusive(Box::new(a), Box::new(b)), line),
{
}

/// A fixed count of values must not be negative.
pub proof fn law_negative_count_is_refused(count: i64, value: SpecValue, line: Option<i64>)
    requires
        count < 0,
    ensures
        spec_build_marker(SpecMarker::FixedLengthArray { count, value }, line)
            == Err::<SpecDescription, SpecDescriptionError>(SpecDescriptionError::CountMustBeNonNegative(line)),
{
}

/// Choosing from nothing is refused.
pub proof fn law_empty_choice_is_refused(line: Option<i64>)
    ensures
        spec_build_marker(SpecMarker::Choice(Seq::empty()), line)
            == Err::<SpecDescription, SpecDescriptionError>(SpecDescriptionError::NoValueToChooseFrom(line)),
{
}

/// An optional value with a probability outside `[0, 1]` is refused.
pub proof fn law_probability_lies_in_the_unit_interval(p: FloatBits, value: SpecValue, line: Option<i64>)
    requires
        !in_unit_interval(p),
    ensures
        spec_build_marker(SpecMarker::Optional { p: SpecValue::Float(p), value }, line)
            == Err::<SpecDescription, SpecDescriptionError>(SpecDescriptionError::InvalidProbability(p, line)),
{
}

/// Plain values describe themselves one by one.
proof fn lemma_build_plain_list(values: Seq<SpecValue>, line: Option<i64>)
    requires
        forall|i: int| 0 <= i < values.len() ==> is_plain(#[trigger] values[i]),
    ensures
        spec_build_list(values, line) == Ok::<Seq<SpecDescription>, SpecDescriptionError>(
            values.map_values(|v: SpecValue| SpecDescription::Just(v)),
        ),
    decreases values.len(),
{
    if values.len() > 0 {
        let p = values.drop_last();
        assert forall|i: int| 0 <= i < p.len() implies is_plain(#[trigger] p[i]) by {
            assert(p[i] == values[i]);
        }
        lemma_build_plain_list(p, line);
        assert(is_plain(values[values.len() - 1]));
        assert(spec_build(values.last(), line) == Ok::<SpecDescription, SpecDescriptionError>(SpecDescription::Just(values.last())));
        assert(values.map_values(|v: SpecValue| SpecDescription::Just(v)) =~= p.map_values(|v: SpecValue| SpecDescription::Just(v)).push(SpecDescription::Just(values.last())));
        assert(p == values.drop_last());
        assert(spec_build_list(values, line) == Ok::<Seq<SpecDescription>, SpecDescriptionError>(
            p.map_values(|v: SpecValue| SpecDescription::Just(v)).push(SpecDescription::Just(values.last()))));
    } else {
        assert(values.map_values(|v: SpecValue| SpecDescription::Just(v)) =~= Seq::<SpecDescription>::empty());
    }
}

/// A value chosen from plain values is one of them.
pub proof fn law_choice_picks_one_of_the_values(
    values: Seq<SpecValue>,
    line: Option<i64>,
    d: SpecDescription,
    x: SpecValue,
    fl: spec_fn(FloatBits, FloatBits, bool, FloatBits) -> bool,
    ch: spec_fn(FloatBits, bool) -> bool,
)
    requires
        forall|i: int| 0 <= i < values.len() ==> is_plain(#[trigger] values[i]),
        spec_build_marker(SpecMarker::Choice(values), line) == Ok::<SpecDescription, SpecDescriptionError>(d),
        conforms(d, x, fl, ch),
    ensures
        values.contains(x),
{
    lemma_build_plain_list(values, line);
    let ds = values.map_values(|v: SpecValue| SpecDescription::Just(v));
    assert(d == SpecDescription::Choice(ds));
    let flags = conforms_choice(ds, x, fl, ch);
    let i = choose|i: int| 0 <= i < flags.len() && #[trigger] flags[i];
    assert(conforms(ds[i], x, fl, ch));
    assert(values[i] == x);
}

/// Plain weighted values describe themselves one by one.
proof fn lemma_build_plain_weighted(values: Seq<(u32, SpecValue)>, line: Option<i64>)
    requires
        forall|i: int| 0 <= i < values.len() ==> is_plain(#[trigger] values[i].1),
    ensures
        spec_build_weighted(values, line) == Ok::<Seq<(u32, SpecDescription)>, SpecDescriptionError>(
            values.map_values(|p: (u32, SpecValue)| (p.0, SpecDescription::Just(p.1))),
        ),
    decreases values.len(),
{
    if values.len() > 0 {
        let p = values.drop_last();
        assert forall|i: int| 0 <= i < p.len() implies is_plain(#[trigger] p[i].1) by {
            assert(p[i] == values[i]);
        }
        lemma_build_plain_weighted(p, line);
        assert(is_plain(values[values.len() - 1].1));
        assert(spec_build(values.last().1, line) == Ok::<SpecDescription, SpecDescriptionError>(SpecDescription::Just(values.last().1)));
        assert(values.map_values(|q: (u32, SpecValue)| (q.0, SpecDescription::Just(q.1))) =~= p.map_values(
            |q: (u32, SpecValue)| (q.0, SpecDescription::Just(q.1)),
        ).push((values.last().0, SpecDescription::Just(values.last().1))));
        assert(spec_build_weighted(values, line) == Ok::<Seq<(u32, SpecDescription)>, SpecDescriptionError>(
            p.map_values(|q: (u32, SpecValue)| (q.0, SpecDescription::Just(q.1))).push((values.last().0, SpecDescription::Just(values.last().1)))));
    } else {
        assert(values.map_values(|q: (u32, SpecValue)| (q.0, SpecDescription::Just(q.1))) =~= Seq::<(u32, SpecDescription)>::empty());
    }
}

/// A value picked by weight from plain values is one of positive weight.
pub proof fn law_weighted_picks_a_value_of_positive_weight(
    values: Seq<(u32, SpecValue)>,
    line: Option<i64>,
    d: SpecDescription,
    x: SpecValue,
    fl: spec_fn(FloatBits, FloatBits, bool, FloatBits) -> bool,
    ch: spec_fn(FloatBits, bool) -> bool,
)
    requires
        forall|i: int| 0 <= i < values.len() ==> is_plain(#[trigger] values[i].1),
        spec_build_marker(SpecMarker::Weighted(values), line) == Ok::<SpecDescription, SpecDescriptionError>(d),
        conforms(d, x, fl, ch),
    ensures
        exists|i: int| 0 <= i < values.len() && values[i].0 > 0 && #[trigger] values[i].1 == x,
{
    lemma_build_plain_weighted(values, line);
    let ws = values.map_values(|p: (u32, SpecValue)| (p.0, SpecDescription::Just(p.1)));
    assert(d == SpecDescription::Weighted(ws));
    let flags = conforms_weighted(ws, x, fl, ch);
    let i = choose|i: int| 0 <= i < flags.len() && #[trigger] flags[i];
    assert(conforms(ws[i].1, x, fl, ch));
    assert(values[i].1 == x);
}

/// A string whose length is a number `n` is `n` letters and digits.
pub proof fn law_string_of_fixed_length(
    len: SpecValue,
    n: usize,
    x: SpecValue,
    fl: spec_fn(FloatBits, FloatBits, bool, FloatBits) -> bool,
    ch: spec_fn(FloatBits, bool) -> bool,
)
    requires
        spec_as_usize(len) == Ok::<usize, UsizeError>(n),
        conforms(SpecDescription::String { len: Box::new(SpecDescription::Just(len)) }, x, fl, ch),
    ensures
        x matches SpecValue::Str(s) && s.len() == n && forall|i: int| 0 <= i < s.len() ==> is_alphanumeric(#[trigger] s[i]),
{
}

/// `count` values of a fixed count are `count` values, none when the
/// count is not positive.
pub proof fn law_fixed_count_of_values(
    count: i64,
    value: SpecDescription,
    x: SpecValue,
    fl: spec_fn(FloatBits, FloatBits, bool, FloatBits) -> bool,
    ch: spec_fn(FloatBits, bool) -> bool,
)
    requires
        conforms(SpecDescription::FixedLengthArray { count, value: Box::new(value) }, x, fl, ch),
    ensures
        x matches SpecValue::List(items) && items.len() == (if count > 0 { count as int } else { 0 }),
{
}

/// Chaining `|` collects the alternatives in order: `o | x | y` chooses
/// among `o`, `x` and `y`.
pub proof fn law_alternatives_collect_in_order(o: SpecValue, x: SpecValue, y: SpecValue)
    requires
        !(x is Mark),
        !(y is Mark),
    ensures
        spec_bit_or_marker(spec_bit_or(o, x), y) == SpecMarker::Choice(seq![o, x, y]),
        spec_bit_or(o, SpecValue::Mark(Box::new(spec_bit_or(x, y)))) == SpecMarker::Choice(seq![x, y, o]),
{
    assert(seq![o, x].push(y) =~= seq![o, x, y]);
    assert(seq![x, y].push(o) =~= seq![x, y, o]);
}

/// The description of an object has the object's keys, each once, in
/// the order of keys.
#[verifier::spinoff_prover]
#[verifier::rlimit(40)]
pub proof fn law_objects_keep_their_keys(entries: Seq<(Seq<char>, SpecValue)>, line: Option<i64>, q: Seq<char>)
    ensures
        spec_build_object(entries, line) matches Ok(m) ==> keys_sorted(m) && keys_distinct(m) && ((exists|j: int| 0 <= j < m.len() && (#[trigger] m[j]).0 == q)
            <==> (exists|i: int| 0 <= i < entries.len() && (#[trigger] entries[i]).0 == q)),
    decreases entries.len(),
{
    if entries.len() > 0 {
        let p = entries.drop_last();
        law_objects_keep_their_keys(p, line, q);
        let k = entries.last().0;
        if let Ok(m0) = spec_build_object(p, line) {
            if let Ok(d) = spec_build(entries.last().1, line) {
                let m = assoc_insert(m0, k, d);
                assert(spec_build_object(entries, line) == Ok::<Seq<(Seq<char>, SpecDescription)>, SpecDescriptionError>(m));
                lemma_assoc_insert_sorted(m0, k, d);
                lemma_sorted_keys_distinct(m);
                lemma_assoc_insert_keys(m0, k, d, q);
                let in_m = exists|j: int| 0 <= j < m.len() && (#[trigger] m[j]).0 == q;
                let in_m0 = exists|j: int| 0 <= j < m0.len() && (#[trigger] m0[j]).0 == q;
                let in_p = exists|i: int| 0 <= i < p.len() && (#[trigger] p[i]).0 == q;
                let in_e = exists|i: int| 0 <= i < entries.len() && (#[trigger] entries[i]).0 == q;
                assert(in_m0 <==> in_p);
                assert(in_m <==> (q == k || in_m0));
                if in_e {
                    let i = choose|i: int| 0 <= i < entries.len() && (#[trigger] entries[i]).0 == q;
                    if i < p.len() {
                        assert(p[i] == entries[i]);
                    } else {
                        assert(entries[i] == entries.last());
                    }
                }
                if in_p {
                    let i = choose|i: int| 0 <= i < p.len() && (#[trigger] p[i]).0 == q;
                    assert(p[i] == entries[i]);
                }
                if q == k {
                    assert(entries[entries.len() - 1].0 == q);
                }
                assert(in_m <==> in_e);
            } else {
                assert(spec_build_object(entries, line) is Err);
            }
        } else {
            assert(spec_build_object(entries, line) is Err);
        }
    } else {
        assert(spec_build_object(entries, line) == Ok::<Seq<(Seq<char>, SpecDescription)>, SpecDescriptionError>(Seq::empty()));
        assert(keys_sorted(Seq::<(Seq<char>, SpecDescription)>::empty()));
        assert(keys_distinct(Seq::<(Seq<char>, SpecDescription)>::empty()));
    }
}

/// Data generated from the description of an object has exactly the
/// object's keys, each once.
pub proof fn law_generated_objects_have_the_keys_of_the_script(entries: Seq<(Seq<char>, SpecValue)>,
    line: Option<i64>,
    d: SpecDescription,
    x: SpecValue,
    q: Seq<char>, fl: spec_fn(FloatBits, FloatBits, bool, FloatBits) -> bool, ch: spec_fn(FloatBits, bool) -> bool)
    requires
        spec_build(SpecValue::Object(entries), line) == Ok::<SpecDescription, SpecDescriptionError>(d),
        conforms(d, x, fl, ch),
    ensures
        x matches SpecValue::Object(out) && keys_distinct(out) && ((exists|j: int| 0 <= j < out.len() && (#[trigger] out[j]).0 == q)
            <==> (exists|i: int| 0 <= i < entries.len() && (#[trigger] entries[i]).0 == q)),
{
    law_objects_keep_their_keys(entries, line, q);
    let m = spec_build_object(entries, line)->Ok_0;
    assert(d == SpecDescription::Object(m));
    let out = x->Object_0;
    let flags = conforms_entries(m, out, fl, ch);
    assert(forall|j: int| 0 <= j < m.len() ==> #[trigger] flags[j]);
    assert forall|j: int| 0 <= j < out.len() implies (#[trigger] out[j]).0 == m[j].0 by {
        assert(flags[j]);
    }
    assert(keys_distinct(out)) by {
        assert forall|i: int, j: int| 0 <= i < j < out.len() implies #[trigger] out[i].0 != #[trigger] out[j].0 by {
            assert(out[i].0 == m[i].0);
            assert(out[j].0 == m[j].0);
        }
    }
    if exists|j: int| 0 <= j < out.len() && (#[trigger] out[j]).0 == q {
        let j = choose|j: int| 0 <= j < out.len() && (#[trigger] out[j]).0 == q;
        assert(m[j].0 == q);
    }
    if exists|j: int| 0 <= j < m.len() && (#[trigger] m[j]).0 == q {
        let j = choose|j: int| 0 <= j < m.len() && (#[trigger] m[j]).0 == q;
        assert(out[j].0 == q);
    }
}

/// Data as a script writes it out: plain values, and lists and objects of
/// such data, each key of an object once.
pub open spec fn is_plain_data(v: SpecValue) -> bool
    decreases v, 1nat,
{
    match v {
        SpecValue::List(items) => all_true(plain_each(items)),
        SpecValue::Object(es) => keys_distinct(es) && all_true(plain_each_entry(es)),
        _ => is_plain(v),
    }
}

pub open spec fn plain_each(items: Seq<SpecValue>) -> Seq<bool>
    decreases items, 0nat,
{
    Seq::new(items.len(), |i: int| 0 <= i < items.len() && is_plain_data(items[i]))
}

pub open spec fn plain_each_entry(es: Seq<(Seq<char>, SpecValue)>) -> Seq<bool>
    decreases es, 0nat,
{
    Seq::new(es.len(), |i: int| 0 <= i < es.len() && is_plain_data(es[i].1))
}

/// `w` is the data `v`: equal plain values, lists of the same data in the
/// same order, and objects with the same keys, each with the same data.
pub open spec fn same_data(v: SpecValue, w: SpecValue) -> bool
    decreases v, 1nat,
{
    match v {
        SpecValue::List(items) => w matches SpecValue::List(ws) && ws.len() == items.len() && all_true(same_each(items, ws)),
        SpecValue::Object(es) => w matches SpecValue::Object(out) && out.len() == es.len() && all_true(same_each_entry(es, out)),
        _ => w == v,
    }
}

pub open spec fn same_each(items: Seq<SpecValue>, ws: Seq<SpecValue>) -> Seq<bool>
    decreases items, 0nat,
{
    Seq::new(items.len(), |i: int| 0 <= i < items.len() && i < ws.len() && same_data(items[i], ws[i]))
}

pub open spec fn same_each_entry(es: Seq<(Seq<char>, SpecValue)>, out: Seq<(Seq<char>, SpecValue)>) -> Seq<bool>
    decreases es, 0nat,
{
    Seq::new(
        es.len(),
        |i: int|
            0 <= i < es.len() && exists|j: int| 0 <= j < out.len() && (#[trigger] out[j]).0 == es[i].0 && same_data(es[i].1, out[j].1),
    )
}

/// The descriptions of a list, one for each value.
proof fn lemma_build_list_each(s: Seq<SpecValue>, line: Option<i64>, ds: Seq<SpecDescription>)
    requires
        spec_build_list(s, line) == Ok::<Seq<SpecDescription>, SpecDescriptionError>(ds),
    ensures
        ds.len() == s.len(),
        forall|i: int| 0 <= i < s.len() ==> spec_build(#[trigger] s[i], line) == Ok::<SpecDescription, SpecDescriptionError>(ds[i]),
    decreases s.len(),
{
    if s.len() > 0 {
        let p = s.drop_last();
        let ds0 = spec_build_list(p, line)->Ok_0;
        lemma_build_list_each(p, line, ds0);
        assert(ds == ds0.push(spec_build(s.last(), line)->Ok_0));
        assert forall|i: int| 0 <= i < s.len() implies spec_build(#[trigger] s[i], line) == Ok::<SpecDescription, SpecDescriptionError>(ds[i]) by {
            if i < p.len() {
                assert(p[i] == s[i]);
            }
        }
    }
}

/// The description of an object whose keys are distinct has an entry for
/// each entry of the object, with the same key and its description.
proof fn lemma_build_object_each(es: Seq<(Seq<char>, SpecValue)>, line: Option<i64>, m: Seq<(Seq<char>, SpecDescription)>)
    requires
        keys_distinct(es),
        spec_build_object(es, line) == Ok::<Seq<(Seq<char>, SpecDescription)>, SpecDescriptionError>(m),
    ensures
        m.len() == es.len(),
        forall|i: int| 0 <= i < es.len() ==> exists|j: int| 0 <= j < m.len() && (#[trigger] m[j]).0 == (#[trigger] es[i]).0
            && spec_build(es[i].1, line) == Ok::<SpecDescription, SpecDescriptionError>(m[j].1),
    decreases es.len(),
{
    if es.len() > 0 {
        let p = es.drop_last();
        let k = es.last().0;
        assert forall|i: int, j: int| 0 <= i < j < p.len() implies #[trigger] p[i].0 != #[trigger] p[j].0 by {
            assert(p[i] == es[i] && p[j] == es[j]);
        }
        let m0 = spec_build_object(p, line)->Ok_0;
        let dl = spec_build(es.last().1, line)->Ok_0;
        assert(m == assoc_insert(m0, k, dl));
        lemma_build_object_each(p, line, m0);
        law_objects_keep_their_keys(p, line, k);
        assert forall|i: int| 0 <= i < p.len() implies p[i].0 != k by {
            assert(p[i] == es[i]);
            assert(es[es.len() - 1].0 == k);
        }
        crate::keys::lemma_key_position(m0, k);
        crate::keys::lemma_insert_position_splits(m0, k);
        let n = crate::keys::insert_position(m0, k);
        m0.insert_ensures(n, (k, dl));
        assert(m == m0.insert(n, (k, dl)));
        assert forall|i: int| 0 <= i < es.len() implies exists|j: int| 0 <= j < m.len() && (#[trigger] m[j]).0 == (#[trigger] es[i]).0
            && spec_build(es[i].1, line) == Ok::<SpecDescription, SpecDescriptionError>(m[j].1) by {
            if i < p.len() {
                assert(p[i] == es[i]);
                let j0 = choose|j: int| 0 <= j < m0.len() && (#[trigger] m0[j]).0 == (#[trigger] p[i]).0
                    && spec_build(p[i].1, line) == Ok::<SpecDescription, SpecDescriptionError>(m0[j].1);
                if j0 < n {
                    assert(m[j0] == m0[j0]);
                } else {
                    assert(m[j0 + 1] == m0[j0]);
                }
            } else {
                assert(m[n] == (k, dl));
                assert(es[i] == es.last());
            }
        }
    }
}

/// Each entry of the description of an object whose keys are distinct
/// comes from an entry of the object, with the same key.
proof fn lemma_build_object_back(es: Seq<(Seq<char>, SpecValue)>, line: Option<i64>, m: Seq<(Seq<char>, SpecDescription)>)
    requires
        keys_distinct(es),
        spec_build_object(es, line) == Ok::<Seq<(Seq<char>, SpecDescription)>, SpecDescriptionError>(m),
    ensures
        forall|j: int| 0 <= j < m.len() ==> exists|i: int| 0 <= i < es.len() && (#[trigger] es[i]).0 == (#[trigger] m[j]).0
            && spec_build(es[i].1, line) == Ok::<SpecDescription, SpecDescriptionError>(m[j].1),
    decreases es.len(),
{
    if es.len() > 0 {
        let p = es.drop_last();
        let k = es.last().0;
        assert forall|i: int, j: int| 0 <= i < j < p.len() implies #[trigger] p[i].0 != #[trigger] p[j].0 by {
            assert(p[i] == es[i] && p[j] == es[j]);
        }
        let m0 = spec_build_object(p, line)->Ok_0;
        let dl = spec_build(es.last().1, line)->Ok_0;
        assert(m == assoc_insert(m0, k, dl));
        lemma_build_object_back(p, line, m0);
        law_objects_keep_their_keys(p, line, k);
        assert forall|i: int| 0 <= i < p.len() implies p[i].0 != k by {
            assert(p[i] == es[i]);
            assert(es[es.len() - 1].0 == k);
        }
        crate::keys::lemma_key_position(m0, k);
        crate::keys::lemma_insert_position_splits(m0, k);
        let n = crate::keys::insert_position(m0, k);
        m0.insert_ensures(n, (k, dl));
        assert(m == m0.insert(n, (k, dl)));
        assert forall|j: int| 0 <= j < m.len() implies exists|i: int| 0 <= i < es.len() && (#[trigger] es[i]).0 == (#[trigger] m[j]).0
            && spec_build(es[i].1, line) == Ok::<SpecDescription, SpecDescriptionError>(m[j].1) by {
            if j == n {
                assert(m[n] == (k, dl));
                assert(es[es.len() - 1] == es.last());
            } else {
                let j0 = if j < n { j } else { j - 1 };
                assert(m[j] == m0[j0]);
                let i = choose|i: int| 0 <= i < p.len() && (#[trigger] p[i]).0 == (#[trigger] m0[j0]).0
                    && spec_build(p[i].1, line) == Ok::<SpecDescription, SpecDescriptionError>(m0[j0].1);
                assert(p[i] == es[i]);
            }
        }
    }
}

/// Data written out as plain values, lists and objects comes back as it
/// was: the data generated from its description is the same data.
#[verifier::spinoff_prover]
pub proof fn law_plain_data_comes_back(
    v: SpecValue,
    line: Option<i64>,
    d: SpecDescription,
    w: SpecValue,
    fl: spec_fn(FloatBits, FloatBits, bool, FloatBits) -> bool,
    ch: spec_fn(FloatBits, bool) -> bool,
)
    requires
        is_plain_data(v),
        spec_build(v, line) == Ok::<SpecDescription, SpecDescriptionError>(d),
        conforms(d, w, fl, ch),
    ensures
        same_data(v, w),
    decreases v,
{
    match v {
        SpecValue::List(items) => {
            let ds = spec_build_list(items, line)->Ok_0;
            assert(d == SpecDescription::List(ds));
            lemma_build_list_each(items, line, ds);
            let ws = w->List_0;
            assert forall|i: int| 0 <= i < items.len() implies #[trigger] same_each(items, ws)[i] by {
                assert(plain_each(items)[i]);
                assert(conforms_list(ds, ws, fl, ch)[i]);
                law_plain_data_comes_back(items[i], line, ds[i], ws[i], fl, ch);
            }
            assert(w is List && ws.len() == ds.len());
            assert(all_true(same_each(items, ws)));
        },
        SpecValue::Object(es) => {
            let m = spec_build_object(es, line)->Ok_0;
            assert(d == SpecDescription::Object(m));
            lemma_build_object_each(es, line, m);
            let out = w->Object_0;
            assert forall|i: int| 0 <= i < es.len() implies #[trigger] same_each_entry(es, out)[i] by {
                assert(plain_each_entry(es)[i]);
                let j = choose|j: int| 0 <= j < m.len() && (#[trigger] m[j]).0 == (#[trigger] es[i]).0
                    && spec_build(es[i].1, line) == Ok::<SpecDescription, SpecDescriptionError>(m[j].1);
                assert(conforms_entries(m, out, fl, ch)[j]);
                law_plain_data_comes_back(es[i].1, line, m[j].1, out[j].1, fl, ch);
                assert(out[j].0 == es[i].0);
            }
        },
        _ => {},
    }
}

/// Data written out as plain values, lists and objects never fails to
/// generate.
#[verifier::spinoff_prover]
pub proof fn law_plain_data_always_generates(
    v: SpecValue,
    line: Option<i64>,
    d: SpecDescription,
    e: crate::model::EvaluationError,
    fl: spec_fn(FloatBits, FloatBits, bool, FloatBits) -> bool,
    ch: spec_fn(FloatBits, bool) -> bool,
)
    requires
        is_plain_data(v),
        spec_build(v, line) == Ok::<SpecDescription, SpecDescriptionError>(d),
    ensures
        !may_fail_with(d, e, fl, ch),
    decreases v,
{
    match v {
        SpecValue::List(items) => {
            let ds = spec_build_list(items, line)->Ok_0;
            assert(d == SpecDescription::List(ds));
            lemma_build_list_each(items, line, ds);
            assert forall|i: int| 0 <= i < ds.len() implies !#[trigger] may_fail_each(ds, e, fl, ch)[i] by {
                assert(plain_each(items)[i]);
                law_plain_data_always_generates(items[i], line, ds[i], e, fl, ch);
            }
            assert(!any_true(may_fail_each(ds, e, fl, ch)));
        },
        SpecValue::Object(es) => {
            let m = spec_build_object(es, line)->Ok_0;
            assert(d == SpecDescription::Object(m));
            lemma_build_object_back(es, line, m);
            assert forall|j: int| 0 <= j < m.len() implies !#[trigger] may_fail_each_entry(m, e, fl, ch)[j] by {
                let i = choose|i: int| 0 <= i < es.len() && (#[trigger] es[i]).0 == (#[trigger] m[j]).0
                    && spec_build(es[i].1, line) == Ok::<SpecDescription, SpecDescriptionError>(m[j].1);
                assert(plain_each_entry(es)[i]);
                law_plain_data_always_generates(es[i].1, line, m[j].1, e, fl, ch);
            }
            assert(!any_true(may_fail_each_entry(m, e, fl, ch)));
        },
        _ => {},
    }
}

/// A list of values builds exactly when each of them does, and its error
/// is that of the first value that does not.
proof fn lemma_build_list_errors(s: Seq<SpecValue>, line: Option<i64>)
    ensures
        (spec_build_list(s, line) is Ok) <==> (forall|i: int| 0 <= i < s.len() ==> #[trigger] spec_build(s[i], line) is Ok),
        spec_build_list(s, line) matches Err(e) ==> exists|i: int| 0 <= i < s.len()
            && spec_build(#[trigger] s[i], line) == Err::<SpecDescription, SpecDescriptionError>(e)
            && forall|j: int| 0 <= j < i ==> #[trigger] spec_build(s[j], line) is Ok,
    decreases s.len(),
{
    if s.len() > 0 {
        let p = s.drop_last();
        lemma_build_list_errors(p, line);
        assert forall|j: int| 0 <= j < p.len() implies #[trigger] p[j] == s[j] by {}
        assert(s.last() == s[s.len() - 1]);
        if spec_build_list(p, line) is Ok && spec_build(s.last(), line) is Ok {
            assert forall|i: int| 0 <= i < s.len() implies #[trigger] spec_build(s[i], line) is Ok by {
                if i < p.len() {
                    assert(spec_build(p[i], line) is Ok);
                }
            }
        }
        if spec_build_list(p, line) is Err {
            let e = spec_build_list(p, line)->Err_0;
            let i = choose|i: int| 0 <= i < p.len() && spec_build(#[trigger] p[i], line) == Err::<SpecDescription, SpecDescriptionError>(e)
                && forall|j: int| 0 <= j < i ==> #[trigger] spec_build(p[j], line) is Ok;
            assert(spec_build(s[i], line) == Err::<SpecDescription, SpecDescriptionError>(e));
            assert forall|j: int| 0 <= j < i implies #[trigger] spec_build(s[j], line) is Ok by {
                assert(spec_build(p[j], line) is Ok);
            }
        } else if spec_build(s.last(), line) is Err {
            assert forall|j: int| 0 <= j < s.len() - 1 implies #[trigger] spec_build(s[j], line) is Ok by {
                assert(spec_build(p[j], line) is Ok);
            }
        }
    }
}

/// Weighted values build exactly when each value does, each keeping its
/// weight; the error is that of the first value that does not build.
proof fn lemma_build_weighted_each(s: Seq<(u32, SpecValue)>, line: Option<i64>)
    ensures
        (spec_build_weighted(s, line) is Ok) <==> (forall|i: int| 0 <= i < s.len() ==> #[trigger] spec_build(s[i].1, line) is Ok),
        spec_build_weighted(s, line) matches Ok(ws) ==> ws.len() == s.len()
            && forall|i: int| 0 <= i < s.len() ==> (#[trigger] ws[i]).0 == s[i].0
                && spec_build(s[i].1, line) == Ok::<SpecDescription, SpecDescriptionError>(ws[i].1),
        spec_build_weighted(s, line) matches Err(e) ==> exists|i: int| 0 <= i < s.len()
            && spec_build((#[trigger] s[i]).1, line) == Err::<SpecDescription, SpecDescriptionError>(e)
            && forall|j: int| 0 <= j < i ==> spec_build((#[trigger] s[j]).1, line) is Ok,
    decreases s.len(),
{
    if s.len() > 0 {
        let p = s.drop_last();
        lemma_build_weighted_each(p, line);
        assert forall|j: int| 0 <= j < p.len() implies #[trigger] p[j] == s[j] by {}
        assert(s.last() == s[s.len() - 1]);
        if spec_build_weighted(p, line) is Ok && spec_build(s.last().1, line) is Ok {
            let ws0 = spec_build_weighted(p, line)->Ok_0;
            let ws = spec_build_weighted(s, line)->Ok_0;
            assert(ws == ws0.push((s.last().0, spec_build(s.last().1, line)->Ok_0)));
            assert forall|i: int| 0 <= i < s.len() implies (#[trigger] ws[i]).0 == s[i].0
                && spec_build(s[i].1, line) == Ok::<SpecDescription, SpecDescriptionError>(ws[i].1) by {
                if i < p.len() {
                    assert(ws[i] == ws0[i]);
                    assert(p[i] == s[i]);
                }
            }
            assert forall|i: int| 0 <= i < s.len() implies #[trigger] spec_build(s[i].1, line) is Ok by {
                assert(ws[i].0 == s[i].0);
            }
        }
        if spec_build_weighted(p, line) is Err {
            let e = spec_build_weighted(p, line)->Err_0;
            let i = choose|i: int| 0 <= i < p.len() && spec_build((#[trigger] p[i]).1, line) == Err::<SpecDescription, SpecDescriptionError>(e)
                && forall|j: int| 0 <= j < i ==> spec_build((#[trigger] p[j]).1, line) is Ok;
            assert(p[i] == s[i]);
            assert forall|j: int| 0 <= j < i implies spec_build((#[trigger] s[j]).1, line) is Ok by {
                assert(p[j] == s[j]);
                assert(spec_build(p[j].1, line) is Ok);
            }
            assert(!(spec_build(s[i].1, line) is Ok));
        } else if spec_build(s.last().1, line) is Err {
            assert forall|j: int| 0 <= j < s.len() - 1 implies spec_build((#[trigger] s[j]).1, line) is Ok by {
                assert(p[j] == s[j]);
                assert(spec_build(p[j].1, line) is Ok);
            }
        }
    }
}

/// `n.values(value)` describes `n` draws from what `value` describes: with
/// a count that is not negative it builds exactly when `value` does, to
/// the description of `value` or to its error, and every item generated
/// from it is a value that the description of `value` generates.
pub proof fn law_fixed_values_draw_from_their_value(
    count: i64,
    value: SpecValue,
    line: Option<i64>,
    x: SpecValue,
    fl: spec_fn(FloatBits, FloatBits, bool, FloatBits) -> bool,
    ch: spec_fn(FloatBits, bool) -> bool,
)
    requires
        count >= 0,
    ensures
        spec_build(value, line) matches Ok(dv) ==> spec_build(SpecValue::Mark(Box::new(SpecMarker::FixedLengthArray { count, value })), line)
            == Ok::<SpecDescription, SpecDescriptionError>(SpecDescription::FixedLengthArray { count, value: Box::new(dv) }),
        spec_build(value, line) matches Err(e) ==> spec_build(SpecValue::Mark(Box::new(SpecMarker::FixedLengthArray { count, value })), line)
            == Err::<SpecDescription, SpecDescriptionError>(e),
        (spec_build(SpecValue::Mark(Box::new(SpecMarker::FixedLengthArray { count, value })), line) is Ok
            && conforms(spec_build(SpecValue::Mark(Box::new(SpecMarker::FixedLengthArray { count, value })), line)->Ok_0, x, fl, ch))
            ==> (x matches SpecValue::List(items) && items.len() == count
                && forall|i: int| 0 <= i < items.len() ==> conforms(spec_build(value, line)->Ok_0, #[trigger] items[i], fl, ch)),
{
    let d = spec_build(SpecValue::Mark(Box::new(SpecMarker::FixedLengthArray { count, value })), line);
    if d is Ok && conforms(d->Ok_0, x, fl, ch) {
        let items = x->List_0;
        let dv = spec_build(value, line)->Ok_0;
        assert forall|i: int| 0 <= i < items.len() implies conforms(dv, #[trigger] items[i], fl, ch) by {
            assert(crate::generate::conforms_items(dv, items, fl, ch)[i]);
        }
    }
}

/// `values(count, value)` describes as many draws from what `value`
/// describes as a count drawn from `count` says: it builds exactly when
/// both do, the error of `count` coming first, and every item generated
/// from it is a value that the description of `value` generates, as many
/// as a count that the description of `count` generates.
pub proof fn law_drawn_values_draw_from_their_value(
    count: SpecValue,
    value: SpecValue,
    line: Option<i64>,
    x: SpecValue,
    fl: spec_fn(FloatBits, FloatBits, bool, FloatBits) -> bool,
    ch: spec_fn(FloatBits, bool) -> bool,
)
    ensures
        (spec_build(count, line) is Ok && spec_build(value, line) is Ok)
            ==> spec_build(SpecValue::Mark(Box::new(SpecMarker::VariableLengthArray { count, value })), line)
                == Ok::<SpecDescription, SpecDescriptionError>(SpecDescription::VariableLengthArray {
                    count: Box::new(spec_build(count, line)->Ok_0),
                    value: Box::new(spec_build(value, line)->Ok_0),
                }),
        spec_build(count, line) matches Err(e) ==> spec_build(SpecValue::Mark(Box::new(SpecMarker::VariableLengthArray { count, value })), line)
            == Err::<SpecDescription, SpecDescriptionError>(e),
        (spec_build(count, line) is Ok && spec_build(value, line) is Err)
            ==> spec_build(SpecValue::Mark(Box::new(SpecMarker::VariableLengthArray { count, value })), line)
                == Err::<SpecDescription, SpecDescriptionError>(spec_build(value, line)->Err_0),
        (spec_build(SpecValue::Mark(Box::new(SpecMarker::VariableLengthArray { count, value })), line) is Ok
            && conforms(spec_build(SpecValue::Mark(Box::new(SpecMarker::VariableLengthArray { count, value })), line)->Ok_0, x, fl, ch))
            ==> (x matches SpecValue::List(items) && crate::generate::count_conforms(spec_build(count, line)->Ok_0, items.len())
                && forall|i: int| 0 <= i < items.len() ==> conforms(spec_build(value, line)->Ok_0, #[trigger] items[i], fl, ch)),
{
    let d = spec_build(SpecValue::Mark(Box::new(SpecMarker::VariableLengthArray { count, value })), line);
    if d is Ok && conforms(d->Ok_0, x, fl, ch) {
        let items = x->List_0;
        let dv = spec_build(value, line)->Ok_0;
        assert forall|i: int| 0 <= i < items.len() implies conforms(dv, #[trigger] items[i], fl, ch) by {
            assert(crate::generate::conforms_items(dv, items, fl, ch)[i]);
        }
    }
}

/// `string(len)` describes a string whose length is drawn from what `len`
/// describes: it builds exactly when `len` does, to the description of
/// `len` or to its error, and a string generated from it has a length that
/// the description of `len` generates.
pub proof fn law_string_length_is_drawn_from_len(
    len: SpecValue,
    line: Option<i64>,
    x: SpecValue,
    fl: spec_fn(FloatBits, FloatBits, bool, FloatBits) -> bool,
    ch: spec_fn(FloatBits, bool) -> bool,
)
    ensures
        spec_build(len, line) matches Ok(dl) ==> spec_build(SpecValue::Mark(Box::new(SpecMarker::String { len })), line)
            == Ok::<SpecDescription, SpecDescriptionError>(SpecDescription::String { len: Box::new(dl) }),
        spec_build(len, line) matches Err(e) ==> spec_build(SpecValue::Mark(Box::new(SpecMarker::String { len })), line)
            == Err::<SpecDescription, SpecDescriptionError>(e),
        (spec_build(SpecValue::Mark(Box::new(SpecMarker::String { len })), line) is Ok
            && conforms(spec_build(SpecValue::Mark(Box::new(SpecMarker::String { len })), line)->Ok_0, x, fl, ch))
            ==> (x matches SpecValue::Str(s) && crate::generate::count_conforms(spec_build(len, line)->Ok_0, s.len())),
{
}

/// A string drawn from `string(a..b)`, with `0 <= a`, has between `a` and
/// `b` characters, `b` excluded.
pub proof fn law_string_of_a_range_of_lengths(
    a: i64,
    b: i64,
    line: Option<i64>,
    d: SpecDescription,
    x: SpecValue,
    fl: spec_fn(FloatBits, FloatBits, bool, FloatBits) -> bool,
    ch: spec_fn(FloatBits, bool) -> bool,
)
    requires
        0 <= a,
        spec_build(
            SpecValue::Mark(Box::new(SpecMarker::String {
                len: SpecValue::Range(Box::new(SpecValue::Signed(a)), Box::new(SpecValue::Signed(b))),
            })),
            line,
        ) == Ok::<SpecDescription, SpecDescriptionError>(d),
        conforms(d, x, fl, ch),
    ensures
        x matches SpecValue::Str(s) && a <= s.len() < b,
{
    law_string_length_is_drawn_from_len(
        SpecValue::Range(Box::new(SpecValue::Signed(a)), Box::new(SpecValue::Signed(b))), line, x, fl, ch);
}

/// `optional(p, value)`, with `p` a float in `[0, 1]`, builds exactly when
/// `value` does, keeping `p`, to the description of `value` or to its
/// error; a value present in what it generates is a value that the
/// description of `value` generates.
pub proof fn law_optional_draws_from_its_value(
    p: FloatBits,
    value: SpecValue,
    line: Option<i64>,
    x: SpecValue,
    fl: spec_fn(FloatBits, FloatBits, bool, FloatBits) -> bool,
    ch: spec_fn(FloatBits, bool) -> bool,
)
    requires
        in_unit_interval(p),
    ensures
        spec_build(value, line) matches Ok(dv) ==> spec_build(SpecValue::Mark(Box::new(SpecMarker::Optional { p: SpecValue::Float(p), value })), line)
            == Ok::<SpecDescription, SpecDescriptionError>(SpecDescription::Optional { p, value: Box::new(dv) }),
        spec_build(value, line) matches Err(e) ==> spec_build(SpecValue::Mark(Box::new(SpecMarker::Optional { p: SpecValue::Float(p), value })), line)
            == Err::<SpecDescription, SpecDescriptionError>(e),
        (spec_build(SpecValue::Mark(Box::new(SpecMarker::Optional { p: SpecValue::Float(p), value })), line) is Ok
            && conforms(spec_build(SpecValue::Mark(Box::new(SpecMarker::Optional { p: SpecValue::Float(p), value })), line)->Ok_0, x, fl, ch)
            && x is Opt && x->Opt_0 is Some)
            ==> conforms(spec_build(value, line)->Ok_0, *(x->Opt_0->Some_0), fl, ch),
{
}

/// `choose(values)`, for values that are not empty, describes a choice
/// among what each value describes: it builds exactly when each value
/// does, to their descriptions in order, and otherwise to the error of the
/// first value that does not; a value generated from it is a value that
/// the description of one of the values generates.
pub proof fn law_choice_describes_each_value(
    values: Seq<SpecValue>,
    line: Option<i64>,
    x: SpecValue,
    fl: spec_fn(FloatBits, FloatBits, bool, FloatBits) -> bool,
    ch: spec_fn(FloatBits, bool) -> bool,
)
    requires
        values.len() > 0,
    ensures
        (forall|i: int| 0 <= i < values.len() ==> #[trigger] spec_build(values[i], line) is Ok)
            ==> (spec_build(SpecValue::Mark(Box::new(SpecMarker::Choice(values))), line) matches Ok(d)
                && d matches SpecDescription::Choice(ds) && ds.len() == values.len()
                && forall|i: int| 0 <= i < values.len() ==> spec_build(values[i], line) == Ok::<SpecDescription, SpecDescriptionError>(#[trigger] ds[i])),
        spec_build(SpecValue::Mark(Box::new(SpecMarker::Choice(values))), line) matches Err(e)
            ==> exists|i: int| 0 <= i < values.len() && spec_build(#[trigger] values[i], line) == Err::<SpecDescription, SpecDescriptionError>(e)
                && forall|j: int| 0 <= j < i ==> #[trigger] spec_build(values[j], line) is Ok,
        (spec_build(SpecValue::Mark(Box::new(SpecMarker::Choice(values))), line) is Ok
            && conforms(spec_build(SpecValue::Mark(Box::new(SpecMarker::Choice(values))), line)->Ok_0, x, fl, ch))
            ==> exists|i: int| 0 <= i < values.len() && #[trigger] spec_build(values[i], line) is Ok
                && conforms(spec_build(values[i], line)->Ok_0, x, fl, ch),
{
    lemma_build_list_errors(values, line);
    let r = spec_build_list(values, line);
    if r is Ok {
        let ds = r->Ok_0;
        lemma_build_list_each(values, line, ds);
        let d = SpecDescription::Choice(ds);
        assert(spec_build(SpecValue::Mark(Box::new(SpecMarker::Choice(values))), line) == Ok::<SpecDescription, SpecDescriptionError>(d));
        if conforms(d, x, fl, ch) {
            let i = choose|i: int| 0 <= i < conforms_choice(ds, x, fl, ch).len() && #[trigger] conforms_choice(ds, x, fl, ch)[i];
            assert(conforms(ds[i], x, fl, ch));
            assert(spec_build(values[i], line) == Ok::<SpecDescription, SpecDescriptionError>(ds[i]));
        }
    }
}

/// `weighted(values)` describes a choice by weight among what each value
/// describes: it builds exactly when each value does, to their
/// descriptions in order with their weights, and otherwise to the error of
/// the first value that does not; a value generated from it is a value that
/// the description of a value of positive weight generates.
pub proof fn law_weighted_describes_each_value(
    values: Seq<(u32, SpecValue)>,
    line: Option<i64>,
    x: SpecValue,
    fl: spec_fn(FloatBits, FloatBits, bool, FloatBits) -> bool,
    ch: spec_fn(FloatBits, bool) -> bool,
)
    ensures
        (forall|i: int| 0 <= i < values.len() ==> #[trigger] spec_build(values[i].1, line) is Ok)
            ==> (spec_build(SpecValue::Mark(Box::new(SpecMarker::Weighted(values))), line) matches Ok(d)
                && d matches SpecDescription::Weighted(ws) && ws.len() == values.len()
                && forall|i: int| 0 <= i < values.len() ==> (#[trigger] ws[i]).0 == values[i].0
                    && spec_build(values[i].1, line) == Ok::<SpecDescription, SpecDescriptionError>(ws[i].1)),
        spec_build(SpecValue::Mark(Box::new(SpecMarker::Weighted(values))), line) matches Err(e)
            ==> exists|i: int| 0 <= i < values.len() && spec_build((#[trigger] values[i]).1, line) == Err::<SpecDescription, SpecDescriptionError>(e)
                && forall|j: int| 0 <= j < i ==> spec_build((#[trigger] values[j]).1, line) is Ok,
        (spec_build(SpecValue::Mark(Box::new(SpecMarker::Weighted(values))), line) is Ok
            && conforms(spec_build(SpecValue::Mark(Box::new(SpecMarker::Weighted(values))), line)->Ok_0, x, fl, ch))
            ==> exists|i: int| 0 <= i < values.len() && (#[trigger] values[i]).0 > 0
                && spec_build(values[i].1, line) is Ok && conforms(spec_build(values[i].1, line)->Ok_0, x, fl, ch),
{
    lemma_build_weighted_each(values, line);
    let r = spec_build_weighted(values, line);
    if r is Ok {
        let ws = r->Ok_0;
        let d = SpecDescription::Weighted(ws);
        assert(spec_build(SpecValue::Mark(Box::new(SpecMarker::Weighted(values))), line) == Ok::<SpecDescription, SpecDescriptionError>(d));
        if conforms(d, x, fl, ch) {
            let i = choose|i: int| 0 <= i < conforms_weighted(ws, x, fl, ch).len() && #[trigger] conforms_weighted(ws, x, fl, ch)[i];
            assert(conforms(ws[i].1, x, fl, ch));
            assert(ws[i].0 == values[i].0);
            assert(spec_build(values[i].1, line) == Ok::<SpecDescription, SpecDescriptionError>(ws[i].1));
        }
    }
}

/// A list describes a list of what each of its items describes: it builds
/// exactly when each item does, to their descriptions in order, and
/// otherwise to the error of the first item that does not; what is
/// generated from it is a list with a value for each item that the item's
/// description generates.
pub proof fn law_list_describes_each_item(
    items: Seq<SpecValue>,
    line: Option<i64>,
    x: SpecValue,
    fl: spec_fn(FloatBits, FloatBits, bool, FloatBits) -> bool,
    ch: spec_fn(FloatBits, bool) -> bool,
)
    ensures
        (forall|i: int| 0 <= i < items.len() ==> #[trigger] spec_build(items[i], line) is Ok)
            ==> (spec_build(SpecValue::List(items), line) matches Ok(d)
                && d matches SpecDescription::List(ds) && ds.len() == items.len()
                && forall|i: int| 0 <= i < items.len() ==> spec_build(items[i], line) == Ok::<SpecDescription, SpecDescriptionError>(#[trigger] ds[i])),
        spec_build(SpecValue::List(items), line) matches Err(e)
            ==> exists|i: int| 0 <= i < items.len() && spec_build(#[trigger] items[i], line) == Err::<SpecDescription, SpecDescriptionError>(e)
                && forall|j: int| 0 <= j < i ==> #[trigger] spec_build(items[j], line) is Ok,
        (spec_build(SpecValue::List(items), line) is Ok && conforms(spec_build(SpecValue::List(items), line)->Ok_0, x, fl, ch))
            ==> (x matches SpecValue::List(ws) && ws.len() == items.len()
                && forall|i: int| 0 <= i < items.len() ==> conforms(spec_build(items[i], line)->Ok_0, #[trigger] ws[i], fl, ch)),
{
    lemma_build_list_errors(items, line);
    let r = spec_build_list(items, line);
    if r is Ok {
        let ds = r->Ok_0;
        lemma_build_list_each(items, line, ds);
        let d = SpecDescription::List(ds);
        assert(spec_build(SpecValue::List(items), line) == Ok::<SpecDescription, SpecDescriptionError>(d));
        if conforms(d, x, fl, ch) {
            let ws = x->List_0;
            assert forall|i: int| 0 <= i < items.len() implies conforms(spec_build(items[i], line)->Ok_0, #[trigger] ws[i], fl, ch) by {
                assert(conforms_list(ds, ws, fl, ch)[i]);
            }
        }
    }
}

/// An object whose keys are distinct describes an object with, for each of
/// its entries, an entry of the same key holding what the entry's value
/// describes; what is generated from it has, for each entry, an entry of
/// the same key holding a value that the entry's description generates.
pub proof fn law_object_describes_each_entry(
    entries: Seq<(Seq<char>, SpecValue)>,
    line: Option<i64>,
    x: SpecValue,
    fl: spec_fn(FloatBits, FloatBits, bool, FloatBits) -> bool,
    ch: spec_fn(FloatBits, bool) -> bool,
)
    requires
        keys_distinct(entries),
    ensures
        spec_build(SpecValue::Object(entries), line) matches Ok(d) ==> (d matches SpecDescription::Object(m) && m.len() == entries.len()
            && forall|i: int| 0 <= i < entries.len() ==> exists|j: int| 0 <= j < m.len() && (#[trigger] m[j]).0 == (#[trigger] entries[i]).0
                && spec_build(entries[i].1, line) == Ok::<SpecDescription, SpecDescriptionError>(m[j].1)),
        (spec_build(SpecValue::Object(entries), line) is Ok && conforms(spec_build(SpecValue::Object(entries), line)->Ok_0, x, fl, ch))
            ==> (x matches SpecValue::Object(out) && out.len() == entries.len()
                && forall|i: int| 0 <= i < entries.len() ==> exists|j: int| 0 <= j < out.len() && (#[trigger] out[j]).0 == (#[trigger] entries[i]).0
                    && conforms(spec_build(entries[i].1, line)->Ok_0, out[j].1, fl, ch)),
{
    let r = spec_build_object(entries, line);
    if r is Ok {
        let m = r->Ok_0;
        lemma_build_object_each(entries, line, m);
        let d = SpecDescription::Object(m);
        assert(spec_build(SpecValue::Object(entries), line) == Ok::<SpecDescription, SpecDescriptionError>(d));
        if conforms(d, x, fl, ch) {
            let out = x->Object_0;
            assert forall|i: int| 0 <= i < entries.len() implies exists|j: int| 0 <= j < out.len() && (#[trigger] out[j]).0 == (#[trigger] entries[i]).0
                && conforms(spec_build(entries[i].1, line)->Ok_0, out[j].1, fl, ch) by {
                let j = choose|j: int| 0 <= j < m.len() && (#[trigger] m[j]).0 == (#[trigger] entries[i]).0
                    && spec_build(entries[i].1, line) == Ok::<SpecDescription, SpecDescriptionError>(m[j].1);
                assert(conforms_entries(m, out, fl, ch)[j]);
                assert(out[j].0 == m[j].0);
            }
        }
    }
}

} // verus!

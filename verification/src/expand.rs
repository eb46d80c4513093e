//! The `describe` macro of scripts: which parts of a literal it wraps in
//! a call that builds a description.
use vstd::prelude::*;

verus! {

/// A script expression, as far as the `describe` macro reads it. The
/// pieces that it passes on unread are named by handles.
#[derive(Debug)]
pub enum ScriptExpr {
    /// `lhs * rhs`.
    Product(u64),
    /// A range: `a..b`, `a..=b`, `a..`, `..b` or `..`.
    Range(u64),
    /// An object literal: each field's key, and its value unless the
    /// field is written without one.
    Object(Vec<(u64, Option<ScriptExpr>)>),
    /// A vector literal.
    Vec(Vec<ScriptExpr>),
    /// Any other expression.
    Other(u64),
}

/// What the macro writes in place of an expression.
#[derive(Debug)]
pub enum Expansion {
    /// The expression as written.
    Keep(u64),
    /// A call that builds the description of what is inside, reporting the
    /// macro's line, and returns early with its error.
    Describe(Box<Expansion>),
    /// An object literal with these fields.
    Object(Vec<(u64, Expansion)>),
    /// A vector literal.
    Vec(Vec<Expansion>),
}

/// The model of a [`ScriptExpr`].
pub enum SpecExpr {
    Product(u64),
    Range(u64),
    Object(Seq<(u64, Option<SpecExpr>)>),
    Vec(Seq<SpecExpr>),
    Other(u64),
}

/// The model of an [`Expansion`].
pub enum SpecExpansion {
    Keep(u64),
    Describe(Box<SpecExpansion>),
    Object(Seq<(u64, SpecExpansion)>),
    Vec(Seq<SpecExpansion>),
}

pub open spec fn view_expr(e: ScriptExpr) -> SpecExpr
    decreases e, 1nat,
{
    match e {
        ScriptExpr::Product(h) => SpecExpr::Product(h),
        ScriptExpr::Range(h) => SpecExpr::Range(h),
        ScriptExpr::Object(fields) => SpecExpr::Object(view_fields(fields@)),
        ScriptExpr::Vec(items) => SpecExpr::Vec(view_exprs(items@)),
        ScriptExpr::Other(h) => SpecExpr::Other(h),
    }
}

pub open spec fn view_fields(s: Seq<(u64, Option<ScriptExpr>)>) -> Seq<(u64, Option<SpecExpr>)>
    decreases s, 0nat,
{
    Seq::new(
        s.len(),
        |i: int|
            if 0 <= i < s.len() {
                (
                    s[i].0,
                    match s[i].1 {
                        Some(e) => Some(view_expr(e)),
                        None => None,
                    },
                )
            } else {
                (0u64, None)
            },
    )
}

pub open spec fn view_exprs(s: Seq<ScriptExpr>) -> Seq<SpecExpr>
    decreases s, 0nat,
{
    Seq::new(s.len(), |i: int| if 0 <= i < s.len() { view_expr(s[i]) } else { SpecExpr::Other(0) })
}

pub open spec fn view_expansion(e: Expansion) -> SpecExpansion
    decreases e, 1nat,
{
    match e {
        Expansion::Keep(h) => SpecExpansion::Keep(h),
        Expansion::Describe(x) => SpecExpansion::Describe(Box::new(view_expansion(*x))),
        Expansion::Object(fields) => SpecExpansion::Object(view_expansion_fields(fields@)),
        Expansion::Vec(items) => SpecExpansion::Vec(view_expansions(items@)),
    }
}

pub open spec fn view_expansion_fields(s: Seq<(u64, Expansion)>) -> Seq<(u64, SpecExpansion)>
    decreases s, 0nat,
{
    Seq::new(
        s.len(),
        |i: int| if 0 <= i < s.len() { (s[i].0, view_expansion(s[i].1)) } else { (0u64, SpecExpansion::Keep(0)) },
    )
}

pub open spec fn view_expansions(s: Seq<Expansion>) -> Seq<SpecExpansion>
    decreases s, 0nat,
{
    Seq::new(s.len(), |i: int| if 0 <= i < s.len() { view_expansion(s[i]) } else { SpecExpansion::Keep(0) })
}

impl View for ScriptExpr {
    type V = SpecExpr;

    open spec fn view(&self) -> SpecExpr {
        view_expr(*self)
    }
}

impl View for Expansion {
    type V = SpecExpansion;

    open spec fn view(&self) -> SpecExpansion {
        view_expansion(*self)
    }
}

/// What the macro writes for an expression: products and ranges are
/// described; objects and vectors are rewritten part by part, and a field
/// without a value is left out; anything else stays as written.
pub open spec fn spec_parse_expr(e: SpecExpr) -> SpecExpansion
    decreases e, 1nat,
{
    match e {
        SpecExpr::Product(h) => SpecExpansion::Describe(Box::new(SpecExpansion::Keep(h))),
        SpecExpr::Range(h) => SpecExpansion::Describe(Box::new(SpecExpansion::Keep(h))),
        SpecExpr::Object(fields) => SpecExpansion::Object(spec_parse_fields(fields)),
        SpecExpr::Vec(items) => SpecExpansion::Vec(spec_parse_items(items)),
        SpecExpr::Other(h) => SpecExpansion::Keep(h),
    }
}

/// The fields of an object literal that have a value, each rewritten,
/// in order.
pub open spec fn spec_parse_fields(s: Seq<(u64, Option<SpecExpr>)>) -> Seq<(u64, SpecExpansion)>
    decreases s, 0nat,
{
    if s.len() == 0 {
        Seq::empty()
    } else {
        let rest = spec_parse_fields(s.drop_last());
        match s.last().1 {
            Some(v) => rest.push((s.last().0, spec_parse_expr(v))),
            None => rest,
        }
    }
}

/// The items of a vector literal, each rewritten.
pub open spec fn spec_parse_items(s: Seq<SpecExpr>) -> Seq<SpecExpansion>
    decreases s, 0nat,
{
    Seq::new(s.len(), |i: int| if 0 <= i < s.len() { spec_parse_expr(s[i]) } else { SpecExpansion::Keep(0) })
}

/// What the macro writes for `describe!(k1: v1, ...)`: the description of
/// the object literal of these fields, each value rewritten.
pub open spec fn spec_describe(fields: Seq<(u64, SpecExpr)>) -> SpecExpansion {
    SpecExpansion::Describe(Box::new(SpecExpansion::Object(
        Seq::new(fields.len(), |i: int| (fields[i].0, spec_parse_expr(fields[i].1))),
    )))
}

/// Rewrites an expression as the macro does.
pub fn parse_expr(e: &ScriptExpr) -> (r: Expansion)
    ensures
        r@ == spec_parse_expr(e@),
    decreases e, 1nat,
{
    match e {
        ScriptExpr::Product(h) => {
            let k = Expansion::Keep(*h);
            assert(k@ == SpecExpansion::Keep(*h));
            Expansion::Describe(Box::new(k))
        },
        ScriptExpr::Range(h) => {
            let k = Expansion::Keep(*h);
            assert(k@ == SpecExpansion::Keep(*h));
            Expansion::Describe(Box::new(k))
        },
        ScriptExpr::Object(fields) => {
            let r = Expansion::Object(parse_fields(fields));
            assert(r@ == SpecExpansion::Object(spec_parse_fields(view_fields(fields@))));
            r
        },
        ScriptExpr::Vec(items) => {
            let r = Expansion::Vec(parse_items(items));
            assert(r@ == SpecExpansion::Vec(spec_parse_items(view_exprs(items@))));
            r
        },
        ScriptExpr::Other(h) => Expansion::Keep(*h),
    }
}

fn parse_fields(fields: &Vec<(u64, Option<ScriptExpr>)>) -> (r: Vec<(u64, Expansion)>)
    ensures
        view_expansion_fields(r@) == spec_parse_fields(view_fields(fields@)),
    decreases fields, 0nat,
{
    let ghost s = view_fields(fields@);
    proof {
        assert(decreases_to!(*fields => fields@));
        assert(s.take(0) =~= Seq::<(u64, Option<SpecExpr>)>::empty());
        assert(view_expansion_fields(Seq::<(u64, Expansion)>::empty()) =~= Seq::<(u64, SpecExpansion)>::empty());
    }
    let mut out: Vec<(u64, Expansion)> = Vec::new();
    let mut i: usize = 0;
    while i < fields.len()
        invariant
            i <= fields.len(),
            s == view_fields(fields@),
            view_expansion_fields(out@) == spec_parse_fields(s.take(i as int)),
            forall|j: int| 0 <= j < fields@.len() ==> decreases_to!(*fields => #[trigger] fields@[j].1),
        decreases fields.len() - i,
    {
        proof {
            assert(s.take(i + 1).drop_last() =~= s.take(i as int));
        }
        match &fields[i].1 {
            Some(v) => {
                proof {
                    assert(decreases_to!(fields@[i as int].1 => *v));
                }
                let x = parse_expr(v);
                let ghost before = out@;
                out.push((fields[i].0, x));
                proof {
                    assert(view_expansion_fields(out@) =~= view_expansion_fields(before).push((fields@[i as int].0, x@)));
                }
            },
            None => {},
        }
        i += 1;
    }
    proof {
        assert(s.take(fields.len() as int) =~= s);
    }
    out
}

fn parse_items(items: &Vec<ScriptExpr>) -> (r: Vec<Expansion>)
    ensures
        view_expansions(r@) == spec_parse_items(view_exprs(items@)),
    decreases items, 0nat,
{
    proof {
        assert(decreases_to!(*items => items@));
    }
    let mut out: Vec<Expansion> = Vec::new();
    let mut i: usize = 0;
    while i < items.len()
        invariant
            i <= items.len(),
            out@.len() == i,
            forall|j: int| 0 <= j < i ==> #[trigger] view_expansion(out@[j]) == spec_parse_expr(view_expr(items@[j])),
            forall|j: int| 0 <= j < items@.len() ==> decreases_to!(*items => #[trigger] items@[j]),
        decreases items.len() - i,
    {
        out.push(parse_expr(&items[i]));
        i += 1;
    }
    proof {
        assert forall|j: int| 0 <= j < items@.len() implies #[trigger] view_expansions(out@)[j] == spec_parse_items(view_exprs(items@))[j] by {
            assert(view_expansion(out@[j]) == spec_parse_expr(view_expr(items@[j])));
        }
        assert(view_expansions(out@) =~= spec_parse_items(view_exprs(items@)));
    }
    out
}

/// Rewrites `describe!(k1: v1, ...)` as the macro does.
pub fn describe(fields: &Vec<(u64, ScriptExpr)>) -> (r: Expansion)
    ensures
        r@ == spec_describe(fields@.map_values(|f: (u64, ScriptExpr)| (f.0, view_expr(f.1)))),
{
    let ghost m = fields@.map_values(|f: (u64, ScriptExpr)| (f.0, view_expr(f.1)));
    let mut out: Vec<(u64, Expansion)> = Vec::new();
    let mut i: usize = 0;
    while i < fields.len()
        invariant
            i <= fields.len(),
            out@.len() == i,
            m == fields@.map_values(|f: (u64, ScriptExpr)| (f.0, view_expr(f.1))),
            forall|j: int| 0 <= j < i ==> #[trigger] view_expansion_fields(out@)[j] == (m[j].0, spec_parse_expr(m[j].1)),
        decreases fields.len() - i,
    {
        let x = parse_expr(&fields[i].1);
        let ghost before = out@;
        out.push((fields[i].0, x));
        proof {
            assert forall|j: int| 0 <= j < i + 1 implies #[trigger] view_expansion_fields(out@)[j] == (m[j].0, spec_parse_expr(m[j].1)) by {
                if j < i {
                    assert(view_expansion_fields(out@)[j] == view_expansion_fields(before)[j]);
                }
            }
        }
        i += 1;
    }
    let ghost fields_view = view_expansion_fields(out@);
    let object = Expansion::Object(out);
    assert(object@ == SpecExpansion::Object(fields_view));
    let r = Expansion::Describe(Box::new(object));
    proof {
        assert(fields_view =~= Seq::new(m.len(), |i: int| (m[i].0, spec_parse_expr(m[i].1))));
    }
    r
}

} // verus!

use vstd::prelude::*;

use crate::error::TypeError;
use crate::render::declared_fields;
use crate::text::texts;
use crate::types::{field_views, RecordSchema, Type};
use crate::unify::labels;

verus! {

broadcast use crate::types::group_views;

/// The labels of a record type.
pub(crate) fn label_names(fs: &Vec<(String, Type)>) -> (r: Vec<String>)
    ensures
        texts(r@) == labels(field_views(fs@)),
{
    let mut out: Vec<String> = Vec::new();
    let mut i: usize = 0;
    while i < fs.len()
        invariant
            i <= fs@.len(),
            out@.len() == i,
            forall|k: int| 0 <= k < i ==> (#[trigger] out@[k])@ == fs@[k].0@,
        decreases fs@.len() - i,
    {
        out.push(fs[i].0.clone());
        i = i + 1;
    }
    assert(texts(out@) =~= labels(field_views(fs@)));
    out
}

/// What may have been meant by a field that a record does not have: the names
/// of its fields.
pub(crate) fn field_suggestions(schema: &RecordSchema) -> (r: Vec<String>)
    ensures
        texts(r@) == labels(declared_fields(schema.fields@)),
{
    let mut out: Vec<String> = Vec::new();
    let mut i: usize = 0;
    while i < schema.fields.len()
        invariant
            i <= schema.fields@.len(),
            out@.len() == i,
            forall|k: int| 0 <= k < i ==> (#[trigger] out@[k])@ == schema.fields@[k].name@,
        decreases schema.fields@.len() - i,
    {
        out.push(schema.fields[i].name.clone());
        i = i + 1;
    }
    assert(texts(out@) =~= labels(declared_fields(schema.fields@)));
    out
}

/// `r` is `e` with the suggestions that `suggest` makes of them, where `e` is
/// about a field or a column that is not there; any other diagnostic stays as
/// it is.
pub open spec fn narrowed<S: Fn(&String, &Vec<String>) -> Vec<String>>(
    suggest: S,
    e: TypeError,
    r: TypeError,
) -> bool {
    match e {
        TypeError::UnknownField { record, field, suggestions, span } => exists|
            out: Vec<String>,
        | #[trigger]
            call_ensures(suggest, (&field, &suggestions), out) && r == (TypeError::UnknownField {
                record,
                field,
                suggestions: out,
                span,
            }),
        TypeError::QuoteUnknownColumn { entity, column, suggestions, span } => exists|
            out: Vec<String>,
        | #[trigger]
            call_ensures(suggest, (&column, &suggestions), out) && r
                == (TypeError::QuoteUnknownColumn { entity, column, suggestions: out, span }),
        _ => r == e,
    }
}

fn narrow<S: Fn(&String, &Vec<String>) -> Vec<String>>(suggest: &S, e: TypeError) -> (r: TypeError)
    requires
        forall|name: &String, names: &Vec<String>| #[trigger]
            call_requires(*suggest, (name, names)),
    ensures
        narrowed(*suggest, e, r),
{
    match e {
        TypeError::UnknownField { record, field, suggestions, span } => {
            let out = suggest(&field, &suggestions);
            TypeError::UnknownField { record, field, suggestions: out, span }
        },
        TypeError::QuoteUnknownColumn { entity, column, suggestions, span } => {
            let out = suggest(&column, &suggestions);
            TypeError::QuoteUnknownColumn { entity, column, suggestions: out, span }
        },
        other => other,
    }
}

/// A diagnostic about an unknown field or column comes with every name that
/// would have been known. This keeps of them what `suggest` makes of them,
/// given the name that was written.
#[must_use]
pub fn narrow_suggestions<S: Fn(&String, &Vec<String>) -> Vec<String>>(
    errors: Vec<TypeError>,
    suggest: &S,
) -> (r: Vec<TypeError>)
    requires
        forall|name: &String, names: &Vec<String>| #[trigger]
            call_requires(*suggest, (name, names)),
    ensures
        r@.len() == errors@.len(),
        forall|i: int| 0 <= i < r@.len() ==> narrowed(*suggest, errors@[i], #[trigger] r@[i]),
{
    let ghost all = errors@;
    let mut rest = errors;
    let mut back: Vec<TypeError> = Vec::new();
    while rest.len() > 0
        invariant
            forall|name: &String, names: &Vec<String>| #[trigger]
                call_requires(*suggest, (name, names)),
            rest@.len() + back@.len() == all.len(),
            rest@ == all.take(rest@.len() as int),
            forall|i: int|
                0 <= i < back@.len() ==> narrowed(*suggest, all[all.len() - 1 - i], #[trigger] back@[i]),
        decreases rest@.len(),
    {
        if let Some(e) = rest.pop() {
            assert(e == all[rest@.len() as int]);
            back.push(narrow(suggest, e));
            assert(rest@ =~= all.take(rest@.len() as int));
        }
    }
    let ghost turned = back@;
    let mut out: Vec<TypeError> = Vec::new();
    while back.len() > 0
        invariant
            turned.len() == all.len(),
            back@.len() + out@.len() == all.len(),
            back@ == turned.take(back@.len() as int),
            forall|i: int|
                0 <= i < turned.len() ==> narrowed(
                    *suggest,
                    all[all.len() - 1 - i],
                    #[trigger] turned[i],
                ),
            forall|i: int| 0 <= i < out@.len() ==> narrowed(*suggest, all[i], #[trigger] out@[i]),
        decreases back@.len(),
    {
        if let Some(e) = back.pop() {
            assert(e == turned[back@.len() as int]);
            out.push(e);
            assert(back@ =~= turned.take(back@.len() as int));
        }
    }
    out
}

} // verus!

use vstd::prelude::*;

use crate::text::{same_text, texts};
use crate::types::CapabilitySet;

verus! {

/// A type as the source writes it.
#[derive(Debug)]
#[allow(inconsistent_fields)]
pub enum TypeExpr {
    Var { name: String },
    App { name: String, args: Vec<TypeExpr> },
    Tuple { elems: Vec<TypeExpr> },
    List { elem: Box<TypeExpr> },
    Fn { params: Vec<TypeExpr>, ret: Box<TypeExpr>, caps: CapabilitySet },
    Paren { inner: Box<TypeExpr> },
    /// The names and the types of the fields, side by side.
    Record { names: Vec<String>, fields: Vec<TypeExpr> },
    Named { name: String },
    Primitive { name: String },
}

/// A variable occurs in a type.
pub open spec fn writes(t: TypeExpr, name: Seq<char>) -> bool
    decreases t,
{
    match t {
        TypeExpr::Var { name: n } => n@ == name,
        TypeExpr::App { name: _, args } => any_writes(args@, name),
        TypeExpr::Tuple { elems } => any_writes(elems@, name),
        TypeExpr::List { elem } => writes(*elem, name),
        TypeExpr::Fn { params, ret, caps: _ } => any_writes(params@, name) || writes(*ret, name),
        TypeExpr::Paren { inner } => writes(*inner, name),
        TypeExpr::Record { names: _, fields } => any_writes(fields@, name),
        _ => false,
    }
}

/// A variable occurs in one of a list of types.
pub open spec fn any_writes(ts: Seq<TypeExpr>, name: Seq<char>) -> bool
    decreases ts,
{
    exists|i: int| 0 <= i < ts.len() && writes(#[trigger] ts[i], name)
}

/// A list of names with another one at its end, unless it is already there.
pub open spec fn noted_name(out: Seq<Seq<char>>, name: Seq<char>) -> Seq<Seq<char>> {
    if out.contains(name) {
        out
    } else {
        out.push(name)
    }
}

/// A list of names with those of the variables of a type, in the order in which
/// they are first met.
pub open spec fn with_vars(t: TypeExpr, out: Seq<Seq<char>>) -> Seq<Seq<char>>
    decreases t, 0nat,
{
    match t {
        TypeExpr::Var { name } => noted_name(out, name@),
        TypeExpr::App { name: _, args } => with_all_vars(args@, out, args@.len()),
        TypeExpr::Tuple { elems } => with_all_vars(elems@, out, elems@.len()),
        TypeExpr::List { elem } => with_vars(*elem, out),
        TypeExpr::Fn { params, ret, caps: _ } => with_vars(
            *ret,
            with_all_vars(params@, out, params@.len()),
        ),
        TypeExpr::Paren { inner } => with_vars(*inner, out),
        TypeExpr::Record { names: _, fields } => with_all_vars(fields@, out, fields@.len()),
        _ => out,
    }
}

/// As [`with_vars`], for the first `k` of a list of types.
pub open spec fn with_all_vars(ts: Seq<TypeExpr>, out: Seq<Seq<char>>, k: nat) -> Seq<Seq<char>>
    decreases ts, k,
{
    if k == 0 || k > ts.len() {
        out
    } else {
        with_vars(ts[k - 1], with_all_vars(ts, out, (k - 1) as nat))
    }
}

fn note_name(out: &mut Vec<String>, name: &String)
    ensures
        texts(final(out)@) == noted_name(texts(old(out)@), name@),
{
    let ghost before = texts(out@);
    let mut i: usize = 0;
    while i < out.len()
        invariant
            i <= out@.len(),
            *out == *old(out),
            before == texts(out@),
            forall|k: int| 0 <= k < i ==> #[trigger] before[k] != name@,
        decreases out@.len() - i,
    {
        assert(before[i as int] == out@[i as int]@);
        if same_text(out[i].as_str(), name.as_str()) {
            assert(before.contains(name@));
            return;
        }
        i = i + 1;
    }
    out.push(name.clone());
    assert(texts(out@) =~= before.push(name@));
}

fn walk(t: &TypeExpr, out: &mut Vec<String>)
    ensures
        texts(final(out)@) == with_vars(*t, texts(old(out)@)),
    decreases t, 0nat,
{
    match t {
        TypeExpr::Var { name } => note_name(out, name),
        TypeExpr::App { name: _, args } => walk_all(args, out),
        TypeExpr::Tuple { elems } => walk_all(elems, out),
        TypeExpr::List { elem } => walk(elem, out),
        TypeExpr::Fn { params, ret, caps: _ } => {
            walk_all(params, out);
            walk(ret, out);
        },
        TypeExpr::Paren { inner } => walk(inner, out),
        TypeExpr::Record { names: _, fields } => walk_all(fields, out),
        TypeExpr::Named { .. } => {},
        TypeExpr::Primitive { .. } => {},
    }
}

fn walk_all(ts: &Vec<TypeExpr>, out: &mut Vec<String>)
    ensures
        texts(final(out)@) == with_all_vars(ts@, texts(old(out)@), ts@.len()),
    decreases ts, 1nat,
{
    let ghost before = texts(out@);
    let mut i: usize = 0;
    while i < ts.len()
        invariant
            i <= ts@.len(),
            before == texts(old(out)@),
            texts(out@) == with_all_vars(ts@, before, i as nat),
        decreases ts@.len() - i,
    {
        walk(&ts[i], out);
        i = i + 1;
    }
}

/// The names of the variables in the head of an instance, each once, in the
/// order in which they are first met.
#[must_use]
pub fn collect_head_vars(head: &Vec<TypeExpr>) -> (r: Vec<String>)
    ensures
        texts(r@) == with_all_vars(head@, Seq::empty(), head@.len()),
{
    let mut out: Vec<String> = Vec::new();
    assert(texts(out@) =~= Seq::empty());
    walk_all(head, &mut out);
    out
}

proof fn vars_listed(t: TypeExpr, out: Seq<Seq<char>>)
    requires
        out.no_duplicates(),
    ensures
        with_vars(t, out).no_duplicates(),
        forall|n: Seq<char>| #[trigger]
            with_vars(t, out).contains(n) <==> out.contains(n) || writes(t, n),
    decreases t, 0nat,
{
    match t {
        TypeExpr::Var { name } => {
            if !out.contains(name@) {
                assert forall|n: Seq<char>| #[trigger] out.push(name@).contains(n) implies out.contains(
                    n,
                ) || n == name@ by {
                    let i = choose|i: int| 0 <= i < out.push(name@).len() && out.push(name@)[i] == n;
                    if i < out.len() {
                        assert(out[i] == n);
                    }
                }
                assert forall|n: Seq<char>| out.contains(n) || n == name@ implies #[trigger] out.push(
                    name@,
                ).contains(n) by {
                    if out.contains(n) {
                        let i = choose|i: int| 0 <= i < out.len() && out[i] == n;
                        assert(out.push(name@)[i] == n);
                    } else {
                        assert(out.push(name@)[out.len() as int] == n);
                    }
                }
            }
        },
        TypeExpr::App { name: _, args } => all_vars_listed(args@, out, args@.len()),
        TypeExpr::Tuple { elems } => all_vars_listed(elems@, out, elems@.len()),
        TypeExpr::List { elem } => vars_listed(*elem, out),
        TypeExpr::Fn { params, ret, caps: _ } => {
            all_vars_listed(params@, out, params@.len());
            vars_listed(*ret, with_all_vars(params@, out, params@.len()));
        },
        TypeExpr::Paren { inner } => vars_listed(*inner, out),
        TypeExpr::Record { names: _, fields } => all_vars_listed(fields@, out, fields@.len()),
        _ => {},
    }
}

proof fn all_vars_listed(ts: Seq<TypeExpr>, out: Seq<Seq<char>>, k: nat)
    requires
        out.no_duplicates(),
        k <= ts.len(),
    ensures
        with_all_vars(ts, out, k).no_duplicates(),
        forall|n: Seq<char>| #[trigger]
            with_all_vars(ts, out, k).contains(n) <==> out.contains(n) || exists|i: int|
                0 <= i < k && writes(#[trigger] ts[i], n),
        k == ts.len() ==> forall|n: Seq<char>| #[trigger]
            with_all_vars(ts, out, k).contains(n) <==> out.contains(n) || any_writes(ts, n),
    decreases ts, k,
{
    if k > 0 {
        let j = (k - 1) as nat;
        all_vars_listed(ts, out, j);
        vars_listed(ts[j as int], with_all_vars(ts, out, j));
        assert forall|n: Seq<char>| #[trigger] with_all_vars(ts, out, k).contains(n) implies (
        out.contains(n) || exists|i: int| 0 <= i < k && writes(#[trigger] ts[i], n)) by {
            if with_all_vars(ts, out, j).contains(n) && !out.contains(n) {
                let i = choose|i: int| 0 <= i < j && writes(#[trigger] ts[i], n);
                assert(writes(ts[i], n));
            } else if !out.contains(n) {
                assert(writes(ts[j as int], n));
            }
        }
    }
}

/// The names that are collected from the head of an instance are those of its
/// variables, and each comes once.
pub proof fn head_vars_are_listed(head: Seq<TypeExpr>)
    ensures
        with_all_vars(head, Seq::empty(), head.len()).no_duplicates(),
        forall|n: Seq<char>| #[trigger]
            with_all_vars(head, Seq::empty(), head.len()).contains(n) <==> any_writes(head, n),
{
    all_vars_listed(head, Seq::empty(), head.len());
}

} // verus!

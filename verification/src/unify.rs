use vstd::prelude::*;

use crate::error::{TypeDesc, TypeError};
use crate::subst::{apply, apply_agree, apply_all, apply_caps, apply_fields, apply_twice, occurs};
use crate::table::{
    bound, bound_cap, bound_cap_solved, bound_solved, look, look_cap, occurs_in, open_cap,
    open_var, resolve, resolve_bound, resolve_bound_cap, resolve_idempotent, solved, Table,
    VarTable,
};
use crate::text::{same_text, texts};
use crate::types::{field_views, views, CapRow, CapVid, Span, Ty, TyVid, Type};

verus! {

broadcast use crate::types::group_views;

/// Why two types cannot be made equal.
#[verifier::ext_equal]
pub enum Clash {
    /// They differ at this pair.
    Mismatch(Ty, Ty),
    /// A variable would have to contain itself.
    Occurs(TyVid, Ty),
    /// Functions of different arity.
    Arity(nat, nat),
    /// Tuples of different width.
    Width(nat, nat),
    /// Records of different shape.
    Row(Ty, Ty),
}

/// How many of the first `n` slots are empty.
pub open spec fn empty_slots<A>(s: Seq<Option<A>>, n: nat) -> nat
    decreases n,
{
    if n == 0 || n > s.len() {
        0
    } else {
        empty_slots(s, (n - 1) as nat) + if s[n - 1] is None {
            1nat
        } else {
            0nat
        }
    }
}

/// How many variables of a table are open.
pub open spec fn open_count(tb: Table) -> nat {
    empty_slots(tb.types, tb.types.len()) + empty_slots(tb.caps, tb.caps.len())
}

proof fn empty_slots_le<A>(s: Seq<Option<A>>, t: Seq<Option<A>>, n: nat)
    requires
        s.len() == t.len(),
        n <= s.len(),
        forall|i: int| 0 <= i < s.len() && (#[trigger] t[i]) is None ==> s[i] is None,
    ensures
        empty_slots(t, n) <= empty_slots(s, n),
    decreases n,
{
    if n > 0 {
        empty_slots_le(s, t, (n - 1) as nat);
    }
}

proof fn empty_slots_lt<A>(s: Seq<Option<A>>, t: Seq<Option<A>>, n: nat, k: int)
    requires
        s.len() == t.len(),
        n <= s.len(),
        0 <= k < n,
        s[k] is None,
        t[k] is Some,
        forall|i: int| 0 <= i < s.len() && (#[trigger] t[i]) is None ==> s[i] is None,
    ensures
        empty_slots(t, n) < empty_slots(s, n),
    decreases n,
{
    if k == n - 1 {
        empty_slots_le(s, t, (n - 1) as nat);
    } else {
        empty_slots_lt(s, t, (n - 1) as nat, k);
    }
}

proof fn bound_count(tb: Table, v: TyVid, t: Ty)
    requires
        open_var(tb, v),
    ensures
        open_count(bound(tb, v, t)) < open_count(tb),
{
    empty_slots_lt(tb.types, bound(tb, v, t).types, tb.types.len(), v.0 as int);
}

proof fn bound_cap_count(tb: Table, c: CapVid, row: CapRow)
    requires
        open_cap(tb, c),
    ensures
        open_count(bound_cap(tb, c, row)) < open_count(tb),
{
    let tc = bound_cap(tb, c, row);
    empty_slots_lt(tb.caps, tc.caps, tb.caps.len(), c.0 as int);
    empty_slots_le(tb.types, tc.types, tb.types.len());
}

/// A type without the aliases around it.
pub open spec fn peel(t: Ty) -> Ty
    decreases t,
{
    match t {
        Ty::Alias { name, body } => peel(*body),
        _ => t,
    }
}

/// The labels of a record type.
pub open spec fn labels(fs: Seq<(Seq<char>, Ty)>) -> Seq<Seq<char>> {
    fs.map_values(|f: (Seq<char>, Ty)| f.0)
}

/// Every type of a list, resolved.
pub open spec fn resolve_all(tb: Table, ts: Seq<Ty>) -> Seq<Ty> {
    apply_all(ts, |v: TyVid| look(tb, v), |c: CapVid| look_cap(tb, c))
}

/// Every type of a list of fields, resolved.
pub open spec fn resolve_fields(tb: Table, fs: Seq<(Seq<char>, Ty)>) -> Seq<(Seq<char>, Ty)> {
    apply_fields(fs, |v: TyVid| look(tb, v), |c: CapVid| look_cap(tb, c))
}

/// A capability row, resolved.
pub open spec fn resolve_row(tb: Table, row: CapRow) -> CapRow {
    apply_caps(row, |c: CapVid| look_cap(tb, c))
}

/// Making variable `v` equal to the resolved type `t`.
pub open spec fn unify_var(tb: Table, v: TyVid, t: Ty) -> (Table, Option<Clash>) {
    if peel(t) == Ty::Var(v) {
        (tb, None)
    } else if !open_var(tb, v) {
        (tb, Some(Clash::Mismatch(Ty::Var(v), t)))
    } else if occurs(v, t) {
        (tb, Some(Clash::Occurs(v, t)))
    } else {
        (bound(tb, v, t), None)
    }
}

/// Making two capability rows equal where one of them is open. Two known rows
/// are left to the capability check.
pub open spec fn unify_rows(tb: Table, a: CapRow, b: CapRow) -> Table {
    let a = resolve_row(tb, a);
    let b = resolve_row(tb, b);
    if a == b {
        tb
    } else if a is Var && open_cap(tb, a->Var_0) {
        bound_cap(tb, a->Var_0, b)
    } else if b is Var && open_cap(tb, b->Var_0) {
        bound_cap(tb, b->Var_0, a)
    } else {
        tb
    }
}

/// Making two resolved types equal: the table after that, and the clash if
/// there is one. What was bound before a clash stays bound.
pub open spec fn unify_resolved(tb: Table, a: Ty, b: Ty) -> (Table, Option<Clash>)
    decreases open_count(tb), a, b,
{
    match (a, b) {
        (Ty::Error, _) => (tb, None),
        (_, Ty::Error) => (tb, None),
        (Ty::Var(v), _) => unify_var(tb, v, b),
        (_, Ty::Var(w)) => unify_var(tb, w, a),
        (Ty::Alias { name, body }, _) => unify_resolved(tb, *body, b),
        (_, Ty::Alias { name, body }) => unify_resolved(tb, a, *body),
        (Ty::Con(i, xs), Ty::Con(j, ys)) => if i == j && xs.len() == ys.len() {
            unify_all(tb, xs, ys)
        } else {
            (tb, Some(Clash::Mismatch(a, b)))
        },
        (Ty::Tuple(xs), Ty::Tuple(ys)) => if xs.len() == ys.len() {
            unify_all(tb, xs, ys)
        } else {
            (tb, Some(Clash::Width(xs.len(), ys.len())))
        },
        (
            Ty::Fn { params: ps, ret: r, caps: c },
            Ty::Fn { params: qs, ret: s, caps: d },
        ) => if ps.len() == qs.len() {
            let (t1, e1) = unify_all(tb, ps, qs);
            if e1 is Some {
                (t1, e1)
            } else if t1 == tb {
                let (t2, e2) = unify_resolved(tb, *r, *s);
                if e2 is Some {
                    (t2, e2)
                } else {
                    (unify_rows(t2, c, d), None)
                }
            } else if open_count(t1) < open_count(tb) {
                let (t2, e2) = unify_resolved(t1, resolve(t1, *r), resolve(t1, *s));
                if e2 is Some {
                    (t2, e2)
                } else {
                    (unify_rows(t2, c, d), None)
                }
            } else {
                (t1, e1)
            }
        } else {
            (tb, Some(Clash::Arity(ps.len(), qs.len())))
        },
        (Ty::Record { fields: fs, tail: t }, Ty::Record { fields: gs, tail: u }) => if labels(fs)
            == labels(gs) && t == u {
            unify_fields(tb, fs, gs)
        } else {
            (tb, Some(Clash::Row(a, b)))
        },
        (Ty::Rigid { id: i, name: _ }, Ty::Rigid { id: j, name: _ }) => if i == j {
            (tb, None)
        } else {
            (tb, Some(Clash::Mismatch(a, b)))
        },
        _ => (tb, Some(Clash::Mismatch(a, b))),
    }
}

/// Making two lists of resolved types equal, from left to right.
pub open spec fn unify_all(tb: Table, xs: Seq<Ty>, ys: Seq<Ty>) -> (Table, Option<Clash>)
    decreases open_count(tb), xs, ys,
{
    if xs.len() == 0 || ys.len() == 0 {
        (tb, None)
    } else {
        let (t1, e1) = unify_resolved(tb, xs[0], ys[0]);
        if e1 is Some {
            (t1, e1)
        } else if t1 == tb {
            unify_all(tb, xs.skip(1), ys.skip(1))
        } else if open_count(t1) < open_count(tb) {
            unify_all(t1, resolve_all(t1, xs.skip(1)), resolve_all(t1, ys.skip(1)))
        } else {
            (t1, e1)
        }
    }
}

/// Making two lists of resolved fields equal, from left to right.
pub open spec fn unify_fields(
    tb: Table,
    fs: Seq<(Seq<char>, Ty)>,
    gs: Seq<(Seq<char>, Ty)>,
) -> (Table, Option<Clash>)
    decreases open_count(tb), fs, gs,
{
    if fs.len() == 0 || gs.len() == 0 {
        (tb, None)
    } else {
        let (t1, e1) = unify_resolved(tb, fs[0].1, gs[0].1);
        if e1 is Some {
            (t1, e1)
        } else if t1 == tb {
            unify_fields(tb, fs.skip(1), gs.skip(1))
        } else if open_count(t1) < open_count(tb) {
            unify_fields(t1, resolve_fields(t1, fs.skip(1)), resolve_fields(t1, gs.skip(1)))
        } else {
            (t1, e1)
        }
    }
}

/// Making two types equal.
pub open spec fn unified(tb: Table, a: Ty, b: Ty) -> (Table, Option<Clash>) {
    unify_resolved(tb, resolve(tb, a), resolve(tb, b))
}

/// `tc` knows what `tb` knows, and perhaps more.
pub open spec fn refines(tb: Table, tc: Table) -> bool {
    &&& forall|v: TyVid| resolve(tc, #[trigger] look(tb, v)) == look(tc, v)
    &&& forall|c: CapVid| resolve_row(tc, #[trigger] look_cap(tb, c)) == look_cap(tc, c)
}

/// What a table refines, it refines in every type.
pub proof fn refines_types(tb: Table, tc: Table, x: Ty)
    requires
        refines(tb, tc),
    ensures
        resolve(tc, resolve(tb, x)) == resolve(tc, x),
{
    let f = |v: TyVid| look(tb, v);
    let g = |c: CapVid| look_cap(tb, c);
    let f2 = |v: TyVid| look(tc, v);
    let g2 = |c: CapVid| look_cap(tc, c);
    apply_twice(x, f, g, f2, g2);
    let f3 = |v: TyVid| apply(f(v), f2, g2);
    let g3 = |c: CapVid| apply_caps(g(c), g2);
    assert forall|v: TyVid| #[trigger] f3(v) == f2(v) by {
        assert(resolve(tc, look(tb, v)) == look(tc, v));
    }
    assert forall|c: CapVid| #[trigger] g3(c) == g2(c) by {
        assert(resolve_row(tc, look_cap(tb, c)) == look_cap(tc, c));
    }
    apply_agree(x, f3, g3, f2, g2);
}

/// A table knows what it knows.
pub proof fn refines_refl(tb: Table)
    requires
        solved(tb),
    ensures
        refines(tb, tb),
{
    assert forall|v: TyVid| resolve(tb, #[trigger] look(tb, v)) == look(tb, v) by {
        resolve_idempotent(tb, Ty::Var(v));
    }
    assert forall|c: CapVid| resolve_row(tb, #[trigger] look_cap(tb, c)) == look_cap(tb, c) by {
        if c.0 < tb.caps.len() && tb.caps[c.0 as int] is Some {
            assert(tb.caps[c.0 as int] is Some);
        }
    }
}

/// Knowing more than a table that knows more is knowing more.
pub proof fn refines_trans(tb: Table, tc: Table, td: Table)
    requires
        refines(tb, tc),
        refines(tc, td),
    ensures
        refines(tb, td),
{
    assert forall|v: TyVid| resolve(td, #[trigger] look(tb, v)) == look(td, v) by {
        refines_types(tc, td, look(tb, v));
        assert(resolve(tc, look(tb, v)) == look(tc, v));
        assert(resolve(td, look(tc, v)) == look(td, v));
    }
    assert forall|c: CapVid| resolve_row(td, #[trigger] look_cap(tb, c)) == look_cap(td, c) by {
        assert(resolve_row(tc, look_cap(tb, c)) == look_cap(tc, c));
        assert(resolve_row(td, look_cap(tc, c)) == look_cap(td, c));
        match look_cap(tb, c) {
            CapRow::Var(k) => {
                assert(resolve_row(td, look_cap(tc, k)) == look_cap(td, k));
            },
            _ => {},
        }
    }
}

proof fn refines_bound(tb: Table, v: TyVid, t: Ty)
    requires
        solved(tb),
        open_var(tb, v),
        resolve(tb, t) == t,
        !occurs(v, t),
    ensures
        refines(tb, bound(tb, v, t)),
{
    let tc = bound(tb, v, t);
    bound_solved(tb, v, t);
    assert forall|w: TyVid| resolve(tc, #[trigger] look(tb, w)) == look(tc, w) by {
        resolve_bound(tb, v, t, look(tb, w));
        resolve_idempotent(tb, Ty::Var(w));
        resolve_bound(tb, v, t, Ty::Var(w));
        assert(resolve(tb, Ty::Var(w)) == look(tb, w));
        assert(resolve(tc, Ty::Var(w)) == look(tc, w));
    }
    assert forall|c: CapVid| resolve_row(tc, #[trigger] look_cap(tb, c)) == look_cap(tc, c) by {
        refines_refl(tb);
        assert(resolve_row(tb, look_cap(tb, c)) == look_cap(tb, c));
        assert((|k: CapVid| look_cap(tc, k)) =~= (|k: CapVid| look_cap(tb, k)));
    }
}

proof fn refines_bound_cap(tb: Table, c: CapVid, row: CapRow)
    requires
        solved(tb),
        open_cap(tb, c),
        resolve_row(tb, row) == row,
        row != CapRow::Var(c),
    ensures
        refines(tb, bound_cap(tb, c, row)),
{
    let tc = bound_cap(tb, c, row);
    bound_cap_solved(tb, c, row);
    assert forall|w: TyVid| resolve(tc, #[trigger] look(tb, w)) == look(tc, w) by {
        resolve_bound_cap(tb, c, row, look(tb, w));
        resolve_idempotent(tb, Ty::Var(w));
        resolve_bound_cap(tb, c, row, Ty::Var(w));
        assert(resolve(tb, Ty::Var(w)) == look(tb, w));
        assert(resolve(tc, Ty::Var(w)) == look(tc, w));
    }
    assert forall|k: CapVid| resolve_row(tc, #[trigger] look_cap(tb, k)) == look_cap(tc, k) by {
        refines_refl(tb);
        assert(resolve_row(tb, look_cap(tb, k)) == look_cap(tb, k));
        match look_cap(tb, k) {
            CapRow::Var(j) => {
                assert(look_cap(tb, j) == CapRow::Var(j));
            },
            _ => {},
        }
    }
}

/// Equal up to aliases, capability rows and parts that are in error already.
pub open spec fn agrees(a: Ty, b: Ty) -> bool
    decreases a, b,
{
    match (a, b) {
        (Ty::Error, _) => true,
        (_, Ty::Error) => true,
        (Ty::Alias { name, body }, _) => agrees(*body, b),
        (_, Ty::Alias { name, body }) => agrees(a, *body),
        (Ty::Var(v), Ty::Var(w)) => v == w,
        (Ty::Con(i, xs), Ty::Con(j, ys)) => i == j && agree_all(xs, ys),
        (Ty::Tuple(xs), Ty::Tuple(ys)) => agree_all(xs, ys),
        (
            Ty::Fn { params: ps, ret: r, caps: c },
            Ty::Fn { params: qs, ret: s, caps: d },
        ) => agree_all(ps, qs) && agrees(*r, *s),
        (Ty::Record { fields: fs, tail: t }, Ty::Record { fields: gs, tail: u }) => t == u
            && agree_fields(fs, gs),
        (Ty::Rigid { id: i, name: _ }, Ty::Rigid { id: j, name: _ }) => i == j,
        _ => false,
    }
}

pub open spec fn agree_all(xs: Seq<Ty>, ys: Seq<Ty>) -> bool
    decreases xs, ys,
{
    xs.len() == ys.len() && forall|i: int|
        0 <= i < xs.len() && 0 <= i < ys.len() ==> agrees(#[trigger] xs[i], ys[i])
}

pub open spec fn agree_fields(fs: Seq<(Seq<char>, Ty)>, gs: Seq<(Seq<char>, Ty)>) -> bool
    decreases fs, gs,
{
    fs.len() == gs.len() && forall|i: int|
        0 <= i < fs.len() && 0 <= i < gs.len() ==> fs[i].0 == gs[i].0 && agrees(
            (#[trigger] fs[i]).1,
            gs[i].1,
        )
}

/// Every type agrees with itself.
pub proof fn agrees_refl(t: Ty)
    ensures
        agrees(t, t),
    decreases t,
{
    match t {
        Ty::Con(_, xs) => agree_all_refl(xs),
        Ty::Tuple(xs) => agree_all_refl(xs),
        Ty::Fn { params, ret, caps } => {
            agree_all_refl(params);
            agrees_refl(*ret);
        },
        Ty::Record { fields, tail } => agree_fields_refl(fields),
        Ty::Alias { name, body } => {
            agrees_refl(*body);
            agrees_under_alias(*body, t);
        },
        _ => {},
    }
}

proof fn agree_all_refl(xs: Seq<Ty>)
    ensures
        agree_all(xs, xs),
    decreases xs,
{
    assert forall|i: int| 0 <= i < xs.len() implies agrees(#[trigger] xs[i], xs[i]) by {
        agrees_refl(xs[i]);
    }
}

proof fn agree_fields_refl(fs: Seq<(Seq<char>, Ty)>)
    ensures
        agree_fields(fs, fs),
    decreases fs,
{
    assert forall|i: int| 0 <= i < fs.len() implies agrees((#[trigger] fs[i]).1, fs[i].1) by {
        agrees_refl(fs[i].1);
    }
}

/// An alias on the right changes nothing.
proof fn agrees_under_alias(a: Ty, b: Ty)
    requires
        b is Alias,
        agrees(a, *b->Alias_body),
    ensures
        agrees(a, b),
    decreases a,
{
    match a {
        Ty::Alias { name, body } => {
            alias_left(*body, *b->Alias_body, a);
            agrees_under_alias(*body, b);
        },
        _ => {},
    }
}

proof fn alias_left(body: Ty, b: Ty, a: Ty)
    requires
        a is Alias,
        *a->Alias_body == body,
        agrees(a, b),
    ensures
        agrees(body, b),
    decreases b,
{
    match b {
        Ty::Error => {},
        _ => {},
    }
}

/// A variable agrees with every alias of it.
proof fn agrees_peel(v: TyVid, t: Ty)
    requires
        peel(t) == Ty::Var(v),
    ensures
        agrees(Ty::Var(v), t),
        agrees(t, Ty::Var(v)),
    decreases t,
{
    match t {
        Ty::Alias { name, body } => agrees_peel(v, *body),
        _ => {},
    }
}

/// Types that agree still agree after a replacement.
pub proof fn agrees_apply(
    a: Ty,
    b: Ty,
    f: spec_fn(TyVid) -> Ty,
    g: spec_fn(CapVid) -> CapRow,
)
    requires
        agrees(a, b),
    ensures
        agrees(apply(a, f, g), apply(b, f, g)),
    decreases a, b,
{
    match (a, b) {
        (Ty::Error, _) => {},
        (_, Ty::Error) => {},
        (Ty::Alias { name, body }, _) => agrees_apply(*body, b, f, g),
        (_, Ty::Alias { name, body }) => {
            agrees_apply(a, *body, f, g);
            agrees_under_alias(apply(a, f, g), apply(b, f, g));
        },
        (Ty::Var(v), Ty::Var(w)) => agrees_refl(f(v)),
        (Ty::Con(i, xs), Ty::Con(j, ys)) => agree_all_apply(xs, ys, f, g),
        (Ty::Tuple(xs), Ty::Tuple(ys)) => agree_all_apply(xs, ys, f, g),
        (Ty::Fn { params: ps, ret: r, caps: c }, Ty::Fn { params: qs, ret: s, caps: d }) => {
            agree_all_apply(ps, qs, f, g);
            agrees_apply(*r, *s, f, g);
        },
        (Ty::Record { fields: fs, tail: t }, Ty::Record { fields: gs, tail: u }) => {
            agree_fields_apply(fs, gs, f, g);
        },
        _ => {},
    }
}

proof fn agree_fields_apply(
    fs: Seq<(Seq<char>, Ty)>,
    gs: Seq<(Seq<char>, Ty)>,
    f: spec_fn(TyVid) -> Ty,
    g: spec_fn(CapVid) -> CapRow,
)
    requires
        agree_fields(fs, gs),
    ensures
        agree_fields(apply_fields(fs, f, g), apply_fields(gs, f, g)),
    decreases fs, gs,
{
    let fa = apply_fields(fs, f, g);
    let ga = apply_fields(gs, f, g);
    assert forall|i: int| 0 <= i < fa.len() && 0 <= i < ga.len() implies fa[i].0 == ga[i].0
        && agrees((#[trigger] fa[i]).1, ga[i].1) by {
        assert(agrees(fs[i].1, gs[i].1));
        agrees_apply(fs[i].1, gs[i].1, f, g);
    }
}

proof fn agree_all_apply(
    xs: Seq<Ty>,
    ys: Seq<Ty>,
    f: spec_fn(TyVid) -> Ty,
    g: spec_fn(CapVid) -> CapRow,
)
    requires
        agree_all(xs, ys),
    ensures
        agree_all(apply_all(xs, f, g), apply_all(ys, f, g)),
    decreases xs, ys,
{
    let xa = apply_all(xs, f, g);
    let ya = apply_all(ys, f, g);
    assert forall|i: int| 0 <= i < xa.len() && 0 <= i < ya.len() implies agrees(
        #[trigger] xa[i],
        ya[i],
    ) by {
        assert(agrees(xs[i], ys[i]));
        agrees_apply(xs[i], ys[i], f, g);
    }
}

/// What every step of unification keeps.
pub open spec fn step_ok(tb: Table, tc: Table) -> bool {
    &&& solved(tc)
    &&& refines(tb, tc)
    &&& tc == tb || open_count(tc) < open_count(tb)
    &&& tc.types.len() == tb.types.len()
    &&& tc.caps.len() == tb.caps.len()
}

proof fn step_ok_trans(tb: Table, tc: Table, td: Table)
    requires
        step_ok(tb, tc),
        step_ok(tc, td),
    ensures
        step_ok(tb, td),
{
    refines_trans(tb, tc, td);
}

proof fn resolve_all_idempotent(tb: Table, ts: Seq<Ty>)
    requires
        solved(tb),
    ensures
        resolve_all(tb, resolve_all(tb, ts)) == resolve_all(tb, ts),
{
    assert forall|i: int| 0 <= i < ts.len() implies resolve_all(tb, resolve_all(tb, ts))[i]
        == resolve_all(tb, ts)[i] by {
        resolve_idempotent(tb, ts[i]);
    }
    assert(resolve_all(tb, resolve_all(tb, ts)) =~= resolve_all(tb, ts));
}

proof fn resolve_fields_idempotent(tb: Table, fs: Seq<(Seq<char>, Ty)>)
    requires
        solved(tb),
    ensures
        resolve_fields(tb, resolve_fields(tb, fs)) == resolve_fields(tb, fs),
{
    assert forall|i: int| 0 <= i < fs.len() implies resolve_fields(tb, resolve_fields(tb, fs))[i]
        == resolve_fields(tb, fs)[i] by {
        resolve_idempotent(tb, fs[i].1);
    }
    assert(resolve_fields(tb, resolve_fields(tb, fs)) =~= resolve_fields(tb, fs));
}

proof fn unify_var_sound(tb: Table, v: TyVid, t: Ty)
    requires
        solved(tb),
        resolve(tb, t) == t,
        resolve(tb, Ty::Var(v)) == Ty::Var(v),
    ensures
        step_ok(tb, unify_var(tb, v, t).0),
        unify_var(tb, v, t).1 is None ==> agrees(
            resolve(unify_var(tb, v, t).0, Ty::Var(v)),
            resolve(unify_var(tb, v, t).0, t),
        ) && agrees(
            resolve(unify_var(tb, v, t).0, t),
            resolve(unify_var(tb, v, t).0, Ty::Var(v)),
        ),
{
    refines_refl(tb);
    if peel(t) == Ty::Var(v) {
        agrees_peel(v, t);
    } else if open_var(tb, v) && !occurs(v, t) {
        bound_solved(tb, v, t);
        refines_bound(tb, v, t);
        bound_count(tb, v, t);
        let tc = bound(tb, v, t);
        assert(tc.types[v.0 as int] == Some(t));
        assert(resolve(tc, t) == t);
        assert(resolve(tc, Ty::Var(v)) == look(tc, v));
        agrees_refl(t);
    }
}

proof fn unify_rows_sound(tb: Table, a: CapRow, b: CapRow)
    requires
        solved(tb),
    ensures
        step_ok(tb, unify_rows(tb, a, b)),
{
    refines_refl(tb);
    let x = resolve_row(tb, a);
    let y = resolve_row(tb, b);
    assert(resolve_row(tb, x) == x && resolve_row(tb, y) == y) by {
        match a {
            CapRow::Var(k) => {
                assert(resolve_row(tb, look_cap(tb, k)) == look_cap(tb, k));
            },
            _ => {},
        }
        match b {
            CapRow::Var(k) => {
                assert(resolve_row(tb, look_cap(tb, k)) == look_cap(tb, k));
            },
            _ => {},
        }
    }
    if x == y {
    } else if x is Var && open_cap(tb, x->Var_0) {
        bound_cap_solved(tb, x->Var_0, y);
        refines_bound_cap(tb, x->Var_0, y);
        bound_cap_count(tb, x->Var_0, y);
    } else if y is Var && open_cap(tb, y->Var_0) {
        bound_cap_solved(tb, y->Var_0, x);
        refines_bound_cap(tb, y->Var_0, x);
        bound_cap_count(tb, y->Var_0, x);
    }
}

/// Types that agree under a table agree under every refinement of it.
proof fn agrees_refined(tb: Table, tc: Table, a: Ty, b: Ty)
    requires
        refines(tb, tc),
        agrees(resolve(tb, a), resolve(tb, b)),
    ensures
        agrees(resolve(tc, a), resolve(tc, b)),
{
    agrees_apply(
        resolve(tb, a),
        resolve(tb, b),
        |v: TyVid| look(tc, v),
        |c: CapVid| look_cap(tc, c),
    );
    refines_types(tb, tc, a);
    refines_types(tb, tc, b);
}

proof fn agree_all_refined(tb: Table, tc: Table, xs: Seq<Ty>, ys: Seq<Ty>)
    requires
        refines(tb, tc),
        agree_all(resolve_all(tb, xs), resolve_all(tb, ys)),
    ensures
        agree_all(resolve_all(tc, xs), resolve_all(tc, ys)),
{
    let xa = resolve_all(tc, xs);
    let ya = resolve_all(tc, ys);
    let xb = resolve_all(tb, xs);
    let yb = resolve_all(tb, ys);
    assert forall|i: int| 0 <= i < xa.len() && 0 <= i < ya.len() implies agrees(
        #[trigger] xa[i],
        ya[i],
    ) by {
        assert(agrees(xb[i], yb[i]));
        agrees_refined(tb, tc, xs[i], ys[i]);
    }
}

/// Unification keeps the table solved, loses nothing that was known and, where
/// there is no clash, leaves two types that agree.
#[verifier::rlimit(50)]
pub proof fn unify_resolved_sound(tb: Table, a: Ty, b: Ty)
    requires
        solved(tb),
        resolve(tb, a) == a,
        resolve(tb, b) == b,
    ensures
        step_ok(tb, unify_resolved(tb, a, b).0),
        unify_resolved(tb, a, b).1 is None ==> agrees(
            resolve(unify_resolved(tb, a, b).0, a),
            resolve(unify_resolved(tb, a, b).0, b),
        ),
    decreases open_count(tb), a, b,
{
    refines_refl(tb);
    let (tc, e) = unify_resolved(tb, a, b);
    match (a, b) {
        (Ty::Error, _) => {},
        (_, Ty::Error) => {},
        (Ty::Var(v), _) => unify_var_sound(tb, v, b),
        (_, Ty::Var(w)) => unify_var_sound(tb, w, a),
        (Ty::Alias { name, body }, _) => unify_resolved_sound(tb, *body, b),
        (_, Ty::Alias { name, body }) => {
            unify_resolved_sound(tb, a, *body);
            if e is None {
                agrees_under_alias(resolve(tc, a), resolve(tc, b));
            }
        },
        (Ty::Con(i, xs), Ty::Con(j, ys)) => {
            if i == j && xs.len() == ys.len() {
                unify_all_sound(tb, xs, ys);
            }
        },
        (Ty::Tuple(xs), Ty::Tuple(ys)) => {
            if xs.len() == ys.len() {
                unify_all_sound(tb, xs, ys);
            }
        },
        (Ty::Fn { params: ps, ret: r, caps: c }, Ty::Fn { params: qs, ret: s, caps: d }) => {
            if ps.len() == qs.len() {
                unify_all_sound(tb, ps, qs);
                let (t1, e1) = unify_all(tb, ps, qs);
                if e1 is None {
                    resolve_idempotent(t1, *r);
                    resolve_idempotent(t1, *s);
                    assert(resolve(tb, *r) == *r && resolve(tb, *s) == *s);
                    unify_resolved_sound(t1, resolve(t1, *r), resolve(t1, *s));
                    let (t2, e2) = unify_resolved(t1, resolve(t1, *r), resolve(t1, *s));
                    step_ok_trans(tb, t1, t2);
                    if e2 is None {
                        unify_rows_sound(t2, c, d);
                        let t3 = unify_rows(t2, c, d);
                        assert(tc == t3);
                        step_ok_trans(tb, t2, t3);
                        refines_trans(t1, t2, t3);
                        agree_all_refined(t1, t3, ps, qs);
                        agrees_refined(t2, t3, resolve(t1, *r), resolve(t1, *s));
                        refines_types(t1, t3, *r);
                        refines_types(t1, t3, *s);
                    }
                }
            }
        },
        (Ty::Record { fields: fs, tail: t }, Ty::Record { fields: gs, tail: u }) => {
            if labels(fs) == labels(gs) && t == u {
                assert(fs.len() == labels(fs).len());
                assert(gs.len() == labels(gs).len());
                unify_fields_sound(tb, fs, gs);
            }
        },
        _ => {},
    }
}

/// [`unify_resolved_sound`] for lists.
pub proof fn unify_all_sound(tb: Table, xs: Seq<Ty>, ys: Seq<Ty>)
    requires
        solved(tb),
        resolve_all(tb, xs) == xs,
        resolve_all(tb, ys) == ys,
        xs.len() == ys.len(),
    ensures
        step_ok(tb, unify_all(tb, xs, ys).0),
        unify_all(tb, xs, ys).1 is None ==> agree_all(
            resolve_all(unify_all(tb, xs, ys).0, xs),
            resolve_all(unify_all(tb, xs, ys).0, ys),
        ),
    decreases open_count(tb), xs, ys,
{
    refines_refl(tb);
    if xs.len() > 0 {
        assert(resolve_all(tb, xs)[0] == resolve(tb, xs[0]));
        assert(resolve_all(tb, ys)[0] == resolve(tb, ys[0]));
        unify_resolved_sound(tb, xs[0], ys[0]);
        let (t1, e1) = unify_resolved(tb, xs[0], ys[0]);
        if e1 is None {
            let xr = xs.skip(1);
            let yr = ys.skip(1);
            resolve_all_idempotent(t1, xr);
            resolve_all_idempotent(t1, yr);
            assert(resolve_all(tb, xr) =~= xr) by {
                assert forall|i: int| 0 <= i < xr.len() implies resolve_all(tb, xr)[i] == xr[i] by {
                    assert(resolve_all(tb, xs)[i + 1] == xs[i + 1]);
                }
            }
            assert(resolve_all(tb, yr) =~= yr) by {
                assert forall|i: int| 0 <= i < yr.len() implies resolve_all(tb, yr)[i] == yr[i] by {
                    assert(resolve_all(tb, ys)[i + 1] == ys[i + 1]);
                }
            }
            let xt = resolve_all(t1, xr);
            let yt = resolve_all(t1, yr);
            unify_all_sound(t1, xt, yt);
            let (tc, e) = unify_all(t1, xt, yt);
            assert((tc, e) == unify_all(tb, xs, ys));
            step_ok_trans(tb, t1, tc);
            if e is None {
                agrees_refined(t1, tc, xs[0], ys[0]);
                let xa = resolve_all(tc, xs);
                let ya = resolve_all(tc, ys);
                assert forall|i: int| 0 <= i < xa.len() && 0 <= i < ya.len() implies agrees(
                    #[trigger] xa[i],
                    ya[i],
                ) by {
                    if i > 0 {
                        let xc = resolve_all(tc, xt);
                        let yc = resolve_all(tc, yt);
                        assert(agrees(xc[i - 1], yc[i - 1]));
                        refines_types(t1, tc, xs[i]);
                        refines_types(t1, tc, ys[i]);
                    }
                }
            }
        }
    }
}

/// [`unify_resolved_sound`] for fields.
pub proof fn unify_fields_sound(tb: Table, fs: Seq<(Seq<char>, Ty)>, gs: Seq<(Seq<char>, Ty)>)
    requires
        solved(tb),
        resolve_fields(tb, fs) == fs,
        resolve_fields(tb, gs) == gs,
        labels(fs) == labels(gs),
    ensures
        step_ok(tb, unify_fields(tb, fs, gs).0),
        unify_fields(tb, fs, gs).1 is None ==> agree_fields(
            resolve_fields(unify_fields(tb, fs, gs).0, fs),
            resolve_fields(unify_fields(tb, fs, gs).0, gs),
        ),
    decreases open_count(tb), fs, gs,
{
    refines_refl(tb);
    assert(fs.len() == labels(fs).len() && gs.len() == labels(gs).len());
    if fs.len() > 0 {
        assert(resolve_fields(tb, fs)[0].1 == resolve(tb, fs[0].1));
        assert(resolve_fields(tb, gs)[0].1 == resolve(tb, gs[0].1));
        unify_resolved_sound(tb, fs[0].1, gs[0].1);
        let (t1, e1) = unify_resolved(tb, fs[0].1, gs[0].1);
        if e1 is None {
            let xr = fs.skip(1);
            let yr = gs.skip(1);
            resolve_fields_idempotent(t1, xr);
            resolve_fields_idempotent(t1, yr);
            assert(resolve_fields(tb, xr) =~= xr) by {
                assert forall|i: int| 0 <= i < xr.len() implies resolve_fields(tb, xr)[i] == xr[i] by {
                    assert(resolve_fields(tb, fs)[i + 1] == fs[i + 1]);
                }
            }
            assert(resolve_fields(tb, yr) =~= yr) by {
                assert forall|i: int| 0 <= i < yr.len() implies resolve_fields(tb, yr)[i] == yr[i] by {
                    assert(resolve_fields(tb, gs)[i + 1] == gs[i + 1]);
                }
            }
            let xt = resolve_fields(t1, xr);
            let yt = resolve_fields(t1, yr);
            assert forall|i: int| 0 <= i < fs.len() implies fs[i].0 == (#[trigger] gs[i]).0 by {
                assert(labels(fs)[i] == labels(gs)[i]);
            }
            assert(labels(xt) =~= labels(yt)) by {
                assert forall|i: int| 0 <= i < xt.len() implies labels(xt)[i] == labels(yt)[i] by {
                    assert(fs[i + 1].0 == gs[i + 1].0);
                }
            }
            unify_fields_sound(t1, xt, yt);
            let (tc, e) = unify_fields(t1, xt, yt);
            assert((tc, e) == unify_fields(tb, fs, gs));
            step_ok_trans(tb, t1, tc);
            if e is None {
                agrees_refined(t1, tc, fs[0].1, gs[0].1);
                let xa = resolve_fields(tc, fs);
                let ya = resolve_fields(tc, gs);
                assert forall|i: int| 0 <= i < xa.len() && 0 <= i < ya.len() implies xa[i].0
                    == ya[i].0 && agrees((#[trigger] xa[i]).1, ya[i].1) by {
                    assert(fs[i].0 == gs[i].0);
                    if i > 0 {
                        let xc = resolve_fields(tc, xt);
                        let yc = resolve_fields(tc, yt);
                        assert(agrees(xc[i - 1].1, yc[i - 1].1));
                        refines_types(t1, tc, fs[i].1);
                        refines_types(t1, tc, gs[i].1);
                    }
                }
            }
        }
    }
}

/// Two types that unify without a clash agree from there on, and nothing that
/// was known before is lost.
pub proof fn unified_agree(tb: Table, a: Ty, b: Ty)
    requires
        solved(tb),
    ensures
        step_ok(tb, unified(tb, a, b).0),
        unified(tb, a, b).1 is None ==> agrees(
            resolve(unified(tb, a, b).0, a),
            resolve(unified(tb, a, b).0, b),
        ),
{
    resolve_idempotent(tb, a);
    resolve_idempotent(tb, b);
    unify_resolved_sound(tb, resolve(tb, a), resolve(tb, b));
    let tc = unified(tb, a, b).0;
    refines_types(tb, tc, a);
    refines_types(tb, tc, b);
}

/// The labels of `fs` that `gs` lacks.
pub open spec fn lacking(fs: Seq<(Seq<char>, Ty)>, gs: Seq<(Seq<char>, Ty)>) -> Seq<Seq<char>>
    decreases fs.len(),
{
    if fs.len() == 0 {
        Seq::empty()
    } else {
        let rest = lacking(fs.drop_last(), gs);
        if labels(gs).contains(fs.last().0) {
            rest
        } else {
            rest.push(fs.last().0)
        }
    }
}

/// `e` is the diagnostic of a clash, pointing nowhere yet.
pub open spec fn tells(e: TypeError, c: Clash) -> bool {
    match c {
        Clash::Mismatch(a, b) => e matches TypeError::TypeMismatch {
            expected: TypeDesc::Ty(x),
            found: TypeDesc::Ty(y),
            span,
            hint: None,
        } && x@ == a && y@ == b && span == (Span { start: 0, end: 0 }),
        Clash::Occurs(v, t) => e matches TypeError::OccursCheck {
            var: TypeDesc::Ty(x),
            ty: TypeDesc::Ty(y),
            span,
        } && x@ == Ty::Var(v) && y@ == t && span == (Span { start: 0, end: 0 }),
        Clash::Arity(m, n) => e matches TypeError::ArityMismatch {
            callee,
            expected,
            found,
            span,
            hint: None,
        } && callee@.len() == 0 && expected == m && found == n && span == (Span {
            start: 0,
            end: 0,
        }),
        Clash::Width(m, n) => e matches TypeError::TupleWidthMismatch { expected, found, span }
            && expected == m && found == n && span == (Span { start: 0, end: 0 }),
        Clash::Row(a, b) => e matches TypeError::RowMismatch {
            expected: TypeDesc::Ty(x),
            found: TypeDesc::Ty(y),
            missing_fields,
            extra_fields,
            span,
        } && x@ == a && y@ == b && a is Record && b is Record && texts(missing_fields@) == lacking(
            a->Record_fields,
            b->Record_fields,
        ) && texts(extra_fields@) == lacking(b->Record_fields, a->Record_fields) && span == (Span {
            start: 0,
            end: 0,
        }),
    }
}

/// `r` reports the clash `c`, or that there is none.
pub open spec fn reports(r: Result<(), TypeError>, c: Option<Clash>) -> bool {
    match c {
        None => r is Ok,
        Some(clash) => r matches Err(e) && tells(e, clash),
    }
}

fn mismatch(a: &Type, b: &Type) -> (r: TypeError)
    ensures
        tells(r, Clash::Mismatch(a@, b@)),
{
    TypeError::TypeMismatch {
        expected: TypeDesc::Ty(a.clone()),
        found: TypeDesc::Ty(b.clone()),
        span: Span::point(0),
        hint: None,
    }
}

fn has_label(fs: &Vec<(String, Type)>, label: &str) -> (r: bool)
    ensures
        r == labels(field_views(fs@)).contains(label@),
{
    let mut i: usize = 0;
    while i < fs.len()
        invariant
            i <= fs@.len(),
            forall|k: int| 0 <= k < i ==> (#[trigger] fs@[k]).0@ != label@,
        decreases fs@.len() - i,
    {
        if same_text(fs[i].0.as_str(), label) {
            assert(labels(field_views(fs@))[i as int] == label@);
            return true;
        }
        i = i + 1;
    }
    assert forall|k: int| 0 <= k < labels(field_views(fs@)).len() implies labels(
        field_views(fs@),
    )[k] != label@ by {
        assert(fs@[k].0@ != label@);
    }
    false
}

fn lacking_labels(fs: &Vec<(String, Type)>, gs: &Vec<(String, Type)>) -> (r: Vec<String>)
    ensures
        texts(r@) == lacking(field_views(fs@), field_views(gs@)),
{
    let mut out: Vec<String> = Vec::new();
    let mut i: usize = 0;
    let ghost all = field_views(fs@);
    assert(all.take(0) =~= Seq::empty());
    assert(texts(out@) =~= Seq::empty());
    while i < fs.len()
        invariant
            i <= fs@.len(),
            all == field_views(fs@),
            texts(out@) == lacking(all.take(i as int), field_views(gs@)),
        decreases fs@.len() - i,
    {
        let ghost before = out@;
        assert(all.take(i + 1).drop_last() =~= all.take(i as int));
        assert(all.take(i + 1).last() == all[i as int]);
        if !has_label(gs, fs[i].0.as_str()) {
            out.push(fs[i].0.clone());
            assert(texts(out@) =~= texts(before).push(fs@[i as int].0@));
        }
        i = i + 1;
    }
    assert(all.take(i as int) =~= all);
    out
}

fn same_labels(fs: &Vec<(String, Type)>, gs: &Vec<(String, Type)>) -> (r: bool)
    ensures
        r == (labels(field_views(fs@)) == labels(field_views(gs@))),
{
    if fs.len() != gs.len() {
        assert(labels(field_views(fs@)).len() != labels(field_views(gs@)).len());
        return false;
    }
    let mut i: usize = 0;
    while i < fs.len()
        invariant
            i <= fs@.len(),
            fs@.len() == gs@.len(),
            forall|k: int| 0 <= k < i ==> (#[trigger] fs@[k]).0@ == gs@[k].0@,
        decreases fs@.len() - i,
    {
        if !same_text(fs[i].0.as_str(), gs[i].0.as_str()) {
            assert(labels(field_views(fs@))[i as int] != labels(field_views(gs@))[i as int]);
            return false;
        }
        i = i + 1;
    }
    assert(labels(field_views(fs@)) =~= labels(field_views(gs@)));
    true
}

/// Whether a type is an alias of variable `v`, or `v` itself.
fn peels_to(ty: &Type, v: TyVid) -> (r: bool)
    ensures
        r == (peel(ty@) == Ty::Var(v)),
    decreases ty,
{
    match ty {
        Type::Alias { name: _, body } => peels_to(body, v),
        Type::Var(w) => w.0 == v.0,
        _ => false,
    }
}

fn unify_var_in(vt: &mut VarTable, v: TyVid, t: &Type) -> (r: Result<(), TypeError>)
    requires
        old(vt).wf(),
        resolve(old(vt)@, t@) == t@,
    ensures
        final(vt).wf(),
        final(vt)@ == unify_var(old(vt)@, v, t@).0,
        reports(r, unify_var(old(vt)@, v, t@).1),
{
    if peels_to(t, v) {
        Ok(())
    } else if !vt.is_open(v) {
        Err(mismatch(&Type::Var(v), t))
    } else if occurs_in(v, t) {
        Err(
            TypeError::OccursCheck {
                var: TypeDesc::Ty(Type::Var(v)),
                ty: TypeDesc::Ty(t.clone()),
                span: Span::point(0),
            },
        )
    } else {
        vt.bind(v, t);
        Ok(())
    }
}

fn unify_rows_in(vt: &mut VarTable, a: CapRow, b: CapRow)
    requires
        old(vt).wf(),
    ensures
        final(vt).wf(),
        final(vt)@ == unify_rows(old(vt)@, a, b),
{
    proof {
        refines_refl(vt@);
    }
    let x = vt.resolve_row(a);
    let y = vt.resolve_row(b);
    assert(resolve_row(vt@, x) == x && resolve_row(vt@, y) == y) by {
        match a {
            CapRow::Var(k) => {
                assert(resolve_row(vt@, look_cap(vt@, k)) == look_cap(vt@, k));
            },
            _ => {},
        }
        match b {
            CapRow::Var(k) => {
                assert(resolve_row(vt@, look_cap(vt@, k)) == look_cap(vt@, k));
            },
            _ => {},
        }
    }
    if x == y {
        return ;
    }
    if let CapRow::Var(c) = x {
        if vt.is_open_cap(c) {
            vt.bind_cap(c, y);
            return ;
        }
    }
    if let CapRow::Var(c) = y {
        if vt.is_open_cap(c) {
            vt.bind_cap(c, x);
        }
    }
}

/// The types from `from` on, resolved.
fn resolve_from(vt: &VarTable, ts: &Vec<Type>, from: usize) -> (r: Vec<Type>)
    requires
        from <= ts@.len(),
    ensures
        views(r@) == resolve_all(vt@, views(ts@).skip(from as int)),
{
    let mut out: Vec<Type> = Vec::new();
    let mut i: usize = from;
    while i < ts.len()
        invariant
            from <= i <= ts@.len(),
            out@.len() == i - from,
            forall|k: int|
                0 <= k < i - from ==> (#[trigger] out@[k])@ == resolve(vt@, ts@[from + k]@),
        decreases ts@.len() - i,
    {
        out.push(vt.deep_resolve(&ts[i]));
        i = i + 1;
    }
    assert(views(out@) =~= resolve_all(vt@, views(ts@).skip(from as int)));
    out
}

fn resolve_fields_from(vt: &VarTable, fs: &Vec<(String, Type)>, from: usize) -> (r: Vec<
    (String, Type),
>)
    requires
        from <= fs@.len(),
    ensures
        field_views(r@) == resolve_fields(vt@, field_views(fs@).skip(from as int)),
{
    let mut out: Vec<(String, Type)> = Vec::new();
    let mut i: usize = from;
    while i < fs.len()
        invariant
            from <= i <= fs@.len(),
            out@.len() == i - from,
            forall|k: int|
                0 <= k < i - from ==> (#[trigger] out@[k]).0@ == fs@[from + k].0@ && out@[k].1@
                    == resolve(vt@, fs@[from + k].1@),
        decreases fs@.len() - i,
    {
        let f = &fs[i];
        out.push((f.0.clone(), vt.deep_resolve(&f.1)));
        i = i + 1;
    }
    assert(field_views(out@) =~= resolve_fields(vt@, field_views(fs@).skip(from as int)));
    out
}

proof fn resolved_tail(tb: Table, xs: Seq<Ty>)
    requires
        resolve_all(tb, xs) == xs,
        xs.len() > 0,
    ensures
        resolve_all(tb, xs.skip(1)) == xs.skip(1),
        resolve(tb, xs[0]) == xs[0],
{
    assert(resolve_all(tb, xs)[0] == xs[0]);
    assert forall|i: int| 0 <= i < xs.skip(1).len() implies resolve_all(tb, xs.skip(1))[i]
        == xs.skip(1)[i] by {
        assert(resolve_all(tb, xs)[i + 1] == xs[i + 1]);
    }
    assert(resolve_all(tb, xs.skip(1)) =~= xs.skip(1));
}

proof fn resolved_fields_tail(tb: Table, fs: Seq<(Seq<char>, Ty)>)
    requires
        resolve_fields(tb, fs) == fs,
        fs.len() > 0,
    ensures
        resolve_fields(tb, fs.skip(1)) == fs.skip(1),
        resolve(tb, fs[0].1) == fs[0].1,
{
    assert(resolve_fields(tb, fs)[0] == fs[0]);
    assert forall|i: int| 0 <= i < fs.skip(1).len() implies resolve_fields(tb, fs.skip(1))[i]
        == fs.skip(1)[i] by {
        assert(resolve_fields(tb, fs)[i + 1] == fs[i + 1]);
    }
    assert(resolve_fields(tb, fs.skip(1)) =~= fs.skip(1));
}

fn unify_all_in(vt: &mut VarTable, xs: &Vec<Type>, ys: &Vec<Type>) -> (r: Result<(), TypeError>)
    requires
        old(vt).wf(),
        xs@.len() == ys@.len(),
        resolve_all(old(vt)@, views(xs@)) == views(xs@),
        resolve_all(old(vt)@, views(ys@)) == views(ys@),
    ensures
        final(vt).wf(),
        final(vt)@ == unify_all(old(vt)@, views(xs@), views(ys@)).0,
        reports(r, unify_all(old(vt)@, views(xs@), views(ys@)).1),
    decreases open_count(old(vt)@), views(xs@), views(ys@),
{
    let ghost tb = vt@;
    let ghost x0 = views(xs@);
    let ghost y0 = views(ys@);
    let mut cx: Vec<Type> = resolve_from(vt, xs, 0);
    let mut cy: Vec<Type> = resolve_from(vt, ys, 0);
    proof {
        assert(x0.skip(0) =~= x0);
        assert(y0.skip(0) =~= y0);
    }
    let ghost mut k: int = 0;
    while cx.len() > 0
        invariant
            vt.wf(),
            tb == old(vt)@,
            x0 == views(xs@),
            y0 == views(ys@),
            cx@.len() == cy@.len(),
            0 <= k <= x0.len(),
            k <= y0.len(),
            resolve_all(vt@, views(cx@)) == views(cx@),
            resolve_all(vt@, views(cy@)) == views(cy@),
            unify_all(tb, x0, y0) == unify_all(vt@, views(cx@), views(cy@)),
            open_count(vt@) < open_count(tb) || (vt@ == tb && views(cx@) == x0.skip(k) && views(
                cy@,
            ) == y0.skip(k)),
        decreases cx@.len(),
    {
        let ghost before = vt@;
        let ghost vx = views(cx@);
        let ghost vy = views(cy@);
        proof {
            resolved_tail(before, vx);
            resolved_tail(before, vy);
            unify_resolved_sound(before, vx[0], vy[0]);
            if vt@ == tb {
                assert(vx[0] == x0[k]);
                assert(vy[0] == y0[k]);
            }
        }
        unify_in(vt, &cx[0], &cy[0])?;
        let nx = resolve_from(vt, &cx, 1);
        let ny = resolve_from(vt, &cy, 1);
        proof {
            resolve_all_idempotent(vt@, vx.skip(1));
            resolve_all_idempotent(vt@, vy.skip(1));
            if vt@ == tb {
                assert(before == tb);
                assert(x0.skip(k).skip(1) =~= x0.skip(k + 1));
                assert(y0.skip(k).skip(1) =~= y0.skip(k + 1));
                k = k + 1;
            }
        }
        cx = nx;
        cy = ny;
    }
    Ok(())
}

fn unify_fields_in(
    vt: &mut VarTable,
    fs: &Vec<(String, Type)>,
    gs: &Vec<(String, Type)>,
) -> (r: Result<(), TypeError>)
    requires
        old(vt).wf(),
        fs@.len() == gs@.len(),
        resolve_fields(old(vt)@, field_views(fs@)) == field_views(fs@),
        resolve_fields(old(vt)@, field_views(gs@)) == field_views(gs@),
    ensures
        final(vt).wf(),
        final(vt)@ == unify_fields(old(vt)@, field_views(fs@), field_views(gs@)).0,
        reports(r, unify_fields(old(vt)@, field_views(fs@), field_views(gs@)).1),
    decreases open_count(old(vt)@), field_views(fs@), field_views(gs@),
{
    let ghost tb = vt@;
    let ghost x0 = field_views(fs@);
    let ghost y0 = field_views(gs@);
    let mut cx: Vec<(String, Type)> = resolve_fields_from(vt, fs, 0);
    let mut cy: Vec<(String, Type)> = resolve_fields_from(vt, gs, 0);
    proof {
        assert(x0.skip(0) =~= x0);
        assert(y0.skip(0) =~= y0);
    }
    let ghost mut k: int = 0;
    while cx.len() > 0
        invariant
            vt.wf(),
            tb == old(vt)@,
            x0 == field_views(fs@),
            y0 == field_views(gs@),
            cx@.len() == cy@.len(),
            0 <= k <= x0.len(),
            k <= y0.len(),
            resolve_fields(vt@, field_views(cx@)) == field_views(cx@),
            resolve_fields(vt@, field_views(cy@)) == field_views(cy@),
            unify_fields(tb, x0, y0) == unify_fields(vt@, field_views(cx@), field_views(cy@)),
            open_count(vt@) < open_count(tb) || (vt@ == tb && field_views(cx@) == x0.skip(k)
                && field_views(cy@) == y0.skip(k)),
        decreases cx@.len(),
    {
        let ghost before = vt@;
        let ghost vx = field_views(cx@);
        let ghost vy = field_views(cy@);
        proof {
            resolved_fields_tail(before, vx);
            resolved_fields_tail(before, vy);
            unify_resolved_sound(before, vx[0].1, vy[0].1);
            if vt@ == tb {
                assert(vx[0] == x0[k]);
                assert(vy[0] == y0[k]);
            }
        }
        let fx = &cx[0];
        let fy = &cy[0];
        unify_in(vt, &fx.1, &fy.1)?;
        let nx = resolve_fields_from(vt, &cx, 1);
        let ny = resolve_fields_from(vt, &cy, 1);
        proof {
            resolve_fields_idempotent(vt@, vx.skip(1));
            resolve_fields_idempotent(vt@, vy.skip(1));
            if vt@ == tb {
                assert(before == tb);
                assert(x0.skip(k).skip(1) =~= x0.skip(k + 1));
                assert(y0.skip(k).skip(1) =~= y0.skip(k + 1));
                k = k + 1;
            }
        }
        cx = nx;
        cy = ny;
    }
    Ok(())
}

#[verifier::rlimit(60)]
fn unify_in(vt: &mut VarTable, a: &Type, b: &Type) -> (r: Result<(), TypeError>)
    requires
        old(vt).wf(),
        resolve(old(vt)@, a@) == a@,
        resolve(old(vt)@, b@) == b@,
    ensures
        final(vt).wf(),
        final(vt)@ == unify_resolved(old(vt)@, a@, b@).0,
        reports(r, unify_resolved(old(vt)@, a@, b@).1),
    decreases open_count(old(vt)@), a@, b@,
{
    let ghost tb = vt@;
    match (a, b) {
        (Type::Error, _) => Ok(()),
        (_, Type::Error) => Ok(()),
        (Type::Var(v), _) => unify_var_in(vt, *v, b),
        (_, Type::Var(w)) => unify_var_in(vt, *w, a),
        (Type::Alias { name: _, body }, _) => unify_in(vt, body, b),
        (_, Type::Alias { name: _, body }) => unify_in(vt, a, body),
        (Type::Con(i, xs), Type::Con(j, ys)) => {
            assert(a@ == Ty::Con(*i, views(xs@)));
            assert(b@ == Ty::Con(*j, views(ys@)));
            if i.0 == j.0 && xs.len() == ys.len() {
                unify_all_in(vt, xs, ys)
            } else {
                Err(mismatch(a, b))
            }
        },
        (Type::Tuple(xs), Type::Tuple(ys)) => {
            assert(a@ == Ty::Tuple(views(xs@)));
            assert(b@ == Ty::Tuple(views(ys@)));
            if xs.len() == ys.len() {
                unify_all_in(vt, xs, ys)
            } else {
                Err(
                    TypeError::TupleWidthMismatch {
                        expected: xs.len(),
                        found: ys.len(),
                        span: Span::point(0),
                    },
                )
            }
        },
        (
            Type::Fn { params: ps, ret: x, caps: c },
            Type::Fn { params: qs, ret: y, caps: d },
        ) => {
            assert(a@ == Ty::Fn { params: views(ps@), ret: Box::new(x@), caps: *c });
            assert(b@ == Ty::Fn { params: views(qs@), ret: Box::new(y@), caps: *d });
            if ps.len() == qs.len() {
                proof {
                    unify_all_sound(tb, views(ps@), views(qs@));
                }
                unify_all_in(vt, ps, qs)?;
                let ghost t1 = vt@;
                let rx = vt.deep_resolve(x);
                let ry = vt.deep_resolve(y);
                proof {
                    resolve_idempotent(t1, x@);
                    resolve_idempotent(t1, y@);
                    assert(resolve(tb, x@) == x@ && resolve(tb, y@) == y@);
                }
                unify_in(vt, &rx, &ry)?;
                unify_rows_in(vt, *c, *d);
                Ok(())
            } else {
                Err(
                    TypeError::ArityMismatch {
                        callee: String::new(),
                        expected: ps.len(),
                        found: qs.len(),
                        span: Span::point(0),
                        hint: None,
                    },
                )
            }
        },
        (Type::Record { fields: fs, tail: t }, Type::Record { fields: gs, tail: u }) => {
            assert(a@ == Ty::Record { fields: field_views(fs@), tail: *t });
            assert(b@ == Ty::Record { fields: field_views(gs@), tail: *u });
            if same_labels(fs, gs) && *t == *u {
                assert(labels(field_views(fs@)).len() == fs@.len());
                assert(labels(field_views(gs@)).len() == gs@.len());
                unify_fields_in(vt, fs, gs)
            } else {
                Err(
                    TypeError::RowMismatch {
                        expected: TypeDesc::Ty(a.clone()),
                        found: TypeDesc::Ty(b.clone()),
                        missing_fields: lacking_labels(fs, gs),
                        extra_fields: lacking_labels(gs, fs),
                        span: Span::point(0),
                    },
                )
            }
        },
        (Type::Rigid { id: i, name: _ }, Type::Rigid { id: j, name: _ }) => {
            if i.0 == j.0 {
                Ok(())
            } else {
                Err(mismatch(a, b))
            }
        },
        _ => Err(mismatch(a, b)),
    }
}

/// Makes two types equal by binding variables, or reports why that cannot be.
///
/// The diagnostic points nowhere yet. What was bound before a clash was found
/// stays bound.
pub fn unify(vt: &mut VarTable, a: &Type, b: &Type) -> (r: Result<(), TypeError>)
    requires
        old(vt).wf(),
    ensures
        final(vt).wf(),
        final(vt)@ == unified(old(vt)@, a@, b@).0,
        reports(r, unified(old(vt)@, a@, b@).1),
{
    let x = vt.deep_resolve(a);
    let y = vt.deep_resolve(b);
    proof {
        resolve_idempotent(vt@, a@);
        resolve_idempotent(vt@, b@);
    }
    unify_in(vt, &x, &y)
}

} // verus!

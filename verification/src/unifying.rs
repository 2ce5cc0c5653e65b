use vstd::prelude::*;

use crate::subst::{apply_fixed, cap_occurs, occurs};
use crate::table::{look, look_cap, resolve, solved, Table};
use crate::types::{CapVid, Ty, TyVid};
use crate::unify::{
    agrees, labels, peel, unified, unified_agree, unify_all, unify_fields, unify_resolved,
    unify_rows, Clash,
};

verus! {

/// Equal up to aliases and up to parts that are in error already.
pub open spec fn alike(a: Ty, b: Ty) -> bool
    decreases a, b,
{
    match (a, b) {
        (Ty::Error, _) => true,
        (_, Ty::Error) => true,
        (Ty::Alias { name: _, body }, _) => alike(*body, b),
        (_, Ty::Alias { name: _, body }) => alike(a, *body),
        (Ty::Var(v), Ty::Var(w)) => v == w,
        (Ty::Con(i, xs), Ty::Con(j, ys)) => i == j && all_alike(xs, ys),
        (Ty::Tuple(xs), Ty::Tuple(ys)) => all_alike(xs, ys),
        (
            Ty::Fn { params: ps, ret: r, caps: c },
            Ty::Fn { params: qs, ret: s, caps: d },
        ) => all_alike(ps, qs) && alike(*r, *s) && c == d,
        (Ty::Record { fields: fs, tail: t }, Ty::Record { fields: gs, tail: u }) => t == u
            && fields_alike(fs, gs),
        (Ty::Rigid { id: i, name: _ }, Ty::Rigid { id: j, name: _ }) => i == j,
        _ => false,
    }
}

pub open spec fn all_alike(xs: Seq<Ty>, ys: Seq<Ty>) -> bool
    decreases xs, ys,
{
    xs.len() == ys.len() && forall|i: int|
        0 <= i < xs.len() && 0 <= i < ys.len() ==> alike(#[trigger] xs[i], ys[i])
}

pub open spec fn fields_alike(fs: Seq<(Seq<char>, Ty)>, gs: Seq<(Seq<char>, Ty)>) -> bool
    decreases fs, gs,
{
    fs.len() == gs.len() && forall|i: int|
        0 <= i < fs.len() && 0 <= i < gs.len() ==> fs[i].0 == gs[i].0 && alike(
            (#[trigger] fs[i]).1,
            gs[i].1,
        )
}

proof fn peels_to_var(v: TyVid, t: Ty)
    requires
        alike(Ty::Var(v), t) || alike(t, Ty::Var(v)),
    ensures
        peel(t) == Ty::Var(v) || peel(t) == Ty::Error,
    decreases t,
{
    match t {
        Ty::Alias { name: _, body } => peels_to_var(v, *body),
        _ => {},
    }
}

/// No part of a type is in error.
pub open spec fn sound(t: Ty) -> bool
    decreases t,
{
    match t {
        Ty::Error => false,
        Ty::Alias { name: _, body } => sound(*body),
        Ty::Con(_, xs) => all_sound(xs),
        Ty::Tuple(xs) => all_sound(xs),
        Ty::Fn { params, ret, caps: _ } => all_sound(params) && sound(*ret),
        Ty::Record { fields, tail: _ } => fields_sound(fields),
        _ => true,
    }
}

pub open spec fn all_sound(ts: Seq<Ty>) -> bool
    decreases ts,
{
    forall|i: int| 0 <= i < ts.len() ==> sound(#[trigger] ts[i])
}

pub open spec fn fields_sound(fs: Seq<(Seq<char>, Ty)>) -> bool
    decreases fs,
{
    forall|i: int| 0 <= i < fs.len() ==> sound((#[trigger] fs[i]).1)
}

proof fn peeled_sound(t: Ty)
    requires
        sound(t),
    ensures
        peel(t) != Ty::Error,
    decreases t,
{
    match t {
        Ty::Alias { name: _, body } => peeled_sound(*body),
        _ => {},
    }
}

/// Types that are alike already unify, and nothing is learned from it.
pub proof fn alike_types_unify(tb: Table, a: Ty, b: Ty)
    requires
        alike(a, b),
        sound(a),
        sound(b),
    ensures
        unify_resolved(tb, a, b) == (tb, None::<Clash>),
    decreases a, b,
{
    match (a, b) {
        (Ty::Var(v), _) => {
            peels_to_var(v, b);
            peeled_sound(b);
        },
        (_, Ty::Var(w)) => {
            peels_to_var(w, a);
            peeled_sound(a);
        },
        (Ty::Alias { name: _, body }, _) => alike_types_unify(tb, *body, b),
        (_, Ty::Alias { name: _, body }) => alike_types_unify(tb, a, *body),
        (Ty::Con(_, xs), Ty::Con(_, ys)) => {
            alike_lists_unify(tb, xs, ys);
            assert(unify_resolved(tb, a, b) == unify_all(tb, xs, ys));
        },
        (Ty::Tuple(xs), Ty::Tuple(ys)) => {
            alike_lists_unify(tb, xs, ys);
            assert(unify_resolved(tb, a, b) == unify_all(tb, xs, ys));
        },
        (Ty::Fn { params: ps, ret: r, caps: c }, Ty::Fn { params: qs, ret: s, caps: d }) => {
            alike_lists_unify(tb, ps, qs);
            alike_types_unify(tb, *r, *s);
            assert(c == d);
            assert(unify_rows(tb, c, d) == tb);
            assert(unify_resolved(tb, a, b) == (tb, None::<Clash>));
        },
        (Ty::Record { fields: fs, tail: _ }, Ty::Record { fields: gs, tail: _ }) => {
            assert(fields_alike(fs, gs));
            assert(fields_sound(fs) && fields_sound(gs));
            alike_fields_unify(tb, fs, gs);
            assert(labels(fs) =~= labels(gs)) by {
                assert forall|i: int| 0 <= i < fs.len() implies fs[i].0 == gs[i].0 by {
                    assert(alike(fs[i].1, gs[i].1));
                }
            }
            assert(unify_resolved(tb, a, b) == unify_fields(tb, fs, gs));
        },
        (Ty::Rigid { id: _, name: _ }, Ty::Rigid { id: _, name: _ }) => {
            assert(unify_resolved(tb, a, b) == (tb, None::<Clash>));
        },
        _ => {
            assert(false);
        },
    }
}

proof fn alike_lists_unify(tb: Table, xs: Seq<Ty>, ys: Seq<Ty>)
    requires
        all_alike(xs, ys),
        all_sound(xs),
        all_sound(ys),
    ensures
        xs.len() == ys.len(),
        unify_all(tb, xs, ys) == (tb, None::<Clash>),
    decreases xs, ys,
{
    if xs.len() > 0 {
        assert(alike(xs[0], ys[0]));
        assert(sound(xs[0]) && sound(ys[0]));
        alike_types_unify(tb, xs[0], ys[0]);
        let xr = xs.skip(1);
        let yr = ys.skip(1);
        assert(all_alike(xr, yr)) by {
            assert forall|i: int| 0 <= i < xr.len() && 0 <= i < yr.len() implies alike(
                #[trigger] xr[i],
                yr[i],
            ) by {
                assert(alike(xs[i + 1], ys[i + 1]));
            }
        }
        assert(all_sound(xr)) by {
            assert forall|i: int| 0 <= i < xr.len() implies sound(#[trigger] xr[i]) by {
                assert(sound(xs[i + 1]));
            }
        }
        assert(all_sound(yr)) by {
            assert forall|i: int| 0 <= i < yr.len() implies sound(#[trigger] yr[i]) by {
                assert(sound(ys[i + 1]));
            }
        }
        alike_lists_unify(tb, xr, yr);
    }
}

proof fn alike_fields_unify(tb: Table, fs: Seq<(Seq<char>, Ty)>, gs: Seq<(Seq<char>, Ty)>)
    requires
        fields_alike(fs, gs),
        fields_sound(fs),
        fields_sound(gs),
    ensures
        unify_fields(tb, fs, gs) == (tb, None::<Clash>),
    decreases fs, gs,
{
    if fs.len() > 0 {
        assert(alike(fs[0].1, gs[0].1));
        assert(sound(fs[0].1) && sound(gs[0].1));
        alike_types_unify(tb, fs[0].1, gs[0].1);
        let fr = fs.skip(1);
        let gr = gs.skip(1);
        assert(fields_alike(fr, gr)) by {
            assert forall|i: int| 0 <= i < fr.len() && 0 <= i < gr.len() implies fr[i].0 == gr[i].0
                && alike((#[trigger] fr[i]).1, gr[i].1) by {
                assert(alike(fs[i + 1].1, gs[i + 1].1));
            }
        }
        assert(fields_sound(fr)) by {
            assert forall|i: int| 0 <= i < fr.len() implies sound((#[trigger] fr[i]).1) by {
                assert(sound(fs[i + 1].1));
            }
        }
        assert(fields_sound(gr)) by {
            assert forall|i: int| 0 <= i < gr.len() implies sound((#[trigger] gr[i]).1) by {
                assert(sound(gs[i + 1].1));
            }
        }
        alike_fields_unify(tb, fr, gr);
    }
}

proof fn alike_itself(t: Ty)
    ensures
        alike(t, t),
    decreases t,
{
    match t {
        Ty::Alias { name: _, body } => {
            alike_itself(*body);
            alike_under_alias(*body, t);
            assert(alike(t, t) == alike(*body, t));
        },
        Ty::Con(_, xs) => all_alike_itself(xs),
        Ty::Tuple(xs) => all_alike_itself(xs),
        Ty::Fn { params, ret, caps: _ } => {
            all_alike_itself(params);
            alike_itself(*ret);
        },
        Ty::Record { fields, tail: _ } => {
            assert forall|i: int| 0 <= i < fields.len() implies alike(
                (#[trigger] fields[i]).1,
                fields[i].1,
            ) by {
                alike_itself(fields[i].1);
            }
            assert(fields_alike(fields, fields));
        },
        _ => {},
    }
}

proof fn all_alike_itself(ts: Seq<Ty>)
    ensures
        all_alike(ts, ts),
    decreases ts,
{
    assert forall|i: int| 0 <= i < ts.len() implies alike(#[trigger] ts[i], ts[i]) by {
        alike_itself(ts[i]);
    }
}

/// What is alike to the body of an alias is alike to the alias.
proof fn alike_under_alias(a: Ty, b: Ty)
    requires
        b is Alias,
        alike(a, *b->Alias_body),
    ensures
        alike(a, b),
    decreases a,
{
    match a {
        Ty::Alias { name: _, body } => alike_under_alias(*body, b),
        _ => {},
    }
}

/// A type unifies with itself, and nothing is learned from it.
pub proof fn types_unify_with_themselves(tb: Table, t: Ty)
    requires
        sound(resolve(tb, t)),
    ensures
        unified(tb, t, t) == (tb, None::<Clash>),
{
    alike_itself(resolve(tb, t));
    alike_types_unify(tb, resolve(tb, t), resolve(tb, t));
}

/// Types without variables unify just where they agree.
pub proof fn closed_types_unify_where_they_agree(tb: Table, a: Ty, b: Ty)
    requires
        solved(tb),
        forall|v: TyVid| !occurs(v, a) && !occurs(v, b),
        forall|c: CapVid| !cap_occurs(c, a) && !cap_occurs(c, b),
    ensures
        unified(tb, a, b).1 is None ==> agrees(a, b),
        sound(a) && sound(b) && alike(a, b) ==> unified(tb, a, b) == (tb, None::<Clash>),
{
    unified_agree(tb, a, b);
    let tc = unified(tb, a, b).0;
    apply_fixed(a, |v: TyVid| look(tc, v), |c: CapVid| look_cap(tc, c));
    apply_fixed(b, |v: TyVid| look(tc, v), |c: CapVid| look_cap(tc, c));
    apply_fixed(a, |v: TyVid| look(tb, v), |c: CapVid| look_cap(tb, c));
    apply_fixed(b, |v: TyVid| look(tb, v), |c: CapVid| look_cap(tb, c));
    if sound(a) && sound(b) && alike(a, b) {
        alike_types_unify(tb, a, b);
    }
}

/// A variable that nothing is known of takes the type that it is unified with,
/// from either side, and nothing is learned of any other variable. Where it
/// occurs in the type, there is no such type.
pub proof fn variables_take_types(tb: Table, v: TyVid, t: Ty)
    requires
        v.0 < tb.types.len(),
        tb.types[v.0 as int] is None,
        resolve(tb, t) == t,
        !(t is Var) && !(t is Error) && !(t is Alias),
    ensures
        ({
            let (tc, clash) = unified(tb, Ty::Var(v), t);
            let (td, other) = unified(tb, t, Ty::Var(v));
            &&& tc == td && clash == other
            &&& occurs(v, t) ==> tc == tb && clash == Some(Clash::Occurs(v, t))
            &&& !occurs(v, t) ==> clash is None && look(tc, v) == t && tc.types.len()
                == tb.types.len() && tc.caps == tb.caps
            &&& forall|w: TyVid|
                w != v && w.0 < tb.types.len() && #[trigger] tb.types[w.0 as int] is None
                    ==> tc.types[w.0 as int] is None
        }),
{
    assert(resolve(tb, Ty::Var(v)) == Ty::Var(v));
}

/// Types of different shapes do not unify, and neither do those of different
/// constructors or of different numbers of parts.
pub proof fn different_shapes_clash(tb: Table, a: Ty, b: Ty)
    requires
        resolve(tb, a) == a,
        resolve(tb, b) == b,
        a is Con || a is Tuple || a is Fn || a is Record || a is Rigid,
        b is Con || b is Tuple || b is Fn || b is Record || b is Rigid,
    ensures
        a is Con != b is Con || a is Tuple != b is Tuple || a is Fn != b is Fn || a is Record
            != b is Record || a is Rigid != b is Rigid ==> unified(tb, a, b) == (
            tb,
            Some(Clash::Mismatch(a, b)),
        ),
        a is Con && b is Con && (a->Con_0 != b->Con_0 || a->Con_1.len() != b->Con_1.len())
            ==> unified(tb, a, b) == (tb, Some(Clash::Mismatch(a, b))),
        a is Tuple && b is Tuple && a->Tuple_0.len() != b->Tuple_0.len() ==> unified(tb, a, b) == (
            tb,
            Some(Clash::Width(a->Tuple_0.len(), b->Tuple_0.len())),
        ),
        a is Fn && b is Fn && a->Fn_params.len() != b->Fn_params.len() ==> unified(tb, a, b) == (
            tb,
            Some(Clash::Arity(a->Fn_params.len(), b->Fn_params.len())),
        ),
        a is Rigid && b is Rigid ==> (unified(tb, a, b).1 is None <==> a->Rigid_id == b->Rigid_id),
{
}

} // verus!

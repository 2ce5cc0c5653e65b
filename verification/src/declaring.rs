use vstd::prelude::*;

use crate::ast::{FnDecl, Param};
use crate::ctx::{in_scope, latest_binding_wins, with_binding, InferCtx};
use crate::decls::{
    bare_count, bind_bodies, bind_foreign, body_scope, decl_type, entered, left, opened_all,
    param_name, param_types, scheme_of, unsolved, unsolved_reports, with_params, wrote_back,
    written, Scope, Written,
};
use crate::diag::{diags, Desc, Diag};
use crate::dicts::{attached, kept_constraints_are_attached};
use crate::instantiate::{ascending, generalisation, is_generalisation, raw_caps, raw_vars};
use crate::scc::DeclId;
use crate::seeds::Seeding;
use crate::subst::{cap_occurs, occurs};
use crate::table::{resolve, solved, Table};
use crate::types::{CapRow, CapVid, Poly, Pred, Ty, TyVid};
use crate::unify::{agrees, unified_agree};

verus! {

/// A scheme that is a type and nothing else.
pub open spec fn only_type(p: Poly, t: Ty) -> bool {
    p.ty == t && p.vars.len() == 0 && p.cap_vars.len() == 0 && p.constraints.len() == 0
}

/// What a parameter is called in the source.
pub open spec fn called(p: Param) -> Seq<char> {
    match p {
        Param::Bare(id) => id.text@,
        Param::Annotated { name, ty: _ } => name.text@,
    }
}

/// A parameter with an annotation has the type that it says. Those without one
/// have new variables, each one of its own.
pub proof fn parameters_have_their_types(ps: Seq<Param>, from: nat)
    requires
        from + ps.len() <= u32::MAX,
    ensures
        param_types(ps, from).len() == ps.len(),
        bare_count(ps) <= ps.len(),
        forall|i: int|
            0 <= i < ps.len() ==> match #[trigger] ps[i] {
                Param::Annotated { name: _, ty } => param_types(ps, from)[i] == ty@,
                Param::Bare(_) => param_types(ps, from)[i] is Var && from <= (param_types(
                    ps,
                    from,
                )[i]->Var_0).0 < from + bare_count(ps),
            },
        forall|i: int, j: int|
            0 <= i < j < ps.len() && (#[trigger] ps[i]) is Bare && (#[trigger] ps[j]) is Bare
                ==> param_types(ps, from)[i] != param_types(ps, from)[j],
    decreases ps.len(),
{
    if ps.len() > 0 {
        let before = ps.drop_last();
        parameters_have_their_types(before, from);
        let tys = param_types(ps, from);
        let n = ps.len() - 1;
        assert forall|i: int| 0 <= i < ps.len() implies match #[trigger] ps[i] {
            Param::Annotated { name: _, ty } => tys[i] == ty@,
            Param::Bare(_) => tys[i] is Var && from <= (tys[i]->Var_0).0 < from + bare_count(ps),
        } by {
            if i < n {
                assert(before[i] == ps[i]);
                assert(tys[i] == param_types(before, from)[i]);
            } else {
                assert(ps[i] == ps.last());
            }
        }
        assert forall|i: int, j: int|
            0 <= i < j < ps.len() && (#[trigger] ps[i]) is Bare && (
            #[trigger] ps[j]) is Bare implies tys[i] != tys[j] by {
            assert(before[i] == ps[i]);
            assert(tys[i] == param_types(before, from)[i]);
            if j < n {
                assert(before[j] == ps[j]);
                assert(tys[j] == param_types(before, from)[j]);
            } else {
                assert(ps[j] == ps.last());
                assert((tys[i]->Var_0).0 < from + bare_count(before));
            }
        }
    }
}

/// A declaration has for its type a function of its parameters' types, with the
/// result and the capabilities that it declares. A result that is not declared is
/// a variable that no parameter has.
pub proof fn declarations_have_their_types(d: FnDecl, from: nat)
    requires
        from + d.params@.len() + 1 <= u32::MAX,
    ensures
        decl_type(d, from) matches Ty::Fn { params, ret, caps } && params == param_types(
            d.params@,
            from,
        ) && caps == CapRow::Concrete(d.caps) && match d.ret {
            Some(t) => *ret == t@,
            None => *ret is Var && ((*ret)->Var_0).0 >= from && forall|i: int|
                0 <= i < d.params@.len() && (#[trigger] d.params@[i]) is Bare ==> params[i] != *ret,
        },
{
    parameters_have_their_types(d.params@, from);
    let ps = param_types(d.params@, from);
    assert forall|i: int| 0 <= i < d.params@.len() && (#[trigger] d.params@[i]) is Bare implies (
    ps[i]->Var_0).0 < from + bare_count(d.params@) by {}
}

proof fn params_in_scope(
    env: Seq<Seq<(Seq<char>, Poly)>>,
    ps: Seq<Param>,
    tys: Seq<Ty>,
    k: nat,
    name: Seq<char>,
)
    requires
        env.len() > 0,
        k <= ps.len(),
        k <= tys.len(),
    ensures
        with_params(env, ps, tys, k).len() == env.len(),
        (forall|j: int| 0 <= j < k ==> called(#[trigger] ps[j]) != name) ==> in_scope(
            with_params(env, ps, tys, k),
            name,
        ) == in_scope(env, name),
        forall|i: int|
            0 <= i < k && called(#[trigger] ps[i]) == name && (forall|j: int|
                i < j < k ==> called(#[trigger] ps[j]) != name) ==> (in_scope(
                with_params(env, ps, tys, k),
                name,
            ) matches Some(p) && only_type(p, tys[i])),
    decreases k,
{
    if k > 0 {
        params_in_scope(env, ps, tys, (k - 1) as nat, name);
        let before = with_params(env, ps, tys, (k - 1) as nat);
        let own = called(ps[k - 1]);
        let other = if own != name {
            name
        } else {
            name.push('_')
        };
        assert(other != own) by {
            if own == name {
                assert(other.len() == name.len() + 1);
            }
        }
        let after = with_params(env, ps, tys, k);
        latest_binding_wins(before, param_name(ps[k - 1]), mono_of(tys[k - 1]), other);
        assert(after == with_binding(before, own, mono_of(tys[k - 1])));
        assert forall|i: int|
            0 <= i < k && called(#[trigger] ps[i]) == name && (forall|j: int|
                i < j < k ==> called(#[trigger] ps[j]) != name) implies (in_scope(
            after,
            name,
        ) matches Some(p) && only_type(p, tys[i])) by {
            if i < k - 1 {
                assert(called(ps[k - 1]) != name);
            }
        }
    }
}

proof fn longer(n: Seq<char>)
    ensures
        n.push('_') != n,
{
    assert(n.push('_').len() == n.len() + 1);
}

spec fn mono_of(t: Ty) -> Poly {
    Poly { vars: Seq::empty(), cap_vars: Seq::empty(), ty: t, constraints: Seq::empty() }
}

/// In the body of a declaration a parameter has the type that stands at its
/// place in the type of the declaration, the last of those of its name is meant,
/// and other names mean what they mean outside.
pub proof fn bodies_see_their_parameters(
    env: Seq<Seq<(Seq<char>, Poly)>>,
    d: FnDecl,
    t: Ty,
    name: Seq<char>,
)
    requires
        t is Fn,
        t->Fn_params.len() == d.params@.len(),
    ensures
        forall|i: int|
            0 <= i < d.params@.len() && called(#[trigger] d.params@[i]) == name && (forall|j: int|
                i < j < d.params@.len() ==> called(#[trigger] d.params@[j]) != name) ==> (in_scope(
                body_scope(env, d, t),
                name,
            ) matches Some(p) && only_type(p, t->Fn_params[i])),
        (forall|j: int| 0 <= j < d.params@.len() ==> called(#[trigger] d.params@[j]) != name)
            ==> in_scope(body_scope(env, d, t), name) == in_scope(env, name),
{
    let inner = env.push(Seq::empty());
    params_in_scope(inner, d.params@, t->Fn_params, d.params@.len(), name);
    assert(inner.drop_last() =~= env);
}

/// The body of a declaration is looked at with the parameters in scope under
/// their annotations, and with the declared result for the return type.
pub proof fn annotations_hold_in_bodies(c: InferCtx, a: InferCtx, d: FnDecl, from: nat, i: int)
    requires
        from + d.params@.len() + 1 <= u32::MAX,
        entered(c, a, d, decl_type(d, from)),
        0 <= i < d.params@.len(),
        forall|j: int|
            i < j < d.params@.len() ==> called(#[trigger] d.params@[j]) != called(d.params@[i]),
    ensures
        d.params@[i] matches Param::Annotated { name, ty } ==> (in_scope(
            a.env@,
            name.text@,
        ) matches Some(p) && only_type(p, ty@)),
        d.ret matches Some(r) ==> (a.current_fn_ret matches Some(x) && x@ == r@),
{
    let t = decl_type(d, from);
    parameters_have_their_types(d.params@, from);
    declarations_have_their_types(d, from);
    bodies_see_their_parameters(c.env@, d, t, called(d.params@[i]));
    assert(called(d.params@[i]) == called(d.params@[i]));
}

/// A body that is left without a diagnostic has the return type. One of another
/// constructor than the return type is reported, with both types.
pub proof fn bodies_have_the_return_type(
    z: InferCtx,
    r: InferCtx,
    d: FnDecl,
    t: Ty,
    body: Ty,
    saved: Option<crate::types::Type>,
)
    requires
        z.wf(),
        t is Fn,
        left(z, r, d, t, body, saved),
    ensures
        diags(r.errors@) == diags(z.errors@) ==> agrees(
            resolve(r.table(), body),
            resolve(r.table(), *t->Fn_ret),
        ),
        diags(r.errors@) != diags(z.errors@) ==> diags(r.errors@) == diags(z.errors@).push(
            Diag::Mismatch {
                expected: Desc::Ty(*t->Fn_ret),
                found: Desc::Ty(body),
                span: d.span,
                hint: None,
            },
        ),
        resolve(z.table(), body) is Con && resolve(z.table(), *t->Fn_ret) is Con && resolve(
            z.table(),
            body,
        )->Con_0 != resolve(z.table(), *t->Fn_ret)->Con_0 ==> diags(r.errors@) != diags(z.errors@),
        resolve(z.table(), body) == resolve(z.table(), *t->Fn_ret) && resolve(
            z.table(),
            body,
        ) is Var ==> diags(r.errors@) == diags(z.errors@),
        r.current_fn_ret == saved,
        r.env@ == z.env@.drop_last(),
{
    unified_agree(z.table(), body, *t->Fn_ret);
    let m = Diag::Mismatch {
        expected: Desc::Ty(*t->Fn_ret),
        found: Desc::Ty(body),
        span: d.span,
        hint: None,
    };
    assert(diags(z.errors@).push(m).len() == diags(z.errors@).len() + 1);
}

/// The members of a component have different names.
pub open spec fn told_apart(decls: Seq<FnDecl>, scc: Seq<DeclId>) -> bool {
    forall|i: int, j: int|
        0 <= i < scc.len() && 0 <= j < scc.len() && i != j ==> decls[(
        #[trigger] scc[i]).0 as int].name.text@ != decls[(#[trigger] scc[j]).0 as int].name.text@
}

/// A list of ids below `k` with a property, in ascending order.
spec fn ids_below(f: spec_fn(u32) -> bool, k: nat) -> Seq<u32>
    decreases k,
{
    if k == 0 {
        Seq::empty()
    } else if f((k - 1) as u32) {
        ids_below(f, (k - 1) as nat).push((k - 1) as u32)
    } else {
        ids_below(f, (k - 1) as nat)
    }
}

proof fn ids_listed(f: spec_fn(u32) -> bool, k: nat)
    requires
        k <= u32::MAX + 1,
    ensures
        ascending(ids_below(f, k)),
        forall|v: u32| #[trigger] ids_below(f, k).contains(v) <==> v < k && f(v),
        forall|i: int| 0 <= i < ids_below(f, k).len() ==> #[trigger] ids_below(f, k)[i] < k,
    decreases k,
{
    if k > 0 {
        ids_listed(f, (k - 1) as nat);
        let before = ids_below(f, (k - 1) as nat);
        let after = ids_below(f, k);
        let x = (k - 1) as u32;
        if f(x) {
            assert(after[before.len() as int] == x);
            assert forall|v: u32| #[trigger] after.contains(v) <==> v < k && f(v) by {
                if after.contains(v) {
                    let i = choose|i: int| 0 <= i < after.len() && after[i] == v;
                    if i < before.len() {
                        assert(before[i] == v);
                        assert(before.contains(v));
                    }
                }
                if v < k && f(v) && v != x {
                    assert(before.contains(v));
                    let i = choose|i: int| 0 <= i < before.len() && before[i] == v;
                    assert(after[i] == v);
                }
            }
            assert forall|i: int| 0 <= i < after.len() implies #[trigger] after[i] < k by {
                if i < before.len() {
                    assert(before[i] < k - 1);
                }
            }
            assert forall|a: int, b: int| 0 <= a < b < after.len() implies #[trigger] after[a]
                < #[trigger] after[b] by {
                assert(before[a] < k - 1);
                if b < before.len() {
                    assert(before[a] < before[b]);
                }
            }
        } else {
            assert forall|v: u32| #[trigger] after.contains(v) <==> v < k && f(v) by {
                assert(before.contains(v) <==> v < k - 1 && f(v));
            }
        }
    }
}

/// Every type has a generalisation.
proof fn generalises(tb: Table, t: Ty, env_ty: Set<u32>, env_cap: Set<u32>)
    ensures
        is_generalisation(generalisation(tb, t, env_ty, env_cap), tb, t, env_ty, env_cap),
{
    let ty = resolve(tb, t);
    let f = |v: u32| occurs(TyVid(v), ty) && !env_ty.contains(v);
    let g = |c: u32| cap_occurs(CapVid(c), ty) && !env_cap.contains(c);
    let n = (u32::MAX + 1) as nat;
    ids_listed(f, n);
    ids_listed(g, n);
    let vs = ids_below(f, n);
    let cs = ids_below(g, n);
    let p = Poly {
        vars: vs.map_values(|v: u32| TyVid(v)),
        cap_vars: cs.map_values(|c: u32| CapVid(c)),
        ty,
        constraints: Seq::empty(),
    };
    assert(raw_vars(p.vars) =~= vs);
    assert(raw_caps(p.cap_vars) =~= cs);
    assert forall|v: u32| #[trigger] p.vars.contains(TyVid(v)) <==> occurs(TyVid(v), p.ty)
        && !env_ty.contains(v) by {
        if p.vars.contains(TyVid(v)) {
            let i = choose|i: int| 0 <= i < p.vars.len() && p.vars[i] == TyVid(v);
            assert(vs[i] == v);
            assert(vs.contains(v));
        }
        if f(v) {
            assert(vs.contains(v));
            let i = choose|i: int| 0 <= i < vs.len() && vs[i] == v;
            assert(p.vars[i] == TyVid(v));
        }
    }
    assert forall|c: u32| #[trigger] p.cap_vars.contains(CapVid(c)) <==> cap_occurs(
        CapVid(c),
        p.ty,
    ) && !env_cap.contains(c) by {
        if p.cap_vars.contains(CapVid(c)) {
            let i = choose|i: int| 0 <= i < p.cap_vars.len() && p.cap_vars[i] == CapVid(c);
            assert(cs[i] == c);
            assert(cs.contains(c));
        }
        if g(c) {
            assert(cs.contains(c));
            let i = choose|i: int| 0 <= i < cs.len() && cs[i] == c;
            assert(p.cap_vars[i] == CapVid(c));
        }
    }
    assert(is_generalisation(p, tb, t, env_ty, env_cap));
}

/// `p` is the scheme of a type `t` of a component: the type with everything known
/// filled in, over the variables that the environment does not have, and under
/// those of the constraints that are about one of these.
pub open spec fn is_scheme(p: Poly, tb: Table, t: Ty, snap: Scope) -> bool {
    &&& p.ty == resolve(tb, t)
    &&& forall|v: u32| #[trigger]
        p.vars.contains(TyVid(v)) <==> occurs(TyVid(v), p.ty) && !snap.vars.contains(v)
    &&& forall|c: u32| #[trigger]
        p.cap_vars.contains(CapVid(c)) <==> cap_occurs(CapVid(c), p.ty) && !snap.caps.contains(c)
    &&& forall|c: Pred| #[trigger]
        p.constraints.contains(c) <==> snap.kept.contains(c) && exists|i: int|
            0 <= i < c.tys.len() && p.vars.contains(#[trigger] c.tys[i])
}

proof fn scheme_holds(tb: Table, tys: Seq<Ty>, snap: Scope, i: int)
    ensures
        is_scheme(scheme_of(tb, tys, snap, i), tb, tys[i], snap),
{
    generalises(tb, tys[i], snap.vars, snap.caps);
    let g = generalisation(tb, tys[i], snap.vars, snap.caps);
    let p = attached(g, snap.kept);
    assert forall|c: Pred| #[trigger] p.constraints.contains(c) <==> snap.kept.contains(c)
        && exists|i: int| 0 <= i < c.tys.len() && p.vars.contains(#[trigger] c.tys[i]) by {
        kept_constraints_are_attached(g, snap.kept, c);
    }
}

spec fn bound_to(w: Written, name: Seq<char>, p: Poly) -> bool {
    in_scope(w.env, name) == Some(p) && w.names.dom().contains(name) && w.names[name] == p
}

proof fn foreign_bound(
    decls: Seq<FnDecl>,
    scc: Seq<DeclId>,
    tb: Table,
    tys: Seq<Ty>,
    snap: Scope,
    w: Written,
    k: nat,
)
    requires
        k <= scc.len(),
        w.env.len() > 0,
        told_apart(decls, scc),
    ensures
        bind_foreign(decls, scc, tb, tys, snap, w, k).env.len() == w.env.len(),
        forall|i: int|
            0 <= i < k && decls[(#[trigger] scc[i]).0 as int].body is Ffi ==> bound_to(
                bind_foreign(decls, scc, tb, tys, snap, w, k),
                decls[scc[i].0 as int].name.text@,
                scheme_of(tb, tys, snap, i),
            ),
        forall|i: int, x: Poly|
            0 <= i < scc.len() && decls[(#[trigger] scc[i]).0 as int].body !is Ffi
                && #[trigger] bound_to(w, decls[scc[i].0 as int].name.text@, x) ==> bound_to(
                bind_foreign(decls, scc, tb, tys, snap, w, k),
                decls[scc[i].0 as int].name.text@,
                x,
            ),
    decreases k,
{
    if k > 0 {
        foreign_bound(decls, scc, tb, tys, snap, w, (k - 1) as nat);
        let before = bind_foreign(decls, scc, tb, tys, snap, w, (k - 1) as nat);
        let after = bind_foreign(decls, scc, tb, tys, snap, w, k);
        let d = decls[scc[k - 1].0 as int];
        let p = scheme_of(tb, tys, snap, k - 1);
        if d.body is Ffi {
            assert forall|n: Seq<char>, x: Poly| n != d.name.text@ && #[trigger] bound_to(
                before,
                n,
                x,
            ) implies bound_to(after, n, x) by {
                latest_binding_wins(before.env, d.name.text@, p, n);
            }
            longer(d.name.text@);
            latest_binding_wins(before.env, d.name.text@, p, d.name.text@.push('_'));
            assert(bound_to(after, d.name.text@, p));
            assert forall|i: int|
                0 <= i < k && decls[(#[trigger] scc[i]).0 as int].body is Ffi implies bound_to(
                after,
                decls[scc[i].0 as int].name.text@,
                scheme_of(tb, tys, snap, i),
            ) by {
                if i < k - 1 {
                    assert(decls[scc[i].0 as int].name.text@ != decls[scc[k
                        - 1].0 as int].name.text@);
                }
            }
            assert forall|i: int, x: Poly|
                0 <= i < scc.len() && decls[(#[trigger] scc[i]).0 as int].body !is Ffi
                    && #[trigger] bound_to(
                    w,
                    decls[scc[i].0 as int].name.text@,
                    x,
                ) implies bound_to(after, decls[scc[i].0 as int].name.text@, x) by {
                assert(i != k - 1);
                assert(decls[scc[i].0 as int].name.text@ != decls[scc[k - 1].0 as int].name.text@);
            }
        }
    }
}

proof fn bodies_bound(
    ids: crate::ctx::NodeIdMap,
    decls: Seq<FnDecl>,
    scc: Seq<DeclId>,
    tb: Table,
    tys: Seq<Ty>,
    snap: Scope,
    w: Written,
    k: nat,
)
    requires
        k <= scc.len(),
        w.env.len() > 0,
        told_apart(decls, scc),
    ensures
        bind_bodies(ids, decls, scc, tb, tys, snap, w, k).env.len() == w.env.len(),
        forall|i: int|
            0 <= i < k && decls[(#[trigger] scc[i]).0 as int].body !is Ffi ==> bound_to(
                bind_bodies(ids, decls, scc, tb, tys, snap, w, k),
                decls[scc[i].0 as int].name.text@,
                scheme_of(tb, tys, snap, i),
            ),
        forall|i: int, x: Poly|
            0 <= i < scc.len() && decls[(#[trigger] scc[i]).0 as int].body is Ffi
                && #[trigger] bound_to(w, decls[scc[i].0 as int].name.text@, x) ==> bound_to(
                bind_bodies(ids, decls, scc, tb, tys, snap, w, k),
                decls[scc[i].0 as int].name.text@,
                x,
            ),
    decreases k,
{
    if k > 0 {
        bodies_bound(ids, decls, scc, tb, tys, snap, w, (k - 1) as nat);
        let before = bind_bodies(ids, decls, scc, tb, tys, snap, w, (k - 1) as nat);
        let after = bind_bodies(ids, decls, scc, tb, tys, snap, w, k);
        let d = decls[scc[k - 1].0 as int];
        let p = scheme_of(tb, tys, snap, k - 1);
        if d.body !is Ffi {
            assert forall|n: Seq<char>, x: Poly| n != d.name.text@ && #[trigger] bound_to(
                before,
                n,
                x,
            ) implies bound_to(after, n, x) by {
                latest_binding_wins(before.env, d.name.text@, p, n);
            }
            longer(d.name.text@);
            latest_binding_wins(before.env, d.name.text@, p, d.name.text@.push('_'));
            assert(bound_to(after, d.name.text@, p));
            assert forall|i: int|
                0 <= i < k && decls[(#[trigger] scc[i]).0 as int].body !is Ffi implies bound_to(
                after,
                decls[scc[i].0 as int].name.text@,
                scheme_of(tb, tys, snap, i),
            ) by {
                if i < k - 1 {
                    assert(decls[scc[i].0 as int].name.text@ != decls[scc[k
                        - 1].0 as int].name.text@);
                }
            }
            assert forall|i: int, x: Poly|
                0 <= i < scc.len() && decls[(#[trigger] scc[i]).0 as int].body is Ffi
                    && #[trigger] bound_to(
                    w,
                    decls[scc[i].0 as int].name.text@,
                    x,
                ) implies bound_to(after, decls[scc[i].0 as int].name.text@, x) by {
                assert(i != k - 1);
                assert(decls[scc[i].0 as int].name.text@ != decls[scc[k - 1].0 as int].name.text@);
            }
        }
    }
}

/// Once a component is checked, the name of each of its declarations means the
/// scheme of the declaration's own type, and is noted under it.
pub proof fn declarations_are_bound_to_their_schemes(
    c: InferCtx,
    d: InferCtx,
    decls: Seq<FnDecl>,
    scc: Seq<DeclId>,
    tys: Seq<Ty>,
    snap: Scope,
    i: int,
)
    requires
        c.env@.len() > 0,
        told_apart(decls, scc),
        wrote_back(c, d, decls, scc, tys, snap),
        0 <= i < scc.len(),
    ensures
        in_scope(d.env@, decls[scc[i].0 as int].name.text@) matches Some(p) && is_scheme(
            p,
            c.table(),
            tys[i],
            snap,
        ) && written(d).names.dom().contains(decls[scc[i].0 as int].name.text@) && written(
            d,
        ).names[decls[scc[i].0 as int].name.text@] == p,
{
    let w = written(c);
    let tb = c.table();
    let name = decls[scc[i].0 as int].name.text@;
    foreign_bound(decls, scc, tb, tys, snap, w, scc.len());
    let f = bind_foreign(decls, scc, tb, tys, snap, w, scc.len());
    bodies_bound(c.node_ids, decls, scc, tb, tys, snap, f, scc.len());
    scheme_holds(tb, tys, snap, i);
    if decls[scc[i].0 as int].body is Ffi {
        assert(bound_to(f, name, scheme_of(tb, tys, snap, i)));
    }
    assert(bound_to(written(d), name, scheme_of(tb, tys, snap, i)));
}

/// Opening a component binds each of its declarations to its own type, so that
/// all of them can be called from all of the bodies.
pub proof fn members_can_be_called(
    decls: Seq<FnDecl>,
    scc: Seq<DeclId>,
    s: Seeding,
    k: nat,
    i: int,
)
    requires
        s.env.len() > 0,
        told_apart(decls, scc),
        0 <= i < k <= scc.len(),
    ensures
        ({
            let (t, tys) = opened_all(decls, scc, s, k);
            &&& tys.len() == k
            &&& t.env.len() == s.env.len()
            &&& exists|from: nat| tys[i] == #[trigger] decl_type(decls[scc[i].0 as int], from)
            &&& in_scope(t.env, decls[scc[i].0 as int].name.text@) matches Some(p) && only_type(
                p,
                tys[i],
            )
        }),
    decreases k,
{
    let (before, earlier) = opened_all(decls, scc, s, (k - 1) as nat);
    let (t, tys) = opened_all(decls, scc, s, k);
    let d = decls[scc[k - 1].0 as int];
    let ty = decl_type(d, before.vars);
    if k > 1 {
        members_can_be_called(decls, scc, s, (k - 1) as nat, 0);
    }
    let name = decls[scc[i].0 as int].name.text@;
    if i < k - 1 {
        members_can_be_called(decls, scc, s, (k - 1) as nat, i);
        assert(name != d.name.text@) by {
            assert(decls[scc[i].0 as int].name.text@ != decls[scc[k - 1].0 as int].name.text@);
        }
        latest_binding_wins(before.env, d.name.text@, mono_of(ty), name);
        assert(tys[i] == earlier[i]);
    } else {
        longer(name);
        latest_binding_wins(before.env, d.name.text@, mono_of(ty), name.push('_'));
    }
}

/// A variable is reported as never solved where it is free in the scheme of a
/// binding, and only then.
pub proof fn reports_are_of_free_variables(tb: Table, frame: Seq<(Seq<char>, Poly)>, k: int, v: u32)
    requires
        0 <= k < frame.len(),
        unsolved(tb, frame[k].1).contains(v),
    ensures
        unsolved_reports(tb, frame).len() > 0,
    decreases frame.len(),
{
    let n = frame.len() - 1;
    if k < n {
        assert(frame.drop_last()[k] == frame[k]);
        reports_are_of_free_variables(tb, frame.drop_last(), k, v);
    } else {
        assert(frame.last() == frame[k]);
    }
}

} // verus!

use rustc_hash::FxHashSet;
use vstd::prelude::*;

use crate::ast::{span_of, Body, Expr, FnDecl, Param};
use crate::call_graph::{build_call_graph, is_call_graph};
use crate::classes::{ClassTable, InstanceEnv};
use crate::ctx::{in_frame, rebound_keeps, with_binding, InferCtx, NodeIdMap, NodeKind};
use crate::diag::{diag, diags, Desc, Diag};
use crate::dicts::{attach, attached, constraints_solved, solve_component, Registries};
use crate::error::{TypeDesc, TypeError};
use crate::fx::{by_name, insert_id, list_ids, put_id, put_name};
use crate::instantiate::{
    ascending, ascending_unique, cap_free_in_env, collect_free_vars, difference, env_free_vars,
    free_in, free_in_env, generalisation, generalisation_is_one, generalise_with_env, monoscheme,
    with_slots,
};
use crate::scc::{
    are_sccs, contents, in_component, listed, listed_once, tarjan_sccs, CallGraph, DeclId,
};
use crate::seeds::{bind_seed, can_seed, only_seeded, seeded_none, seeded_twice, seeding, Seeding};
use crate::subst::{cap_occurs, occurs};
use crate::table::{resolve, Table};
use crate::text::{decimal, digits, text5};
use crate::types::{
    mono, preds, views, BuiltinTyCons, CapRow, CapVid, Constraint, Poly, Pred, Scheme, Span, Ty,
    TyVid, Type,
};
use crate::unify::{unified, unified_agree, unify};

verus! {

broadcast use {crate::types::group_views, crate::diag::diags_push};

/// How many parameters have no annotation.
pub open spec fn bare_count(ps: Seq<Param>) -> nat
    decreases ps.len(),
{
    if ps.len() == 0 {
        0
    } else {
        bare_count(ps.drop_last()) + if ps.last() is Bare {
            1nat
        } else {
            0nat
        }
    }
}

/// The types of parameters: their annotations, or new variables.
pub open spec fn param_types(ps: Seq<Param>, from: nat) -> Seq<Ty>
    decreases ps.len(),
{
    if ps.len() == 0 {
        Seq::empty()
    } else {
        param_types(ps.drop_last(), from).push(
            match ps.last() {
                Param::Bare(_) => Ty::Var(
                    TyVid((from + bare_count(ps.drop_last())) as u32),
                ),
                Param::Annotated { name, ty } => ty@,
            },
        )
    }
}

/// How many new variables the type of a declaration has.
pub open spec fn decl_cost(d: FnDecl) -> nat {
    bare_count(d.params@) + if d.ret is None {
        1nat
    } else {
        0nat
    }
}

/// The type that a declaration has before its body is looked at: what its
/// annotations say, and new variables for the rest.
pub open spec fn decl_type(d: FnDecl, from: nat) -> Ty {
    Ty::Fn {
        params: param_types(d.params@, from),
        ret: Box::new(
            match d.ret {
                Some(t) => t@,
                None => Ty::Var(TyVid((from + bare_count(d.params@)) as u32)),
            },
        ),
        caps: CapRow::Concrete(d.caps),
    }
}

fn fresh_params(ctx: &mut InferCtx, ps: &Vec<Param>) -> (r: Vec<Type>)
    requires
        old(ctx).wf(),
        old(ctx).has_room(bare_count(ps@) as int),
    ensures
        final(ctx).wf(),
        views(r@) == param_types(ps@, old(ctx).table().types.len()),
        final(ctx).table() == (Table {
            types: with_slots(old(ctx).table().types, bare_count(ps@)),
            ..old(ctx).table()
        }),
        *final(ctx) == (InferCtx { vars: final(ctx).vars, ..*old(ctx) }),
{
    let ghost tb = ctx.table();
    let ghost from = tb.types.len();
    let mut out: Vec<Type> = Vec::new();
    let mut i: usize = 0;
    assert(ps@.take(0) =~= Seq::empty());
    assert(views(out@) =~= Seq::empty());
    assert(with_slots(tb.types, 0) =~= tb.types);
    while i < ps.len()
        invariant
            i <= ps@.len(),
            ctx.wf(),
            tb == old(ctx).table(),
            from == tb.types.len(),
            from + bare_count(ps@) <= u32::MAX,
            views(out@) == param_types(ps@.take(i as int), from),
            ctx.table() == (Table {
                types: with_slots(tb.types, bare_count(ps@.take(i as int))),
                ..tb
            }),
            *ctx == (InferCtx { vars: ctx.vars, ..*old(ctx) }),
        decreases ps@.len() - i,
    {
        proof {
            assert(ps@.take(i + 1).drop_last() =~= ps@.take(i as int));
            assert(ps@.take(i + 1).last() == ps@[i as int]);
            bare_prefix(ps@, (i + 1) as nat);
        }
        let ghost was = out@;
        let ghost n = bare_count(ps@.take(i as int));
        let ty = match &ps[i] {
            Param::Bare(_) => {
                let v = ctx.fresh_tyvid();
                assert(with_slots(tb.types, n).push(None) =~= with_slots(tb.types, n + 1));
                Type::Var(v)
            },
            Param::Annotated { name: _, ty } => ty.clone(),
        };
        out.push(ty);
        assert(views(out@) =~= views(was).push(ty@));
        i = i + 1;
    }
    assert(ps@.take(i as int) =~= ps@);
    out
}

proof fn bare_prefix(ps: Seq<Param>, k: nat)
    requires
        k <= ps.len(),
    ensures
        bare_count(ps.take(k as int)) <= bare_count(ps),
    decreases ps.len() - k,
{
    if k == ps.len() {
        assert(ps.take(k as int) =~= ps);
    } else {
        assert(ps.take((k + 1) as int).drop_last() =~= ps.take(k as int));
        bare_prefix(ps, k + 1);
    }
}

/// What opening a declaration binds: its name, to its type so far.
pub open spec fn opened(d: FnDecl, s: Seeding) -> Seeding {
    bind_seed(s, d.name.text@, decl_cost(d), mono(decl_type(d, s.vars)))
}

/// Gives a declaration a type and binds its name to it, so that it can be
/// called while its body is looked at.
pub fn open_decl(ctx: &mut InferCtx, d: &FnDecl) -> (r: Type)
    requires
        can_seed(*old(ctx), decl_cost(*d) as int),
    ensures
        r@ == decl_type(*d, old(ctx).table().types.len()),
        seeding(*final(ctx)) == opened(*d, seeding(*old(ctx))),
        only_seeded(*old(ctx), *final(ctx)),
{
    let ghost tb = ctx.table();
    let params = fresh_params(ctx, &d.params);
    let ghost n = bare_count(d.params@);
    let ret = match &d.ret {
        Some(t) => t.clone(),
        None => {
            let v = ctx.fresh_tyvid();
            assert(with_slots(tb.types, n).push(None) =~= with_slots(tb.types, n + 1));
            Type::Var(v)
        },
    };
    let ty = Type::Fn { params, ret: Box::new(ret), caps: CapRow::Concrete(d.caps) };
    assert(ty@ == Ty::Fn {
        params: views(params@),
        ret: Box::new(ret@),
        caps: CapRow::Concrete(d.caps),
    });
    ctx.env.bind(d.name.text.clone(), monoscheme(ty.clone()));
    ty
}

/// The scopes with parameters bound to types, as far as there are both.
pub open spec fn with_params(
    env: Seq<Seq<(Seq<char>, Poly)>>,
    ps: Seq<Param>,
    tys: Seq<Ty>,
    k: nat,
) -> Seq<Seq<(Seq<char>, Poly)>>
    decreases k,
{
    if k == 0 || k > ps.len() || k > tys.len() {
        env
    } else {
        with_binding(
            with_params(env, ps, tys, (k - 1) as nat),
            param_name(ps[k - 1]),
            mono(tys[k - 1]),
        )
    }
}

/// The name of a parameter.
pub open spec fn param_name(p: Param) -> Seq<char> {
    match p {
        Param::Bare(id) => id.text@,
        Param::Annotated { name, ty } => name.text@,
    }
}

/// The smaller of two lengths.
pub open spec fn shorter(a: nat, b: nat) -> nat {
    if a <= b {
        a
    } else {
        b
    }
}

fn bind_params(ctx: &mut InferCtx, ps: &Vec<Param>, tys: &Vec<Type>)
    requires
        old(ctx).env@.len() > 0,
    ensures
        final(ctx).env@ == with_params(
            old(ctx).env@,
            ps@,
            views(tys@),
            shorter(ps@.len(), tys@.len()),
        ),
        final(ctx).env@.len() == old(ctx).env@.len(),
        *final(ctx) == (InferCtx { env: final(ctx).env, ..*old(ctx) }),
{
    let ghost env = ctx.env@;
    let mut i: usize = 0;
    while i < ps.len() && i < tys.len()
        invariant
            i <= ps@.len(),
            i <= tys@.len(),
            env == old(ctx).env@,
            env.len() > 0,
            ctx.env@.len() == env.len(),
            ctx.env@ == with_params(env, ps@, views(tys@), i as nat),
            *ctx == (InferCtx { env: ctx.env, ..*old(ctx) }),
        decreases ps@.len() - i,
    {
        let name = match &ps[i] {
            Param::Bare(id) => id.text.clone(),
            Param::Annotated { name, ty: _ } => name.text.clone(),
        };
        assert(views(tys@)[i as int] == tys@[i as int]@);
        ctx.env.bind(name, monoscheme(tys[i].clone()));
        i = i + 1;
    }
}

/// The parameters of a function type.
pub open spec fn fn_params(t: Ty) -> Seq<Ty> {
    t->Fn_params
}

/// The scopes in which the body of a declaration is looked at.
pub open spec fn body_scope(env: Seq<Seq<(Seq<char>, Poly)>>, d: FnDecl, t: Ty) -> Seq<
    Seq<(Seq<char>, Poly)>,
> {
    with_params(
        env.push(Seq::empty()),
        d.params@,
        fn_params(t),
        shorter(d.params@.len(), fn_params(t).len()),
    )
}

/// `a` is `c` inside the body of a declaration with type `t`.
pub open spec fn entered(c: InferCtx, a: InferCtx, d: FnDecl, t: Ty) -> bool {
    &&& a.env@ == body_scope(c.env@, d, t)
    &&& a.current_fn_ret matches Some(r) && r@ == *t->Fn_ret
    &&& a == (InferCtx { env: a.env, current_fn_ret: a.current_fn_ret, ..c })
}

/// Enters the body of a declaration that has a function type: opens a scope
/// with the parameters in it and notes the return type. Gives back the return
/// type of the function around it.
pub fn enter_decl(ctx: &mut InferCtx, d: &FnDecl, fn_ty: &Type) -> (saved: Option<Type>)
    requires
        fn_ty@ is Fn,
    ensures
        entered(*old(ctx), *final(ctx), *d, fn_ty@),
        final(ctx).env@.len() == old(ctx).env@.len() + 1,
        saved == old(ctx).current_fn_ret,
{
    let mut saved: Option<Type> = None;
    std::mem::swap(&mut saved, &mut ctx.current_fn_ret);
    ctx.env.push_frame();
    match fn_ty {
        Type::Fn { params, ret, caps } => {
            assert(fn_ty@ == Ty::Fn { params: views(params@), ret: Box::new(ret@), caps: *caps });
            ctx.current_fn_ret = Some((**ret).clone());
            bind_params(ctx, &d.params, params);
        },
        _ => {},
    }
    saved
}

/// The report of a body that does not have the return type.
pub open spec fn body_mismatch(d: FnDecl, ret: Ty, body: Ty) -> Diag {
    Diag::Mismatch { expected: Desc::Ty(ret), found: Desc::Ty(body), span: d.span, hint: None }
}

/// `r` is `z` outside the body of a declaration with type `t`, whose body has
/// type `body`: the body must have the return type, the scope is closed and the
/// return type of the function around comes back.
pub open spec fn left(
    z: InferCtx,
    r: InferCtx,
    d: FnDecl,
    t: Ty,
    body: Ty,
    saved: Option<Type>,
) -> bool {
    let (tb, clash) = unified(z.table(), body, *t->Fn_ret);
    &&& r.env@ == z.env@.drop_last()
    &&& r.table() == tb
    &&& diags(r.errors@) == if clash is Some {
        diags(z.errors@).push(body_mismatch(d, *t->Fn_ret, body))
    } else {
        diags(z.errors@)
    }
    &&& r.current_fn_ret == saved
    &&& r == (InferCtx {
        vars: r.vars,
        env: r.env,
        errors: r.errors,
        current_fn_ret: r.current_fn_ret,
        ..z
    })
}

/// Leaves the body of a declaration: the type of the body must be the return
/// type. The scope and the return type of the function around it come back.
pub fn leave_decl(
    ctx: &mut InferCtx,
    d: &FnDecl,
    fn_ty: &Type,
    body_ty: &Type,
    saved: Option<Type>,
)
    requires
        old(ctx).wf(),
        old(ctx).env@.len() > 0,
        fn_ty@ is Fn,
    ensures
        final(ctx).wf(),
        left(*old(ctx), *final(ctx), *d, fn_ty@, body_ty@, saved),
{
    match fn_ty {
        Type::Fn { params, ret, caps } => {
            assert(fn_ty@ == Ty::Fn { params: views(params@), ret: Box::new(ret@), caps: *caps });
            if unify(&mut ctx.vars, body_ty, ret).is_err() {
                ctx.errors.push(
                    TypeError::TypeMismatch {
                        expected: TypeDesc::Ty((**ret).clone()),
                        found: TypeDesc::Ty(body_ty.clone()),
                        span: d.span,
                        hint: None,
                    },
                );
            }
        },
        _ => {},
    }
    ctx.current_fn_ret = saved;
    ctx.env.pop_frame();
}

/// The id of a body.
pub open spec fn body_id(ids: NodeIdMap, e: Expr) -> Option<u32> {
    match e {
        Expr::Block(block) => ids.at(block.span, NodeKind::Block),
        Expr::Try { block, span } => ids.at(span, NodeKind::Try),
        _ => ids.at(span_of(e), NodeKind::Expr),
    }
}

pub(crate) fn node_of_body(ids: &NodeIdMap, e: &Expr) -> (r: Option<u32>)
    ensures
        r == body_id(*ids, *e),
{
    match e {
        Expr::Block(block) => ids.get(block.span, NodeKind::Block),
        Expr::Try { block: _, span } => ids.get(*span, NodeKind::Try),
        _ => ids.get(e.span(), NodeKind::Expr),
    }
}

/// What a table of schemes denotes.
pub open spec fn polys(m: Map<u32, Scheme>) -> Map<u32, Poly> {
    m.map_values(|s: Scheme| s@)
}

/// What writing back the schemes of a component changes.
#[verifier::ext_equal]
pub struct Written {
    pub env: Seq<Seq<(Seq<char>, Poly)>>,
    pub schemes: Map<u32, Poly>,
    pub names: Map<Seq<char>, Poly>,
}

/// What a table of schemes by name denotes.
pub open spec fn named_polys(m: Map<String, Scheme>) -> Map<Seq<char>, Poly> {
    by_name(m).map_values(|s: Scheme| s@)
}

/// What a context holds of that.
pub open spec fn written(ctx: InferCtx) -> Written {
    Written {
        env: ctx.env@,
        schemes: polys(ctx.schemes_accum@),
        names: named_polys(ctx.name_schemes_accum@),
    }
}

/// What the types of a component are generalised against: what was free in the
/// environment before, and the constraints that were kept.
#[verifier::ext_equal]
pub struct Scope {
    pub vars: Set<u32>,
    pub caps: Set<u32>,
    pub kept: Seq<Pred>,
}

/// The generalised scheme of a declaration of a component.
pub open spec fn scheme_of(tb: Table, tys: Seq<Ty>, snap: Scope, i: int) -> Poly {
    attached(generalisation(tb, tys[i], snap.vars, snap.caps), snap.kept)
}

/// The first `k` declarations of a component that have no body bound to their
/// schemes, and these noted under the names.
pub open spec fn bind_foreign(
    decls: Seq<FnDecl>,
    scc: Seq<DeclId>,
    tb: Table,
    tys: Seq<Ty>,
    snap: Scope,
    w: Written,
    k: nat,
) -> Written
    decreases k,
{
    if k == 0 || k > scc.len() {
        w
    } else {
        let before = bind_foreign(decls, scc, tb, tys, snap, w, (k - 1) as nat);
        let d = decls[scc[k - 1].0 as int];
        if d.body is Ffi {
            let p = scheme_of(tb, tys, snap, k - 1);
            Written {
                env: with_binding(before.env, d.name.text@, p),
                names: before.names.insert(d.name.text@, p),
                ..before
            }
        } else {
            before
        }
    }
}

/// The first `k` declarations of a component that have a body bound to their
/// schemes, and these noted under the ids of the bodies and under the names.
pub open spec fn bind_bodies(
    ids: NodeIdMap,
    decls: Seq<FnDecl>,
    scc: Seq<DeclId>,
    tb: Table,
    tys: Seq<Ty>,
    snap: Scope,
    w: Written,
    k: nat,
) -> Written
    decreases k,
{
    if k == 0 || k > scc.len() {
        w
    } else {
        let before = bind_bodies(ids, decls, scc, tb, tys, snap, w, (k - 1) as nat);
        let d = decls[scc[k - 1].0 as int];
        let p = scheme_of(tb, tys, snap, k - 1);
        match d.body {
            Body::Ffi => before,
            Body::Expr(e) => Written {
                env: with_binding(before.env, d.name.text@, p),
                schemes: match body_id(ids, e) {
                    Some(id) => before.schemes.insert(id, p),
                    None => before.schemes,
                },
                names: before.names.insert(d.name.text@, p),
            },
        }
    }
}

/// Every member of a component is a declaration.
pub open spec fn names_members(decls: Seq<FnDecl>, scc: Seq<DeclId>) -> bool {
    forall|i: int| 0 <= i < scc.len() ==> (#[trigger] scc[i]).0 < decls.len()
}

/// `d` is `c` with the declarations of a component generalised: first those
/// without a body are bound to their schemes, and then those with one.
pub open spec fn wrote_back(
    c: InferCtx,
    d: InferCtx,
    decls: Seq<FnDecl>,
    scc: Seq<DeclId>,
    tys: Seq<Ty>,
    snap: Scope,
) -> bool {
    let foreign = bind_foreign(decls, scc, c.table(), tys, snap, written(c), scc.len());
    &&& written(d) == bind_bodies(
        c.node_ids,
        decls,
        scc,
        c.table(),
        tys,
        snap,
        foreign,
        scc.len(),
    )
    &&& d == (InferCtx {
        env: d.env,
        schemes_accum: d.schemes_accum,
        name_schemes_accum: d.name_schemes_accum,
        ..c
    })
}

proof fn named_once_more(m: Map<String, Scheme>, r: Map<String, Scheme>, name: Seq<char>, x: Scheme)
    requires
        by_name(r) == by_name(m).insert(name, x),
    ensures
        named_polys(r) == named_polys(m).insert(name, x@),
{
    assert(named_polys(r) =~= named_polys(m).insert(name, x@));
}

/// Generalises the types of the declarations of a component against what was
/// free in the environment before, under the constraints that were kept, and
/// binds their names to the schemes.
pub fn write_back_schemes(
    ctx: &mut InferCtx,
    scc: &Vec<DeclId>,
    decls: &Vec<FnDecl>,
    fn_types: &Vec<Type>,
    env_snap_ty: &FxHashSet<u32>,
    env_snap_cap: &FxHashSet<u32>,
    kept: &Vec<Constraint>,
)
    requires
        old(ctx).env@.len() > 0,
        names_members(decls@, scc@),
        fn_types@.len() == scc@.len(),
    ensures
        wrote_back(
            *old(ctx),
            *final(ctx),
            decls@,
            scc@,
            views(fn_types@),
            (Scope { vars: env_snap_ty@, caps: env_snap_cap@, kept: preds(kept@) }),
        ),
        final(ctx).env@.len() == old(ctx).env@.len(),
{
    let ghost tb = ctx.table();
    let ghost tys = views(fn_types@);
    let ghost snap = Scope { vars: env_snap_ty@, caps: env_snap_cap@, kept: preds(kept@) };
    let ghost w0 = written(*ctx);
    let mut i: usize = 0;
    while i < scc.len()
        invariant
            i <= scc@.len(),
            names_members(decls@, scc@),
            fn_types@.len() == scc@.len(),
            tb == ctx.table(),
            tys == views(fn_types@),
            snap == (Scope { vars: env_snap_ty@, caps: env_snap_cap@, kept: preds(kept@) }),
            ctx.env@.len() == old(ctx).env@.len(),
            ctx.env@.len() > 0,
            written(*ctx) == bind_foreign(decls@, scc@, tb, tys, snap, w0, i as nat),
            *ctx == (InferCtx {
                env: ctx.env,
                name_schemes_accum: ctx.name_schemes_accum,
                ..*old(ctx)
            }),
        decreases scc@.len() - i,
    {
        let d = &decls[scc[i].0];
        match &d.body {
            Body::Ffi => {
                let general = generalise_with_env(ctx, &fn_types[i], env_snap_ty, env_snap_cap);
                proof {
                    assert(tys[i as int] == fn_types@[i as int]@);
                    generalisation_is_one(general@, tb, tys[i as int], snap.vars, snap.caps);
                }
                let scheme = attach(general, kept);
                let ghost was = ctx.name_schemes_accum@;
                let copy = scheme.clone();
                put_name(&mut ctx.name_schemes_accum, d.name.text.clone(), copy);
                proof {
                    named_once_more(was, ctx.name_schemes_accum@, d.name.text@, copy);
                }
                ctx.env.bind(d.name.text.clone(), scheme);
            },
            Body::Expr(_) => {},
        }
        i = i + 1;
        assert(written(*ctx) =~= bind_foreign(decls@, scc@, tb, tys, snap, w0, i as nat));
    }
    let ghost w1 = written(*ctx);
    let ghost ids = ctx.node_ids;
    let mut k: usize = 0;
    while k < scc.len()
        invariant
            k <= scc@.len(),
            names_members(decls@, scc@),
            fn_types@.len() == scc@.len(),
            tb == ctx.table(),
            ids == ctx.node_ids,
            tys == views(fn_types@),
            snap == (Scope { vars: env_snap_ty@, caps: env_snap_cap@, kept: preds(kept@) }),
            ctx.env@.len() == old(ctx).env@.len(),
            ctx.env@.len() > 0,
            written(*ctx) == bind_bodies(ids, decls@, scc@, tb, tys, snap, w1, k as nat),
            *ctx == (InferCtx {
                env: ctx.env,
                schemes_accum: ctx.schemes_accum,
                name_schemes_accum: ctx.name_schemes_accum,
                ..*old(ctx)
            }),
        decreases scc@.len() - k,
    {
        let d = &decls[scc[k].0];
        match &d.body {
            Body::Ffi => {},
            Body::Expr(e) => {
                let general = generalise_with_env(ctx, &fn_types[k], env_snap_ty, env_snap_cap);
                proof {
                    assert(tys[k as int] == fn_types@[k as int]@);
                    generalisation_is_one(general@, tb, tys[k as int], snap.vars, snap.caps);
                }
                let scheme = attach(general, kept);
                if let Some(id) = node_of_body(&ctx.node_ids, e) {
                    let ghost was = ctx.schemes_accum@;
                    let copy = scheme.clone();
                    put_id(&mut ctx.schemes_accum, id, copy);
                    assert(polys(ctx.schemes_accum@) =~= polys(was).insert(id, scheme@));
                }
                let ghost was = ctx.name_schemes_accum@;
                let copy = scheme.clone();
                put_name(&mut ctx.name_schemes_accum, d.name.text.clone(), copy);
                proof {
                    named_once_more(was, ctx.name_schemes_accum@, d.name.text@, copy);
                }
                ctx.env.bind(d.name.text.clone(), scheme);
            },
        }
        k = k + 1;
        assert(written(*ctx) =~= bind_bodies(ids, decls@, scc@, tb, tys, snap, w1, k as nat));
    }
}

/// The ids with a property, in ascending order.
pub open spec fn ascending_list(f: spec_fn(u32) -> bool) -> Seq<u32> {
    choose|s: Seq<u32>| ascending(s) && forall|v: u32| #[trigger] s.contains(v) <==> f(v)
}

/// A scheme that has nothing to report: it mentions variables of another
/// table, or it quantifies over all of its own.
pub open spec fn settled(tb: Table, p: Poly) -> bool {
    ||| exists|v: u32| #[trigger] occurs(TyVid(v), p.ty) && v >= tb.types.len()
    ||| exists|c: u32| #[trigger] cap_occurs(CapVid(c), p.ty) && c >= tb.caps.len()
    ||| exists|i: int| 0 <= i < p.cap_vars.len() && (#[trigger] p.cap_vars[i]).0 >= tb.caps.len()
    ||| forall|v: u32| #[trigger] occurs(TyVid(v), p.ty) ==> p.vars.contains(TyVid(v))
}

/// The variables of a scheme that are neither known nor quantified.
pub open spec fn unsolved(tb: Table, p: Poly) -> Seq<u32> {
    if settled(tb, p) {
        Seq::empty()
    } else {
        ascending_list(|v: u32| free_in(tb, p, TyVid(v)))
    }
}

/// The report of a variable that was never solved.
pub open spec fn unsolved_diag(name: Seq<char>, v: u32) -> Diag {
    Diag::Unsolved {
        var: "?"@ + digits(v as nat) + " (in binding '"@ + name + "')"@,
        span: Span { start: 0, end: 0 },
    }
}

/// The reports of the bindings of a scope, in order.
pub open spec fn unsolved_reports(tb: Table, frame: Seq<(Seq<char>, Poly)>) -> Seq<Diag>
    decreases frame.len(),
{
    if frame.len() == 0 {
        Seq::empty()
    } else {
        unsolved_reports(tb, frame.drop_last()) + unsolved(tb, frame.last().1).map_values(
            |v: u32| unsolved_diag(frame.last().0, v),
        )
    }
}

fn any_at_least(ids: &FxHashSet<u32>, bound: usize) -> (r: bool)
    ensures
        r == exists|v: u32| #[trigger] ids@.contains(v) && v >= bound,
{
    let list = list_ids(ids);
    let mut i: usize = 0;
    while i < list.len()
        invariant
            i <= list@.len(),
            forall|v: u32| #[trigger] list@.contains(v) <==> ids@.contains(v),
            forall|k: int| 0 <= k < i ==> #[trigger] list@[k] < bound,
        decreases list@.len() - i,
    {
        let v: u32 = list[i];
        if v as usize >= bound {
            assert(list@.contains(v));
            assert(ids@.contains(v));
            return true;
        }
        i = i + 1;
    }
    assert forall|v: u32| #[trigger] ids@.contains(v) implies v < bound by {
        assert(list@.contains(v));
        let k = choose|k: int| 0 <= k < list@.len() && list@[k] == v;
        assert(list@[k] < bound);
    }
    false
}

fn any_cap_at_least(caps: &Vec<CapVid>, bound: usize) -> (r: bool)
    ensures
        r == exists|i: int| 0 <= i < caps@.len() && (#[trigger] caps@[i]).0 >= bound,
{
    let mut i: usize = 0;
    while i < caps.len()
        invariant
            i <= caps@.len(),
            forall|k: int| 0 <= k < i ==> (#[trigger] caps@[k]).0 < bound,
        decreases caps@.len() - i,
    {
        if caps[i].0 as usize >= bound {
            return true;
        }
        i = i + 1;
    }
    false
}

fn var_set(vs: &Vec<TyVid>) -> (r: FxHashSet<u32>)
    ensures
        forall|v: u32| #[trigger] r@.contains(v) <==> vs@.contains(TyVid(v)),
{
    let mut out: FxHashSet<u32> = FxHashSet::default();
    let mut i: usize = 0;
    while i < vs.len()
        invariant
            i <= vs@.len(),
            forall|v: u32| #[trigger]
                out@.contains(v) <==> exists|k: int| 0 <= k < i && #[trigger] vs@[k] == TyVid(v),
        decreases vs@.len() - i,
    {
        insert_id(&mut out, vs[i].0);
        i = i + 1;
    }
    assert forall|v: u32| #[trigger] out@.contains(v) <==> vs@.contains(TyVid(v)) by {
        if vs@.contains(TyVid(v)) {
            let k = choose|k: int| 0 <= k < vs@.len() && vs@[k] == TyVid(v);
            assert(vs@[k] == TyVid(v));
        }
    }
    out
}

fn unsolved_vars(ctx: &InferCtx, s: &Scheme) -> (r: Vec<u32>)
    ensures
        r@ == unsolved(ctx.table(), s@),
{
    let ghost tb = ctx.table();
    let ghost p = s@;
    let (raw, raw_caps) = collect_free_vars(&s.ty);
    let types: usize = ctx.vars.len();
    let caps: usize = ctx.vars.cap_len();
    if any_at_least(&raw, types) {
        proof {
            let v = choose|v: u32| #[trigger] raw@.contains(v) && v >= types;
            assert(occurs(TyVid(v), p.ty));
        }
        return Vec::new();
    }
    if any_at_least(&raw_caps, caps) {
        proof {
            let c = choose|c: u32| #[trigger] raw_caps@.contains(c) && c >= caps;
            assert(cap_occurs(CapVid(c), p.ty));
        }
        return Vec::new();
    }
    if any_cap_at_least(&s.cap_vars, caps) {
        proof {
            let i = choose|i: int|
                0 <= i < s.cap_vars@.len() && (#[trigger] s.cap_vars@[i]).0 >= caps;
            assert(p.cap_vars[i].0 >= tb.caps.len());
        }
        return Vec::new();
    }
    let bound = var_set(&s.vars);
    let open = difference(&raw, &bound);
    if open.len() == 0 {
        assert forall|v: u32| #[trigger] occurs(TyVid(v), p.ty) implies p.vars.contains(
            TyVid(v),
        ) by {
            assert(raw@.contains(v));
            assert(!open@.contains(v));
        }
        return Vec::new();
    }
    proof {
        assert(open@.contains(open@[0]));
        let v = open@[0];
        assert(raw@.contains(v) && !bound@.contains(v));
        assert(occurs(TyVid(v), p.ty) && !p.vars.contains(TyVid(v)));
        assert forall|w: u32| #[trigger] occurs(TyVid(w), p.ty) implies w < tb.types.len() by {
            assert(raw@.contains(w));
        }
        assert forall|c: u32| #[trigger] cap_occurs(CapVid(c), p.ty) implies c
            < tb.caps.len() by {
            assert(raw_caps@.contains(c));
        }
        assert(!settled(tb, p));
    }
    let resolved = ctx.deep_resolve(&s.ty);
    let (free, _caps) = collect_free_vars(&resolved);
    let r = difference(&free, &bound);
    proof {
        let f = |v: u32| free_in(tb, p, TyVid(v));
        assert forall|v: u32| #[trigger] r@.contains(v) <==> f(v) by {
            assert(free@.contains(v) <==> occurs(TyVid(v), resolve(tb, p.ty)));
        }
        assert(ascending(r@) && forall|v: u32| #[trigger] r@.contains(v) <==> f(v));
        let t = ascending_list(f);
        assert(ascending(t) && forall|v: u32| #[trigger] t.contains(v) <==> f(v));
        ascending_unique(r@, t);
    }
    r
}

/// Reports every variable of the innermost scope that is neither known nor
/// quantified.
pub fn detect_unsolved_type_vars(ctx: &mut InferCtx)
    ensures
        diags(final(ctx).errors@) == diags(old(ctx).errors@) + if old(ctx).env@.len() > 0 {
            unsolved_reports(old(ctx).table(), old(ctx).env@.last())
        } else {
            Seq::empty()
        },
        *final(ctx) == (InferCtx { errors: final(ctx).errors, ..*old(ctx) }),
{
    let n: usize = ctx.env.frames.len();
    let ghost start = diags(ctx.errors@);
    if n == 0 {
        assert(start + Seq::empty() =~= start);
        return;
    }
    let ghost tb = ctx.table();
    let ghost frame = ctx.env@.last();
    assert(frame == ctx.env.frames@[n - 1]@);
    let mut i: usize = 0;
    assert(frame.take(0) =~= Seq::empty());
    assert(start + unsolved_reports(tb, frame.take(0)) =~= start);
    while i < ctx.env.frames[n - 1].bindings.len()
        invariant
            n == ctx.env.frames@.len(),
            n > 0,
            tb == ctx.table(),
            frame == ctx.env.frames@[n - 1]@,
            i <= frame.len(),
            diags(ctx.errors@) == start + unsolved_reports(tb, frame.take(i as int)),
            *ctx == (InferCtx { errors: ctx.errors, ..*old(ctx) }),
        decreases frame.len() - i,
    {
        let vars = unsolved_vars(ctx, &ctx.env.frames[n - 1].bindings[i].1);
        let name = ctx.env.frames[n - 1].bindings[i].0.clone();
        let ghost told = |v: u32| unsolved_diag(name@, v);
        let ghost before = diags(ctx.errors@);
        assert(frame.take(i + 1).drop_last() =~= frame.take(i as int));
        assert(frame.take(i + 1).last() == (
            ctx.env.frames@[n - 1].bindings@[i as int].0@,
            ctx.env.frames@[n - 1].bindings@[i as int].1@,
        ));
        let mut k: usize = 0;
        assert(before + vars@.take(0).map_values(told) =~= before);
        while k < vars.len()
            invariant
                k <= vars@.len(),
                told == (|v: u32| unsolved_diag(name@, v)),
                diags(ctx.errors@) == before + vars@.take(k as int).map_values(told),
                *ctx == (InferCtx { errors: ctx.errors, ..*old(ctx) }),
            decreases vars@.len() - k,
        {
            let v: u32 = vars[k];
            let number = decimal(v as u128);
            ctx.errors.push(
                TypeError::UnsolvedTypeVariable {
                    var: text5("?", number.as_str(), " (in binding '", name.as_str(), "')"),
                    generalisation_site: Span::point(0),
                },
            );
            k = k + 1;
            assert(diags(ctx.errors@) =~= before + vars@.take(k as int).map_values(told));
        }
        assert(vars@.take(k as int) =~= vars@);
        assert(diags(ctx.errors@) =~= start + unsolved_reports(tb, frame.take(i + 1)));
        i = i + 1;
    }
    assert(frame.take(i as int) =~= frame);
}

/// What opening the first `k` declarations of a component binds, and their
/// types.
pub open spec fn opened_all(decls: Seq<FnDecl>, scc: Seq<DeclId>, s: Seeding, k: nat) -> (
    Seeding,
    Seq<Ty>,
)
    decreases k,
{
    if k == 0 || k > scc.len() {
        (s, Seq::empty())
    } else {
        let (before, tys) = opened_all(decls, scc, s, (k - 1) as nat);
        let d = decls[scc[k - 1].0 as int];
        (opened(d, before), tys.push(decl_type(d, before.vars)))
    }
}

/// How many new variables the types of some declarations have.
pub open spec fn decls_cost(decls: Seq<FnDecl>, scc: Seq<DeclId>, k: nat) -> nat
    decreases k,
{
    if k == 0 || k > scc.len() {
        0
    } else {
        decls_cost(decls, scc, (k - 1) as nat) + decl_cost(decls[scc[k - 1].0 as int])
    }
}

proof fn decls_cost_mono(decls: Seq<FnDecl>, scc: Seq<DeclId>, j: nat, k: nat)
    requires
        j <= k <= scc.len(),
    ensures
        decls_cost(decls, scc, j) <= decls_cost(decls, scc, k),
    decreases k - j,
{
    if j < k {
        decls_cost_mono(decls, scc, j + 1, k);
    }
}

/// Opens the declarations of a component, so that they can call each other.
pub fn open_component(ctx: &mut InferCtx, decls: &Vec<FnDecl>, scc: &Vec<DeclId>) -> (r: Vec<
    Type,
>)
    requires
        names_members(decls@, scc@),
        can_seed(*old(ctx), decls_cost(decls@, scc@, scc@.len()) as int),
    ensures
        (seeding(*final(ctx)), views(r@)) == opened_all(
            decls@,
            scc@,
            seeding(*old(ctx)),
            scc@.len(),
        ),
        only_seeded(*old(ctx), *final(ctx)),
        final(ctx).table().types.len() == old(ctx).table().types.len() + decls_cost(
            decls@,
            scc@,
            scc@.len(),
        ),
{
    let ghost c0 = *ctx;
    let ghost s0 = seeding(*ctx);
    let mut out: Vec<Type> = Vec::new();
    let mut i: usize = 0;
    proof {
        seeded_none(*ctx);
    }
    assert(views(out@) =~= Seq::empty());
    while i < scc.len()
        invariant
            i <= scc@.len(),
            names_members(decls@, scc@),
            c0 == *old(ctx),
            s0 == seeding(c0),
            can_seed(c0, decls_cost(decls@, scc@, scc@.len()) as int),
            only_seeded(c0, *ctx),
            ctx.table().types.len() == c0.table().types.len() + decls_cost(
                decls@,
                scc@,
                i as nat,
            ),
            seeding(*ctx) == opened_all(decls@, scc@, s0, i as nat).0,
            views(out@) == opened_all(decls@, scc@, s0, i as nat).1,
        decreases scc@.len() - i,
    {
        proof {
            decls_cost_mono(decls@, scc@, (i + 1) as nat, scc@.len());
        }
        let ghost before = *ctx;
        let ghost was = out@;
        let ty = open_decl(ctx, &decls[scc[i].0]);
        proof {
            seeded_twice(c0, before, *ctx);
        }
        out.push(ty);
        assert(views(out@) =~= views(was).push(ty@));
        i = i + 1;
    }
    out
}

proof fn with_params_inside(
    env: Seq<Seq<(Seq<char>, Poly)>>,
    ps: Seq<Param>,
    tys: Seq<Ty>,
    k: nat,
)
    requires
        env.len() > 0,
    ensures
        with_params(env, ps, tys, k).len() == env.len(),
        with_params(env, ps, tys, k).drop_last() == env.drop_last(),
    decreases k,
{
    if k == 0 || k > ps.len() || k > tys.len() {
    } else {
        with_params_inside(env, ps, tys, (k - 1) as nat);
        assert(with_params(env, ps, tys, k).drop_last() =~= with_params(
            env,
            ps,
            tys,
            (k - 1) as nat,
        ).drop_last());
    }
}

/// Entering the body of a declaration and leaving it brings the scopes back.
pub proof fn leaving_undoes_entering(env: Seq<Seq<(Seq<char>, Poly)>>, d: FnDecl, t: Ty)
    ensures
        body_scope(env, d, t).drop_last() == env,
{
    with_params_inside(
        env.push(Seq::empty()),
        d.params@,
        fn_params(t),
        shorter(d.params@.len(), fn_params(t).len()),
    );
    assert(env.push(Seq::empty()).drop_last() =~= env);
}

/// What looking at an expression may change of a context: what is known of the
/// variables, the constraints that wait, what is noted of expressions and
/// quotes, and the diagnostics, of which none goes away. The scopes and the
/// return type are the same afterwards.
pub open spec fn looked_at(c: InferCtx, d: InferCtx) -> bool {
    &&& d.wf()
    &&& d.env@ == c.env@
    &&& d.current_fn_ret == c.current_fn_ret
    &&& d.node_ids == c.node_ids
    &&& d.schemes_accum == c.schemes_accum
    &&& diags(c.errors@).is_prefix_of(diags(d.errors@))
}

/// The types of a component are function types.
proof fn opened_are_fns(decls: Seq<FnDecl>, scc: Seq<DeclId>, s: Seeding, k: nat)
    requires
        k <= scc.len(),
    ensures
        opened_all(decls, scc, s, k).1.len() == k,
        forall|i: int| 0 <= i < k ==> (#[trigger] opened_all(decls, scc, s, k).1[i]) is Fn,
    decreases k,
{
    if k > 0 {
        opened_are_fns(decls, scc, s, (k - 1) as nat);
    }
}

/// The names of the first `k` declarations of a component are bound in a scope.
pub open spec fn all_bound(
    frame: Seq<(Seq<char>, Poly)>,
    decls: Seq<FnDecl>,
    scc: Seq<DeclId>,
    k: nat,
) -> bool {
    forall|i: int|
        0 <= i < k && i < scc.len() ==> in_frame(
            frame,
            decls[(#[trigger] scc[i]).0 as int].name.text@,
        ) is Some
}

proof fn opened_bound(decls: Seq<FnDecl>, scc: Seq<DeclId>, s: Seeding, k: nat)
    requires
        k <= scc.len(),
        s.env.len() > 0,
    ensures
        opened_all(decls, scc, s, k).0.env.len() == s.env.len(),
        opened_all(decls, scc, s, k).0.env.drop_last() == s.env.drop_last(),
        all_bound(opened_all(decls, scc, s, k).0.env.last(), decls, scc, k),
        forall|n: Seq<char>|
            in_frame(s.env.last(), n) is Some ==> #[trigger] in_frame(
                opened_all(decls, scc, s, k).0.env.last(),
                n,
            ) is Some,
    decreases k,
{
    if k > 0 {
        opened_bound(decls, scc, s, (k - 1) as nat);
        let before = opened_all(decls, scc, s, (k - 1) as nat).0;
        let d = decls[scc[k - 1].0 as int];
        let p = mono(decl_type(d, before.vars));
        bound_after(before.env, d.name.text@, p);
    }
}

/// A binding binds its name, leaves the outer scopes and keeps every other
/// name bound.
proof fn bound_after(env: Seq<Seq<(Seq<char>, Poly)>>, name: Seq<char>, p: Poly)
    requires
        env.len() > 0,
    ensures
        with_binding(env, name, p).len() == env.len(),
        with_binding(env, name, p).drop_last() == env.drop_last(),
        in_frame(with_binding(env, name, p).last(), name) is Some,
        forall|n: Seq<char>|
            in_frame(env.last(), n) is Some ==> #[trigger] in_frame(
                with_binding(env, name, p).last(),
                n,
            ) is Some,
{
    assert(with_binding(env, name, p).drop_last() =~= env.drop_last());
    assert forall|n: Seq<char>| in_frame(env.last(), n) is Some implies #[trigger] in_frame(
        with_binding(env, name, p).last(),
        n,
    ) is Some by {
        rebound_keeps(env.last(), name, p, n);
    }
    rebound_keeps(env.last(), name, p, name);
}

proof fn foreign_bound(
    decls: Seq<FnDecl>,
    scc: Seq<DeclId>,
    tb: Table,
    tys: Seq<Ty>,
    snap: Scope,
    w: Written,
    k: nat,
)
    requires
        w.env.len() > 0,
    ensures
        bind_foreign(decls, scc, tb, tys, snap, w, k).env.len() == w.env.len(),
        bind_foreign(decls, scc, tb, tys, snap, w, k).env.drop_last() == w.env.drop_last(),
        forall|n: Seq<char>|
            in_frame(w.env.last(), n) is Some ==> #[trigger] in_frame(
                bind_foreign(decls, scc, tb, tys, snap, w, k).env.last(),
                n,
            ) is Some,
    decreases k,
{
    if k == 0 || k > scc.len() {
    } else {
        foreign_bound(decls, scc, tb, tys, snap, w, (k - 1) as nat);
        let before = bind_foreign(decls, scc, tb, tys, snap, w, (k - 1) as nat);
        let d = decls[scc[k - 1].0 as int];
        bound_after(before.env, d.name.text@, scheme_of(tb, tys, snap, k - 1));
    }
}

proof fn bodies_bound(
    ids: NodeIdMap,
    decls: Seq<FnDecl>,
    scc: Seq<DeclId>,
    tb: Table,
    tys: Seq<Ty>,
    snap: Scope,
    w: Written,
    k: nat,
)
    requires
        w.env.len() > 0,
    ensures
        bind_bodies(ids, decls, scc, tb, tys, snap, w, k).env.len() == w.env.len(),
        bind_bodies(ids, decls, scc, tb, tys, snap, w, k).env.drop_last() == w.env.drop_last(),
        forall|n: Seq<char>|
            in_frame(w.env.last(), n) is Some ==> #[trigger] in_frame(
                bind_bodies(ids, decls, scc, tb, tys, snap, w, k).env.last(),
                n,
            ) is Some,
    decreases k,
{
    if k == 0 || k > scc.len() {
    } else {
        bodies_bound(ids, decls, scc, tb, tys, snap, w, (k - 1) as nat);
        let before = bind_bodies(ids, decls, scc, tb, tys, snap, w, (k - 1) as nat);
        let d = decls[scc[k - 1].0 as int];
        bound_after(before.env, d.name.text@, scheme_of(tb, tys, snap, k - 1));
    }
}

/// How many variables a body may need, where an expression may need as many as
/// `cost` says.
pub open spec fn body_cost(d: FnDecl, cost: spec_fn(Expr) -> nat) -> nat {
    match d.body {
        Body::Expr(e) => cost(e),
        Body::Ffi => 0,
    }
}

/// How many variables the first `k` bodies of a component may need.
pub open spec fn bodies_cost(
    decls: Seq<FnDecl>,
    scc: Seq<DeclId>,
    cost: spec_fn(Expr) -> nat,
    k: nat,
) -> nat
    decreases k,
{
    if k == 0 || k > scc.len() {
        0
    } else {
        bodies_cost(decls, scc, cost, (k - 1) as nat) + body_cost(decls[scc[k - 1].0 as int], cost)
    }
}

proof fn bodies_cost_mono(
    decls: Seq<FnDecl>,
    scc: Seq<DeclId>,
    cost: spec_fn(Expr) -> nat,
    j: nat,
    k: nat,
)
    requires
        j <= k <= scc.len(),
    ensures
        bodies_cost(decls, scc, cost, j) <= bodies_cost(decls, scc, cost, k),
    decreases k,
{
    if j < k {
        bodies_cost_mono(decls, scc, cost, j, (k - 1) as nat);
    }
}

/// How many variables some declarations may need, those of their types and
/// those of their bodies, each counted as often as it is listed.
pub open spec fn listed_cost(
    decls: Seq<FnDecl>,
    cost: spec_fn(Expr) -> nat,
    ids: Seq<DeclId>,
) -> nat
    decreases ids.len(),
{
    if ids.len() == 0 {
        0
    } else {
        listed_cost(decls, cost, ids.drop_last()) + decl_cost(decls[ids.last().0 as int])
            + body_cost(decls[ids.last().0 as int], cost)
    }
}

proof fn cost_is_listed(decls: Seq<FnDecl>, cost: spec_fn(Expr) -> nat, scc: Seq<DeclId>, k: nat)
    requires
        k <= scc.len(),
    ensures
        decls_cost(decls, scc, k) + bodies_cost(decls, scc, cost, k) == listed_cost(
            decls,
            cost,
            scc.take(k as int),
        ),
    decreases k,
{
    if k > 0 {
        cost_is_listed(decls, cost, scc, (k - 1) as nat);
        assert(scc.take(k as int).drop_last() =~= scc.take(k - 1));
    }
}

proof fn listed_without(decls: Seq<FnDecl>, cost: spec_fn(Expr) -> nat, ids: Seq<DeclId>, p: int)
    requires
        0 <= p < ids.len(),
    ensures
        listed_cost(decls, cost, ids) == listed_cost(decls, cost, ids.remove(p)) + decl_cost(
            decls[ids[p].0 as int],
        ) + body_cost(decls[ids[p].0 as int], cost),
    decreases ids.len(),
{
    if p == ids.len() - 1 {
        assert(ids.remove(p) =~= ids.drop_last());
    } else {
        listed_without(decls, cost, ids.drop_last(), p);
        assert(ids.remove(p).drop_last() =~= ids.drop_last().remove(p));
        assert(ids.remove(p).last() == ids.last());
    }
}

/// How many variables all declarations may need, those of their types and those
/// of their bodies.
pub open spec fn module_cost(decls: Seq<FnDecl>, cost: spec_fn(Expr) -> nat) -> nat
    decreases decls.len(),
{
    if decls.len() == 0 {
        0
    } else {
        module_cost(decls.drop_last(), cost) + decl_cost(decls.last()) + body_cost(
            decls.last(),
            cost,
        )
    }
}

/// Declarations that are listed once cost no more than all of them.
proof fn listed_within(decls: Seq<FnDecl>, cost: spec_fn(Expr) -> nat, ids: Seq<DeclId>, n: nat)
    requires
        n <= decls.len(),
        forall|i: int| 0 <= i < ids.len() ==> (#[trigger] ids[i]).0 < n,
        forall|i: int, j: int|
            0 <= i < ids.len() && 0 <= j < ids.len() && i != j ==> (#[trigger] ids[i]).0
                != (#[trigger] ids[j]).0,
    ensures
        listed_cost(decls, cost, ids) <= module_cost(decls.take(n as int), cost),
    decreases n,
{
    if n == 0 {
        if ids.len() > 0 {
            assert(ids[0].0 < 0);
        }
    } else {
        assert(decls.take(n as int).drop_last() =~= decls.take(n - 1));
        assert(decls.take(n as int).last() == decls[n - 1]);
        if exists|p: int| 0 <= p < ids.len() && (#[trigger] ids[p]).0 == n - 1 {
            let p = choose|p: int| 0 <= p < ids.len() && (#[trigger] ids[p]).0 == n - 1;
            let rest = ids.remove(p);
            listed_without(decls, cost, ids, p);
            assert forall|i: int| 0 <= i < rest.len() implies (#[trigger] rest[i]).0 < n - 1 by {
                let k = if i < p {
                    i
                } else {
                    i + 1
                };
                assert(rest[i] == ids[k]);
                assert(ids[k].0 != ids[p].0);
            }
            assert forall|i: int, j: int|
                0 <= i < rest.len() && 0 <= j < rest.len() && i != j implies (#[trigger] rest[i]).0
                != (#[trigger] rest[j]).0 by {
                let a = if i < p {
                    i
                } else {
                    i + 1
                };
                let b = if j < p {
                    j
                } else {
                    j + 1
                };
                assert(rest[i] == ids[a]);
                assert(rest[j] == ids[b]);
            }
            listed_within(decls, cost, rest, (n - 1) as nat);
        } else {
            assert forall|i: int| 0 <= i < ids.len() implies (#[trigger] ids[i]).0 < n - 1 by {}
            listed_within(decls, cost, ids, (n - 1) as nat);
        }
    }
}

/// The members of the first `n` components.
pub open spec fn members(all: Seq<Seq<DeclId>>, n: nat) -> Seq<DeclId>
    decreases n,
{
    if n == 0 || n > all.len() {
        Seq::empty()
    } else {
        members(all, (n - 1) as nat) + all[n - 1]
    }
}

proof fn members_listed(all: Seq<Seq<DeclId>>, n: nat, i: int)
    requires
        n <= all.len(),
        0 <= i < members(all, n).len(),
    ensures
        exists|c: int, j: int|
            0 <= c < n && 0 <= j < all[c].len() && members(all, n)[i] == #[trigger] all[c][j],
    decreases n,
{
    let before = members(all, (n - 1) as nat);
    if i < before.len() {
        members_listed(all, (n - 1) as nat, i);
        let (c, j) = choose|c: int, j: int|
            0 <= c < n - 1 && 0 <= j < all[c].len() && before[i] == #[trigger] all[c][j];
        assert(members(all, n)[i] == all[c][j]);
    } else {
        assert(members(all, n)[i] == all[n - 1][i - before.len()]);
    }
}

proof fn members_once(all: Seq<Seq<DeclId>>, n: nat, a: int, b: int)
    requires
        n <= all.len(),
        listed_once(all),
        0 <= a < b < members(all, n).len(),
    ensures
        members(all, n)[a].0 != members(all, n)[b].0,
    decreases n,
{
    let before = members(all, (n - 1) as nat);
    let m = before.len() as int;
    if b < m {
        members_once(all, (n - 1) as nat, a, b);
    } else if a < m {
        members_listed(all, (n - 1) as nat, a);
        let (c, j) = choose|c: int, j: int|
            0 <= c < n - 1 && 0 <= j < all[c].len() && before[a] == #[trigger] all[c][j];
        assert(members(all, n)[a] == all[c][j]);
        assert(members(all, n)[b] == all[n - 1][b - m]);
    } else {
        assert(members(all, n)[a] == all[n - 1][a - m]);
        assert(members(all, n)[b] == all[n - 1][b - m]);
    }
}

proof fn listed_cost_sum(
    decls: Seq<FnDecl>,
    cost: spec_fn(Expr) -> nat,
    a: Seq<DeclId>,
    b: Seq<DeclId>,
)
    ensures
        listed_cost(decls, cost, a + b) == listed_cost(decls, cost, a) + listed_cost(
            decls,
            cost,
            b,
        ),
    decreases b.len(),
{
    if b.len() == 0 {
        assert(a + b =~= a);
    } else {
        listed_cost_sum(decls, cost, a, b.drop_last());
        assert((a + b).drop_last() =~= a + b.drop_last());
        assert((a + b).last() == b.last());
    }
}

/// The components together cost no more than all declarations.
proof fn members_within(
    decls: Seq<FnDecl>,
    cost: spec_fn(Expr) -> nat,
    all: Seq<Seq<DeclId>>,
    n: nat,
)
    requires
        n <= all.len(),
        listed_once(all),
        forall|c: int, j: int|
            0 <= c < all.len() && 0 <= j < all[c].len() ==> (#[trigger] all[c][j]).0
                < decls.len(),
    ensures
        listed_cost(decls, cost, members(all, n)) <= module_cost(decls, cost),
{
    let ids = members(all, n);
    assert forall|i: int| 0 <= i < ids.len() implies (#[trigger] ids[i]).0 < decls.len() by {
        members_listed(all, n, i);
    }
    assert forall|i: int, j: int| 0 <= i < ids.len() && 0 <= j < ids.len() && i != j implies (
    #[trigger] ids[i]).0 != (#[trigger] ids[j]).0 by {
        if i < j {
            members_once(all, n, i, j);
        } else {
            members_once(all, n, j, i);
        }
    }
    listed_within(decls, cost, ids, decls.len());
    assert(decls.take(decls.len() as int) =~= decls);
}

/// Inference of expressions that can be relied on: it takes any context in order
/// with room for what the expression costs, changes no more of it than looking
/// at an expression may, and adds no more variables than the expression costs.
pub open spec fn reliable<F: Fn(InferCtx, &Expr) -> (InferCtx, Type)>(
    infer: F,
    cost: spec_fn(Expr) -> nat,
) -> bool {
    &&& forall|c: InferCtx, e: &Expr|
        affordable(c, cost(*e)) ==> #[trigger] call_requires(infer, (c, e))
    &&& forall|c: InferCtx, e: &Expr, out: (InferCtx, Type)| #[trigger]
        call_ensures(infer, (c, e), out) && affordable(c, cost(*e)) ==> looked_at(c, out.0)
            && grew(c, out.0, cost(*e))
}

/// A context in order, with a scope and with room for `n` variables.
pub open spec fn affordable(c: InferCtx, n: nat) -> bool {
    c.wf() && c.env@.len() > 0 && c.has_room(n as int)
}

/// `d` has at most `n` variables more than `c`.
pub open spec fn grew(c: InferCtx, d: InferCtx, n: nat) -> bool {
    d.table().types.len() <= c.table().types.len() + n
}

/// Inference of expressions that leaves constraints that can be solved: the
/// variables that it adds, with those that solving takes, are no more than the
/// expression costs.
pub open spec fn orderly<F: Fn(InferCtx, &Expr) -> (InferCtx, Type)>(
    infer: F,
    k: Registries,
    cost: spec_fn(Expr) -> nat,
) -> bool {
    forall|c: InferCtx, e: &Expr, out: (InferCtx, Type)| #[trigger]
        call_ensures(infer, (c, e), out) && affordable(c, cost(*e)) && k.can_solve(
            c.deferred_constraints@,
        ) ==> {
            &&& k.can_solve(out.0.deferred_constraints@)
            &&& out.0.table().types.len() + k.cost(out.0.deferred_constraints@)
                <= c.table().types.len() + k.cost(c.deferred_constraints@) + cost(*e)
        }
}

/// The constraints of a context can be solved, with room for that and for
/// `reserve` more variables.
pub open spec fn in_hand(k: Registries, c: InferCtx, reserve: int) -> bool {
    &&& k.can_solve(c.deferred_constraints@)
    &&& c.has_room(reserve + k.cost(c.deferred_constraints@))
}

/// Looking at a body gives `z` and the type `body`: by inference, or for a body
/// outside the language what is declared.
pub open spec fn inferred<F: Fn(InferCtx, &Expr) -> (InferCtx, Type)>(
    infer: F,
    a: InferCtx,
    z: InferCtx,
    body: Ty,
    d: FnDecl,
    t: Ty,
) -> bool {
    match d.body {
        Body::Expr(e) => exists|out: (InferCtx, Type)| #[trigger]
            call_ensures(infer, (a, &e), out) && z == out.0 && body == out.1@,
        Body::Ffi => z == a && body == *t->Fn_ret,
    }
}

/// `d` is `c` after the body of a declaration was checked.
pub open spec fn body_checked<F: Fn(InferCtx, &Expr) -> (InferCtx, Type)>(
    infer: F,
    c: InferCtx,
    r: InferCtx,
    d: FnDecl,
    t: Ty,
) -> bool {
    exists|a: InferCtx, z: InferCtx, body: Ty| #[trigger]
        inferred(infer, a, z, body, d, t) && entered(c, a, d, t) && left(
            z,
            r,
            d,
            t,
            body,
            c.current_fn_ret,
        )
}

/// `r` is `c` after the first `k` bodies of a component were checked, in order.
pub open spec fn bodies_checked<F: Fn(InferCtx, &Expr) -> (InferCtx, Type)>(
    infer: F,
    c: InferCtx,
    r: InferCtx,
    decls: Seq<FnDecl>,
    scc: Seq<DeclId>,
    tys: Seq<Ty>,
    k: nat,
) -> bool
    decreases k,
{
    if k == 0 || k > scc.len() {
        r == c
    } else {
        let d = decls[scc[k - 1].0 as int];
        let t = tys[k - 1];
        exists|m: InferCtx| #[trigger]
            body_checked(infer, m, r, d, t) && bodies_checked(
                infer,
                c,
                m,
                decls,
                scc,
                tys,
                (k - 1) as nat,
            )
    }
}

/// What is free in the environment.
pub open spec fn snapshot(c: InferCtx, snap: Scope) -> bool {
    &&& forall|v: u32| #[trigger]
        snap.vars.contains(v) <==> free_in_env(c.table(), c.env@, TyVid(v))
    &&& forall|v: u32| #[trigger]
        snap.caps.contains(v) <==> cap_free_in_env(c.table(), c.env@, CapVid(v))
}

/// Where the constraints of a component are reported.
pub open spec fn component_span(decls: Seq<FnDecl>, scc: Seq<DeclId>) -> Span {
    if scc.len() == 0 {
        Span { start: 0, end: 0 }
    } else {
        decls[scc[0].0 as int].span
    }
}

/// `r` is `c` after a component was checked: its declarations were opened,
/// their bodies were checked, the constraints were solved, and the types were
/// generalised over what was not free in the environment before.
pub open spec fn component_checked<F: Fn(InferCtx, &Expr) -> (InferCtx, Type)>(
    infer: F,
    k: Registries,
    c: InferCtx,
    r: InferCtx,
    decls: Seq<FnDecl>,
    scc: Seq<DeclId>,
) -> bool {
    exists|a: InferCtx, y: InferCtx, z: InferCtx, snap: Scope|
        #![trigger only_seeded(c, a), constraints_solved(k, y, z, opened_all(decls, scc, seeding(c), scc.len()).1, snap.vars, component_span(decls, scc), snap.kept), wrote_back(z, r, decls, scc, opened_all(decls, scc, seeding(c), scc.len()).1, snap)]
        {
            let (s, tys) = opened_all(decls, scc, seeding(c), scc.len());
            &&& only_seeded(c, a)
            &&& seeding(a) == s
            &&& bodies_checked(infer, a, y, decls, scc, tys, scc.len())
            &&& snapshot(c, snap)
            &&& constraints_solved(
                k,
                y,
                z,
                tys,
                snap.vars,
                component_span(decls, scc),
                snap.kept,
            )
            &&& wrote_back(z, r, decls, scc, tys, snap)
        }
}

/// `r` is `c` after the first `n` components were checked, in order.
pub open spec fn components_checked<F: Fn(InferCtx, &Expr) -> (InferCtx, Type)>(
    infer: F,
    k: Registries,
    c: InferCtx,
    r: InferCtx,
    decls: Seq<FnDecl>,
    sccs: Seq<Seq<DeclId>>,
    n: nat,
) -> bool
    decreases n,
{
    if n == 0 || n > sccs.len() {
        r == c
    } else {
        let scc = sccs[n - 1];
        exists|m: InferCtx| #[trigger]
            component_checked(infer, k, m, r, decls, scc) && components_checked(
                infer,
                k,
                c,
                m,
                decls,
                sccs,
                (n - 1) as nat,
            )
    }
}

/// `r` is `c` after the declarations of a module were checked: the components
/// of the call graph one after the other, with the callees before the callers,
/// and then what was never solved was reported.
pub open spec fn decls_checked<F: Fn(InferCtx, &Expr) -> (InferCtx, Type)>(
    infer: F,
    k: Registries,
    c: InferCtx,
    r: InferCtx,
    decls: Seq<FnDecl>,
) -> bool {
    exists|g: CallGraph, sccs: Seq<Seq<DeclId>>, z: InferCtx|
        #![trigger are_sccs(g, sccs), components_checked(infer, k, c, z, decls, sccs, sccs.len())]
        {
            &&& is_call_graph(g, decls)
            &&& are_sccs(g, sccs)
            &&& components_checked(infer, k, c, z, decls, sccs, sccs.len())
            &&& diags(r.errors@) == diags(z.errors@) + unsolved_reports(z.table(), z.env@.last())
            &&& r == (InferCtx { errors: r.errors, ..z })
        }
}

proof fn one_more_body<F: Fn(InferCtx, &Expr) -> (InferCtx, Type)>(
    infer: F,
    c: InferCtx,
    m: InferCtx,
    r: InferCtx,
    decls: Seq<FnDecl>,
    scc: Seq<DeclId>,
    tys: Seq<Ty>,
    k: nat,
)
    requires
        k < scc.len(),
        bodies_checked(infer, c, m, decls, scc, tys, k),
        body_checked(infer, m, r, decls[scc[k as int].0 as int], tys[k as int]),
    ensures
        bodies_checked(infer, c, r, decls, scc, tys, (k + 1) as nat),
{
    assert(bodies_checked(infer, c, m, decls, scc, tys, (k + 1 - 1) as nat));
}

proof fn one_more_component<F: Fn(InferCtx, &Expr) -> (InferCtx, Type)>(
    infer: F,
    k: Registries,
    c: InferCtx,
    m: InferCtx,
    r: InferCtx,
    decls: Seq<FnDecl>,
    sccs: Seq<Seq<DeclId>>,
    n: nat,
)
    requires
        n < sccs.len(),
        components_checked(infer, k, c, m, decls, sccs, n),
        component_checked(infer, k, m, r, decls, sccs[n as int]),
    ensures
        components_checked(infer, k, c, r, decls, sccs, (n + 1) as nat),
{
    assert(components_checked(infer, k, c, m, decls, sccs, (n + 1 - 1) as nat));
}

fn check_bodies<F: Fn(InferCtx, &Expr) -> (InferCtx, Type)>(
    ctx: InferCtx,
    decls: &Vec<FnDecl>,
    scc: &Vec<DeclId>,
    fn_types: &Vec<Type>,
    infer: &F,
    Ghost(k): Ghost<Registries>,
    Ghost(cost): Ghost<spec_fn(Expr) -> nat>,
    Ghost(spare): Ghost<int>,
) -> (r: InferCtx)
    requires
        ctx.wf(),
        spare >= 0,
        in_hand(k, ctx, spare + bodies_cost(decls@, scc@, cost, scc@.len())),
        orderly(*infer, k, cost),
        names_members(decls@, scc@),
        fn_types@.len() == scc@.len(),
        forall|i: int| 0 <= i < fn_types@.len() ==> (#[trigger] fn_types@[i])@ is Fn,
        reliable(*infer, cost),
    ensures
        looked_at(ctx, r),
        in_hand(k, r, spare),
        bodies_checked(*infer, ctx, r, decls@, scc@, views(fn_types@), scc@.len()),
{
    let ghost c0 = ctx;
    let mut ctx = ctx;
    let mut i: usize = 0;
    while i < scc.len()
        invariant
            i <= scc@.len(),
            ctx.wf(),
            spare >= 0,
            in_hand(
                k,
                ctx,
                spare + bodies_cost(decls@, scc@, cost, scc@.len()) - bodies_cost(
                    decls@,
                    scc@,
                    cost,
                    i as nat,
                ),
            ),
            orderly(*infer, k, cost),
            names_members(decls@, scc@),
            fn_types@.len() == scc@.len(),
            forall|i: int| 0 <= i < fn_types@.len() ==> (#[trigger] fn_types@[i])@ is Fn,
            reliable(*infer, cost),
            looked_at(c0, ctx),
            bodies_checked(*infer, c0, ctx, decls@, scc@, views(fn_types@), i as nat),
        decreases scc@.len() - i,
    {
        let d = &decls[scc[i].0];
        let fn_ty = &fn_types[i];
        let ghost env = ctx.env@;
        let ghost c1 = ctx;
        let saved = enter_decl(&mut ctx, d, fn_ty);
        proof {
            leaving_undoes_entering(env, *d, fn_ty@);
            bodies_cost_mono(decls@, scc@, cost, (i + 1) as nat, scc@.len());
        }
        let ghost c2 = ctx;
        let body_ty = match &d.body {
            Body::Expr(e) => {
                let (c, ty) = infer(ctx, e);
                assert(call_ensures(*infer, (c2, e), (c, ty)));
                ctx = c;
                assert(looked_at(c2, ctx));
                ty
            },
            Body::Ffi => match fn_ty {
                Type::Fn { params, ret, caps } => {
                    assert(fn_ty@ == Ty::Fn {
                        params: views(params@),
                        ret: Box::new(ret@),
                        caps: *caps,
                    });
                    (**ret).clone()
                },
                _ => Type::Error,
            },
        };
        assert(inferred(*infer, c2, ctx, body_ty@, *d, fn_ty@));
        let ghost c3 = ctx;
        proof {
            unified_agree(ctx.table(), body_ty@, *fn_ty@->Fn_ret);
        }
        leave_decl(&mut ctx, d, fn_ty, &body_ty, saved);
        assert(diags(c3.errors@).is_prefix_of(diags(ctx.errors@)));
        assert(views(fn_types@)[i as int] == fn_ty@);
        assert(body_checked(*infer, c1, ctx, *d, fn_ty@));
        proof {
            one_more_body(*infer, c0, c1, ctx, decls@, scc@, views(fn_types@), i as nat);
        }
        i = i + 1;
    }
    ctx
}

/// Checks the functions of a component: opens them, looks at their bodies,
/// solves the constraints and binds the names to the generalised schemes.
fn check_component<F: Fn(InferCtx, &Expr) -> (InferCtx, Type)>(
    ctx: InferCtx,
    k: Registries,
    decls: &Vec<FnDecl>,
    scc: &Vec<DeclId>,
    infer: &F,
    Ghost(cost): Ghost<spec_fn(Expr) -> nat>,
    Ghost(spare): Ghost<int>,
) -> (r: InferCtx)
    requires
        ctx.wf(),
        ctx.env@.len() > 0,
        k.wf(),
        names_members(decls@, scc@),
        in_hand(k, ctx, spare + listed_cost(decls@, cost, scc@)),
        spare >= 0,
        reliable(*infer, cost),
        orderly(*infer, k, cost),
    ensures
        r.wf(),
        r.env@.len() == ctx.env@.len(),
        r.env@.drop_last() == ctx.env@.drop_last(),
        r.current_fn_ret == ctx.current_fn_ret,
        diags(ctx.errors@).is_prefix_of(diags(r.errors@)),
        in_hand(k, r, spare),
        component_checked(*infer, k, ctx, r, decls@, scc@),
        all_bound(r.env@.last(), decls@, scc@, scc@.len()),
        forall|n: Seq<char>|
            in_frame(ctx.env@.last(), n) is Some ==> #[trigger] in_frame(r.env@.last(), n) is Some,
{
    let ghost c1 = ctx;
    proof {
        cost_is_listed(decls@, cost, scc@, scc@.len());
        assert(scc@.take(scc@.len() as int) =~= scc@);
    }
    let mut ctx = ctx;
    let (env_ty, env_cap) = env_free_vars(&ctx);
    let fn_types = open_component(&mut ctx, decls, scc);
    proof {
        opened_are_fns(decls@, scc@, seeding(c1), scc@.len());
        opened_bound(decls@, scc@, seeding(c1), scc@.len());
        assert forall|i: int| 0 <= i < fn_types@.len() implies (
        #[trigger] fn_types@[i])@ is Fn by {
            assert(views(fn_types@)[i] == fn_types@[i]@);
        }
        assert(views(fn_types@).len() == scc@.len());
    }
    let ghost c2 = ctx;
    ctx = check_bodies(
        ctx,
        decls,
        scc,
        &fn_types,
        infer,
        Ghost(k),
        Ghost(cost),
        Ghost(spare),
    );
    let ghost y = ctx;
    let span = if scc.len() == 0 {
        Span { start: 0, end: 0 }
    } else {
        decls[scc[0].0].span
    };
    let kept = solve_component(&mut ctx, k, &fn_types, &env_ty, &env_cap, span);
    let ghost c3 = ctx;
    write_back_schemes(&mut ctx, scc, decls, &fn_types, &env_ty, &env_cap, &kept);
    proof {
        let tys = views(fn_types@);
        let snap = Scope { vars: env_ty@, caps: env_cap@, kept: preds(kept@) };
        assert(only_seeded(c1, c2));
        assert(constraints_solved(
            k,
            y,
            c3,
            tys,
            snap.vars,
            component_span(decls@, scc@),
            snap.kept,
        ));
        assert(wrote_back(c3, ctx, decls@, scc@, tys, snap));
        assert(component_checked(*infer, k, c1, ctx, decls@, scc@));
        assert(diags(c1.errors@) =~= diags(ctx.errors@).take(c1.errors@.len() as int));
        let w = bind_foreign(decls@, scc@, c3.table(), tys, snap, written(c3), scc@.len());
        foreign_bound(decls@, scc@, c3.table(), tys, snap, written(c3), scc@.len());
        bodies_bound(c3.node_ids, decls@, scc@, c3.table(), tys, snap, w, scc@.len());
        assert forall|n: Seq<char>| in_frame(c2.env@.last(), n) is Some implies #[trigger] in_frame(
            ctx.env@.last(),
            n,
        ) is Some by {
            assert(in_frame(c3.env@.last(), n) is Some);
            assert(in_frame(w.env.last(), n) is Some);
        }
        assert forall|n: Seq<char>| in_frame(c1.env@.last(), n) is Some implies #[trigger] in_frame(
            ctx.env@.last(),
            n,
        ) is Some by {
            assert(in_frame(c2.env@.last(), n) is Some);
        }
    }
    ctx
}

/// What checking the declarations of a module leaves: every declaration bound
/// in the innermost scope, the outer scopes and the return type as they were,
/// and no diagnostic gone. The last diagnostics are about the variables that
/// were never solved.
pub open spec fn module_checked(c: InferCtx, d: InferCtx, decls: Seq<FnDecl>) -> bool {
    &&& d.wf()
    &&& d.env@.len() == c.env@.len()
    &&& d.env@.drop_last() == c.env@.drop_last()
    &&& forall|i: int|
        0 <= i < decls.len() ==> in_frame(
            d.env@.last(),
            (#[trigger] decls[i]).name.text@,
        ) is Some
    &&& d.current_fn_ret == c.current_fn_ret
    &&& diags(c.errors@).is_prefix_of(diags(d.errors@))
}

/// What the constraints of a module are solved by.
pub open spec fn registries<'a>(
    b: &'a BuiltinTyCons,
    class_table: &'a ClassTable,
    instance_env: &'a InstanceEnv,
) -> Registries<'a> {
    Registries { b, classes: class_table, instances: instance_env }
}

/// Checks the top-level functions of a module, component by component, with
/// the callees before the callers: gives each a type, looks at the bodies with
/// `infer`, solves the constraints, generalises the types and binds the names
/// to the schemes. Then reports the variables that were never solved.
#[must_use]
pub fn typecheck_module_decls<F: Fn(InferCtx, &Expr) -> (InferCtx, Type)>(
    ctx: InferCtx,
    b: &BuiltinTyCons,
    decls: &Vec<FnDecl>,
    class_table: &ClassTable,
    instance_env: &InstanceEnv,
    infer: &F,
) -> (r: InferCtx)
    requires
        ctx.wf(),
        ctx.env@.len() > 0,
        decls@.len() <= u32::MAX,
        instance_env.fn_arities.wf(),
        exists|cost: spec_fn(Expr) -> nat|
            {
                &&& #[trigger] reliable(*infer, cost)
                &&& orderly(*infer, registries(b, class_table, instance_env), cost)
                &&& in_hand(
                    registries(b, class_table, instance_env),
                    ctx,
                    module_cost(decls@, cost) as int,
                )
            },
    ensures
        module_checked(ctx, r, decls@),
        decls@.len() == 0 ==> r == ctx,
        decls@.len() > 0 ==> decls_checked(
            *infer,
            registries(b, class_table, instance_env),
            ctx,
            r,
            decls@,
        ),
{
    let ghost cost = choose|cost: spec_fn(Expr) -> nat|
        {
            &&& #[trigger] reliable(*infer, cost)
            &&& orderly(*infer, registries(b, class_table, instance_env), cost)
            &&& in_hand(
                registries(b, class_table, instance_env),
                ctx,
                module_cost(decls@, cost) as int,
            )
        };
    check_decls(ctx, b, decls, class_table, instance_env, infer, Ghost(cost), Ghost(0))
}

/// Checks the top-level functions of a module, and keeps room for `spare`
/// variables more than they cost.
pub(crate) fn check_decls<F: Fn(InferCtx, &Expr) -> (InferCtx, Type)>(
    ctx: InferCtx,
    b: &BuiltinTyCons,
    decls: &Vec<FnDecl>,
    class_table: &ClassTable,
    instance_env: &InstanceEnv,
    infer: &F,
    Ghost(cost): Ghost<spec_fn(Expr) -> nat>,
    Ghost(spare): Ghost<int>,
) -> (r: InferCtx)
    requires
        ctx.wf(),
        ctx.env@.len() > 0,
        decls@.len() <= u32::MAX,
        instance_env.fn_arities.wf(),
        spare >= 0,
        reliable(*infer, cost),
        orderly(*infer, registries(b, class_table, instance_env), cost),
        in_hand(
            registries(b, class_table, instance_env),
            ctx,
            spare + module_cost(decls@, cost),
        ),
    ensures
        module_checked(ctx, r, decls@),
        in_hand(registries(b, class_table, instance_env), r, spare),
        decls@.len() == 0 ==> r == ctx,
        decls@.len() > 0 ==> decls_checked(
            *infer,
            registries(b, class_table, instance_env),
            ctx,
            r,
            decls@,
        ),
{
    if decls.len() == 0 {
        return ctx;
    }
    let k = Registries { b, classes: class_table, instances: instance_env };
    let ghost c0 = ctx;
    let ghost reserve = spare + module_cost(decls@, cost);
    let graph = build_call_graph(decls);
    let sccs = tarjan_sccs(&graph);
    let ghost all = contents(sccs@);
    proof {
        assert forall|i: int, j: int| 0 <= i < sccs@.len() && 0 <= j < sccs@[i]@.len() implies (
        #[trigger] sccs@[i]@[j]).0 < decls@.len() by {
            assert(all[i][j] == sccs@[i]@[j]);
            assert(in_component(all, i, sccs@[i]@[j].0 as int));
            assert(listed(all, sccs@[i]@[j].0 as int));
        }
    }
    let mut ctx = ctx;
    let mut n: usize = 0;
    while n < sccs.len()
        invariant
            n <= sccs@.len(),
            ctx.wf(),
            ctx.env@.len() == c0.env@.len(),
            ctx.env@.len() > 0,
            ctx.env@.drop_last() == c0.env@.drop_last(),
            ctx.current_fn_ret == c0.current_fn_ret,
            diags(c0.errors@).is_prefix_of(diags(ctx.errors@)),
            k.wf(),
            in_hand(k, ctx, reserve - listed_cost(decls@, cost, members(all, n as nat))),
            reserve == spare + module_cost(decls@, cost),
            spare >= 0,
            reliable(*infer, cost),
            orderly(*infer, k, cost),
            components_checked(*infer, k, c0, ctx, decls@, all, n as nat),
            all == contents(sccs@),
            are_sccs(graph, all),
            forall|i: int, j: int|
                0 <= i < sccs@.len() && 0 <= j < sccs@[i]@.len() ==> (
                #[trigger] sccs@[i]@[j]).0 < decls@.len(),
            forall|i: int|
                0 <= i < n ==> all_bound(
                    ctx.env@.last(),
                    decls@,
                    (#[trigger] sccs@[i])@,
                    sccs@[i]@.len(),
                ),
        decreases sccs@.len() - n,
    {
        let scc = &sccs[n];
        assert(names_members(decls@, scc@)) by {
            assert forall|i: int| 0 <= i < scc@.len() implies (#[trigger] scc@[i]).0
                < decls@.len() by {
                assert(sccs@[n as int]@[i].0 < decls@.len());
            }
        }
        proof {
            assert(all[n as int] == scc@);
            assert forall|c: int, j: int| 0 <= c < all.len() && 0 <= j < all[c].len() implies (
            #[trigger] all[c][j]).0 < decls@.len() by {
                assert(all[c][j] == sccs@[c]@[j]);
            }
            members_within(decls@, cost, all, (n + 1) as nat);
            listed_cost_sum(decls@, cost, members(all, n as nat), scc@);
        }
        let ghost rest = reserve - listed_cost(decls@, cost, members(all, (n + 1) as nat));
        let ghost c1 = ctx;
        ctx = check_component(ctx, k, decls, scc, infer, Ghost(cost), Ghost(rest));
        proof {
            one_more_component(*infer, k, c0, c1, ctx, decls@, all, n as nat);
            assert(diags(c0.errors@) =~= diags(ctx.errors@).take(c0.errors@.len() as int));
            assert forall|i: int| 0 <= i < n + 1 implies all_bound(
                ctx.env@.last(),
                decls@,
                (#[trigger] sccs@[i])@,
                sccs@[i]@.len(),
            ) by {
                if i < n {
                    assert(all_bound(c1.env@.last(), decls@, sccs@[i]@, sccs@[i]@.len()));
                }
            }
        }
        n = n + 1;
    }
    let ghost c4 = ctx;
    proof {
        assert forall|c: int, j: int| 0 <= c < all.len() && 0 <= j < all[c].len() implies (
        #[trigger] all[c][j]).0 < decls@.len() by {
            assert(all[c][j] == sccs@[c]@[j]);
        }
        members_within(decls@, cost, all, all.len());
    }
    detect_unsolved_type_vars(&mut ctx);
    proof {
        assert forall|i: int| 0 <= i < decls@.len() implies in_frame(
            ctx.env@.last(),
            (#[trigger] decls@[i]).name.text@,
        ) is Some by {
            assert(listed(all, i));
            let c = choose|c: int| in_component(all, c, i);
            let j = choose|j: int| 0 <= j < all[c].len() && (#[trigger] all[c][j]).0 == i;
            assert(all[c][j] == sccs@[c]@[j]);
            assert(all_bound(ctx.env@.last(), decls@, sccs@[c]@, sccs@[c]@.len()));
            assert(sccs@[c]@[j].0 == i);
        }
        assert(are_sccs(graph, all));
        assert(components_checked(*infer, k, c0, c4, decls@, all, all.len()));
    }
    ctx
}

/// Nothing is reported of a scheme that quantifies over all of its variables.
pub proof fn closed_schemes_are_silent(tb: Table, p: Poly)
    requires
        forall|v: u32| #[trigger] occurs(TyVid(v), p.ty) ==> p.vars.contains(TyVid(v)),
    ensures
        unsolved(tb, p).len() == 0,
{
}

} // verus!

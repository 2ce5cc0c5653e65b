use rustc_hash::FxHashMap;
use vstd::prelude::*;

use crate::classes::{ClassInfo, ClassTable, MethodSig};
use crate::ctx::{with_binding, InferCtx};
use crate::decls::{affordable, grew};
use crate::diag::diags;
use crate::fx::{by_name, put_name, put_names};
use crate::heads::TypeExpr;
use crate::instantiate::{fresh_vars, with_slots};
use crate::seeds::{bind_method, fresh_n, method, no_types, with_type};
use crate::table::Table;
use crate::types::{views, ClassId, Ty, TyConId, TyVid, Type};

verus! {

broadcast use crate::types::group_views;

/// A signature that came with its types.
pub open spec fn is_typed(sig: MethodSig) -> bool {
    sig.ast_ret_type is Some && sig.ast_param_types@.len() > 0
}

/// How many variables the scheme of a method is over: at least one.
pub open spec fn method_vars(sig: MethodSig) -> nat {
    if sig.class_ty_vars@.len() == 0 {
        1
    } else {
        sig.class_ty_vars@.len()
    }
}

/// What the first `k` names of variables stand for, where these are numbered
/// from `from` on. A variable without a name is not among them, and the later
/// one of two of the same name is meant.
pub open spec fn var_names(names: Seq<String>, from: nat, k: nat) -> Map<Seq<char>, TyVid>
    decreases k,
{
    if k == 0 || k > names.len() {
        Map::empty()
    } else {
        let before = var_names(names, from, (k - 1) as nat);
        if names[k - 1]@.len() == 0 {
            before
        } else {
            before.insert(names[k - 1]@, fresh_vars(from, k)[k - 1])
        }
    }
}

/// The names that the types of a signature are read by: those of the workspace,
/// with those of the module in their place.
pub open spec fn sig_names(
    global: Map<Seq<char>, TyConId>,
    user: Map<Seq<char>, TyConId>,
) -> Map<Seq<char>, TyConId> {
    global.union_prefer_right(user)
}

/// In a signature a name means what it means in the module that the method is
/// bound in, and only where it means nothing there, what it means in the
/// workspace.
pub proof fn local_names_shadow(
    global: Map<Seq<char>, TyConId>,
    user: Map<Seq<char>, TyConId>,
    name: Seq<char>,
)
    ensures
        user.dom().contains(name) ==> sig_names(global, user).dom().contains(name) && sig_names(
            global,
            user,
        )[name] == user[name],
        !user.dom().contains(name) && global.dom().contains(name) ==> sig_names(
            global,
            user,
        ).dom().contains(name) && sig_names(global, user)[name] == global[name],
        sig_names(global, user).dom().contains(name) ==> user.dom().contains(name)
            || global.dom().contains(name),
{
}

/// `d` is `c` after a written type was read: it may know more variables and hold
/// more diagnostics.
pub open spec fn read_from(c: InferCtx, d: InferCtx) -> bool {
    &&& d.wf()
    &&& d == (InferCtx { vars: d.vars, errors: d.errors, ..c })
    &&& diags(c.errors@).is_prefix_of(diags(d.errors@))
}

/// Reading of written types that can be relied on, where a type may need as many
/// variables as `cost` says.
pub open spec fn converts<
    V: Fn(InferCtx, &TypeExpr, &FxHashMap<String, TyConId>, &FxHashMap<String, TyVid>) -> (
        InferCtx,
        Type,
    ),
>(convert: V, cost: spec_fn(TypeExpr) -> nat) -> bool {
    &&& forall|
        c: InferCtx,
        t: &TypeExpr,
        names: &FxHashMap<String, TyConId>,
        vars: &FxHashMap<String, TyVid>,
    |
        affordable(c, cost(*t)) ==> #[trigger] call_requires(convert, (c, t, names, vars))
    &&& forall|
        c: InferCtx,
        t: &TypeExpr,
        names: &FxHashMap<String, TyConId>,
        vars: &FxHashMap<String, TyVid>,
        out: (InferCtx, Type),
    | #[trigger]
        call_ensures(convert, (c, t, names, vars), out) && affordable(c, cost(*t)) ==> read_from(
            c,
            out.0,
        ) && grew(c, out.0, cost(*t))
}

/// Reading a written type by some names of types and of variables gives `d` and
/// the type `ty`.
pub open spec fn type_converted<
    V: Fn(InferCtx, &TypeExpr, &FxHashMap<String, TyConId>, &FxHashMap<String, TyVid>) -> (
        InferCtx,
        Type,
    ),
>(
    convert: V,
    c: InferCtx,
    d: InferCtx,
    t: TypeExpr,
    names: FxHashMap<String, TyConId>,
    vars: FxHashMap<String, TyVid>,
    ty: Ty,
) -> bool {
    exists|out: (InferCtx, Type)| #[trigger]
        call_ensures(convert, (c, &t, &names, &vars), out) && out.0 == d && out.1@ == ty
}

/// Reading the first `k` of some written types, in order, gives `d` and the types
/// `tys`.
pub open spec fn types_converted<
    V: Fn(InferCtx, &TypeExpr, &FxHashMap<String, TyConId>, &FxHashMap<String, TyVid>) -> (
        InferCtx,
        Type,
    ),
>(
    convert: V,
    c: InferCtx,
    d: InferCtx,
    ts: Seq<TypeExpr>,
    names: FxHashMap<String, TyConId>,
    vars: FxHashMap<String, TyVid>,
    tys: Seq<Ty>,
    k: nat,
) -> bool
    decreases k,
{
    if k == 0 || k > ts.len() {
        d == c && tys.len() == 0
    } else {
        tys.len() == k && exists|m: InferCtx| #[trigger]
            type_converted(convert, m, d, ts[k - 1], names, vars, tys[k - 1]) && types_converted(
                convert,
                c,
                m,
                ts,
                names,
                vars,
                tys.drop_last(),
                (k - 1) as nat,
            )
    }
}

/// The steps of binding a method: the contexts with its variables numbered, with
/// the types of its parameters read and with that of its result read, what its
/// variables are named, and the types.
pub struct SigSteps {
    pub numbered: InferCtx,
    pub converted: InferCtx,
    pub closed: InferCtx,
    pub vars: FxHashMap<String, TyVid>,
    pub params: Seq<Ty>,
    pub ret: Ty,
}

/// `s` are the steps by which `d` is `c` with a method bound, whose types are
/// read by `names`.
pub open spec fn sig_steps<
    V: Fn(InferCtx, &TypeExpr, &FxHashMap<String, TyConId>, &FxHashMap<String, TyVid>) -> (
        InferCtx,
        Type,
    ),
>(
    convert: V,
    c: InferCtx,
    d: InferCtx,
    class: ClassId,
    sig: MethodSig,
    names: FxHashMap<String, TyConId>,
    s: SigSteps,
) -> bool {
    let from = c.table().types.len();
    let n = method_vars(sig);
    &&& s.numbered.wf()
    &&& s.numbered == (InferCtx { vars: s.numbered.vars, ..c })
    &&& s.numbered.table() == (Table { types: with_slots(c.table().types, n), ..c.table() })
    &&& by_name(s.vars@) == var_names(sig.class_ty_vars@, from, sig.class_ty_vars@.len())
    &&& types_converted(
        convert,
        s.numbered,
        s.converted,
        sig.ast_param_types@,
        names,
        s.vars,
        s.params,
        sig.ast_param_types@.len(),
    )
    &&& type_converted(
        convert,
        s.converted,
        s.closed,
        sig.ast_ret_type->0,
        names,
        s.vars,
        s.ret,
    )
    &&& d.env@ == with_binding(
        s.closed.env@,
        sig.name@,
        method(fresh_vars(from, n), n as int, class, s.params, s.ret),
    )
    &&& d == (InferCtx { env: d.env, ..s.closed })
}

/// `d` is `c` with a method bound, where it came with its types.
pub open spec fn sig_seeded<
    V: Fn(InferCtx, &TypeExpr, &FxHashMap<String, TyConId>, &FxHashMap<String, TyVid>) -> (
        InferCtx,
        Type,
    ),
>(
    convert: V,
    c: InferCtx,
    d: InferCtx,
    class: ClassId,
    sig: MethodSig,
    names: FxHashMap<String, TyConId>,
) -> bool {
    if is_typed(sig) {
        exists|s: SigSteps| #[trigger] sig_steps(convert, c, d, class, sig, names, s)
    } else {
        d == c
    }
}

/// `d` is `c` with the first `k` methods of a class bound, in order.
pub open spec fn sigs_seeded<
    V: Fn(InferCtx, &TypeExpr, &FxHashMap<String, TyConId>, &FxHashMap<String, TyVid>) -> (
        InferCtx,
        Type,
    ),
>(
    convert: V,
    c: InferCtx,
    d: InferCtx,
    class: ClassId,
    sigs: Seq<MethodSig>,
    names: FxHashMap<String, TyConId>,
    k: nat,
) -> bool
    decreases k,
{
    if k == 0 || k > sigs.len() {
        d == c
    } else {
        exists|m: InferCtx| #[trigger]
            sig_seeded(convert, m, d, class, sigs[k - 1], names) && sigs_seeded(
                convert,
                c,
                m,
                class,
                sigs,
                names,
                (k - 1) as nat,
            )
    }
}

/// `d` is `c` with the methods of a class bound.
pub open spec fn class_seeded<
    V: Fn(InferCtx, &TypeExpr, &FxHashMap<String, TyConId>, &FxHashMap<String, TyVid>) -> (
        InferCtx,
        Type,
    ),
>(
    convert: V,
    c: InferCtx,
    d: InferCtx,
    class: ClassInfo,
    names: FxHashMap<String, TyConId>,
) -> bool {
    sigs_seeded(convert, c, d, class.id, class.method_sigs@, names, class.method_sigs@.len())
}

/// `d` is `c` with the methods of the first `k` classes bound, in order.
pub open spec fn classes_seeded<
    V: Fn(InferCtx, &TypeExpr, &FxHashMap<String, TyConId>, &FxHashMap<String, TyVid>) -> (
        InferCtx,
        Type,
    ),
>(
    convert: V,
    c: InferCtx,
    d: InferCtx,
    cs: Seq<ClassInfo>,
    names: FxHashMap<String, TyConId>,
    k: nat,
) -> bool
    decreases k,
{
    if k == 0 || k > cs.len() {
        d == c
    } else {
        exists|m: InferCtx| #[trigger]
            class_seeded(convert, m, d, cs[k - 1], names) && classes_seeded(
                convert,
                c,
                m,
                cs,
                names,
                (k - 1) as nat,
            )
    }
}

/// `names` holds some names, and no others.
pub open spec fn holds(
    names: FxHashMap<String, TyConId>,
    all: Map<Seq<char>, TyConId>,
) -> bool {
    by_name(names@) == all
}

/// `d` is `c` with the methods of some classes bound. Their types are read by the
/// names of the workspace, with those of the module in their place.
pub open spec fn class_methods_seeded<
    V: Fn(InferCtx, &TypeExpr, &FxHashMap<String, TyConId>, &FxHashMap<String, TyVid>) -> (
        InferCtx,
        Type,
    ),
>(
    convert: V,
    c: InferCtx,
    d: InferCtx,
    cs: Seq<ClassInfo>,
    global: Map<Seq<char>, TyConId>,
) -> bool {
    exists|names: FxHashMap<String, TyConId>| #[trigger]
        holds(names, sig_names(global, by_name(c.user_tycon_names@))) && classes_seeded(
            convert,
            c,
            d,
            cs,
            names,
            cs.len(),
        )
}

/// What binding methods leaves as it was: all but the variables, the names in
/// scope and the diagnostics, of which none goes away.
pub open spec fn only_methods(c: InferCtx, d: InferCtx) -> bool {
    &&& d.wf()
    &&& d == (InferCtx { vars: d.vars, env: d.env, errors: d.errors, ..c })
    &&& d.env@.len() == c.env@.len()
    &&& diags(c.errors@).is_prefix_of(diags(d.errors@))
}

proof fn only_methods_twice(c: InferCtx, d: InferCtx, e: InferCtx)
    requires
        only_methods(c, d),
        only_methods(d, e),
    ensures
        only_methods(c, e),
{
    assert(diags(c.errors@) =~= diags(e.errors@).take(diags(c.errors@).len() as int));
}

/// How many variables the first `k` of some written types may need.
pub open spec fn types_cost(ts: Seq<TypeExpr>, cost: spec_fn(TypeExpr) -> nat, k: nat) -> nat
    decreases k,
{
    if k == 0 || k > ts.len() {
        0
    } else {
        types_cost(ts, cost, (k - 1) as nat) + cost(ts[k - 1])
    }
}

/// How many variables binding a method may need.
pub open spec fn sig_cost(sig: MethodSig, cost: spec_fn(TypeExpr) -> nat) -> nat {
    if is_typed(sig) {
        method_vars(sig) + types_cost(
            sig.ast_param_types@,
            cost,
            sig.ast_param_types@.len(),
        ) + cost(sig.ast_ret_type->0)
    } else {
        0
    }
}

/// How many variables binding the first `k` methods of a class may need.
pub open spec fn sigs_cost(sigs: Seq<MethodSig>, cost: spec_fn(TypeExpr) -> nat, k: nat) -> nat
    decreases k,
{
    if k == 0 || k > sigs.len() {
        0
    } else {
        sigs_cost(sigs, cost, (k - 1) as nat) + sig_cost(sigs[k - 1], cost)
    }
}

/// How many variables binding the methods of the first `k` classes may need.
pub open spec fn classes_cost(cs: Seq<ClassInfo>, cost: spec_fn(TypeExpr) -> nat, k: nat) -> nat
    decreases k,
{
    if k == 0 || k > cs.len() {
        0
    } else {
        classes_cost(cs, cost, (k - 1) as nat) + sigs_cost(
            cs[k - 1].method_sigs@,
            cost,
            cs[k - 1].method_sigs@.len(),
        )
    }
}

proof fn types_cost_mono(ts: Seq<TypeExpr>, cost: spec_fn(TypeExpr) -> nat, j: nat, k: nat)
    requires
        j <= k <= ts.len(),
    ensures
        types_cost(ts, cost, j) <= types_cost(ts, cost, k),
    decreases k,
{
    if j < k {
        types_cost_mono(ts, cost, j, (k - 1) as nat);
    }
}

proof fn sigs_cost_mono(sigs: Seq<MethodSig>, cost: spec_fn(TypeExpr) -> nat, j: nat, k: nat)
    requires
        j <= k <= sigs.len(),
    ensures
        sigs_cost(sigs, cost, j) <= sigs_cost(sigs, cost, k),
    decreases k,
{
    if j < k {
        sigs_cost_mono(sigs, cost, j, (k - 1) as nat);
    }
}

proof fn classes_cost_mono(cs: Seq<ClassInfo>, cost: spec_fn(TypeExpr) -> nat, j: nat, k: nat)
    requires
        j <= k <= cs.len(),
    ensures
        classes_cost(cs, cost, j) <= classes_cost(cs, cost, k),
    decreases k,
{
    if j < k {
        classes_cost_mono(cs, cost, j, (k - 1) as nat);
    }
}

proof fn one_more_converted<
    V: Fn(InferCtx, &TypeExpr, &FxHashMap<String, TyConId>, &FxHashMap<String, TyVid>) -> (
        InferCtx,
        Type,
    ),
>(
    convert: V,
    c: InferCtx,
    m: InferCtx,
    d: InferCtx,
    ts: Seq<TypeExpr>,
    names: FxHashMap<String, TyConId>,
    vars: FxHashMap<String, TyVid>,
    tys: Seq<Ty>,
    ty: Ty,
    k: nat,
)
    requires
        k < ts.len(),
        tys.len() == k,
        types_converted(convert, c, m, ts, names, vars, tys, k),
        type_converted(convert, m, d, ts[k as int], names, vars, ty),
    ensures
        types_converted(convert, c, d, ts, names, vars, tys.push(ty), k + 1),
{
    assert(tys.push(ty).drop_last() =~= tys);
    assert(types_converted(
        convert,
        c,
        m,
        ts,
        names,
        vars,
        tys.push(ty).drop_last(),
        (k + 1 - 1) as nat,
    ));
    assert(type_converted(convert, m, d, ts[k + 1 - 1], names, vars, tys.push(ty)[k + 1 - 1]));
}

fn convert_types<
    V: Fn(InferCtx, &TypeExpr, &FxHashMap<String, TyConId>, &FxHashMap<String, TyVid>) -> (
        InferCtx,
        Type,
    ),
>(
    ctx: InferCtx,
    ts: &Vec<TypeExpr>,
    names: &FxHashMap<String, TyConId>,
    vars: &FxHashMap<String, TyVid>,
    convert: &V,
    Ghost(cost): Ghost<spec_fn(TypeExpr) -> nat>,
) -> (r: (InferCtx, Vec<Type>))
    requires
        converts(*convert, cost),
        affordable(ctx, types_cost(ts@, cost, ts@.len())),
    ensures
        types_converted(
            *convert,
            ctx,
            r.0,
            ts@,
            *names,
            *vars,
            views(r.1@),
            ts@.len(),
        ),
        read_from(ctx, r.0),
        grew(ctx, r.0, types_cost(ts@, cost, ts@.len())),
{
    let ghost c0 = ctx;
    let mut ctx = ctx;
    let mut out = no_types();
    let mut i: usize = 0;
    while i < ts.len()
        invariant
            i <= ts@.len(),
            converts(*convert, cost),
            affordable(c0, types_cost(ts@, cost, ts@.len())),
            views(out@).len() == i,
            types_converted(*convert, c0, ctx, ts@, *names, *vars, views(out@), i as nat),
            read_from(c0, ctx),
            grew(c0, ctx, types_cost(ts@, cost, i as nat)),
        decreases ts@.len() - i,
    {
        proof {
            types_cost_mono(ts@, cost, (i + 1) as nat, ts@.len());
        }
        let ghost m = ctx;
        let ghost before = views(out@);
        let t: &TypeExpr = &ts[i];
        assert(affordable(m, cost(*t)));
        let (next, ty) = convert(ctx, t, names, vars);
        ctx = next;
        proof {
            assert(call_ensures(*convert, (m, t, names, vars), (next, ty)));
            assert(type_converted(*convert, m, ctx, ts@[i as int], *names, *vars, ty@));
            one_more_converted(
                *convert,
                c0,
                m,
                ctx,
                ts@,
                *names,
                *vars,
                before,
                ty@,
                i as nat,
            );
            assert(diags(c0.errors@) =~= diags(ctx.errors@).take(diags(c0.errors@).len() as int));
        }
        out = with_type(out, ty);
        i = i + 1;
    }
    (ctx, out)
}

fn name_vars(names: &Vec<String>, vs: &Vec<TyVid>, Ghost(from): Ghost<nat>) -> (r: FxHashMap<
    String,
    TyVid,
>)
    requires
        names@.len() <= vs@.len(),
        vs@ == fresh_vars(from, vs@.len()),
    ensures
        by_name(r@) == var_names(names@, from, names@.len()),
{
    let mut r: FxHashMap<String, TyVid> = FxHashMap::default();
    assert(by_name(r@) =~= Map::<Seq<char>, TyVid>::empty());
    let mut i: usize = 0;
    while i < names.len()
        invariant
            i <= names@.len(),
            names@.len() <= vs@.len(),
            vs@ == fresh_vars(from, vs@.len()),
            by_name(r@) == var_names(names@, from, i as nat),
        decreases names@.len() - i,
    {
        assert(fresh_vars(from, (i + 1) as nat)[i as int] == vs@[i as int]);
        if names[i].as_str().unicode_len() > 0 {
            put_name(&mut r, names[i].clone(), vs[i]);
        }
        i = i + 1;
    }
    r
}

fn seed_sig<
    V: Fn(InferCtx, &TypeExpr, &FxHashMap<String, TyConId>, &FxHashMap<String, TyVid>) -> (
        InferCtx,
        Type,
    ),
>(
    ctx: InferCtx,
    class: ClassId,
    sig: &MethodSig,
    names: &FxHashMap<String, TyConId>,
    convert: &V,
    Ghost(cost): Ghost<spec_fn(TypeExpr) -> nat>,
) -> (r: InferCtx)
    requires
        converts(*convert, cost),
        affordable(ctx, sig_cost(*sig, cost)),
    ensures
        sig_seeded(*convert, ctx, r, class, *sig, *names),
        only_methods(ctx, r),
        grew(ctx, r, sig_cost(*sig, cost)),
{
    let ret_ty = match &sig.ast_ret_type {
        Some(t) => t,
        None => {
            return ctx;
        },
    };
    if sig.ast_param_types.len() == 0 {
        return ctx;
    }
    let ghost c0 = ctx;
    let ghost from = ctx.table().types.len();
    let n: usize = if sig.class_ty_vars.len() == 0 {
        1
    } else {
        sig.class_ty_vars.len()
    };
    let mut ctx = ctx;
    let vs = fresh_n(&mut ctx, n);
    let ghost numbered = ctx;
    let vars = name_vars(&sig.class_ty_vars, &vs, Ghost(from));
    let (ctx, params) = convert_types(
        ctx,
        &sig.ast_param_types,
        names,
        &vars,
        convert,
        Ghost(cost),
    );
    let ghost converted = ctx;
    assert(affordable(converted, cost(*ret_ty)));
    let (next, ret) = convert(ctx, ret_ty, names, &vars);
    let mut ctx = next;
    let ghost closed = ctx;
    let ghost tys = views(params@);
    proof {
        assert(call_ensures(*convert, (converted, ret_ty, names, &vars), (next, ret)));
        assert(type_converted(*convert, converted, closed, *ret_ty, *names, vars, ret@));
        assert(diags(c0.errors@) =~= diags(closed.errors@).take(diags(c0.errors@).len() as int));
    }
    let ghost ty = ret@;
    bind_method(&mut ctx, sig.name.as_str(), vs, n, class, params, ret);
    proof {
        let s = SigSteps { numbered, converted, closed, vars, params: tys, ret: ty };
        assert(sig_steps(*convert, c0, ctx, class, *sig, *names, s));
    }
    ctx
}

proof fn one_more_sig<
    V: Fn(InferCtx, &TypeExpr, &FxHashMap<String, TyConId>, &FxHashMap<String, TyVid>) -> (
        InferCtx,
        Type,
    ),
>(
    convert: V,
    c: InferCtx,
    m: InferCtx,
    d: InferCtx,
    class: ClassId,
    sigs: Seq<MethodSig>,
    names: FxHashMap<String, TyConId>,
    k: nat,
)
    requires
        k < sigs.len(),
        sigs_seeded(convert, c, m, class, sigs, names, k),
        sig_seeded(convert, m, d, class, sigs[k as int], names),
    ensures
        sigs_seeded(convert, c, d, class, sigs, names, k + 1),
{
    assert(sigs_seeded(convert, c, m, class, sigs, names, (k + 1 - 1) as nat));
}

fn seed_sigs<
    V: Fn(InferCtx, &TypeExpr, &FxHashMap<String, TyConId>, &FxHashMap<String, TyVid>) -> (
        InferCtx,
        Type,
    ),
>(
    ctx: InferCtx,
    class: ClassId,
    sigs: &Vec<MethodSig>,
    names: &FxHashMap<String, TyConId>,
    convert: &V,
    Ghost(cost): Ghost<spec_fn(TypeExpr) -> nat>,
) -> (r: InferCtx)
    requires
        converts(*convert, cost),
        affordable(ctx, sigs_cost(sigs@, cost, sigs@.len())),
    ensures
        sigs_seeded(*convert, ctx, r, class, sigs@, *names, sigs@.len()),
        only_methods(ctx, r),
        grew(ctx, r, sigs_cost(sigs@, cost, sigs@.len())),
{
    let ghost c0 = ctx;
    let mut ctx = ctx;
    let mut i: usize = 0;
    while i < sigs.len()
        invariant
            i <= sigs@.len(),
            converts(*convert, cost),
            affordable(c0, sigs_cost(sigs@, cost, sigs@.len())),
            sigs_seeded(*convert, c0, ctx, class, sigs@, *names, i as nat),
            only_methods(c0, ctx),
            grew(c0, ctx, sigs_cost(sigs@, cost, i as nat)),
        decreases sigs@.len() - i,
    {
        proof {
            sigs_cost_mono(sigs@, cost, (i + 1) as nat, sigs@.len());
        }
        let ghost m = ctx;
        ctx = seed_sig(ctx, class, &sigs[i], names, convert, Ghost(cost));
        proof {
            only_methods_twice(c0, m, ctx);
            one_more_sig(*convert, c0, m, ctx, class, sigs@, *names, i as nat);
        }
        i = i + 1;
    }
    ctx
}

proof fn one_more_class<
    V: Fn(InferCtx, &TypeExpr, &FxHashMap<String, TyConId>, &FxHashMap<String, TyVid>) -> (
        InferCtx,
        Type,
    ),
>(
    convert: V,
    c: InferCtx,
    m: InferCtx,
    d: InferCtx,
    cs: Seq<ClassInfo>,
    names: FxHashMap<String, TyConId>,
    k: nat,
)
    requires
        k < cs.len(),
        classes_seeded(convert, c, m, cs, names, k),
        class_seeded(convert, m, d, cs[k as int], names),
    ensures
        classes_seeded(convert, c, d, cs, names, k + 1),
{
    assert(classes_seeded(convert, c, m, cs, names, (k + 1 - 1) as nat));
}

pub(crate) fn seed_class_methods<
    V: Fn(InferCtx, &TypeExpr, &FxHashMap<String, TyConId>, &FxHashMap<String, TyVid>) -> (
        InferCtx,
        Type,
    ),
>(
    ctx: InferCtx,
    class_table: &ClassTable,
    global_tycon_names: &FxHashMap<String, TyConId>,
    convert: &V,
    Ghost(cost): Ghost<spec_fn(TypeExpr) -> nat>,
) -> (r: InferCtx)
    requires
        converts(*convert, cost),
        affordable(
            ctx,
            classes_cost(class_table.classes@, cost, class_table.classes@.len()),
        ),
    ensures
        class_methods_seeded(
            *convert,
            ctx,
            r,
            class_table.classes@,
            by_name(global_tycon_names@),
        ),
        only_methods(ctx, r),
        grew(ctx, r, classes_cost(class_table.classes@, cost, class_table.classes@.len())),
{
    let ghost c0 = ctx;
    let ghost cs = class_table.classes@;
    let mut names: FxHashMap<String, TyConId> = FxHashMap::default();
    put_names(&mut names, global_tycon_names);
    put_names(&mut names, &ctx.user_tycon_names);
    assert(by_name(names@) =~= sig_names(
        by_name(global_tycon_names@),
        by_name(c0.user_tycon_names@),
    ));
    let mut ctx = ctx;
    let mut i: usize = 0;
    while i < class_table.classes.len()
        invariant
            i <= cs.len(),
            cs == class_table.classes@,
            converts(*convert, cost),
            affordable(c0, classes_cost(cs, cost, cs.len())),
            classes_seeded(*convert, c0, ctx, cs, names, i as nat),
            only_methods(c0, ctx),
            grew(c0, ctx, classes_cost(cs, cost, i as nat)),
        decreases cs.len() - i,
    {
        proof {
            classes_cost_mono(cs, cost, (i + 1) as nat, cs.len());
        }
        let ghost m = ctx;
        ctx =
        seed_sigs(
            ctx,
            class_table.classes[i].id,
            &class_table.classes[i].method_sigs,
            &names,
            convert,
            Ghost(cost),
        );
        proof {
            only_methods_twice(c0, m, ctx);
            one_more_class(*convert, c0, m, ctx, cs, names, i as nat);
        }
        i = i + 1;
    }
    assert(holds(names, sig_names(by_name(global_tycon_names@), by_name(c0.user_tycon_names@))));
    ctx
}

/// Binds every class method that came with its types. These may be declared in
/// another module, so the types are read by the names of the workspace; but a
/// name of the module's own wins. What is bound under the same name later on
/// takes the method's place.
pub fn seed_class_method_schemes<
    V: Fn(InferCtx, &TypeExpr, &FxHashMap<String, TyConId>, &FxHashMap<String, TyVid>) -> (
        InferCtx,
        Type,
    ),
>(
    ctx: InferCtx,
    class_table: &ClassTable,
    global_tycon_names: &FxHashMap<String, TyConId>,
    convert: &V,
) -> (r: InferCtx)
    requires
        exists|cost: spec_fn(TypeExpr) -> nat| #[trigger]
            converts(*convert, cost) && affordable(
                ctx,
                classes_cost(class_table.classes@, cost, class_table.classes@.len()),
            ),
    ensures
        class_methods_seeded(
            *convert,
            ctx,
            r,
            class_table.classes@,
            by_name(global_tycon_names@),
        ),
        only_methods(ctx, r),
{
    let ghost cost = choose|cost: spec_fn(TypeExpr) -> nat| #[trigger]
        converts(*convert, cost) && affordable(
            ctx,
            classes_cost(class_table.classes@, cost, class_table.classes@.len()),
        );
    seed_class_methods(ctx, class_table, global_tycon_names, convert, Ghost(cost))
}

} // verus!

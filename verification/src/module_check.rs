use rustc_hash::FxHashMap;
use vstd::prelude::*;

use crate::ast::{
    ActorMember, Body, ConstDecl, Expr, FnDecl, HandlerDecl, HandlerParam, Item, Pattern,
};
use crate::ctx::{with_binding, InferCtx, NodeIdMap};
use crate::decls::{
    affordable, body_cost, body_id, grew, in_hand, looked_at, node_of_body, orderly, reliable,
};
use crate::diag::diags;
use crate::dicts::Registries;
use crate::fx::{by_name, put_id, put_name};
use crate::instantiate::monoscheme;
use crate::migrate::{kind_of, refers};
use crate::stdlib_env::Scopes;
use crate::types::{
    mono, ActorSchema, CapabilitySet, HandlerSig, RecordField, Scheme, Span, TyConDecl, TyConKind,
    Type,
};

verus! {

broadcast use {crate::types::group_views, crate::diag::diags_push};

proof fn looked_twice(c: InferCtx, m: InferCtx, d: InferCtx)
    requires
        looked_at(c, m),
        looked_at(m, d),
    ensures
        looked_at(c, d),
{
    assert(diags(c.errors@) =~= diags(d.errors@).take(c.errors@.len() as int));
}

/// `d` is `c` after a constant was bound to the type of its value.
pub open spec fn const_bound<F: Fn(InferCtx, &Expr) -> (InferCtx, Type)>(
    infer: F,
    c: InferCtx,
    d: InferCtx,
    decl: ConstDecl,
) -> bool {
    exists|out: (InferCtx, Type), s: Scheme|
        #![trigger call_ensures(infer, (c, &decl.value), out), by_name(out.0.name_schemes_accum@).insert(decl.name.text@, s)]
        {
            &&& call_ensures(infer, (c, &decl.value), out)
            &&& s@ == mono(out.1@)
            &&& d.env@ == with_binding(out.0.env@, decl.name.text@, mono(out.1@))
            &&& by_name(d.name_schemes_accum@) == by_name(out.0.name_schemes_accum@).insert(
                decl.name.text@,
                s,
            )
            &&& d == (InferCtx {
                env: d.env,
                name_schemes_accum: d.name_schemes_accum,
                ..out.0
            })
        }
}

/// `d` is `c` after the first `k` constants were bound, in order.
pub open spec fn consts_bound<F: Fn(InferCtx, &Expr) -> (InferCtx, Type)>(
    infer: F,
    c: InferCtx,
    d: InferCtx,
    consts: Seq<ConstDecl>,
    k: nat,
) -> bool
    decreases k,
{
    if k == 0 || k > consts.len() {
        d == c
    } else {
        let decl = consts[k - 1];
        exists|m: InferCtx| #[trigger]
            const_bound(infer, m, d, decl) && consts_bound(infer, c, m, consts, (k - 1) as nat)
    }
}

proof fn one_more_const<F: Fn(InferCtx, &Expr) -> (InferCtx, Type)>(
    infer: F,
    c: InferCtx,
    m: InferCtx,
    d: InferCtx,
    consts: Seq<ConstDecl>,
    k: nat,
)
    requires
        k < consts.len(),
        consts_bound(infer, c, m, consts, k),
        const_bound(infer, m, d, consts[k as int]),
    ensures
        consts_bound(infer, c, d, consts, (k + 1) as nat),
{
    assert(consts_bound(infer, c, m, consts, (k + 1 - 1) as nat));
}

/// What may change while the declarations of a module are bound: as
/// [`looked_at`], but the innermost scope gets new names.
pub open spec fn bound_on(c: InferCtx, d: InferCtx) -> bool {
    &&& d.wf()
    &&& d.env@.len() == c.env@.len()
    &&& d.env@.drop_last() == c.env@.drop_last()
    &&& d.current_fn_ret == c.current_fn_ret
    &&& d.node_ids == c.node_ids
    &&& diags(c.errors@).is_prefix_of(diags(d.errors@))
}

/// How many variables the first `k` constants may need.
pub open spec fn consts_cost(consts: Seq<ConstDecl>, cost: spec_fn(Expr) -> nat, k: nat) -> nat
    decreases k,
{
    if k == 0 || k > consts.len() {
        0
    } else {
        consts_cost(consts, cost, (k - 1) as nat) + cost(consts[k - 1].value)
    }
}

proof fn consts_cost_mono(consts: Seq<ConstDecl>, cost: spec_fn(Expr) -> nat, j: nat, k: nat)
    requires
        j <= k <= consts.len(),
    ensures
        consts_cost(consts, cost, j) <= consts_cost(consts, cost, k),
    decreases k,
{
    if j < k {
        consts_cost_mono(consts, cost, j, (k - 1) as nat);
    }
}

/// Binds the constants of a module, each to the type of its value.
pub(crate) fn bind_consts<F: Fn(InferCtx, &Expr) -> (InferCtx, Type)>(
    ctx: InferCtx,
    consts: &Vec<ConstDecl>,
    infer: &F,
    Ghost(k): Ghost<Registries>,
    Ghost(cost): Ghost<spec_fn(Expr) -> nat>,
    Ghost(n): Ghost<int>,
) -> (r: InferCtx)
    requires
        ctx.wf(),
        ctx.env@.len() > 0,
        n >= 0,
        reliable(*infer, cost),
        orderly(*infer, k, cost),
        in_hand(k, ctx, n + consts_cost(consts@, cost, consts@.len())),
    ensures
        consts_bound(*infer, ctx, r, consts@, consts@.len()),
        bound_on(ctx, r),
        in_hand(k, r, n),
{
    let ghost c0 = ctx;
    let mut ctx = ctx;
    let mut i: usize = 0;
    while i < consts.len()
        invariant
            i <= consts@.len(),
            c0.env@.len() > 0,
            n >= 0,
            reliable(*infer, cost),
            orderly(*infer, k, cost),
            bound_on(c0, ctx),
            in_hand(
                k,
                ctx,
                n + consts_cost(consts@, cost, consts@.len()) - consts_cost(
                    consts@,
                    cost,
                    i as nat,
                ),
            ),
            consts_bound(*infer, c0, ctx, consts@, i as nat),
        decreases consts@.len() - i,
    {
        let decl = &consts[i];
        let ghost m = ctx;
        proof {
            consts_cost_mono(consts@, cost, (i + 1) as nat, consts@.len());
        }
        let (c, ty) = infer(ctx, &decl.value);
        assert(looked_at(m, c));
        let scheme = monoscheme(ty);
        ctx = c;
        let kept = scheme.clone();
        put_name(&mut ctx.name_schemes_accum, decl.name.text.clone(), kept);
        ctx.env.bind(decl.name.text.clone(), scheme);
        proof {
            let out = (c, ty);
            assert(call_ensures(*infer, (m, &decl.value), out));
            assert(by_name(out.0.name_schemes_accum@).insert(decl.name.text@, kept)
                == by_name(ctx.name_schemes_accum@));
            assert(const_bound(*infer, m, ctx, *decl));
            one_more_const(*infer, c0, m, ctx, consts@, i as nat);
            assert(ctx.env@.drop_last() =~= c.env@.drop_last());
            assert(diags(c0.errors@) =~= diags(ctx.errors@).take(c0.errors@.len() as int));
        }
        i = i + 1;
    }
    ctx
}

/// What a declared function promises to need at most: nothing is promised by
/// one that only its own file sees.
pub open spec fn declared_caps(d: FnDecl) -> Option<CapabilitySet> {
    if d.file_private {
        None
    } else {
        Some(d.caps)
    }
}

/// The capabilities of functions, by the ids of their bodies and by where they
/// start.
pub open spec fn with_caps(
    m: Map<u32, CapabilitySet>,
    ids: NodeIdMap,
    d: FnDecl,
    body: Expr,
    caps: CapabilitySet,
) -> Map<u32, CapabilitySet> {
    let at = match body_id(ids, body) {
        Some(id) => id,
        None => d.span.start,
    };
    m.insert(at, caps).insert(d.span.start, caps)
}

/// `d` is `c`, and `m1` is `m0`, after the capabilities of a function were
/// checked. A body outside the language has none to check.
pub open spec fn caps_checked<
    K: Fn(InferCtx, &String, Option<CapabilitySet>, &Expr, Span) -> (InferCtx, CapabilitySet),
>(
    check: K,
    c: InferCtx,
    d: InferCtx,
    m0: Map<u32, CapabilitySet>,
    m1: Map<u32, CapabilitySet>,
    f: FnDecl,
) -> bool {
    match f.body {
        Body::Expr(e) => exists|out: (InferCtx, CapabilitySet)| #[trigger]
            call_ensures(check, (c, &f.name.text, declared_caps(f), &e, f.span), out) && d
                == out.0 && m1 == with_caps(m0, out.0.node_ids, f, e, out.1),
        Body::Ffi => d == c && m1 == m0,
    }
}

/// `d` is `c`, and `m` what was found, after the capabilities of the first `k`
/// functions were checked, in order.
pub open spec fn all_caps_checked<
    K: Fn(InferCtx, &String, Option<CapabilitySet>, &Expr, Span) -> (InferCtx, CapabilitySet),
>(
    check: K,
    c: InferCtx,
    d: InferCtx,
    m: Map<u32, CapabilitySet>,
    fns: Seq<FnDecl>,
    k: nat,
) -> bool
    decreases k,
{
    if k == 0 || k > fns.len() {
        d == c && m == Map::<u32, CapabilitySet>::empty()
    } else {
        let f = fns[k - 1];
        exists|a: InferCtx, n: Map<u32, CapabilitySet>| #[trigger]
            caps_checked(check, a, d, n, m, f) && all_caps_checked(
                check,
                c,
                a,
                n,
                fns,
                (k - 1) as nat,
            )
    }
}

proof fn one_more_caps<
    K: Fn(InferCtx, &String, Option<CapabilitySet>, &Expr, Span) -> (InferCtx, CapabilitySet),
>(
    check: K,
    c: InferCtx,
    a: InferCtx,
    d: InferCtx,
    n: Map<u32, CapabilitySet>,
    m: Map<u32, CapabilitySet>,
    fns: Seq<FnDecl>,
    k: nat,
)
    requires
        k < fns.len(),
        all_caps_checked(check, c, a, n, fns, k),
        caps_checked(check, a, d, n, m, fns[k as int]),
    ensures
        all_caps_checked(check, c, d, m, fns, (k + 1) as nat),
{
    assert(all_caps_checked(check, c, a, n, fns, (k + 1 - 1) as nat));
}

/// A check of capabilities that can be relied on, as [`reliable`] has it of
/// inference.
pub open spec fn reliable_caps<
    K: Fn(InferCtx, &String, Option<CapabilitySet>, &Expr, Span) -> (InferCtx, CapabilitySet),
>(check: K, cost: spec_fn(Expr) -> nat) -> bool {
    &&& forall|c: InferCtx, name: &String, caps: Option<CapabilitySet>, e: &Expr, span: Span|
        affordable(c, cost(*e)) ==> #[trigger] call_requires(check, (c, name, caps, e, span))
    &&& forall|
        c: InferCtx,
        name: &String,
        caps: Option<CapabilitySet>,
        e: &Expr,
        span: Span,
        out: (InferCtx, CapabilitySet),
    | #[trigger]
        call_ensures(check, (c, name, caps, e, span), out) && affordable(c, cost(*e)) ==> looked_at(
            c,
            out.0,
        ) && grew(c, out.0, cost(*e))
}

/// How many variables checking the capabilities of the first `k` functions may
/// need.
pub open spec fn fns_cost(fns: Seq<FnDecl>, cost: spec_fn(Expr) -> nat, k: nat) -> nat
    decreases k,
{
    if k == 0 || k > fns.len() {
        0
    } else {
        fns_cost(fns, cost, (k - 1) as nat) + body_cost(fns[k - 1], cost)
    }
}

proof fn fns_cost_mono(fns: Seq<FnDecl>, cost: spec_fn(Expr) -> nat, j: nat, k: nat)
    requires
        j <= k <= fns.len(),
    ensures
        fns_cost(fns, cost, j) <= fns_cost(fns, cost, k),
    decreases k,
{
    if j < k {
        fns_cost_mono(fns, cost, j, (k - 1) as nat);
    }
}

/// Checks the capabilities of the functions of a module. What each needs is
/// found under the id of its body and under where it starts.
pub fn infer_caps_for_decls<
    K: Fn(InferCtx, &String, Option<CapabilitySet>, &Expr, Span) -> (InferCtx, CapabilitySet),
>(ctx: InferCtx, fn_decls: &Vec<FnDecl>, check: &K) -> (r: (
    InferCtx,
    FxHashMap<u32, CapabilitySet>,
))
    requires
        exists|cost: spec_fn(Expr) -> nat| #[trigger]
            reliable_caps(*check, cost) && affordable(
                ctx,
                fns_cost(fn_decls@, cost, fn_decls@.len()),
            ),
    ensures
        all_caps_checked(*check, ctx, r.0, r.1@, fn_decls@, fn_decls@.len()),
        looked_at(ctx, r.0),
{
    let ghost cost = choose|cost: spec_fn(Expr) -> nat| #[trigger]
        reliable_caps(*check, cost) && affordable(
            ctx,
            fns_cost(fn_decls@, cost, fn_decls@.len()),
        );
    check_caps_of(ctx, fn_decls, check, Ghost(cost))
}

/// Checks the capabilities of the functions of a module, and adds no more
/// variables than that costs.
pub(crate) fn check_caps_of<
    K: Fn(InferCtx, &String, Option<CapabilitySet>, &Expr, Span) -> (InferCtx, CapabilitySet),
>(
    ctx: InferCtx,
    fn_decls: &Vec<FnDecl>,
    check: &K,
    Ghost(cost): Ghost<spec_fn(Expr) -> nat>,
) -> (r: (InferCtx, FxHashMap<u32, CapabilitySet>))
    requires
        reliable_caps(*check, cost),
        affordable(ctx, fns_cost(fn_decls@, cost, fn_decls@.len())),
    ensures
        all_caps_checked(*check, ctx, r.0, r.1@, fn_decls@, fn_decls@.len()),
        looked_at(ctx, r.0),
        grew(ctx, r.0, fns_cost(fn_decls@, cost, fn_decls@.len())),
{
    let ghost c0 = ctx;
    let mut ctx = ctx;
    let mut inferred: FxHashMap<u32, CapabilitySet> = FxHashMap::default();
    let mut i: usize = 0;
    while i < fn_decls.len()
        invariant
            i <= fn_decls@.len(),
            reliable_caps(*check, cost),
            affordable(c0, fns_cost(fn_decls@, cost, fn_decls@.len())),
            grew(c0, ctx, fns_cost(fn_decls@, cost, i as nat)),
            looked_at(c0, ctx),
            all_caps_checked(*check, c0, ctx, inferred@, fn_decls@, i as nat),
        decreases fn_decls@.len() - i,
    {
        let f = &fn_decls[i];
        let ghost a = ctx;
        let ghost n = inferred@;
        proof {
            fns_cost_mono(fn_decls@, cost, (i + 1) as nat, fn_decls@.len());
        }
        if let Body::Expr(e) = &f.body {
            let declared = if f.file_private {
                None
            } else {
                Some(f.caps)
            };
            let (c, caps) = check(ctx, &f.name.text, declared, e, f.span);
            assert(call_ensures(*check, (a, &f.name.text, declared_caps(*f), e, f.span), (c, caps)));
            ctx = c;
            proof {
                looked_twice(c0, a, ctx);
            }
            let at = match node_of_body(&ctx.node_ids, e) {
                Some(id) => id,
                None => f.span.start,
            };
            put_id(&mut inferred, at, caps);
            if f.span.start != at {
                put_id(&mut inferred, f.span.start, caps);
            }
            assert(inferred@ =~= with_caps(n, ctx.node_ids, *f, *e, caps));
        }
        assert(caps_checked(*check, a, ctx, n, inferred@, *f));
        proof {
            one_more_caps(*check, c0, a, ctx, n, inferred@, fn_decls@, i as nat);
        }
        i = i + 1;
    }
    (ctx, inferred)
}

/// Binds the first `k` of a list of fields, each to its type.
pub open spec fn with_fields(env: Scopes, fields: Seq<RecordField>, k: nat) -> Scopes
    decreases k,
{
    if k == 0 || k > fields.len() {
        env
    } else {
        with_binding(
            with_fields(env, fields, (k - 1) as nat),
            fields[k - 1].name@,
            mono(fields[k - 1].ty@),
        )
    }
}

/// `a` is `c` inside a handler of an actor: its state is in scope.
pub open spec fn state_bound(c: InferCtx, a: InferCtx, fields: Seq<RecordField>) -> bool {
    &&& a.env@ == with_fields(c.env@.push(Seq::empty()), fields, fields.len())
    &&& a == (InferCtx { env: a.env, ..c })
}

/// `d` is `c` after one parameter of a handler was bound.
pub open spec fn param_bound<P: Fn(InferCtx, &Pattern, &Type, Span) -> InferCtx>(
    bind: P,
    c: InferCtx,
    d: InferCtx,
    p: HandlerParam,
    ty: Type,
) -> bool {
    match p {
        HandlerParam::Named(id) => {
            &&& d.env@ == with_binding(c.env@, id.text@, mono(ty@))
            &&& d == (InferCtx { env: d.env, ..c })
        },
        HandlerParam::Pattern { pat, span } => call_ensures(bind, (c, &pat, &ty, span), d),
    }
}

/// `d` is `c` after the first `k` parameters of a handler were bound, in order.
pub open spec fn params_bound<P: Fn(InferCtx, &Pattern, &Type, Span) -> InferCtx>(
    bind: P,
    c: InferCtx,
    d: InferCtx,
    ps: Seq<HandlerParam>,
    tys: Seq<Type>,
    k: nat,
) -> bool
    decreases k,
{
    if k == 0 || k > ps.len() || k > tys.len() {
        d == c
    } else {
        let p = ps[k - 1];
        let ty = tys[k - 1];
        exists|m: InferCtx| #[trigger]
            param_bound(bind, m, d, p, ty) && params_bound(bind, c, m, ps, tys, (k - 1) as nat)
    }
}

proof fn one_more_param<P: Fn(InferCtx, &Pattern, &Type, Span) -> InferCtx>(
    bind: P,
    c: InferCtx,
    m: InferCtx,
    d: InferCtx,
    ps: Seq<HandlerParam>,
    tys: Seq<Type>,
    k: nat,
)
    requires
        k < ps.len(),
        k < tys.len(),
        params_bound(bind, c, m, ps, tys, k),
        param_bound(bind, m, d, ps[k as int], tys[k as int]),
    ensures
        params_bound(bind, c, d, ps, tys, (k + 1) as nat),
{
    assert(params_bound(bind, c, m, ps, tys, (k + 1 - 1) as nat));
}

/// The number of parameters that have a type.
pub open spec fn paired(ps: Seq<HandlerParam>, tys: Seq<Type>) -> nat {
    if ps.len() <= tys.len() {
        ps.len()
    } else {
        tys.len()
    }
}

/// Binding of patterns that can be relied on: it takes any context in order
/// with a scope and room for what the pattern costs, changes no scope but the
/// innermost, and adds no more variables than the pattern costs.
pub open spec fn reliable_patterns<P: Fn(InferCtx, &Pattern, &Type, Span) -> InferCtx>(
    bind: P,
    cost: spec_fn(Pattern) -> nat,
) -> bool {
    &&& forall|c: InferCtx, p: &Pattern, t: &Type, span: Span|
        affordable(c, cost(*p)) ==> #[trigger] call_requires(bind, (c, p, t, span))
    &&& forall|c: InferCtx, p: &Pattern, t: &Type, span: Span, d: InferCtx| #[trigger]
        call_ensures(bind, (c, p, t, span), d) && affordable(c, cost(*p)) ==> bound_on(c, d)
            && grew(c, d, cost(*p))
}

/// How many variables the first `k` parameters of a handler may need.
pub open spec fn params_cost(ps: Seq<HandlerParam>, pats: spec_fn(Pattern) -> nat, k: nat) -> nat
    decreases k,
{
    if k == 0 || k > ps.len() {
        0
    } else {
        params_cost(ps, pats, (k - 1) as nat) + match ps[k - 1] {
            HandlerParam::Named(_) => 0,
            HandlerParam::Pattern { pat, span } => pats(pat),
        }
    }
}

proof fn params_cost_mono(ps: Seq<HandlerParam>, pats: spec_fn(Pattern) -> nat, j: nat, k: nat)
    requires
        j <= k <= ps.len(),
    ensures
        params_cost(ps, pats, j) <= params_cost(ps, pats, k),
    decreases k,
{
    if j < k {
        params_cost_mono(ps, pats, j, (k - 1) as nat);
    }
}

/// How many variables a handler may need: those of its parameters and those of
/// its body.
pub open spec fn handler_cost(
    h: HandlerDecl,
    cost: spec_fn(Expr) -> nat,
    pats: spec_fn(Pattern) -> nat,
) -> nat {
    params_cost(h.params@, pats, h.params@.len()) + cost(h.body)
}

/// How many variables the handlers among the first `k` members may need.
pub open spec fn members_cost(
    ms: Seq<ActorMember>,
    cost: spec_fn(Expr) -> nat,
    pats: spec_fn(Pattern) -> nat,
    k: nat,
) -> nat
    decreases k,
{
    if k == 0 || k > ms.len() {
        0
    } else {
        members_cost(ms, cost, pats, (k - 1) as nat) + match ms[k - 1] {
            ActorMember::On(h) => handler_cost(h, cost, pats),
            _ => 0,
        }
    }
}

proof fn members_cost_mono(
    ms: Seq<ActorMember>,
    cost: spec_fn(Expr) -> nat,
    pats: spec_fn(Pattern) -> nat,
    j: nat,
    k: nat,
)
    requires
        j <= k <= ms.len(),
    ensures
        members_cost(ms, cost, pats, j) <= members_cost(ms, cost, pats, k),
    decreases k,
{
    if j < k {
        members_cost_mono(ms, cost, pats, j, (k - 1) as nat);
    }
}

/// How many variables the handlers of the first `k` items may need.
pub open spec fn items_cost(
    items: Seq<Item>,
    cost: spec_fn(Expr) -> nat,
    pats: spec_fn(Pattern) -> nat,
    k: nat,
) -> nat
    decreases k,
{
    if k == 0 || k > items.len() {
        0
    } else {
        items_cost(items, cost, pats, (k - 1) as nat) + match items[k - 1] {
            Item::Actor(d) => members_cost(d.members@, cost, pats, d.members@.len()),
            _ => 0,
        }
    }
}

proof fn items_cost_mono(
    items: Seq<Item>,
    cost: spec_fn(Expr) -> nat,
    pats: spec_fn(Pattern) -> nat,
    j: nat,
    k: nat,
)
    requires
        j <= k <= items.len(),
    ensures
        items_cost(items, cost, pats, j) <= items_cost(items, cost, pats, k),
    decreases k,
{
    if j < k {
        items_cost_mono(items, cost, pats, j, (k - 1) as nat);
    }
}

proof fn bound_twice(c: InferCtx, m: InferCtx, d: InferCtx)
    requires
        bound_on(c, m),
        bound_on(m, d),
    ensures
        bound_on(c, d),
{
    assert(diags(c.errors@) =~= diags(d.errors@).take(c.errors@.len() as int));
}

fn bind_state(ctx: &mut InferCtx, fields: &Vec<RecordField>)
    requires
        old(ctx).wf(),
    ensures
        state_bound(*old(ctx), *final(ctx), fields@),
        final(ctx).env@.len() == old(ctx).env@.len() + 1,
        final(ctx).env@.drop_last() == old(ctx).env@,
{
    let ghost env = old(ctx).env@.push(Seq::empty());
    ctx.env.push_frame();
    assert(env.drop_last() =~= old(ctx).env@);
    let mut i: usize = 0;
    while i < fields.len()
        invariant
            i <= fields@.len(),
            env == old(ctx).env@.push(Seq::empty()),
            ctx.env@ == with_fields(env, fields@, i as nat),
            ctx.env@.len() == env.len(),
            ctx.env@.drop_last() == old(ctx).env@,
            *ctx == (InferCtx { env: ctx.env, ..*old(ctx) }),
        decreases fields@.len() - i,
    {
        let f = &fields[i];
        let ghost before = ctx.env@;
        ctx.env.bind(f.name.clone(), monoscheme(f.ty.clone()));
        assert(ctx.env@.drop_last() =~= before.drop_last());
        i = i + 1;
    }
}

fn bind_params<P: Fn(InferCtx, &Pattern, &Type, Span) -> InferCtx>(
    ctx: InferCtx,
    ps: &Vec<HandlerParam>,
    tys: &Vec<Type>,
    bind: &P,
    Ghost(pats): Ghost<spec_fn(Pattern) -> nat>,
) -> (r: InferCtx)
    requires
        affordable(ctx, params_cost(ps@, pats, ps@.len())),
        reliable_patterns(*bind, pats),
    ensures
        params_bound(*bind, ctx, r, ps@, tys@, paired(ps@, tys@)),
        bound_on(ctx, r),
        grew(ctx, r, params_cost(ps@, pats, ps@.len())),
{
    let ghost c0 = ctx;
    let mut ctx = ctx;
    let mut i: usize = 0;
    while i < ps.len() && i < tys.len()
        invariant
            i <= ps@.len(),
            i <= tys@.len(),
            affordable(c0, params_cost(ps@, pats, ps@.len())),
            grew(c0, ctx, params_cost(ps@, pats, i as nat)),
            reliable_patterns(*bind, pats),
            bound_on(c0, ctx),
            params_bound(*bind, c0, ctx, ps@, tys@, i as nat),
        decreases ps@.len() - i,
    {
        let ghost m = ctx;
        proof {
            params_cost_mono(ps@, pats, (i + 1) as nat, ps@.len());
        }
        match &ps[i] {
            HandlerParam::Named(id) => {
                ctx.env.bind(id.text.clone(), monoscheme(tys[i].clone()));
                assert(ctx.env@.drop_last() =~= m.env@.drop_last());
            },
            HandlerParam::Pattern { pat, span } => {
                ctx = bind(ctx, pat, &tys[i], *span);
            },
        }
        assert(param_bound(*bind, m, ctx, ps@[i as int], tys@[i as int]));
        proof {
            one_more_param(*bind, c0, m, ctx, ps@, tys@, i as nat);
            bound_twice(c0, m, ctx);
        }
        i = i + 1;
    }
    proof {
        params_cost_mono(ps@, pats, i as nat, ps@.len());
    }
    ctx
}

/// `d` is `c` after the body of a handler was looked at, with the state of the
/// actor and the parameters in scope. Its type is not held against anything.
pub open spec fn handler_checked<
    F: Fn(InferCtx, &Expr) -> (InferCtx, Type),
    P: Fn(InferCtx, &Pattern, &Type, Span) -> InferCtx,
>(
    infer: F,
    bind: P,
    c: InferCtx,
    d: InferCtx,
    fields: Seq<RecordField>,
    h: HandlerDecl,
    sig: HandlerSig,
) -> bool {
    exists|a: InferCtx, m: InferCtx, out: (InferCtx, Type)|
        #![trigger state_bound(c, a, fields), call_ensures(infer, (m, &h.body), out)]
        {
            &&& state_bound(c, a, fields)
            &&& params_bound(
                bind,
                a,
                m,
                h.params@,
                sig.params@,
                paired(h.params@, sig.params@),
            )
            &&& call_ensures(infer, (m, &h.body), out)
            &&& d.env@ == out.0.env@.drop_last()
            &&& d == (InferCtx { env: d.env, ..out.0 })
        }
}

fn check_handler<
    F: Fn(InferCtx, &Expr) -> (InferCtx, Type),
    P: Fn(InferCtx, &Pattern, &Type, Span) -> InferCtx,
>(
    ctx: InferCtx,
    fields: &Vec<RecordField>,
    h: &HandlerDecl,
    sig: &HandlerSig,
    infer: &F,
    bind: &P,
    Ghost(cost): Ghost<spec_fn(Expr) -> nat>,
    Ghost(pats): Ghost<spec_fn(Pattern) -> nat>,
) -> (r: InferCtx)
    requires
        ctx.wf(),
        ctx.has_room(handler_cost(*h, cost, pats) as int),
        reliable(*infer, cost),
        reliable_patterns(*bind, pats),
    ensures
        handler_checked(*infer, *bind, ctx, r, fields@, *h, *sig),
        walked(ctx, r),
        grew(ctx, r, handler_cost(*h, cost, pats)),
{
    let ghost c0 = ctx;
    let mut ctx = ctx;
    bind_state(&mut ctx, fields);
    let ghost a = ctx;
    let ctx = bind_params(ctx, &h.params, &sig.params, bind, Ghost(pats));
    let ghost m = ctx;
    let (c, ty) = infer(ctx, &h.body);
    assert(call_ensures(*infer, (m, &h.body), (c, ty)));
    let mut ctx = c;
    ctx.env.pop_frame();
    proof {
        assert(diags(a.errors@).is_prefix_of(diags(m.errors@)));
        assert(diags(m.errors@).is_prefix_of(diags(c.errors@)));
        assert(diags(c0.errors@) =~= diags(ctx.errors@).take(c0.errors@.len() as int));
    }
    ctx
}

/// What looking at handlers may change of a context.
pub open spec fn walked(c: InferCtx, d: InferCtx) -> bool {
    &&& d.wf()
    &&& d.env@ == c.env@
    &&& d.current_fn_ret == c.current_fn_ret
    &&& d.node_ids == c.node_ids
    &&& diags(c.errors@).is_prefix_of(diags(d.errors@))
}

proof fn walked_twice(c: InferCtx, m: InferCtx, d: InferCtx)
    requires
        walked(c, m),
        walked(m, d),
    ensures
        walked(c, d),
{
    assert(diags(c.errors@) =~= diags(d.errors@).take(c.errors@.len() as int));
}

/// How many of the first `k` members are handlers.
pub open spec fn handlers_before(members: Seq<ActorMember>, k: nat) -> nat
    decreases k,
{
    if k == 0 || k > members.len() {
        0
    } else {
        handlers_before(members, (k - 1) as nat) + if members[k - 1] is On {
            1nat
        } else {
            0
        }
    }
}

/// `d` is `c` after the `k`-th member of an actor was looked at: the `i`-th
/// handler goes by the `i`-th signature, and one without a signature is passed
/// over.
pub open spec fn member_checked<
    F: Fn(InferCtx, &Expr) -> (InferCtx, Type),
    P: Fn(InferCtx, &Pattern, &Type, Span) -> InferCtx,
>(
    infer: F,
    bind: P,
    c: InferCtx,
    d: InferCtx,
    schema: ActorSchema,
    member: ActorMember,
    i: nat,
) -> bool {
    match member {
        ActorMember::On(h) => if i < schema.handlers@.len() {
            handler_checked(
                infer,
                bind,
                c,
                d,
                schema.state_fields@,
                h,
                schema.handlers@[i as int],
            )
        } else {
            d == c
        },
        _ => d == c,
    }
}

/// `d` is `c` after the first `k` members of an actor were looked at, in order.
pub open spec fn members_checked<
    F: Fn(InferCtx, &Expr) -> (InferCtx, Type),
    P: Fn(InferCtx, &Pattern, &Type, Span) -> InferCtx,
>(
    infer: F,
    bind: P,
    c: InferCtx,
    d: InferCtx,
    schema: ActorSchema,
    members: Seq<ActorMember>,
    k: nat,
) -> bool
    decreases k,
{
    if k == 0 || k > members.len() {
        d == c
    } else {
        let member = members[k - 1];
        let i = handlers_before(members, (k - 1) as nat);
        exists|m: InferCtx| #[trigger]
            member_checked(infer, bind, m, d, schema, member, i) && members_checked(
                infer,
                bind,
                c,
                m,
                schema,
                members,
                (k - 1) as nat,
            )
    }
}

proof fn one_more_member<
    F: Fn(InferCtx, &Expr) -> (InferCtx, Type),
    P: Fn(InferCtx, &Pattern, &Type, Span) -> InferCtx,
>(
    infer: F,
    bind: P,
    c: InferCtx,
    m: InferCtx,
    d: InferCtx,
    schema: ActorSchema,
    members: Seq<ActorMember>,
    k: nat,
)
    requires
        k < members.len(),
        members_checked(infer, bind, c, m, schema, members, k),
        member_checked(
            infer,
            bind,
            m,
            d,
            schema,
            members[k as int],
            handlers_before(members, k),
        ),
    ensures
        members_checked(infer, bind, c, d, schema, members, (k + 1) as nat),
{
    assert(members_checked(infer, bind, c, m, schema, members, (k + 1 - 1) as nat));
}

fn check_members<
    F: Fn(InferCtx, &Expr) -> (InferCtx, Type),
    P: Fn(InferCtx, &Pattern, &Type, Span) -> InferCtx,
>(
    ctx: InferCtx,
    schema: &ActorSchema,
    members: &Vec<ActorMember>,
    infer: &F,
    bind: &P,
    Ghost(cost): Ghost<spec_fn(Expr) -> nat>,
    Ghost(pats): Ghost<spec_fn(Pattern) -> nat>,
) -> (r: InferCtx)
    requires
        ctx.wf(),
        ctx.has_room(members_cost(members@, cost, pats, members@.len()) as int),
        reliable(*infer, cost),
        reliable_patterns(*bind, pats),
    ensures
        members_checked(*infer, *bind, ctx, r, *schema, members@, members@.len()),
        walked(ctx, r),
        grew(ctx, r, members_cost(members@, cost, pats, members@.len())),
{
    let ghost c0 = ctx;
    let mut ctx = ctx;
    let mut seen: usize = 0;
    let mut i: usize = 0;
    while i < members.len()
        invariant
            i <= members@.len(),
            seen <= i,
            seen == handlers_before(members@, i as nat),
            reliable(*infer, cost),
            reliable_patterns(*bind, pats),
            c0.has_room(members_cost(members@, cost, pats, members@.len()) as int),
            grew(c0, ctx, members_cost(members@, cost, pats, i as nat)),
            walked(c0, ctx),
            members_checked(*infer, *bind, c0, ctx, *schema, members@, i as nat),
        decreases members@.len() - i,
    {
        let ghost m = ctx;
        let ghost at = seen as nat;
        proof {
            members_cost_mono(members@, cost, pats, (i + 1) as nat, members@.len());
        }
        if let ActorMember::On(h) = &members[i] {
            if seen < schema.handlers.len() {
                ctx = check_handler(
                    ctx,
                    &schema.state_fields,
                    h,
                    &schema.handlers[seen],
                    infer,
                    bind,
                    Ghost(cost),
                    Ghost(pats),
                );
                proof {
                    walked_twice(c0, m, ctx);
                }
            }
            seen = seen + 1;
        }
        assert(member_checked(*infer, *bind, m, ctx, *schema, members@[i as int], at));
        proof {
            one_more_member(*infer, *bind, c0, m, ctx, *schema, members@, i as nat);
        }
        i = i + 1;
    }
    ctx
}

/// The declaration of the actor that a name refers to.
pub open spec fn actor_of(c: InferCtx, tycons: Seq<TyConDecl>, name: Seq<char>) -> Option<
    ActorSchema,
> {
    match refers(c, name) {
        Some(id) => match kind_of(tycons, id) {
            Some(TyConKind::Actor(schema)) => Some(schema),
            _ => None,
        },
        None => None,
    }
}

pub(crate) fn find_actor<'a>(ctx: &InferCtx, tycons: &'a Vec<TyConDecl>, name: &str) -> (r: Option<
    &'a ActorSchema,
>)
    ensures
        r is Some <==> actor_of(*ctx, tycons@, name@) is Some,
        r matches Some(s) ==> actor_of(*ctx, tycons@, name@) == Some(*s),
{
    match ctx.tycon_named(name) {
        Some(id) => {
            let at: usize = id.0 as usize;
            if at < tycons.len() {
                match &tycons[at].kind {
                    TyConKind::Actor(schema) => Some(schema),
                    _ => None,
                }
            } else {
                None
            }
        },
        None => None,
    }
}

/// `d` is `c` after the handlers of an item were looked at.
pub open spec fn item_walked<
    F: Fn(InferCtx, &Expr) -> (InferCtx, Type),
    P: Fn(InferCtx, &Pattern, &Type, Span) -> InferCtx,
>(
    infer: F,
    bind: P,
    c: InferCtx,
    d: InferCtx,
    tycons: Seq<TyConDecl>,
    item: Item,
) -> bool {
    match item {
        Item::Actor(decl) => match actor_of(c, tycons, decl.name.text@) {
            Some(schema) => members_checked(
                infer,
                bind,
                c,
                d,
                schema,
                decl.members@,
                decl.members@.len(),
            ),
            None => d == c,
        },
        _ => d == c,
    }
}

/// `d` is `c` after the handlers of the first `k` items were looked at, in
/// order.
pub open spec fn items_walked<
    F: Fn(InferCtx, &Expr) -> (InferCtx, Type),
    P: Fn(InferCtx, &Pattern, &Type, Span) -> InferCtx,
>(
    infer: F,
    bind: P,
    c: InferCtx,
    d: InferCtx,
    tycons: Seq<TyConDecl>,
    items: Seq<Item>,
    k: nat,
) -> bool
    decreases k,
{
    if k == 0 || k > items.len() {
        d == c
    } else {
        let item = items[k - 1];
        exists|m: InferCtx| #[trigger]
            item_walked(infer, bind, m, d, tycons, item) && items_walked(
                infer,
                bind,
                c,
                m,
                tycons,
                items,
                (k - 1) as nat,
            )
    }
}

proof fn one_more_walked<
    F: Fn(InferCtx, &Expr) -> (InferCtx, Type),
    P: Fn(InferCtx, &Pattern, &Type, Span) -> InferCtx,
>(
    infer: F,
    bind: P,
    c: InferCtx,
    m: InferCtx,
    d: InferCtx,
    tycons: Seq<TyConDecl>,
    items: Seq<Item>,
    k: nat,
)
    requires
        k < items.len(),
        items_walked(infer, bind, c, m, tycons, items, k),
        item_walked(infer, bind, m, d, tycons, items[k as int]),
    ensures
        items_walked(infer, bind, c, d, tycons, items, (k + 1) as nat),
{
    assert(items_walked(infer, bind, c, m, tycons, items, (k + 1 - 1) as nat));
}

/// Looks at the bodies of the handlers of a module, so that the types of the
/// expressions in them are noted.
pub fn typecheck_actor_bodies<
    F: Fn(InferCtx, &Expr) -> (InferCtx, Type),
    P: Fn(InferCtx, &Pattern, &Type, Span) -> InferCtx,
>(
    ctx: InferCtx,
    items: &Vec<Item>,
    tycons: &Vec<TyConDecl>,
    infer: &F,
    bind: &P,
) -> (r: InferCtx)
    requires
        ctx.wf(),
        exists|cost: spec_fn(Expr) -> nat, pats: spec_fn(Pattern) -> nat|
            {
                &&& #[trigger] reliable(*infer, cost)
                &&& #[trigger] reliable_patterns(*bind, pats)
                &&& ctx.has_room(items_cost(items@, cost, pats, items@.len()) as int)
            },
    ensures
        items_walked(*infer, *bind, ctx, r, tycons@, items@, items@.len()),
        walked(ctx, r),
{
    let ghost (cost, pats) = choose|cost: spec_fn(Expr) -> nat, pats: spec_fn(Pattern) -> nat|
        {
            &&& #[trigger] reliable(*infer, cost)
            &&& #[trigger] reliable_patterns(*bind, pats)
            &&& ctx.has_room(items_cost(items@, cost, pats, items@.len()) as int)
        };
    let ghost c0 = ctx;
    let mut ctx = ctx;
    let mut i: usize = 0;
    while i < items.len()
        invariant
            i <= items@.len(),
            reliable(*infer, cost),
            reliable_patterns(*bind, pats),
            c0.has_room(items_cost(items@, cost, pats, items@.len()) as int),
            grew(c0, ctx, items_cost(items@, cost, pats, i as nat)),
            walked(c0, ctx),
            items_walked(*infer, *bind, c0, ctx, tycons@, items@, i as nat),
        decreases items@.len() - i,
    {
        let ghost m = ctx;
        proof {
            items_cost_mono(items@, cost, pats, (i + 1) as nat, items@.len());
        }
        if let Item::Actor(decl) = &items[i] {
            if let Some(schema) = find_actor(&ctx, tycons, decl.name.text.as_str()) {
                ctx = check_members(
                    ctx,
                    schema,
                    &decl.members,
                    infer,
                    bind,
                    Ghost(cost),
                    Ghost(pats),
                );
                proof {
                    walked_twice(c0, m, ctx);
                }
            }
        }
        assert(item_walked(*infer, *bind, m, ctx, tycons@, items@[i as int]));
        proof {
            one_more_walked(*infer, *bind, c0, m, ctx, tycons@, items@, i as nat);
        }
        i = i + 1;
    }
    ctx
}

/// The capabilities of any of the first `k` handlers.
pub open spec fn caps_of(hs: Seq<HandlerSig>, k: nat) -> CapabilitySet
    decreases k,
{
    if k == 0 || k > hs.len() {
        CapabilitySet(0)
    } else {
        CapabilitySet(caps_of(hs, (k - 1) as nat).0 | hs[k - 1].caps.0)
    }
}

/// The capabilities of an actor: those of any of its handlers.
pub fn actor_caps(schema: &ActorSchema) -> (r: CapabilitySet)
    ensures
        r == caps_of(schema.handlers@, schema.handlers@.len()),
{
    let mut caps = CapabilitySet::pure();
    let mut i: usize = 0;
    while i < schema.handlers.len()
        invariant
            i <= schema.handlers@.len(),
            caps == caps_of(schema.handlers@, i as nat),
        decreases schema.handlers@.len() - i,
    {
        caps = caps.union(&schema.handlers[i].caps);
        i = i + 1;
    }
    caps
}

/// Every capability of a handler is one of the actor.
pub proof fn handlers_within_actor(hs: Seq<HandlerSig>, k: nat, i: int)
    requires
        0 <= i < k <= hs.len(),
    ensures
        caps_of(hs, k).0 | hs[i].caps.0 == caps_of(hs, k).0,
    decreases k,
{
    let before = caps_of(hs, (k - 1) as nat).0;
    let last = hs[k - 1].caps.0;
    let one = hs[i].caps.0;
    if i < k - 1 {
        handlers_within_actor(hs, (k - 1) as nat, i);
        assert((before | last) | one == (before | last)) by (bit_vector)
            requires
                before | one == before,
        ;
    } else {
        assert((before | last) | last == (before | last)) by (bit_vector);
    }
}

} // verus!

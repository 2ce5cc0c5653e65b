use vstd::prelude::*;

use crate::ctx::{with_binding, InferCtx};
use crate::instantiate::{fresh_vars, with_slots};
use crate::table::Table;
use crate::types::{
    preds, views, BuiltinTyCons, CapRow, CapVid, CapabilitySet, ClassId, Constraint, Poly, Pred,
    Scheme, Ty, TyConId, TyVid, Type,
};

verus! {

broadcast use crate::types::group_views;

/// A constructor without arguments.
pub open spec fn app0(id: TyConId) -> Ty {
    Ty::Con(id, Seq::empty())
}

/// A constructor with one argument.
pub open spec fn app1(id: TyConId, t: Ty) -> Ty {
    Ty::Con(id, seq![t])
}

/// A constructor with two arguments.
pub open spec fn app2(id: TyConId, t: Ty, u: Ty) -> Ty {
    Ty::Con(id, seq![t, u])
}

pub(crate) fn no_types() -> (r: Vec<Type>)
    ensures
        views(r@) == Seq::<Ty>::empty(),
{
    let r: Vec<Type> = Vec::new();
    assert(views(r@) =~= Seq::<Ty>::empty());
    r
}

pub(crate) fn with_type(ts: Vec<Type>, t: Type) -> (r: Vec<Type>)
    ensures
        views(r@) == views(ts@).push(t@),
{
    let mut r = ts;
    r.push(t);
    assert(views(r@) =~= views(ts@).push(t@)) by {
        assert forall|i: int| 0 <= i < r@.len() implies views(r@)[i] == views(ts@).push(t@)[i] by {
            assert(views(r@)[i] == r@[i]@);
        }
    }
    r
}

pub(crate) fn con0(id: TyConId) -> (r: Type)
    ensures
        r@ == app0(id),
{
    Type::Con(id, no_types())
}

pub(crate) fn con1(id: TyConId, t: Type) -> (r: Type)
    ensures
        r@ == app1(id, t@),
{
    Type::Con(id, with_type(no_types(), t))
}

pub(crate) fn con2(id: TyConId, t: Type, u: Type) -> (r: Type)
    ensures
        r@ == app2(id, t@, u@),
{
    let args = with_type(with_type(no_types(), t), u);
    assert(views(args@) =~= seq![t@, u@]);
    Type::Con(id, args)
}

/// A function type without capabilities.
pub open spec fn pure_fn(params: Seq<Ty>, ret: Ty) -> Ty {
    Ty::Fn { params, ret: Box::new(ret), caps: CapRow::Concrete(CapabilitySet(0)) }
}

pub(crate) fn fn_type(params: Vec<Type>, ret: Type) -> (r: Type)
    ensures
        r@ == pure_fn(views(params@), ret@),
{
    Type::Fn { params, ret: Box::new(ret), caps: CapRow::Concrete(CapabilitySet::pure()) }
}

/// A fallible result: `Result t Error`.
pub open spec fn result_of(b: BuiltinTyCons, t: Ty) -> Ty {
    app2(b.result, t, app0(b.error))
}

pub(crate) fn result_type(b: &BuiltinTyCons, t: Type) -> (r: Type)
    ensures
        r@ == result_of(*b, t@),
{
    con2(b.result, t, con0(b.error))
}

/// A database row: `Map Text SqlValue`.
pub open spec fn row_map(b: BuiltinTyCons, sql_value: TyConId) -> Ty {
    app2(b.map, app0(b.text), app0(sql_value))
}

pub(crate) fn row_map_type(b: &BuiltinTyCons, sql_value: TyConId) -> (r: Type)
    ensures
        r@ == row_map(*b, sql_value),
{
    con2(b.map, con0(b.text), con0(sql_value))
}

pub(crate) fn tuple2(t: Type, u: Type) -> (r: Type)
    ensures
        r@ == Ty::Tuple(seq![t@, u@]),
{
    let ts = with_type(with_type(no_types(), t), u);
    assert(views(ts@) =~= seq![t@, u@]);
    Type::Tuple(ts)
}

pub(crate) fn tuple3(t: Type, u: Type, v: Type) -> (r: Type)
    ensures
        r@ == Ty::Tuple(seq![t@, u@, v@]),
{
    let ts = with_type(with_type(with_type(no_types(), t), u), v);
    assert(views(ts@) =~= seq![t@, u@, v@]);
    Type::Tuple(ts)
}

/// A quoted condition on a row of type `e`: `Quote (e -> Bool)`.
pub open spec fn row_predicate(b: BuiltinTyCons, e: Ty) -> Ty {
    app1(b.quote, pure_fn(seq![e], app0(b.bool)))
}

pub(crate) fn row_predicate_type(b: &BuiltinTyCons, e: Type) -> (r: Type)
    ensures
        r@ == row_predicate(*b, e@),
{
    con1(b.quote, fn_type(with_type(no_types(), e), con0(b.bool)))
}

/// The order of a query: whether it ascends, and by which column.
pub open spec fn order_keys(b: BuiltinTyCons) -> Ty {
    app1(b.list, Ty::Tuple(seq![app0(b.bool), app0(b.text)]))
}

pub(crate) fn order_keys_type(b: &BuiltinTyCons) -> (r: Type)
    ensures
        r@ == order_keys(*b),
{
    con1(b.list, tuple2(con0(b.bool), con0(b.text)))
}

/// The order of a join: whether it ascends, whether it is by the right table,
/// and by which column.
pub open spec fn join_order_keys(b: BuiltinTyCons) -> Ty {
    app1(b.list, Ty::Tuple(seq![app0(b.bool), app0(b.bool), app0(b.text)]))
}

pub(crate) fn join_order_keys_type(b: &BuiltinTyCons) -> (r: Type)
    ensures
        r@ == join_order_keys(*b),
{
    con1(b.list, tuple3(con0(b.bool), con0(b.bool), con0(b.text)))
}

/// The scheme of a class method: a function without capabilities over `vs`,
/// the first `over` of which the class is about.
pub open spec fn method(
    vs: Seq<TyVid>,
    over: int,
    class: ClassId,
    params: Seq<Ty>,
    ret: Ty,
) -> Poly {
    Poly {
        vars: vs,
        cap_vars: Seq::empty(),
        ty: pure_fn(params, ret),
        constraints: seq![Pred { class, tys: vs.take(over) }],
    }
}

/// What seeding changes: the names in scope, and how many type variables there
/// are.
#[verifier::ext_equal]
pub struct Seeding {
    pub env: Seq<Seq<(Seq<char>, Poly)>>,
    pub vars: nat,
}

/// What a context holds of that.
pub open spec fn seeding(ctx: InferCtx) -> Seeding {
    Seeding { env: ctx.env@, vars: ctx.table().types.len() }
}

/// Binding a name to a scheme over `n` new variables.
pub open spec fn bind_seed(s: Seeding, name: Seq<char>, n: nat, p: Poly) -> Seeding {
    Seeding { env: with_binding(s.env, name, p), vars: s.vars + n }
}

/// A context in order with a scope and with room for `n` more variables.
pub open spec fn can_seed(ctx: InferCtx, n: int) -> bool {
    ctx.wf() && ctx.env@.len() > 0 && ctx.has_room(n)
}

/// `d` is `c` with names bound and with new variables of which nothing is
/// known.
pub open spec fn only_seeded(c: InferCtx, d: InferCtx) -> bool {
    &&& d.wf()
    &&& d == (InferCtx { vars: d.vars, env: d.env, ..c })
    &&& d.env@.len() == c.env@.len()
    &&& d.table().types.len() >= c.table().types.len()
    &&& d.table() == (Table {
        types: with_slots(
            c.table().types,
            (d.table().types.len() - c.table().types.len()) as nat,
        ),
        ..c.table()
    })
}

/// Seeding after seeding is seeding.
pub proof fn seeded_twice(c: InferCtx, d: InferCtx, e: InferCtx)
    requires
        only_seeded(c, d),
        only_seeded(d, e),
    ensures
        only_seeded(c, e),
{
    let n = (d.table().types.len() - c.table().types.len()) as nat;
    let m = (e.table().types.len() - d.table().types.len()) as nat;
    assert(with_slots(with_slots(c.table().types, n), m) =~= with_slots(
        c.table().types,
        n + m,
    ));
}

/// A context is itself with nothing seeded.
pub proof fn seeded_none(c: InferCtx)
    requires
        c.wf(),
    ensures
        only_seeded(c, c),
{
    assert(with_slots(c.table().types, 0) =~= c.table().types);
}

/// Allocates `n` type variables.
pub(crate) fn fresh_n(ctx: &mut InferCtx, n: usize) -> (r: Vec<TyVid>)
    requires
        old(ctx).wf(),
        old(ctx).has_room(n as int),
    ensures
        final(ctx).wf(),
        r@ == fresh_vars(old(ctx).table().types.len(), n as nat),
        final(ctx).table() == (Table {
            types: with_slots(old(ctx).table().types, n as nat),
            ..old(ctx).table()
        }),
        *final(ctx) == (InferCtx { vars: final(ctx).vars, ..*old(ctx) }),
{
    let ghost tb = ctx.table();
    let mut fresh: Vec<TyVid> = Vec::new();
    let mut i: usize = 0;
    assert(with_slots(tb.types, 0) =~= tb.types);
    while i < n
        invariant
            i <= n,
            ctx.wf(),
            tb == old(ctx).table(),
            tb.types.len() + n <= u32::MAX,
            fresh@ =~= fresh_vars(tb.types.len(), i as nat),
            ctx.table() == (Table { types: with_slots(tb.types, i as nat), ..tb }),
            *ctx == (InferCtx { vars: ctx.vars, ..*old(ctx) }),
        decreases n - i,
    {
        fresh.push(ctx.fresh_tyvid());
        i = i + 1;
        assert(with_slots(tb.types, (i - 1) as nat).push(None) =~= with_slots(
            tb.types,
            i as nat,
        ));
    }
    fresh
}

/// Binds a class method.
pub(crate) fn bind_method(
    ctx: &mut InferCtx,
    name: &str,
    vs: Vec<TyVid>,
    over: usize,
    class: ClassId,
    params: Vec<Type>,
    ret: Type,
)
    requires
        old(ctx).wf(),
        old(ctx).env@.len() > 0,
        over <= vs@.len(),
    ensures
        final(ctx).env@ == with_binding(
            old(ctx).env@,
            name@,
            method(vs@, over as int, class, views(params@), ret@),
        ),
        *final(ctx) == (InferCtx { env: final(ctx).env, ..*old(ctx) }),
{
    let mut tys: Vec<TyVid> = Vec::new();
    let mut i: usize = 0;
    while i < over
        invariant
            i <= over,
            over <= vs@.len(),
            tys@ =~= vs@.take(i as int),
        decreases over - i,
    {
        tys.push(vs[i]);
        i = i + 1;
    }
    let c = Constraint::new(class, tys);
    let mut constraints: Vec<Constraint> = Vec::new();
    constraints.push(c);
    let cap_vars: Vec<CapVid> = Vec::new();
    let scheme = Scheme { vars: vs, cap_vars, ty: fn_type(params, ret), constraints };
    assert(preds(scheme.constraints@) =~= seq![
        Pred { class, tys: vs@.take(over as int) },
    ]);
    assert(scheme@ =~= method(vs@, over as int, class, views(params@), ret@));
    ctx.env.bind(name.to_owned(), scheme);
}

} // verus!

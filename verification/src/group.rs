use vstd::prelude::*;

use crate::ast::{span_of, BinOp, Expr, FieldInit, LambdaParam, RecordCtor};
use crate::ctx::InferCtx;
use crate::diag::{diag, diags, Diag};
use crate::error::TypeError;
use crate::fx::by_name;
use crate::qexpr::{
    as_predicate, boolean, check_node, columns_of, compared, comparison_error, con0, con_name,
    entity_fields, field_named, fields_of, find_field, find_unselected, fits, inits_of,
    is_comparison, is_logic, literal_ty, literal_type, name_of_con, node, node_notes_nothing,
    note_quote, op_class, params_of, peel_paren, peeled, qstate, quoting, record_fields_of,
    record_inits, same_but_quotes, same_value, same_value_type, unselected, unsupported,
    unsupported_error, value_of, value_type, weight, with_quote, Info, Kind, OpClass, ParamOf,
    QKind, QState, QuoteInfo, QuoteParam, Quoting,
};
use crate::quote::{
    bound_name, con_arity, ctor_name, ctor_text, is_named, named, opt_ty, peeled_twice, pin_record,
    pinned, plain_name, quoted_fn, split_quote, target_of, reported, tells_verdict, Verdict,
};
use crate::render::{render_type_with, type_text};
use crate::table::{resolve, Table};
use crate::text::{same_text, text3, text5, text7};
use crate::types::{
    field_views, views, BuiltinTyCons, Poly, Span, Ty, TyConDecl, TyConId, TyVid, Type,
};
use crate::unify::{unified, unified_agree, unify};

verus! {

broadcast use {crate::types::group_views, crate::diag::diags_push};

/// What checking a grouped quote goes by: what checking any quote goes by, the
/// name of the group, and the types of its rows and of its key.
pub struct Grouping {
    pub q: Quoting,
    pub g: Seq<char>,
    pub e: Ty,
    pub k: Ty,
}

/// What a grouped expression is found to be, or what is wrong with it.
pub type Found = Result<Kind, Diag>;

/// `r` tells what `f` says.
pub open spec fn tells_found(r: Result<QKind, TypeError>, f: Found) -> bool {
    match f {
        Ok(k) => r matches Ok(q) && q@ == k,
        Err(d) => r matches Err(x) && diag(x) == d,
    }
}

/// A table with one more variable.
pub open spec fn with_var(tb: Table) -> Table {
    Table { types: tb.types.push(None), ..tb }
}

/// The types of the rows and of the key that a quote over groups is about, and
/// the table after making a variable for each that is not known.
pub open spec fn group_slot(tycons: Seq<TyConDecl>, tb: Table, t: Ty) -> (
    Table,
    Option<(Ty, Ty)>,
) {
    match quoted_fn(tycons, tb, t) {
        Some(f) => if f.0.len() > 0 {
            match resolve(tb, f.0[0]) {
                Ty::Con(id, args) => if named(tycons, id, "Grouped"@) && args.len() > 1 {
                    let (t1, e) = match resolve(tb, args[0]) {
                        Ty::Con(_, qs) => if qs.len() > 0 {
                            (tb, resolve(tb, qs[0]))
                        } else {
                            (with_var(tb), Ty::Var(TyVid(tb.types.len() as u32)))
                        },
                        _ => (with_var(tb), Ty::Var(TyVid(tb.types.len() as u32))),
                    };
                    match resolve(tb, args[1]) {
                        Ty::Fn { params, ret, caps } => (t1, Some((e, resolve(t1, *ret)))),
                        _ => (
                            with_var(t1),
                            Some((e, Ty::Var(TyVid(t1.types.len() as u32)))),
                        ),
                    }
                } else {
                    (tb, None)
                },
                _ => (tb, None),
            }
        } else {
            (tb, None)
        },
        None => (tb, None),
    }
}

/// The types of the rows and of the key that a quote over groups is about.
pub fn quote_group_slot(ctx: &mut InferCtx, param_ty: &Type) -> (r: Option<(Type, Type)>)
    requires
        old(ctx).wf(),
        old(ctx).has_room(2),
    ensures
        final(ctx).wf(),
        final(ctx).table() == group_slot(
            old(ctx).tycon_decls@,
            old(ctx).table(),
            param_ty@,
        ).0,
        match group_slot(old(ctx).tycon_decls@, old(ctx).table(), param_ty@).1 {
            Some(s) => r matches Some(x) && (x.0@, x.1@) == s,
            None => r is None,
        },
        *final(ctx) == (InferCtx { vars: final(ctx).vars, ..*old(ctx) }),
{
    let (params, _ret) = match split_quote(ctx, param_ty) {
        Some(f) => f,
        None => {
            return None;
        },
    };
    if params.len() == 0 {
        return None;
    }
    assert(views(params@)[0] == params@[0]@);
    let slot = ctx.deep_resolve(&params[0]);
    let (id, args) = match &slot {
        Type::Con(id, args) => (*id, args),
        _ => {
            return None;
        },
    };
    assert(slot@ == Ty::Con(id, views(args@)));
    if !is_named(&ctx.tycon_decls, id, "Grouped") || args.len() < 2 {
        return None;
    }
    assert(views(args@)[0] == args@[0]@);
    assert(views(args@)[1] == args@[1]@);
    let source = ctx.deep_resolve(&args[0]);
    let key = ctx.deep_resolve(&args[1]);
    let e = match &source {
        Type::Con(sid, qs) => {
            assert(source@ == Ty::Con(*sid, views(qs@)));
            if qs.len() > 0 {
                assert(views(qs@)[0] == qs@[0]@);
                ctx.deep_resolve(&qs[0])
            } else {
                Type::Var(ctx.fresh_tyvid())
            }
        },
        _ => Type::Var(ctx.fresh_tyvid()),
    };
    let k = match &key {
        Type::Fn { params: ps, ret, caps } => {
            assert(key@ == Ty::Fn { params: views(ps@), ret: Box::new(ret@), caps: *caps });
            ctx.deep_resolve(ret)
        },
        _ => Type::Var(ctx.fresh_tyvid()),
    };
    Some((e, k))
}

/// The constructor of a type, where it has one.
pub open spec fn con_of(t: Ty) -> Option<TyConId> {
    match t {
        Ty::Con(id, _) => Some(id),
        _ => None,
    }
}

fn head_con(t: &Type) -> (r: Option<TyConId>)
    ensures
        r == con_of(t@),
{
    match t {
        Type::Con(id, _) => Some(*id),
        _ => None,
    }
}

/// The entity that a parameter of an aggregate ranges over: that of its
/// annotation, which the rows must have too, or else that of the rows.
pub open spec fn accessor_entity(tb: Table, p: LambdaParam, slot: Ty) -> (Table, Option<TyConId>) {
    match p {
        LambdaParam::Annotated { pat, ty } => {
            let t1 = unified(tb, slot, ty@).0;
            match con_of(resolve(t1, ty@)) {
                Some(id) => (t1, Some(id)),
                None => (t1, con_of(resolve(t1, slot))),
            }
        },
        _ => (tb, con_of(resolve(tb, slot))),
    }
}

fn inner_lambda_entity(ctx: &mut InferCtx, p: &LambdaParam, slot: &Type) -> (r: Option<TyConId>)
    requires
        old(ctx).wf(),
    ensures
        final(ctx).wf(),
        (final(ctx).table(), r) == accessor_entity(old(ctx).table(), *p, slot@),
        final(ctx).table().types.len() == old(ctx).table().types.len(),
        final(ctx).table().caps.len() == old(ctx).table().caps.len(),
        *final(ctx) == (InferCtx { vars: final(ctx).vars, ..*old(ctx) }),
{
    if let LambdaParam::Annotated { pat: _, ty } = p {
        proof {
            unified_agree(ctx.table(), slot@, ty@);
        }
        let _ = unify(&mut ctx.vars, slot, ty);
        if let Some(id) = head_con(&ctx.deep_resolve(ty)) {
            return Some(id);
        }
    }
    head_con(&ctx.deep_resolve(slot))
}

/// One parameter of an aggregate, and the table after finding its entity.
pub open spec fn accessor_param(
    tycons: Seq<TyConDecl>,
    tb: Table,
    p: LambdaParam,
    slot: Ty,
    span: Span,
) -> (Table, Result<ParamOf, Diag>) {
    let (t1, id) = accessor_entity(tb, p, slot);
    match id {
        None => (
            t1,
            Err(
                unsupported(
                    "annotate the aggregate's row parameter, like `(fn (u: User) -> u.col)`"@,
                    span,
                ),
            ),
        ),
        Some(entity) => match columns_of(tycons, entity) {
            None => (
                t1,
                Err(
                    unsupported(
                        "`"@ + con_name(tycons, entity)
                            + "` is not a record type, so it has no columns to quote"@,
                        span,
                    ),
                ),
            ),
            Some(fields) => (
                t1,
                Ok(
                    ParamOf {
                        name: bound_name(p)->0,
                        entity,
                        entity_name: con_name(tycons, entity),
                        fields,
                        nullable: false,
                    },
                ),
            ),
        },
    }
}

/// The first `n` parameters of an aggregate. The first ranges over the rows of
/// the group, and each further one over what its annotation says.
pub open spec fn accessor_scope(
    tycons: Seq<TyConDecl>,
    tb: Table,
    ps: Seq<LambdaParam>,
    rows: Ty,
    span: Span,
    n: nat,
) -> (Table, Result<Seq<ParamOf>, Diag>)
    decreases n,
{
    if n == 0 || n > ps.len() {
        (tb, Ok(Seq::empty()))
    } else {
        let (t1, before) = accessor_scope(tycons, tb, ps, rows, span, (n - 1) as nat);
        match before {
            Err(d) => (t1, Err(d)),
            Ok(scope) => if bound_name(ps[n - 1]) is None {
                (
                    t1,
                    Err(
                        unsupported(
                            "a group aggregate's row parameter must be a plain name"@,
                            span,
                        ),
                    ),
                )
            } else {
                let (t2, p) = if n == 1 {
                    accessor_param(tycons, t1, ps[0], rows, span)
                } else {
                    accessor_param(
                        tycons,
                        with_var(t1),
                        ps[n - 1],
                        Ty::Var(TyVid(t1.types.len() as u32)),
                        span,
                    )
                };
                match p {
                    Err(d) => (t2, Err(d)),
                    Ok(x) => (t2, Ok(scope.push(x))),
                }
            },
        }
    }
}

proof fn accessor_prefix(
    tycons: Seq<TyConDecl>,
    tb: Table,
    ps: Seq<LambdaParam>,
    rows: Ty,
    span: Span,
    n: nat,
)
    requires
        n <= ps.len(),
        accessor_scope(tycons, tb, ps, rows, span, n).1 is Err,
    ensures
        accessor_scope(tycons, tb, ps, rows, span, ps.len()) == accessor_scope(
            tycons,
            tb,
            ps,
            rows,
            span,
            n,
        ),
    decreases ps.len() - n,
{
    if n < ps.len() {
        accessor_prefix(tycons, tb, ps, rows, span, n + 1);
    }
}

fn make_accessor_param(
    ctx: &mut InferCtx,
    p: &LambdaParam,
    name: String,
    slot: &Type,
    span: Span,
) -> (r: Result<QuoteParam, TypeError>)
    requires
        old(ctx).wf(),
        bound_name(*p) == Some(name@),
    ensures
        final(ctx).wf(),
        final(ctx).table() == accessor_param(
            old(ctx).tycon_decls@,
            old(ctx).table(),
            *p,
            slot@,
            span,
        ).0,
        match accessor_param(old(ctx).tycon_decls@, old(ctx).table(), *p, slot@, span).1 {
            Ok(x) => r matches Ok(q) && q@ == x,
            Err(d) => r matches Err(x) && diag(x) == d,
        },
        final(ctx).table().types.len() == old(ctx).table().types.len(),
        final(ctx).table().caps.len() == old(ctx).table().caps.len(),
        *final(ctx) == (InferCtx { vars: final(ctx).vars, ..*old(ctx) }),
{
    match inner_lambda_entity(ctx, p, slot) {
        None => Err(
            unsupported_error(
                "annotate the aggregate's row parameter, like `(fn (u: User) -> u.col)`".to_owned(),
                span,
            ),
        ),
        Some(entity) => {
            let entity_name = name_of_con(&ctx.tycon_decls, entity);
            match entity_fields(&ctx.tycon_decls, entity) {
                None => {
                    let detail = text3(
                        "`",
                        entity_name.as_str(),
                        "` is not a record type, so it has no columns to quote",
                    );
                    Err(unsupported_error(detail, span))
                },
                Some(fields) => Ok(
                    QuoteParam { name, entity, entity_name, fields, nullable: false },
                ),
            }
        },
    }
}

fn make_accessor_scope(
    ctx: &mut InferCtx,
    ps: &Vec<LambdaParam>,
    rows: &Type,
    span: Span,
) -> (r: Result<Vec<QuoteParam>, TypeError>)
    requires
        old(ctx).wf(),
        old(ctx).has_room(ps@.len() as int),
    ensures
        final(ctx).wf(),
        final(ctx).table() == accessor_scope(
            old(ctx).tycon_decls@,
            old(ctx).table(),
            ps@,
            rows@,
            span,
            ps@.len(),
        ).0,
        match accessor_scope(
            old(ctx).tycon_decls@,
            old(ctx).table(),
            ps@,
            rows@,
            span,
            ps@.len(),
        ).1 {
            Ok(x) => r matches Ok(s) && params_of(s@) == x,
            Err(d) => r matches Err(x) && diag(x) == d,
        },
        final(ctx).table().types.len() <= old(ctx).table().types.len() + ps@.len(),
        final(ctx).table().caps.len() == old(ctx).table().caps.len(),
        *final(ctx) == (InferCtx { vars: final(ctx).vars, ..*old(ctx) }),
{
    let ghost tb = ctx.table();
    let ghost tycons = ctx.tycon_decls@;
    let mut out: Vec<QuoteParam> = Vec::new();
    let mut i: usize = 0;
    assert(params_of(out@) =~= Seq::empty());
    while i < ps.len()
        invariant
            i <= ps@.len(),
            ctx.wf(),
            tb == old(ctx).table(),
            tycons == old(ctx).tycon_decls@,
            tb.types.len() + ps@.len() <= u32::MAX,
            ctx.table().types.len() <= tb.types.len() + i,
            ctx.table().caps.len() == tb.caps.len(),
            ctx.table() == accessor_scope(tycons, tb, ps@, rows@, span, i as nat).0,
            accessor_scope(tycons, tb, ps@, rows@, span, i as nat).1 == Ok::<
                Seq<ParamOf>,
                Diag,
            >(params_of(out@)),
            *ctx == (InferCtx { vars: ctx.vars, ..*old(ctx) }),
        decreases ps@.len() - i,
    {
        let ghost was = out@;
        let name = match plain_name(&ps[i]) {
            Some(n) => n,
            None => {
                proof {
                    accessor_prefix(tycons, tb, ps@, rows@, span, (i + 1) as nat);
                }
                return Err(
                    unsupported_error(
                        "a group aggregate's row parameter must be a plain name".to_owned(),
                        span,
                    ),
                );
            },
        };
        let made = if i == 0 {
            make_accessor_param(ctx, &ps[i], name, rows, span)
        } else {
            let slot = Type::Var(ctx.fresh_tyvid());
            make_accessor_param(ctx, &ps[i], name, &slot, span)
        };
        match made {
            Err(e) => {
                proof {
                    accessor_prefix(tycons, tb, ps@, rows@, span, (i + 1) as nat);
                }
                return Err(e);
            },
            Ok(p) => {
                out.push(p);
                assert(params_of(out@) =~= params_of(was).push(p@));
            },
        }
        i = i + 1;
    }
    Ok(out)
}

/// The type of what an aggregate folds: that of the value that its accessor
/// gives of a row.
pub open spec fn folded(gr: Grouping, st: QState, arg: Expr) -> (QState, Found) {
    match peeled(arg) {
        Expr::Lambda { params, body, span } => if params@.len() == 0 {
            (
                st,
                Err(
                    unsupported(
                        "a group aggregate's column accessor takes at least one row parameter"@,
                        span,
                    ),
                ),
            )
        } else {
            let (tb, scope) = accessor_scope(
                gr.q.tycons,
                st.table,
                params@,
                gr.e,
                span,
                params@.len(),
            );
            let s1 = QState { table: tb, ..st };
            match scope {
                Err(d) => (s1, Err(d)),
                Ok(scope) => {
                    let (s2, k) = node(Quoting { scope, ..gr.q }, s1, *body);
                    match k {
                        Err(d) => (s2, Err(d)),
                        Ok(Kind::Pred) => (
                            s2,
                            Err(
                                unsupported(
                                    "a group aggregate folds a column or computed value, not a predicate"@,
                                    span_of(*body),
                                ),
                            ),
                        ),
                        Ok(kind) => (s2, Ok(kind)),
                    }
                },
            }
        },
        _ => (
            st,
            Err(
                unsupported(
                    "a group aggregate takes a column accessor, like `(fn u -> u.col)`"@,
                    span_of(arg),
                ),
            ),
        ),
    }
}

/// How many variables checking the argument of an aggregate may need.
pub open spec fn accessor_weight(env: Seq<Seq<(Seq<char>, Poly)>>, arg: Expr) -> nat {
    match peeled(arg) {
        Expr::Lambda { params, body, span } => params@.len() + weight(env, *body),
        _ => 0,
    }
}

/// What checking a grouped expression goes by.
pub open spec fn grouping(b: BuiltinTyCons, ctx: InferCtx, g: Seq<char>, e: Ty, k: Ty) -> Grouping {
    Grouping { q: quoting(b, Seq::empty(), ctx), g, e, k }
}

/// Checks the argument of an aggregate.
fn group_agg_col_type(
    ctx: &mut InferCtx,
    b: &BuiltinTyCons,
    arg: &Expr,
    rows: &Type,
    Ghost(gr): Ghost<Grouping>,
) -> (r: Result<QKind, TypeError>)
    requires
        old(ctx).wf(),
        gr.q == quoting(*b, Seq::empty(), *old(ctx)),
        gr.e == rows@,
        fits(old(ctx).table(), accessor_weight(old(ctx).env@, *arg)),
    ensures
        final(ctx).wf(),
        qstate(*final(ctx)) == folded(gr, qstate(*old(ctx)), *arg).0,
        tells_found(r, folded(gr, qstate(*old(ctx)), *arg).1),
        same_but_quotes(*old(ctx), *final(ctx)),
        final(ctx).table().types.len() <= old(ctx).table().types.len() + accessor_weight(
            old(ctx).env@,
            *arg,
        ),
        final(ctx).table().caps.len() <= old(ctx).table().caps.len() + accessor_weight(
            old(ctx).env@,
            *arg,
        ),
{
    let ghost st = qstate(*ctx);
    match peel_paren(arg) {
        Expr::Lambda { params, body, span } => {
            if params.len() == 0 {
                return Err(
                    unsupported_error(
                        "a group aggregate's column accessor takes at least one row parameter".to_owned(),
                        *span,
                    ),
                );
            }
            let made = make_accessor_scope(ctx, params, rows, *span);
            assert(qstate(*ctx) =~= (QState { table: ctx.table(), ..st }));
            let scope = match made {
                Ok(s) => s,
                Err(e) => {
                    return Err(e);
                },
            };
            assert(quoting(*b, scope@, *ctx) == (Quoting { scope: params_of(scope@), ..gr.q }));
            match check_node(ctx, b, body, &scope) {
                Err(e) => Err(e),
                Ok(QKind::Pred) => Err(
                    unsupported_error(
                        "a group aggregate folds a column or computed value, not a predicate".to_owned(),
                        body.span(),
                    ),
                ),
                Ok(kind) => Ok(kind),
            }
        },
        _ => Err(
            unsupported_error(
                "a group aggregate takes a column accessor, like `(fn u -> u.col)`".to_owned(),
                arg.span(),
            ),
        ),
    }
}

/// The group itself.
pub open spec fn is_group(base: Expr, g: Seq<char>) -> bool {
    match base {
        Expr::Ident(id) => id.text@ == g,
        _ => false,
    }
}

fn is_group_base(base: &Expr, g: &str) -> (r: bool)
    ensures
        r == is_group(*base, g@),
{
    match base {
        Expr::Ident(id) => same_text(id.text.as_str(), g),
        _ => false,
    }
}

/// The aggregates that fold a column.
pub open spec fn is_aggregate(name: Seq<char>) -> bool {
    name == "sum"@ || name == "avg"@ || name == "min"@ || name == "max"@
}

/// What a call in a grouped quote amounts to: an aggregate of the group, with
/// the type of what it folds. An average is a float.
pub open spec fn group_call(
    gr: Grouping,
    st: QState,
    callee: Expr,
    args: Seq<Expr>,
    span: Span,
) -> (QState, Found) {
    match callee {
        Expr::FieldAccess { base, field, span: _ } => {
            let func = field.text@;
            if !is_group(*base, gr.g) {
                (
                    st,
                    Err(
                        unsupported(
                            "only the group `"@ + gr.g + "` can be aggregated here"@,
                            span,
                        ),
                    ),
                )
            } else if !is_aggregate(func) {
                (
                    st,
                    Err(
                        unsupported(
                            "`"@ + gr.g + "."@ + func + "` is not a group aggregate; use `"@
                                + gr.g + ".sum`, `"@ + gr.g + ".avg`, `"@ + gr.g
                                + ".min`, or `"@ + gr.g + ".max`"@,
                            span,
                        ),
                    ),
                )
            } else if args.len() != 1 {
                (
                    st,
                    Err(
                        unsupported(
                            "`"@ + gr.g + "."@ + func
                                + "` takes one column accessor, like `"@ + gr.g + "."@ + func
                                + " (fn u -> u.col)`"@,
                            span,
                        ),
                    ),
                )
            } else {
                let (s1, k) = folded(gr, st, args[0]);
                match k {
                    Err(d) => (s1, Err(d)),
                    Ok(kind) => (
                        s1,
                        Ok(
                            Kind::Scalar(
                                if func == "avg"@ {
                                    Ty::Con(gr.q.b.float, Seq::empty())
                                } else {
                                    value_of(kind)->0
                                },
                            ),
                        ),
                    ),
                }
            }
        },
        _ => (
            st,
            Err(unsupported("this call is not supported in a grouped quote"@, span)),
        ),
    }
}

/// How many variables checking a call may need.
pub open spec fn group_call_weight(env: Seq<Seq<(Seq<char>, Poly)>>, args: Seq<Expr>) -> nat {
    if args.len() == 1 {
        accessor_weight(env, args[0])
    } else {
        0
    }
}

fn check_group_call(
    ctx: &mut InferCtx,
    b: &BuiltinTyCons,
    callee: &Expr,
    args: &Vec<Expr>,
    span: Span,
    g: &str,
    rows: &Type,
    Ghost(gr): Ghost<Grouping>,
) -> (r: Result<QKind, TypeError>)
    requires
        old(ctx).wf(),
        gr.q == quoting(*b, Seq::empty(), *old(ctx)),
        gr.g == g@,
        gr.e == rows@,
        fits(old(ctx).table(), group_call_weight(old(ctx).env@, args@)),
    ensures
        final(ctx).wf(),
        qstate(*final(ctx)) == group_call(gr, qstate(*old(ctx)), *callee, args@, span).0,
        tells_found(r, group_call(gr, qstate(*old(ctx)), *callee, args@, span).1),
        same_but_quotes(*old(ctx), *final(ctx)),
        final(ctx).table().types.len() <= old(ctx).table().types.len() + group_call_weight(
            old(ctx).env@,
            args@,
        ),
        final(ctx).table().caps.len() <= old(ctx).table().caps.len() + group_call_weight(
            old(ctx).env@,
            args@,
        ),
{
    let (base, field) = match callee {
        Expr::FieldAccess { base, field, span: _ } => (base, field),
        _ => {
            return Err(
                unsupported_error(
                    "this call is not supported in a grouped quote".to_owned(),
                    span,
                ),
            );
        },
    };
    if !is_group_base(base, g) {
        return Err(
            unsupported_error(
                text3("only the group `", g, "` can be aggregated here"),
                span,
            ),
        );
    }
    let func = field.text.as_str();
    if !(same_text(func, "sum") || same_text(func, "avg") || same_text(func, "min") || same_text(
        func,
        "max",
    )) {
        let mut detail = text7(
            "`",
            g,
            ".",
            func,
            "` is not a group aggregate; use `",
            g,
            ".sum`, `",
        );
        detail.append(g);
        detail.append(".avg`, `");
        detail.append(g);
        detail.append(".min`, or `");
        detail.append(g);
        detail.append(".max`");
        return Err(unsupported_error(detail, span));
    }
    if args.len() != 1 {
        let mut detail = text7(
            "`",
            g,
            ".",
            func,
            "` takes one column accessor, like `",
            g,
            ".",
        );
        detail.append(func);
        detail.append(" (fn u -> u.col)`");
        return Err(unsupported_error(detail, span));
    }
    match group_agg_col_type(ctx, b, &args[0], rows, Ghost(gr)) {
        Err(e) => Err(e),
        Ok(kind) => if same_text(func, "avg") {
            Ok(QKind::Scalar(con0(b.float)))
        } else {
            match kind {
                QKind::Col(t) => Ok(QKind::Scalar(t)),
                QKind::Scalar(t) => Ok(QKind::Scalar(t)),
                QKind::Pred => {
                    assert(false);
                    Err(unsupported_error("a predicate is no value".to_owned(), span))
                },
            }
        },
    }
}

/// What an operator makes of its operands in a grouped quote. A side that is
/// not known yet takes the type of the other.
pub open spec fn group_binary(
    gr: Grouping,
    st: QState,
    op: BinOp,
    span: Span,
    l: Kind,
    r: Kind,
) -> (QState, Found) {
    if is_logic(op) {
        if boolean(gr.q.b, l) && boolean(gr.q.b, r) {
            (st, Ok(Kind::Pred))
        } else {
            (
                st,
                Err(unsupported("the operands of `&&` and `||` must be boolean"@, span)),
            )
        }
    } else {
        match (value_of(l), value_of(r)) {
            (Some(x), Some(y)) => {
                let lt = resolve(st.table, x);
                let rt = resolve(st.table, y);
                if lt is Var || rt is Var {
                    (QState { table: unified(st.table, lt, rt).0, ..st }, Ok(Kind::Pred))
                } else if same_value(lt, rt) {
                    (st, Ok(Kind::Pred))
                } else {
                    (st, Err(compared(gr.q, lt, rt, span)))
                }
            },
            _ => (
                st,
                Err(
                    unsupported(
                        "a comparison operand must be a group aggregate or a literal"@,
                        span,
                    ),
                ),
            ),
        }
    }
}

fn combine_group_binary(
    ctx: &mut InferCtx,
    b: &BuiltinTyCons,
    op: BinOp,
    span: Span,
    l: &QKind,
    r: &QKind,
    Ghost(gr): Ghost<Grouping>,
) -> (out: Result<QKind, TypeError>)
    requires
        old(ctx).wf(),
        gr.q == quoting(*b, Seq::empty(), *old(ctx)),
        is_comparison(op) || is_logic(op),
    ensures
        final(ctx).wf(),
        qstate(*final(ctx)) == group_binary(gr, qstate(*old(ctx)), op, span, l@, r@).0,
        tells_found(out, group_binary(gr, qstate(*old(ctx)), op, span, l@, r@).1),
        final(ctx).table().types.len() == old(ctx).table().types.len(),
        final(ctx).table().caps.len() == old(ctx).table().caps.len(),
        same_but_quotes(*old(ctx), *final(ctx)),
{
    if let OpClass::Logic = op_class(op) {
        return if as_predicate(b, l) && as_predicate(b, r) {
            Ok(QKind::Pred)
        } else {
            Err(
                unsupported_error(
                    "the operands of `&&` and `||` must be boolean".to_owned(),
                    span,
                ),
            )
        };
    }
    match (value_type(l), value_type(r)) {
        (Some(x), Some(y)) => {
            let lt = ctx.deep_resolve(x);
            let rt = ctx.deep_resolve(y);
            let open = is_var(&lt) || is_var(&rt);
            if open {
                proof {
                    unified_agree(ctx.table(), lt@, rt@);
                }
                let _ = unify(&mut ctx.vars, &lt, &rt);
                assert(qstate(*ctx) =~= (QState {
                    table: ctx.table(),
                    ..qstate(*old(ctx))
                }));
                Ok(QKind::Pred)
            } else if same_value_type(&lt, &rt) {
                Ok(QKind::Pred)
            } else {
                Err(comparison_error(&lt, &rt, &ctx.tycon_decls, span))
            }
        },
        _ => Err(
            unsupported_error(
                "a comparison operand must be a group aggregate or a literal".to_owned(),
                span,
            ),
        ),
    }
}

fn is_var(t: &Type) -> (r: bool)
    ensures
        r == t@ is Var,
{
    match t {
        Type::Var(_) => true,
        _ => false,
    }
}

/// What `base.field` amounts to in a grouped quote: the key of the group or
/// the number of its rows.
pub open spec fn group_field(
    gr: Grouping,
    base: Expr,
    field: Seq<char>,
    span: Span,
) -> Found {
    if !is_group(base, gr.g) {
        Err(unsupported("only the group `"@ + gr.g + "` can be accessed here"@, span))
    } else if field == "key"@ {
        Ok(Kind::Scalar(gr.k))
    } else if field == "count"@ {
        Ok(Kind::Scalar(Ty::Con(gr.q.b.int, Seq::empty())))
    } else {
        Err(
            unsupported(
                "`"@ + gr.g + "."@ + field + "` is not a group aggregate; use `"@ + gr.g
                    + ".key`, `"@ + gr.g + ".count`, or `"@ + gr.g
                    + ".sum`/`avg`/`min`/`max`"@,
                span,
            ),
        )
    }
}

fn check_group_field(
    b: &BuiltinTyCons,
    base: &Expr,
    field: &str,
    span: Span,
    g: &str,
    key: &Type,
    Ghost(gr): Ghost<Grouping>,
) -> (r: Result<QKind, TypeError>)
    requires
        gr.q.b == *b,
        gr.g == g@,
        gr.k == key@,
    ensures
        tells_found(r, group_field(gr, *base, field@, span)),
{
    if !is_group_base(base, g) {
        return Err(
            unsupported_error(text3("only the group `", g, "` can be accessed here"), span),
        );
    }
    if same_text(field, "key") {
        return Ok(QKind::Scalar(key.clone()));
    }
    if same_text(field, "count") {
        return Ok(QKind::Scalar(con0(b.int)));
    }
    let mut detail = text7(
        "`",
        g,
        ".",
        field,
        "` is not a group aggregate; use `",
        g,
        ".key`, `",
    );
    detail.append(g);
    detail.append(".count`, or `");
    detail.append(g);
    detail.append(".sum`/`avg`/`min`/`max`");
    Err(unsupported_error(detail, span))
}

/// The report of a name in a grouped quote.
pub open spec fn group_name(gr: Grouping, name: Seq<char>, span: Span) -> Diag {
    if name == gr.g {
        unsupported(
            "the group `"@ + gr.g + "` can only be used through `"@ + gr.g + ".key`, `"@ + gr.g
                + ".count`, or `"@ + gr.g + ".sum`/`avg`/`min`/`max`"@,
            span,
        )
    } else {
        unsupported("`"@ + name + "` is not available in a grouped quote"@, span)
    }
}

fn group_name_error(g: &str, name: &str, span: Span, Ghost(gr): Ghost<Grouping>) -> (r: TypeError)
    requires
        gr.g == g@,
    ensures
        diag(r) == group_name(gr, name@, span),
{
    if same_text(name, g) {
        let mut detail = text7(
            "the group `",
            g,
            "` can only be used through `",
            g,
            ".key`, `",
            g,
            ".count`, or `",
        );
        detail.append(g);
        detail.append(".sum`/`avg`/`min`/`max`");
        unsupported_error(detail, span)
    } else {
        unsupported_error(text3("`", name, "` is not available in a grouped quote"), span)
    }
}

/// What an expression in a grouped quote amounts to, and what checking it
/// changes.
pub open spec fn group_node(gr: Grouping, st: QState, e: Expr) -> (QState, Found)
    decreases e,
{
    match e {
        Expr::Paren { inner, span } => group_node(gr, st, *inner),
        Expr::Literal(lit) => (st, Ok(Kind::Scalar(literal_ty(gr.q.b, lit)))),
        Expr::FieldAccess { base, field, span } => (
            st,
            group_field(gr, *base, field.text@, span),
        ),
        Expr::Call { callee, args, span } => group_call(gr, st, *callee, args@, span),
        Expr::Binary { op, lhs, rhs, span } => if is_comparison(op) || is_logic(op) {
            let (s1, l) = group_node(gr, st, *lhs);
            match l {
                Err(d) => (s1, Err(d)),
                Ok(lk) => {
                    let (s2, r) = group_node(gr, s1, *rhs);
                    match r {
                        Err(d) => (s2, Err(d)),
                        Ok(rk) => group_binary(gr, s2, op, span, lk, rk),
                    }
                },
            }
        } else {
            (
                st,
                Err(unsupported("this operator is not supported in a grouped quote"@, span)),
            )
        },
        Expr::Ident(id) => (st, Err(group_name(gr, id.text@, id.span))),
        _ => (
            st,
            Err(
                unsupported(
                    "this expression form is not supported in a grouped quote"@,
                    span_of(e),
                ),
            ),
        ),
    }
}

/// How many variables checking a grouped expression may need.
pub open spec fn group_weight(env: Seq<Seq<(Seq<char>, Poly)>>, e: Expr) -> nat
    decreases e,
{
    match e {
        Expr::Paren { inner, span } => group_weight(env, *inner),
        Expr::Binary { op, lhs, rhs, span } => group_weight(env, *lhs) + group_weight(env, *rhs),
        Expr::Call { callee, args, span } => group_call_weight(env, args@),
        _ => 0,
    }
}

/// Checks an expression in a grouped quote.
fn check_group_node(
    ctx: &mut InferCtx,
    b: &BuiltinTyCons,
    e: &Expr,
    g: &str,
    rows: &Type,
    key: &Type,
) -> (r: Result<QKind, TypeError>)
    requires
        old(ctx).wf(),
        fits(old(ctx).table(), group_weight(old(ctx).env@, *e)),
    ensures
        final(ctx).wf(),
        qstate(*final(ctx)) == group_node(
            grouping(*b, *old(ctx), g@, rows@, key@),
            qstate(*old(ctx)),
            *e,
        ).0,
        tells_found(
            r,
            group_node(grouping(*b, *old(ctx), g@, rows@, key@), qstate(*old(ctx)), *e).1,
        ),
        same_but_quotes(*old(ctx), *final(ctx)),
        final(ctx).table().types.len() <= old(ctx).table().types.len() + group_weight(
            old(ctx).env@,
            *e,
        ),
        final(ctx).table().caps.len() <= old(ctx).table().caps.len() + group_weight(
            old(ctx).env@,
            *e,
        ),
    decreases e,
{
    let ghost gr = grouping(*b, *ctx, g@, rows@, key@);
    match e {
        Expr::Paren { inner, span: _ } => check_group_node(ctx, b, inner, g, rows, key),
        Expr::Literal(lit) => Ok(QKind::Scalar(literal_type(b, lit))),
        Expr::FieldAccess { base, field, span } => check_group_field(
            b,
            base,
            field.text.as_str(),
            *span,
            g,
            key,
            Ghost(gr),
        ),
        Expr::Call { callee, args, span } => check_group_call(
            ctx,
            b,
            callee,
            args,
            *span,
            g,
            rows,
            Ghost(gr),
        ),
        Expr::Binary { op, lhs, rhs, span } => {
            match op_class(*op) {
                OpClass::Comparison | OpClass::Logic => {},
                _ => {
                    return Err(
                        unsupported_error(
                            "this operator is not supported in a grouped quote".to_owned(),
                            *span,
                        ),
                    );
                },
            }
            let l = check_group_node(ctx, b, lhs, g, rows, key)?;
            let r = check_group_node(ctx, b, rhs, g, rows, key)?;
            combine_group_binary(ctx, b, *op, *span, &l, &r, Ghost(gr))
        },
        Expr::Ident(id) => Err(group_name_error(g, id.text.as_str(), id.span, Ghost(gr))),
        _ => Err(
            unsupported_error(
                "this expression form is not supported in a grouped quote".to_owned(),
                e.span(),
            ),
        ),
    }
}

/// What checking one aggregate of a projection changes and reports. One whose
/// type is not known yet takes the type that the result record declares.
#[verifier::opaque]
pub open spec fn group_project_field(
    gr: Grouping,
    st: QState,
    f: FieldInit,
    expected: Seq<(Seq<char>, Ty)>,
) -> (QState, Verdict) {
    let name = f.name.text@;
    match f.value {
        None => (
            st,
            Err(
                unsupported(
                    "projection field `"@ + name + "` must be written `"@ + name
                        + " = <group aggregate>`"@,
                    f.span,
                ),
            ),
        ),
        Some(v) => {
            let (s1, k) = group_node(gr, st, v);
            match k {
                Err(d) => (s1, Err(d)),
                Ok(kind) => group_place(gr, s1, name, f.span, kind, expected),
            }
        },
    }
}

/// What placing an aggregate in the result record changes and reports.
pub open spec fn group_place(
    gr: Grouping,
    st: QState,
    name: Seq<char>,
    span: Span,
    k: Kind,
    expected: Seq<(Seq<char>, Ty)>,
) -> (QState, Verdict) {
    match value_of(k) {
        None => (
            st,
            Err(
                unsupported(
                    "projection field `"@ + name
                        + "` must be a group aggregate (g.key, g.count, g.sum/avg/min/max)"@,
                    span,
                ),
            ),
        ),
        Some(t) => match find_field(expected, name) {
            None => (
                st,
                Err(
                    unsupported(
                        "projection field `"@ + name
                            + "` is not declared in the result record"@,
                        span,
                    ),
                ),
            ),
            Some(x) => {
                let vt = resolve(st.table, t);
                let xt = resolve(st.table, x);
                if vt is Var {
                    (QState { table: unified(st.table, vt, xt).0, ..st }, Ok(()))
                } else if same_value(vt, xt) {
                    (st, Ok(()))
                } else {
                    (
                        st,
                        Err(
                            unsupported(
                                "projection field `"@ + name + "` is "@ + type_text(
                                    vt,
                                    gr.q.tycons,
                                ) + ", but the result record declares "@ + type_text(
                                    xt,
                                    gr.q.tycons,
                                ),
                                span,
                            ),
                        ),
                    )
                }
            },
        },
    }
}

fn place_aggregate(
    ctx: &mut InferCtx,
    name: &str,
    span: Span,
    k: &QKind,
    expected: &Vec<(String, Type)>,
    Ghost(gr): Ghost<Grouping>,
) -> (r: Result<(), TypeError>)
    requires
        old(ctx).wf(),
        gr.q.tycons == old(ctx).tycon_decls@,
    ensures
        final(ctx).wf(),
        qstate(*final(ctx)) == group_place(
            gr,
            qstate(*old(ctx)),
            name@,
            span,
            k@,
            field_views(expected@),
        ).0,
        tells_verdict(
            r,
            group_place(gr, qstate(*old(ctx)), name@, span, k@, field_views(expected@)).1,
        ),
        final(ctx).table().types.len() == old(ctx).table().types.len(),
        final(ctx).table().caps.len() == old(ctx).table().caps.len(),
        same_but_quotes(*old(ctx), *final(ctx)),
{
    let t = match value_type(k) {
        Some(t) => t,
        None => {
            return Err(
                unsupported_error(
                    text3(
                        "projection field `",
                        name,
                        "` must be a group aggregate (g.key, g.count, g.sum/avg/min/max)",
                    ),
                    span,
                ),
            );
        },
    };
    match field_named(expected, name) {
        None => Err(
            unsupported_error(
                text3(
                    "projection field `",
                    name,
                    "` is not declared in the result record",
                ),
                span,
            ),
        ),
        Some(x) => {
            let vt = ctx.deep_resolve(t);
            let xt = ctx.deep_resolve(x);
            if is_var(&vt) {
                proof {
                    unified_agree(ctx.table(), vt@, xt@);
                }
                let _ = unify(&mut ctx.vars, &vt, &xt);
                assert(qstate(*ctx) =~= (QState {
                    table: ctx.table(),
                    ..qstate(*old(ctx))
                }));
                Ok(())
            } else if same_value_type(&vt, &xt) {
                Ok(())
            } else {
                let left = render_type_with(&vt, &ctx.tycon_decls);
                let right = render_type_with(&xt, &ctx.tycon_decls);
                let mut detail = text5(
                    "projection field `",
                    name,
                    "` is ",
                    left.as_str(),
                    ", but the result record declares ",
                );
                detail.append(right.as_str());
                Err(unsupported_error(detail, span))
            }
        },
    }
}

/// What checking the aggregates of a projection changes, up to the first
/// report.
pub open spec fn group_projected(
    gr: Grouping,
    st: QState,
    fs: Seq<FieldInit>,
    expected: Seq<(Seq<char>, Ty)>,
) -> (QState, Verdict)
    decreases fs.len(),
{
    if fs.len() == 0 {
        (st, Ok(()))
    } else {
        let (s1, v) = group_projected(gr, st, fs.drop_last(), expected);
        if v is Err {
            (s1, v)
        } else {
            group_project_field(gr, s1, fs.last(), expected)
        }
    }
}

proof fn group_projected_prefix(
    gr: Grouping,
    st: QState,
    fs: Seq<FieldInit>,
    expected: Seq<(Seq<char>, Ty)>,
    k: nat,
)
    requires
        k <= fs.len(),
        group_projected(gr, st, fs.take(k as int), expected).1 is Err,
    ensures
        group_projected(gr, st, fs, expected) == group_projected(
            gr,
            st,
            fs.take(k as int),
            expected,
        ),
    decreases fs.len() - k,
{
    if k == fs.len() {
        assert(fs.take(k as int) =~= fs);
    } else {
        assert(fs.take((k + 1) as int).drop_last() =~= fs.take(k as int));
        group_projected_prefix(gr, st, fs, expected, k + 1);
    }
}

/// What a grouped projection changes and reports.
pub open spec fn group_projection(
    gr: Grouping,
    st: QState,
    body: Expr,
    expected: Seq<(Seq<char>, Ty)>,
    span: Span,
) -> (QState, Verdict) {
    let e = peeled(body);
    match inits_of(e) {
        None => (
            st,
            Err(
                unsupported(
                    "a grouped projection must be a record of group aggregates, like `Stats { dept = g.key, n = g.count }`"@,
                    span_of(e),
                ),
            ),
        ),
        Some(fs) => if fs.len() == 0 {
            (
                st,
                Err(
                    unsupported(
                        "a grouped projection must select at least one aggregate"@,
                        span_of(e),
                    ),
                ),
            )
        } else {
            let (s1, v) = group_projected(gr, st, fs, expected);
            if v is Err {
                (s1, v)
            } else {
                match unselected(expected, fs) {
                    Some(n) => (
                        s1,
                        Err(
                            unsupported(
                                "a grouped projection is missing the declared column `"@ + n
                                    + "`"@,
                                span,
                            ),
                        ),
                    ),
                    None => (s1, Ok(())),
                }
            }
        },
    }
}

/// How many variables checking an aggregate of a projection may need.
pub open spec fn group_init_weight(env: Seq<Seq<(Seq<char>, Poly)>>, f: FieldInit) -> nat {
    match f.value {
        Some(v) => group_weight(env, v),
        None => 0,
    }
}

/// How many variables checking the aggregates of a projection may need.
pub open spec fn group_inits_weight(env: Seq<Seq<(Seq<char>, Poly)>>, fs: Seq<FieldInit>) -> nat
    decreases fs.len(),
{
    if fs.len() == 0 {
        0
    } else {
        group_inits_weight(env, fs.drop_last()) + group_init_weight(env, fs.last())
    }
}

proof fn group_inits_prefix(env: Seq<Seq<(Seq<char>, Poly)>>, fs: Seq<FieldInit>, k: nat)
    requires
        k <= fs.len(),
    ensures
        group_inits_weight(env, fs.take(k as int)) <= group_inits_weight(env, fs),
    decreases fs.len() - k,
{
    if k == fs.len() {
        assert(fs.take(k as int) =~= fs);
    } else {
        assert(fs.take((k + 1) as int).drop_last() =~= fs.take(k as int));
        group_inits_prefix(env, fs, k + 1);
    }
}

fn check_group_field_init(
    ctx: &mut InferCtx,
    b: &BuiltinTyCons,
    f: &FieldInit,
    g: &str,
    rows: &Type,
    key: &Type,
    expected: &Vec<(String, Type)>,
) -> (r: Result<(), TypeError>)
    requires
        old(ctx).wf(),
        fits(old(ctx).table(), group_init_weight(old(ctx).env@, *f)),
    ensures
        final(ctx).wf(),
        qstate(*final(ctx)) == group_project_field(
            grouping(*b, *old(ctx), g@, rows@, key@),
            qstate(*old(ctx)),
            *f,
            field_views(expected@),
        ).0,
        tells_verdict(
            r,
            group_project_field(
                grouping(*b, *old(ctx), g@, rows@, key@),
                qstate(*old(ctx)),
                *f,
                field_views(expected@),
            ).1,
        ),
        same_but_quotes(*old(ctx), *final(ctx)),
        final(ctx).table().types.len() <= old(ctx).table().types.len() + group_init_weight(
            old(ctx).env@,
            *f,
        ),
        final(ctx).table().caps.len() <= old(ctx).table().caps.len() + group_init_weight(
            old(ctx).env@,
            *f,
        ),
{
    reveal(group_project_field);
    let ghost gr = grouping(*b, *ctx, g@, rows@, key@);
    let name = f.name.text.as_str();
    match &f.value {
        None => Err(
            unsupported_error(
                text5(
                    "projection field `",
                    name,
                    "` must be written `",
                    name,
                    " = <group aggregate>`",
                ),
                f.span,
            ),
        ),
        Some(v) => match check_group_node(ctx, b, v, g, rows, key) {
            Err(e) => Err(e),
            Ok(k) => place_aggregate(ctx, name, f.span, &k, expected, Ghost(gr)),
        },
    }
}

fn check_group_inits(
    ctx: &mut InferCtx,
    b: &BuiltinTyCons,
    fs: &Vec<FieldInit>,
    g: &str,
    rows: &Type,
    key: &Type,
    expected: &Vec<(String, Type)>,
) -> (r: Result<(), TypeError>)
    requires
        old(ctx).wf(),
        fits(old(ctx).table(), group_inits_weight(old(ctx).env@, fs@)),
    ensures
        final(ctx).wf(),
        qstate(*final(ctx)) == group_projected(
            grouping(*b, *old(ctx), g@, rows@, key@),
            qstate(*old(ctx)),
            fs@,
            field_views(expected@),
        ).0,
        tells_verdict(
            r,
            group_projected(
                grouping(*b, *old(ctx), g@, rows@, key@),
                qstate(*old(ctx)),
                fs@,
                field_views(expected@),
            ).1,
        ),
        same_but_quotes(*old(ctx), *final(ctx)),
        final(ctx).table().types.len() <= old(ctx).table().types.len() + group_inits_weight(
            old(ctx).env@,
            fs@,
        ),
{
    let ghost gr = grouping(*b, *ctx, g@, rows@, key@);
    let ghost st = qstate(*ctx);
    let ghost tb = ctx.table();
    let ghost xs = field_views(expected@);
    let mut i: usize = 0;
    assert(fs@.take(0) =~= Seq::empty());
    while i < fs.len()
        invariant
            i <= fs@.len(),
            ctx.wf(),
            gr == grouping(*b, *ctx, g@, rows@, key@),
            gr == grouping(*b, *old(ctx), g@, rows@, key@),
            st == qstate(*old(ctx)),
            tb == old(ctx).table(),
            xs == field_views(expected@),
            fits(tb, group_inits_weight(ctx.env@, fs@)),
            ctx.table().types.len() <= tb.types.len() + group_inits_weight(
                ctx.env@,
                fs@.take(i as int),
            ),
            ctx.table().caps.len() <= tb.caps.len() + group_inits_weight(
                ctx.env@,
                fs@.take(i as int),
            ),
            group_projected(gr, st, fs@.take(i as int), xs).0 == qstate(*ctx),
            group_projected(gr, st, fs@.take(i as int), xs).1 is Ok,
            same_but_quotes(*old(ctx), *ctx),
        decreases fs@.len() - i,
    {
        proof {
            assert(fs@.take(i + 1).drop_last() =~= fs@.take(i as int));
            assert(fs@.take(i + 1).last() == fs@[i as int]);
            group_inits_prefix(ctx.env@, fs@, (i + 1) as nat);
        }
        match check_group_field_init(ctx, b, &fs[i], g, rows, key, expected) {
            Ok(()) => {},
            Err(e) => {
                proof {
                    group_projected_prefix(gr, st, fs@, xs, (i + 1) as nat);
                }
                return Err(e);
            },
        }
        i = i + 1;
    }
    assert(fs@.take(i as int) =~= fs@);
    Ok(())
}

/// Checks a grouped projection.
fn check_group_projection(
    ctx: &mut InferCtx,
    b: &BuiltinTyCons,
    body: &Expr,
    g: &str,
    rows: &Type,
    key: &Type,
    expected: &Vec<(String, Type)>,
    span: Span,
) -> (r: Result<(), TypeError>)
    requires
        old(ctx).wf(),
        inits_of(peeled(*body)) matches Some(fs) ==> fits(
            old(ctx).table(),
            group_inits_weight(old(ctx).env@, fs),
        ),
    ensures
        final(ctx).wf(),
        qstate(*final(ctx)) == group_projection(
            grouping(*b, *old(ctx), g@, rows@, key@),
            qstate(*old(ctx)),
            *body,
            field_views(expected@),
            span,
        ).0,
        tells_verdict(
            r,
            group_projection(
                grouping(*b, *old(ctx), g@, rows@, key@),
                qstate(*old(ctx)),
                *body,
                field_views(expected@),
                span,
            ).1,
        ),
        same_but_quotes(*old(ctx), *final(ctx)),
        inits_of(peeled(*body)) matches Some(fs) ==> final(ctx).table().types.len() <= old(
            ctx,
        ).table().types.len() + group_inits_weight(old(ctx).env@, fs),
{
    let e = peel_paren(body);
    match record_inits(e) {
        None => Err(
            unsupported_error(
                "a grouped projection must be a record of group aggregates, like `Stats { dept = g.key, n = g.count }`".to_owned(),
                e.span(),
            ),
        ),
        Some(fs) => {
            if fs.len() == 0 {
                return Err(
                    unsupported_error(
                        "a grouped projection must select at least one aggregate".to_owned(),
                        e.span(),
                    ),
                );
            }
            check_group_inits(ctx, b, fs, g, rows, key, expected)?;
            match find_unselected(expected, fs) {
                Some(n) => Err(
                    unsupported_error(
                        text3(
                            "a grouped projection is missing the declared column `",
                            n,
                            "`",
                        ),
                        span,
                    ),
                ),
                None => Ok(()),
            }
        },
    }
}

/// The record of a grouped quote. Its entity is that of the rows, where it is
/// known.
pub open spec fn group_info(gr: Grouping, tb: Table) -> Info {
    Info {
        param_name: gr.g,
        entity: match con_of(resolve(tb, gr.e)) {
            Some(id) => id,
            None => TyConId(0),
        },
        group: true,
    }
}

/// The state with a lambda noted as a grouped quote.
pub open spec fn with_group_quote(gr: Grouping, st: QState, span: Span) -> QState {
    with_quote(st, span, group_info(gr, st.table))
}

fn record_group_quote(
    ctx: &mut InferCtx,
    span: Span,
    g: &str,
    rows: &Type,
    Ghost(gr): Ghost<Grouping>,
)
    requires
        old(ctx).wf(),
        gr.g == g@,
        gr.e == rows@,
    ensures
        final(ctx).wf(),
        qstate(*final(ctx)) == with_group_quote(gr, qstate(*old(ctx)), span),
        same_but_quotes(*old(ctx), *final(ctx)),
{
    let entity = match head_con(&ctx.deep_resolve(rows)) {
        Some(id) => id,
        None => TyConId(0),
    };
    note_quote(ctx, span, QuoteInfo { param_name: g.to_owned(), entity, group: true });
}

/// A grouped projection into a record that the body names.
pub open spec fn named_group_projection(
    gr: Grouping,
    names: Map<Seq<char>, TyConId>,
    st: QState,
    e: Expr,
    ctor: RecordCtor,
    want: Option<Ty>,
    span: Span,
) -> (QState, Verdict) {
    match target_of(names, e) {
        None => (
            st,
            Err(
                unsupported(
                    "a grouped projection names `"@ + ctor_text(ctor)
                        + "`, which is not a record type"@,
                    span_of(e),
                ),
            ),
        ),
        Some(target) => match columns_of(gr.q.tycons, target) {
            None => (
                st,
                Err(
                    unsupported(
                        "a grouped projection names `"@ + ctor_text(ctor)
                            + "`, which is not a record"@,
                        span_of(e),
                    ),
                ),
            ),
            Some(fields) => {
                let (s1, v) = group_projection(gr, st, e, fields, span);
                if v is Err {
                    (s1, v)
                } else {
                    let s2 = match want {
                        Some(w) => QState {
                            table: pinned(s1.table, gr.q.tycons, w, target),
                            ..s1
                        },
                        None => s1,
                    };
                    (with_group_quote(gr, s2, span), Ok(()))
                }
            },
        },
    }
}

/// The body of a grouped quote: a projection, or a condition on the group.
pub open spec fn group_body(
    gr: Grouping,
    names: Map<Seq<char>, TyConId>,
    st: QState,
    body: Expr,
    want: Option<Ty>,
    span: Span,
) -> (QState, Verdict) {
    let e = peeled(body);
    match e {
        Expr::Record { constructor, fields, span: _ } => named_group_projection(
            gr,
            names,
            st,
            e,
            constructor,
            want,
            span,
        ),
        _ => {
            let expected = match want {
                Some(w) => fields_of(gr.q.tycons, w),
                None => None,
            };
            match expected {
                Some(fs) => {
                    let (s1, v) = group_projection(gr, st, body, fs, span);
                    if v is Err {
                        (s1, v)
                    } else {
                        (with_group_quote(gr, s1, span), Ok(()))
                    }
                },
                None => if e is RecordLit {
                    (
                        st,
                        Err(
                            unsupported(
                                "a grouped projection must name its result record, e.g. `Stats { dept = g.key, n = g.count }`"@,
                                span_of(e),
                            ),
                        ),
                    )
                } else {
                    let (s1, k) = group_node(gr, st, body);
                    match k {
                        Err(d) => (s1, Err(d)),
                        Ok(kind) => if boolean(gr.q.b, kind) {
                            (with_group_quote(gr, s1, span), Ok(()))
                        } else {
                            (
                                s1,
                                Err(
                                    unsupported(
                                        "a grouped `having` must be a boolean expression over the group"@,
                                        span_of(body),
                                    ),
                                ),
                            )
                        },
                    }
                },
            }
        },
    }
}

/// How many variables checking the body of a grouped quote may need.
pub open spec fn group_body_weight(ctx: InferCtx, body: Expr) -> nat {
    group_weight(ctx.env@, body) + match inits_of(peeled(body)) {
        Some(fs) => group_inits_weight(ctx.env@, fs),
        None => 0,
    } + match target_of(by_name(ctx.user_tycon_names@), peeled(body)) {
        Some(id) => con_arity(ctx.tycon_decls@, id),
        None => 0,
    }
}

fn check_named_group(
    ctx: &mut InferCtx,
    b: &BuiltinTyCons,
    e: &Expr,
    ctor: &RecordCtor,
    g: &str,
    rows: &Type,
    key: &Type,
    want: Option<&Type>,
    span: Span,
) -> (r: Result<(), TypeError>)
    requires
        old(ctx).wf(),
        *e matches Expr::Record { constructor, fields, span: _ } && constructor == *ctor,
        fits(old(ctx).table(), group_body_weight(*old(ctx), *e)),
    ensures
        final(ctx).wf(),
        qstate(*final(ctx)) == named_group_projection(
            grouping(*b, *old(ctx), g@, rows@, key@),
            by_name(old(ctx).user_tycon_names@),
            qstate(*old(ctx)),
            *e,
            *ctor,
            opt_ty(want),
            span,
        ).0,
        tells_verdict(
            r,
            named_group_projection(
                grouping(*b, *old(ctx), g@, rows@, key@),
                by_name(old(ctx).user_tycon_names@),
                qstate(*old(ctx)),
                *e,
                *ctor,
                opt_ty(want),
                span,
            ).1,
        ),
        same_but_quotes(*old(ctx), *final(ctx)),
{
    let ghost gr = grouping(*b, *ctx, g@, rows@, key@);
    let name = ctor_name(ctor);
    match ctx.tycon_named(name.as_str()) {
        None => Err(
            unsupported_error(
                text3(
                    "a grouped projection names `",
                    name.as_str(),
                    "`, which is not a record type",
                ),
                e.span(),
            ),
        ),
        Some(target) => match entity_fields(&ctx.tycon_decls, target) {
            None => Err(
                unsupported_error(
                    text3(
                        "a grouped projection names `",
                        name.as_str(),
                        "`, which is not a record",
                    ),
                    e.span(),
                ),
            ),
            Some(fields) => match check_group_projection(
                ctx,
                b,
                e,
                g,
                rows,
                key,
                &fields,
                span,
            ) {
                Err(x) => Err(x),
                Ok(()) => {
                    let ghost s1 = qstate(*ctx);
                    if let Some(w) = want {
                        pin_record(ctx, w, target);
                        assert(qstate(*ctx) =~= (QState {
                            table: pinned(s1.table, ctx.tycon_decls@, w@, target),
                            ..s1
                        }));
                    }
                    record_group_quote(ctx, span, g, rows, Ghost(gr));
                    Ok(())
                },
            },
        },
    }
}

fn check_group_body(
    ctx: &mut InferCtx,
    b: &BuiltinTyCons,
    body: &Expr,
    g: &str,
    rows: &Type,
    key: &Type,
    want: Option<&Type>,
    span: Span,
) -> (r: Result<(), TypeError>)
    requires
        old(ctx).wf(),
        fits(old(ctx).table(), group_body_weight(*old(ctx), *body)),
    ensures
        final(ctx).wf(),
        qstate(*final(ctx)) == group_body(
            grouping(*b, *old(ctx), g@, rows@, key@),
            by_name(old(ctx).user_tycon_names@),
            qstate(*old(ctx)),
            *body,
            opt_ty(want),
            span,
        ).0,
        tells_verdict(
            r,
            group_body(
                grouping(*b, *old(ctx), g@, rows@, key@),
                by_name(old(ctx).user_tycon_names@),
                qstate(*old(ctx)),
                *body,
                opt_ty(want),
                span,
            ).1,
        ),
        same_but_quotes(*old(ctx), *final(ctx)),
{
    let ghost gr = grouping(*b, *ctx, g@, rows@, key@);
    let e = peel_paren(body);
    assert(peeled(*e) == *e) by {
        peeled_twice(*body);
    }
    match e {
        Expr::Record { constructor, fields: _, span: _ } => {
            return check_named_group(ctx, b, e, constructor, g, rows, key, want, span);
        },
        _ => {},
    }
    let expected = match want {
        Some(w) => record_fields_of(&ctx.tycon_decls, w),
        None => None,
    };
    match expected {
        Some(fs) => {
            check_group_projection(ctx, b, body, g, rows, key, &fs, span)?;
            record_group_quote(ctx, span, g, rows, Ghost(gr));
            Ok(())
        },
        None => {
            if let Expr::RecordLit { fields: _, span: _ } = e {
                return Err(
                    unsupported_error(
                        "a grouped projection must name its result record, e.g. `Stats { dept = g.key, n = g.count }`".to_owned(),
                        e.span(),
                    ),
                );
            }
            match check_group_node(ctx, b, body, g, rows, key) {
                Err(x) => Err(x),
                Ok(k) => if as_predicate(b, &k) {
                    record_group_quote(ctx, span, g, rows, Ghost(gr));
                    Ok(())
                } else {
                    Err(
                        unsupported_error(
                            "a grouped `having` must be a boolean expression over the group".to_owned(),
                            body.span(),
                        ),
                    )
                },
            }
        },
    }
}

/// What checking a lambda as a grouped quote changes and finds. What is no lambda
/// is no quote, without a report.
pub open spec fn group_verdict(
    q: Quoting,
    names: Map<Seq<char>, TyConId>,
    st: QState,
    lambda: Expr,
    rows: Ty,
    key: Ty,
    expected_ret: Option<Ty>,
) -> (QState, Result<(), Option<Diag>>) {
    match lambda {
        Expr::Lambda { params, body, span } => reported(
            if params@.len() != 1 {
                (
                    st,
                    Err(
                        unsupported(
                            "a grouped quote takes one group parameter, like `fn g -> …`"@,
                            span,
                        ),
                    ),
                )
            } else {
                match bound_name(params@[0]) {
                    None => (
                        st,
                        Err(unsupported("a quoted parameter must be a plain name"@, span)),
                    ),
                    Some(g) => {
                        let want = match expected_ret {
                            Some(r) => Some(resolve(st.table, r)),
                            None => None,
                        };
                        group_body(
                            Grouping { q, g, e: rows, k: key },
                            names,
                            st,
                            *body,
                            want,
                            span,
                        )
                    },
                }
            },
        ),
        _ => (st, Err(None)),
    }
}

/// How many variables checking a lambda as a grouped quote may need.
pub open spec fn group_quote_weight(ctx: InferCtx, lambda: Expr) -> nat {
    match lambda {
        Expr::Lambda { params, body, span } => group_body_weight(ctx, *body),
        _ => 0,
    }
}

/// Checks a lambda as a quote over the groups of a query, whose rows and key
/// have the given types. On success the lambda is noted as a grouped quote.
pub fn check_group_quote(
    ctx: &mut InferCtx,
    b: &BuiltinTyCons,
    lambda: &Expr,
    e_ty: &Type,
    k_ty: &Type,
    expected_ret: Option<&Type>,
) -> (ok: bool)
    requires
        old(ctx).wf(),
        fits(old(ctx).table(), group_quote_weight(*old(ctx), *lambda)),
    ensures
        final(ctx).wf(),
        ({
            let (st, v) = group_verdict(
                quoting(*b, Seq::empty(), *old(ctx)),
                by_name(old(ctx).user_tycon_names@),
                qstate(*old(ctx)),
                *lambda,
                e_ty@,
                k_ty@,
                opt_ty(expected_ret),
            );
            &&& qstate(*final(ctx)) == st
            &&& ok == v is Ok
            &&& diags(final(ctx).errors@) == match v {
                Err(Some(d)) => diags(old(ctx).errors@).push(d),
                _ => diags(old(ctx).errors@),
            }
        }),
        lambda is Lambda && !ok ==> final(ctx).errors@.len() == old(ctx).errors@.len() + 1,
        ok ==> final(ctx).errors@.len() == old(ctx).errors@.len(),
        same_but_quotes((InferCtx { errors: final(ctx).errors, ..*old(ctx) }), *final(ctx)),
{
    match lambda {
        Expr::Lambda { params, body, span } => {
            let r = if params.len() != 1 {
                Err(
                    unsupported_error(
                        "a grouped quote takes one group parameter, like `fn g -> …`".to_owned(),
                        *span,
                    ),
                )
            } else {
                match plain_name(&params[0]) {
                    None => Err(
                        unsupported_error(
                            "a quoted parameter must be a plain name".to_owned(),
                            *span,
                        ),
                    ),
                    Some(g) => match expected_ret {
                        Some(t) => {
                            let want = ctx.deep_resolve(t);
                            check_group_body(
                                ctx,
                                b,
                                body,
                                g.as_str(),
                                e_ty,
                                k_ty,
                                Some(&want),
                                *span,
                            )
                        },
                        None => check_group_body(
                            ctx,
                            b,
                            body,
                            g.as_str(),
                            e_ty,
                            k_ty,
                            None,
                            *span,
                        ),
                    },
                }
            };
            match r {
                Ok(()) => true,
                Err(e) => {
                    let ghost st = qstate(*ctx);
                    ctx.errors.push(e);
                    assert(qstate(*ctx) == st);
                    false
                },
            }
        },
        _ => false,
    }
}

proof fn group_node_notes_nothing(gr: Grouping, st: QState, e: Expr)
    ensures
        group_node(gr, st, e).0.quoted == st.quoted,
    decreases e,
{
    match e {
        Expr::Paren { inner, span } => group_node_notes_nothing(gr, st, *inner),
        Expr::Binary { op, lhs, rhs, span } => {
            group_node_notes_nothing(gr, st, *lhs);
            group_node_notes_nothing(gr, group_node(gr, st, *lhs).0, *rhs);
        },
        Expr::Call { callee, args, span } => {
            if args@.len() == 1 {
                match peeled(args@[0]) {
                    Expr::Lambda { params, body, span: at } => {
                        let (tb, scope) = accessor_scope(
                            gr.q.tycons,
                            st.table,
                            params@,
                            gr.e,
                            at,
                            params@.len(),
                        );
                        if let Ok(sc) = scope {
                            node_notes_nothing(
                                Quoting { scope: sc, ..gr.q },
                                QState { table: tb, ..st },
                                *body,
                            );
                        }
                    },
                    _ => {},
                }
            }
        },
        _ => {},
    }
}

proof fn group_projected_notes_nothing(
    gr: Grouping,
    st: QState,
    fs: Seq<FieldInit>,
    expected: Seq<(Seq<char>, Ty)>,
)
    ensures
        group_projected(gr, st, fs, expected).0.quoted == st.quoted,
    decreases fs.len(),
{
    reveal(group_project_field);
    if fs.len() > 0 {
        let s1 = group_projected(gr, st, fs.drop_last(), expected).0;
        group_projected_notes_nothing(gr, st, fs.drop_last(), expected);
        if let Some(v) = fs.last().value {
            group_node_notes_nothing(gr, s1, v);
        }
    }
}

/// An accepted lambda is noted as a grouped quote, under its place and with its
/// parameter and the entity of the rows as far as it is known; one that is not
/// accepted leaves the notes as they are.
pub proof fn accepted_group_quotes_are_noted(
    q: Quoting,
    names: Map<Seq<char>, TyConId>,
    st: QState,
    lambda: Expr,
    rows: Ty,
    key: Ty,
    expected_ret: Option<Ty>,
)
    ensures
        ({
            let (after, v) = group_verdict(q, names, st, lambda, rows, key, expected_ret);
            after.quoted == if v is Ok {
                st.quoted.insert(
                    (span_of(lambda).start, span_of(lambda).end),
                    group_info(
                        Grouping {
                            q,
                            g: bound_name(lambda->Lambda_params@[0])->0,
                            e: rows,
                            k: key,
                        },
                        after.table,
                    ),
                )
            } else {
                st.quoted
            }
        }),
{
    match lambda {
        Expr::Lambda { params, body, span } => {
            if params@.len() == 1 && bound_name(params@[0]) is Some {
                let gr = Grouping { q, g: bound_name(params@[0])->0, e: rows, k: key };
                group_node_notes_nothing(gr, st, *body);
                let want = match expected_ret {
                    Some(r) => Some(resolve(st.table, r)),
                    None => None,
                };
                peeled_twice(*body);
                if let Some(inits) = inits_of(peeled(*body)) {
                    match want {
                        Some(w) => {
                            if let Some(fs) = fields_of(q.tycons, w) {
                                group_projected_notes_nothing(gr, st, inits, fs);
                            }
                        },
                        None => {},
                    }
                    if let Some(target) = target_of(names, peeled(*body)) {
                        if let Some(fs) = columns_of(q.tycons, target) {
                            group_projected_notes_nothing(gr, st, inits, fs);
                        }
                    }
                }
            }
        },
        _ => {},
    }
}

} // verus!

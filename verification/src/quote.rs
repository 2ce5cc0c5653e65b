use vstd::prelude::*;

use crate::ast::{span_of, Expr, LambdaParam, Pattern, RecordCtor};
use crate::ctx::InferCtx;
use crate::diag::{diag, diags, Diag};
use crate::error::TypeError;
use crate::fx::by_name;
use crate::instantiate::{fresh_vars, with_slots};
use crate::qexpr::{
    as_predicate, boolean, check_node, check_projection, columns_of, con0, con_name, entity_fields,
    fields_of, fits, has_con, inits_of, inits_weight, is_con, name_of_con, node,
    node_notes_nothing, note_quote, params_of, peel_paren, peeled, projection, projection_notes,
    qstate, quote_info, quoting, record_fields_of, row_info, same_but_quotes, same_value,
    same_value_type, unsupported, unsupported_error, value_of, value_type, weight, with_quote,
    Info, ParamOf, QState, QuoteParam, Quoting,
};
use crate::render::{render_type_with, type_text};
use crate::table::{resolve, Table};
use crate::text::{decimal, digits, same_text, text2, text3};
use crate::types::{views, BuiltinTyCons, Poly, Span, Ty, TyConDecl, TyConId, TyVid, Type};
use crate::unify::{unified, unify};

verus! {

broadcast use {crate::types::group_views, crate::diag::diags_push};

/// The constructor at a position of the table has a name.
pub open spec fn named(tycons: Seq<TyConDecl>, id: TyConId, name: Seq<char>) -> bool {
    id.0 < tycons.len() && tycons[id.0 as int].name@ == name
}

pub(crate) fn is_named(tycons: &Vec<TyConDecl>, id: TyConId, name: &str) -> (r: bool)
    ensures
        r == named(tycons@, id, name@),
{
    let at: usize = id.0 as usize;
    at < tycons.len() && same_text(tycons[at].name.as_str(), name)
}

/// The function type inside a quote type, with everything filled in.
pub open spec fn quoted_fn(tycons: Seq<TyConDecl>, tb: Table, t: Ty) -> Option<(Seq<Ty>, Ty)> {
    match t {
        Ty::Con(id, args) => if named(tycons, id, "Quote"@) && args.len() > 0 {
            match resolve(tb, args[0]) {
                Ty::Fn { params, ret, caps } => Some((params, *ret)),
                _ => None,
            }
        } else {
            None
        },
        _ => None,
    }
}

/// Splits the function type inside a quote type.
pub(crate) fn split_quote(ctx: &InferCtx, param_ty: &Type) -> (r: Option<(Vec<Type>, Type)>)
    ensures
        r is Some <==> quoted_fn(ctx.tycon_decls@, ctx.table(), param_ty@) is Some,
        r matches Some(f) ==> quoted_fn(ctx.tycon_decls@, ctx.table(), param_ty@) == Some(
            (views(f.0@), f.1@),
        ),
{
    match param_ty {
        Type::Con(id, args) => {
            assert(param_ty@ == Ty::Con(*id, views(args@)));
            if !is_named(&ctx.tycon_decls, *id, "Quote") || args.len() == 0 {
                return None;
            }
            assert(views(args@)[0] == args@[0]@);
            let inner = ctx.deep_resolve(&args[0]);
            let ghost seen = inner@;
            match inner {
                Type::Fn { params, ret, caps } => {
                    assert(seen == Ty::Fn { params: views(params@), ret: Box::new(ret@), caps });
                    Some((params, *ret))
                },
                _ => None,
            }
        },
        _ => None,
    }
}

/// A quote type.
pub fn is_quote_param(ctx: &InferCtx, param_ty: &Type) -> (r: bool)
    ensures
        r == (param_ty@ matches Ty::Con(id, args) && args.len() == 1 && named(
            ctx.tycon_decls@,
            id,
            "Quote"@,
        )),
{
    match param_ty {
        Type::Con(id, args) => {
            assert(param_ty@ == Ty::Con(*id, views(args@)));
            args.len() == 1 && is_named(&ctx.tycon_decls, *id, "Quote")
        },
        _ => false,
    }
}

/// The number of parameters of the function inside a quote type.
pub fn quote_arity(ctx: &InferCtx, param_ty: &Type) -> (r: Option<usize>)
    ensures
        match quoted_fn(ctx.tycon_decls@, ctx.table(), param_ty@) {
            Some(f) => r == Some(f.0.len() as usize) && f.0.len() <= usize::MAX,
            None => r is None,
        },
{
    match split_quote(ctx, param_ty) {
        Some((params, _ret)) => Some(params.len()),
        None => None,
    }
}

/// The result type of the function inside a quote type.
pub fn quote_result(ctx: &InferCtx, param_ty: &Type) -> (r: Option<Type>)
    ensures
        r is Some <==> quoted_fn(ctx.tycon_decls@, ctx.table(), param_ty@) is Some,
        r matches Some(t) ==> quoted_fn(ctx.tycon_decls@, ctx.table(), param_ty@) matches Some(f)
            && t@ == resolve(ctx.table(), f.1),
{
    match split_quote(ctx, param_ty) {
        Some((_params, ret)) => Some(ctx.deep_resolve(&ret)),
        None => None,
    }
}

/// The type of a parameter of the function inside a quote type.
pub open spec fn slot_of(tycons: Seq<TyConDecl>, tb: Table, t: Ty, i: int) -> Option<Ty> {
    match quoted_fn(tycons, tb, t) {
        Some(f) => if 0 <= i < f.0.len() {
            Some(resolve(tb, f.0[i]))
        } else {
            None
        },
        None => None,
    }
}

fn quote_slot(ctx: &InferCtx, param_ty: &Type, i: usize) -> (r: Option<Type>)
    ensures
        r is Some <==> slot_of(ctx.tycon_decls@, ctx.table(), param_ty@, i as int) is Some,
        r matches Some(t) ==> slot_of(ctx.tycon_decls@, ctx.table(), param_ty@, i as int) == Some(
            t@,
        ),
{
    match split_quote(ctx, param_ty) {
        Some((params, _ret)) => if i < params.len() {
            assert(views(params@)[i as int] == params@[i as int]@);
            Some(ctx.deep_resolve(&params[i]))
        } else {
            None
        },
        None => None,
    }
}

/// The entity of a parameter type: its constructor, or for an optional one that
/// of what it may hold.
pub open spec fn entity_of(b: BuiltinTyCons, tb: Table, slot: Ty) -> Option<TyConId> {
    match slot {
        Ty::Con(id, args) => if id == b.option {
            if args.len() > 0 {
                match resolve(tb, args[0]) {
                    Ty::Con(e, _) => Some(e),
                    _ => None,
                }
            } else {
                None
            }
        } else {
            Some(id)
        },
        _ => None,
    }
}

/// The entity that a parameter of a quote type ranges over, where it is known.
pub fn quote_entity_at(
    ctx: &InferCtx,
    b: &BuiltinTyCons,
    param_ty: &Type,
    i: usize,
) -> (r: Option<TyConId>)
    ensures
        r == match slot_of(ctx.tycon_decls@, ctx.table(), param_ty@, i as int) {
            Some(slot) => entity_of(*b, ctx.table(), slot),
            None => None,
        },
{
    match quote_slot(ctx, param_ty, i) {
        Some(slot) => match &slot {
            Type::Con(id, args) => {
                assert(slot@ == Ty::Con(*id, views(args@)));
                if id.0 == b.option.0 {
                    if args.len() > 0 {
                        assert(views(args@)[0] == args@[0]@);
                        match ctx.deep_resolve(&args[0]) {
                            Type::Con(e, _) => Some(e),
                            _ => None,
                        }
                    } else {
                        None
                    }
                } else {
                    Some(*id)
                }
            },
            _ => None,
        },
        None => None,
    }
}

/// Whether a parameter of a quote type is optional.
pub fn quote_slot_nullable(
    ctx: &InferCtx,
    b: &BuiltinTyCons,
    param_ty: &Type,
    i: usize,
) -> (r: bool)
    ensures
        r == match slot_of(ctx.tycon_decls@, ctx.table(), param_ty@, i as int) {
            Some(slot) => is_con(slot, b.option),
            None => false,
        },
{
    match quote_slot(ctx, param_ty, i) {
        Some(slot) => has_con(&slot, b.option),
        None => false,
    }
}

/// The name that a parameter of a lambda binds, where it is a plain name.
pub open spec fn bound_name(p: LambdaParam) -> Option<Seq<char>> {
    match p {
        LambdaParam::Pattern(Pattern::Var { name, span }) => Some(name.text@),
        LambdaParam::Annotated { pat: Pattern::Var { name, span }, ty } => Some(name.text@),
        _ => None,
    }
}

pub(crate) fn plain_name(p: &LambdaParam) -> (r: Option<String>)
    ensures
        r is Some <==> bound_name(*p) is Some,
        r matches Some(n) ==> bound_name(*p) == Some(n@),
{
    match p {
        LambdaParam::Pattern(Pattern::Var { name, span: _ }) => Some(name.text.clone()),
        LambdaParam::Annotated { pat: Pattern::Var { name, span: _ }, ty: _ } => Some(
            name.text.clone(),
        ),
        _ => None,
    }
}

/// One parameter of a quote, over an entity that is nullable or not.
pub open spec fn param_of(
    tycons: Seq<TyConDecl>,
    p: LambdaParam,
    entity: (TyConId, bool),
    span: Span,
) -> Result<ParamOf, Diag> {
    match bound_name(p) {
        None => Err(unsupported("a quoted parameter must be a plain name"@, span)),
        Some(name) => match columns_of(tycons, entity.0) {
            None => Err(
                unsupported(
                    "`"@ + con_name(tycons, entity.0)
                        + "` is not a record type, so it has no columns to quote"@,
                    span,
                ),
            ),
            Some(fields) => Ok(
                ParamOf {
                    name,
                    entity: entity.0,
                    entity_name: con_name(tycons, entity.0),
                    fields,
                    nullable: entity.1,
                },
            ),
        },
    }
}

/// The first `k` parameters of a quote, or the first report.
pub open spec fn scope_of(
    tycons: Seq<TyConDecl>,
    ps: Seq<LambdaParam>,
    entities: Seq<(TyConId, bool)>,
    span: Span,
    k: nat,
) -> Result<Seq<ParamOf>, Diag>
    decreases k,
{
    if k == 0 || k > ps.len() || k > entities.len() {
        Ok(Seq::empty())
    } else {
        match scope_of(tycons, ps, entities, span, (k - 1) as nat) {
            Err(d) => Err(d),
            Ok(before) => match param_of(tycons, ps[k - 1], entities[k - 1], span) {
                Err(d) => Err(d),
                Ok(p) => Ok(before.push(p)),
            },
        }
    }
}

proof fn scope_prefix(
    tycons: Seq<TyConDecl>,
    ps: Seq<LambdaParam>,
    entities: Seq<(TyConId, bool)>,
    span: Span,
    k: nat,
)
    requires
        k <= ps.len(),
        ps.len() == entities.len(),
        scope_of(tycons, ps, entities, span, k) is Err,
    ensures
        scope_of(tycons, ps, entities, span, ps.len()) == scope_of(tycons, ps, entities, span, k),
    decreases ps.len() - k,
{
    if k < ps.len() {
        scope_prefix(tycons, ps, entities, span, k + 1);
    }
}

fn make_param(
    tycons: &Vec<TyConDecl>,
    p: &LambdaParam,
    entity: (TyConId, bool),
    span: Span,
) -> (r: Result<QuoteParam, TypeError>)
    ensures
        match param_of(tycons@, *p, entity, span) {
            Ok(x) => r matches Ok(q) && q@ == x,
            Err(d) => r matches Err(e) && diag(e) == d,
        },
{
    match plain_name(p) {
        None => Err(
            unsupported_error("a quoted parameter must be a plain name".to_owned(), span),
        ),
        Some(name) => {
            let entity_name = name_of_con(tycons, entity.0);
            match entity_fields(tycons, entity.0) {
                None => Err(
                    unsupported_error(
                        text3(
                            "`",
                            entity_name.as_str(),
                            "` is not a record type, so it has no columns to quote",
                        ),
                        span,
                    ),
                ),
                Some(fields) => Ok(
                    QuoteParam { name, entity: entity.0, entity_name, fields, nullable: entity.1 },
                ),
            }
        },
    }
}

fn make_scope(
    tycons: &Vec<TyConDecl>,
    ps: &Vec<LambdaParam>,
    entities: &Vec<(TyConId, bool)>,
    span: Span,
) -> (r: Result<Vec<QuoteParam>, TypeError>)
    requires
        ps@.len() == entities@.len(),
    ensures
        match scope_of(tycons@, ps@, entities@, span, ps@.len()) {
            Ok(x) => r matches Ok(s) && params_of(s@) == x && s@.len() == ps@.len(),
            Err(d) => r matches Err(e) && diag(e) == d,
        },
{
    let mut out: Vec<QuoteParam> = Vec::new();
    let mut i: usize = 0;
    assert(params_of(out@) =~= Seq::empty());
    while i < ps.len()
        invariant
            i <= ps@.len(),
            ps@.len() == entities@.len(),
            out@.len() == i,
            scope_of(tycons@, ps@, entities@, span, i as nat) == Ok::<Seq<ParamOf>, Diag>(
                params_of(out@),
            ),
        decreases ps@.len() - i,
    {
        let ghost was = out@;
        match make_param(tycons, &ps[i], entities[i], span) {
            Err(e) => {
                proof {
                    scope_prefix(tycons@, ps@, entities@, span, (i + 1) as nat);
                }
                return Err(e);
            },
            Ok(p) => {
                out.push(p);
                assert(params_of(out@) =~= params_of(was).push(p@));
            },
        }
        i = i + 1;
    }
    Ok(out)
}

/// The name of a record constructor: its last part.
pub open spec fn ctor_text(c: RecordCtor) -> Seq<char> {
    match c {
        RecordCtor::Bare(id) => id.text@,
        RecordCtor::Qualified(qn) => if qn.segments@.len() > 0 {
            qn.segments@.last().text@
        } else {
            Seq::empty()
        },
    }
}

pub(crate) fn ctor_name(c: &RecordCtor) -> (r: String)
    ensures
        r@ == ctor_text(*c),
{
    match c {
        RecordCtor::Bare(id) => id.text.clone(),
        RecordCtor::Qualified(qn) => if qn.segments.len() > 0 {
            qn.segments[qn.segments.len() - 1].text.clone()
        } else {
            let s = String::new();
            assert(s@ =~= Seq::empty());
            s
        },
    }
}

/// The number of parameters of a constructor.
pub open spec fn con_arity(tycons: Seq<TyConDecl>, id: TyConId) -> nat {
    if id.0 < tycons.len() {
        tycons[id.0 as int].arity as nat
    } else {
        0
    }
}

/// The table after giving a result type a record type with new arguments.
pub open spec fn pinned(tb: Table, tycons: Seq<TyConDecl>, want: Ty, target: TyConId) -> Table {
    let n = con_arity(tycons, target);
    let grown = Table { types: with_slots(tb.types, n), ..tb };
    let args = fresh_vars(tb.types.len(), n).map_values(|v: TyVid| Ty::Var(v));
    unified(grown, want, Ty::Con(target, args)).0
}

/// Gives a result type a record type with new arguments.
pub(crate) fn pin_record(ctx: &mut InferCtx, want: &Type, target: TyConId)
    requires
        old(ctx).wf(),
        old(ctx).has_room(con_arity(old(ctx).tycon_decls@, target) as int),
    ensures
        final(ctx).wf(),
        final(ctx).table() == pinned(old(ctx).table(), old(ctx).tycon_decls@, want@, target),
        *final(ctx) == (InferCtx { vars: final(ctx).vars, ..*old(ctx) }),
{
    let ghost tb = ctx.table();
    let at: usize = target.0 as usize;
    let n: u32 = if at < ctx.tycon_decls.len() {
        ctx.tycon_decls[at].arity
    } else {
        0
    };
    let mut args: Vec<Type> = Vec::new();
    let mut i: u32 = 0;
    assert(with_slots(tb.types, 0) =~= tb.types);
    while i < n
        invariant
            i <= n,
            n == con_arity(old(ctx).tycon_decls@, target),
            ctx.wf(),
            tb == old(ctx).table(),
            tb.types.len() + n <= u32::MAX,
            args@.len() == i,
            forall|k: int|
                0 <= k < i ==> (#[trigger] args@[k])@ == Ty::Var(
                    TyVid((tb.types.len() + k) as u32),
                ),
            ctx.table() == (Table { types: with_slots(tb.types, i as nat), ..tb }),
            *ctx == (InferCtx { vars: ctx.vars, ..*old(ctx) }),
        decreases n - i,
    {
        args.push(Type::Var(ctx.fresh_tyvid()));
        i = i + 1;
        assert(with_slots(tb.types, (i - 1) as nat).push(None) =~= with_slots(
            tb.types,
            i as nat,
        ));
    }
    let ghost vars = fresh_vars(tb.types.len(), n as nat).map_values(|v: TyVid| Ty::Var(v));
    assert(views(args@) =~= vars);
    let rec = Type::Con(target, args);
    assert(rec@ == Ty::Con(target, vars));
    let _ = unify(&mut ctx.vars, want, &rec);
}

/// The constructor that a record expression names, by its name.
pub open spec fn target_of(names: Map<Seq<char>, TyConId>, e: Expr) -> Option<TyConId> {
    match e {
        Expr::Record { constructor, fields, span } => if names.dom().contains(
            ctor_text(constructor),
        ) {
            Some(names[ctor_text(constructor)])
        } else {
            None
        },
        _ => None,
    }
}

/// How many variables checking a quote body may need.
pub open spec fn body_weight(
    env: Seq<Seq<(Seq<char>, Poly)>>,
    tycons: Seq<TyConDecl>,
    names: Map<Seq<char>, TyConId>,
    body: Expr,
) -> nat {
    weight(env, body) + match inits_of(peeled(body)) {
        Some(fs) => inits_weight(env, fs),
        None => 0,
    } + match target_of(names, peeled(body)) {
        Some(id) => con_arity(tycons, id),
        None => 0,
    }
}

/// What a quote body is found to be: accepted, or rejected with a report.
pub type Verdict = Result<(), Diag>;

/// `r` tells the verdict `v`.
pub open spec fn tells_verdict(r: Result<(), TypeError>, v: Verdict) -> bool {
    match v {
        Ok(_) => r is Ok,
        Err(d) => r matches Err(x) && diag(x) == d,
    }
}

/// A projection into a record that the body names: the quote's result is that
/// record.
pub open spec fn named_projection(
    q: Quoting,
    names: Map<Seq<char>, TyConId>,
    st: QState,
    e: Expr,
    ctor: RecordCtor,
    want: Option<Ty>,
    span: Span,
) -> (QState, Verdict) {
    match target_of(names, e) {
        None => (
            st,
            Err(
                unsupported(
                    "a quoted projection names `"@ + ctor_text(ctor)
                        + "`, which is not a record type"@,
                    span_of(e),
                ),
            ),
        ),
        Some(target) => match columns_of(q.tycons, target) {
            None => (
                st,
                Err(
                    unsupported(
                        "a quoted projection names `"@ + ctor_text(ctor)
                            + "`, which is not a record"@,
                        span_of(e),
                    ),
                ),
            ),
            Some(fields) => {
                let (s1, d) = projection(q, st, e, fields, span);
                match d {
                    Some(x) => (s1, Err(x)),
                    None => match want {
                        Some(w) => (
                            QState { table: pinned(s1.table, q.tycons, w, target), ..s1 },
                            Ok(()),
                        ),
                        None => (s1, Ok(())),
                    },
                }
            },
        },
    }
}

/// A predicate or an ordering key. Without a known result type the body
/// decides which, and gives the result its type.
pub open spec fn scalar_quote(
    q: Quoting,
    st: QState,
    body: Expr,
    want: Option<Ty>,
    span: Span,
) -> (QState, Verdict) {
    let (s1, k) = node(q, st, body);
    match k {
        Err(d) => (s1, Err(d)),
        Ok(kind) => {
            let info = row_info(q.scope);
            let is_bool = match want {
                None => true,
                Some(Ty::Var(_)) => boolean(q.b, kind),
                Some(t) => is_con(t, q.b.bool),
            };
            if is_bool {
                if boolean(q.b, kind) {
                    match want {
                        Some(Ty::Var(v)) => (
                            with_quote(
                                QState {
                                    table: unified(
                                        s1.table,
                                        Ty::Var(v),
                                        Ty::Con(q.b.bool, Seq::empty()),
                                    ).0,
                                    ..s1
                                },
                                span,
                                info,
                            ),
                            Ok(()),
                        ),
                        _ => (with_quote(s1, span, info), Ok(())),
                    }
                } else {
                    (
                        s1,
                        Err(
                            unsupported(
                                "a quoted predicate must be a boolean expression"@,
                                span_of(body),
                            ),
                        ),
                    )
                }
            } else {
                let w = want->0;
                let no = Err(
                    unsupported(
                        "a quoted ordering key must be a column or computed value of type "@
                            + type_text(w, q.tycons),
                        span_of(body),
                    ),
                );
                match value_of(kind) {
                    None => (s1, no),
                    Some(t) => {
                        let vt = resolve(s1.table, t);
                        if w is Var {
                            (
                                with_quote(
                                    QState { table: unified(s1.table, w, vt).0, ..s1 },
                                    span,
                                    info,
                                ),
                                Ok(()),
                            )
                        } else if same_value(vt, w) {
                            (with_quote(s1, span, info), Ok(()))
                        } else {
                            (s1, no)
                        }
                    },
                }
            }
        },
    }
}

/// A quote body over known parameters.
pub open spec fn body_quote(
    q: Quoting,
    names: Map<Seq<char>, TyConId>,
    st: QState,
    body: Expr,
    want: Option<Ty>,
    span: Span,
) -> (QState, Verdict) {
    let e = peeled(body);
    match e {
        Expr::Record { constructor, fields, span: _ } => named_projection(
            q,
            names,
            st,
            e,
            constructor,
            want,
            span,
        ),
        _ => {
            let expected = match want {
                Some(w) => fields_of(q.tycons, w),
                None => None,
            };
            match expected {
                Some(fs) => {
                    let (s1, d) = projection(q, st, body, fs, span);
                    match d {
                        Some(x) => (s1, Err(x)),
                        None => (s1, Ok(())),
                    }
                },
                None => if e is RecordLit {
                    (
                        st,
                        Err(
                            unsupported(
                                "a quoted projection must name its result record, e.g. `Summary { name = row.name }`"@,
                                span_of(e),
                            ),
                        ),
                    )
                } else {
                    scalar_quote(q, st, body, want, span)
                },
            }
        },
    }
}

/// What checking a lambda comes to, among what checking any expression as a quote
/// may come to.
pub open spec fn reported(found: (QState, Verdict)) -> (QState, Result<(), Option<Diag>>) {
    (
        found.0,
        match found.1 {
            Ok(()) => Ok(()),
            Err(d) => Err(Some(d)),
        },
    )
}

/// What checking a lambda as a quote over some entities changes and finds. What
/// is no lambda is no quote, without a report.
pub open spec fn quote_verdict(
    q0: Quoting,
    names: Map<Seq<char>, TyConId>,
    st: QState,
    lambda: Expr,
    entities: Seq<(TyConId, bool)>,
    expected_ret: Option<Ty>,
) -> (QState, Result<(), Option<Diag>>) {
    match lambda {
        Expr::Lambda { params, body, span } => reported(
            if params@.len() != entities.len() {
                (
                    st,
                    Err(
                        unsupported(
                            "a quoted function over "@ + digits(entities.len())
                                + " parameter(s) was written with "@ + digits(params@.len()),
                            span,
                        ),
                    ),
                )
            } else {
                match scope_of(q0.tycons, params@, entities, span, params@.len()) {
                    Err(d) => (st, Err(d)),
                    Ok(scope) => {
                        let want = match expected_ret {
                            Some(r) => Some(resolve(st.table, r)),
                            None => None,
                        };
                        body_quote(Quoting { scope, ..q0 }, names, st, *body, want, span)
                    },
                }
            },
        ),
        _ => (st, Err(None)),
    }
}

/// How many variables checking a lambda as a quote may need.
pub open spec fn quote_weight(ctx: InferCtx, lambda: Expr) -> nat {
    match lambda {
        Expr::Lambda { params, body, span } => body_weight(
            ctx.env@,
            ctx.tycon_decls@,
            by_name(ctx.user_tycon_names@),
            *body,
        ),
        _ => 0,
    }
}

pub open spec fn opt_ty(t: Option<&Type>) -> Option<Ty> {
    match t {
        Some(x) => Some(x@),
        None => None,
    }
}

fn check_named(
    ctx: &mut InferCtx,
    b: &BuiltinTyCons,
    e: &Expr,
    ctor: &RecordCtor,
    scope: &Vec<QuoteParam>,
    want: Option<&Type>,
    span: Span,
) -> (r: Result<(), TypeError>)
    requires
        old(ctx).wf(),
        scope@.len() >= 1 || named_projection(
            quoting(*b, scope@, *old(ctx)),
            by_name(old(ctx).user_tycon_names@),
            qstate(*old(ctx)),
            *e,
            *ctor,
            opt_ty(want),
            span,
        ).1 is Err,
        *e matches Expr::Record { constructor, fields, span: _ } && constructor == *ctor,
        fits(
            old(ctx).table(),
            body_weight(
                old(ctx).env@,
                old(ctx).tycon_decls@,
                by_name(old(ctx).user_tycon_names@),
                *e,
            ),
        ),
    ensures
        final(ctx).wf(),
        qstate(*final(ctx)) == named_projection(
            quoting(*b, scope@, *old(ctx)),
            by_name(old(ctx).user_tycon_names@),
            qstate(*old(ctx)),
            *e,
            *ctor,
            opt_ty(want),
            span,
        ).0,
        tells_verdict(
            r,
            named_projection(
                quoting(*b, scope@, *old(ctx)),
                by_name(old(ctx).user_tycon_names@),
                qstate(*old(ctx)),
                *e,
                *ctor,
                opt_ty(want),
                span,
            ).1,
        ),
        same_but_quotes(*old(ctx), *final(ctx)),
{
    let name = ctor_name(ctor);
    match ctx.tycon_named(name.as_str()) {
        None => Err(
            unsupported_error(
                text3(
                    "a quoted projection names `",
                    name.as_str(),
                    "`, which is not a record type",
                ),
                e.span(),
            ),
        ),
        Some(target) => match entity_fields(&ctx.tycon_decls, target) {
            None => Err(
                unsupported_error(
                    text3(
                        "a quoted projection names `",
                        name.as_str(),
                        "`, which is not a record",
                    ),
                    e.span(),
                ),
            ),
            Some(fields) => match check_projection(ctx, b, e, scope, &fields, span) {
                Err(x) => Err(x),
                Ok(()) => {
                    if let Some(w) = want {
                        let ghost s1 = qstate(*ctx);
                        pin_record(ctx, w, target);
                        assert(qstate(*ctx) =~= (QState {
                            table: pinned(s1.table, ctx.tycon_decls@, w@, target),
                            ..s1
                        }));
                    }
                    Ok(())
                },
            },
        },
    }
}

fn check_scalar(
    ctx: &mut InferCtx,
    b: &BuiltinTyCons,
    body: &Expr,
    scope: &Vec<QuoteParam>,
    want: Option<&Type>,
    span: Span,
) -> (r: Result<(), TypeError>)
    requires
        old(ctx).wf(),
        scope@.len() >= 1 || scalar_quote(
            quoting(*b, scope@, *old(ctx)),
            qstate(*old(ctx)),
            *body,
            opt_ty(want),
            span,
        ).1 is Err,
        fits(old(ctx).table(), weight(old(ctx).env@, *body)),
    ensures
        final(ctx).wf(),
        qstate(*final(ctx)) == scalar_quote(
            quoting(*b, scope@, *old(ctx)),
            qstate(*old(ctx)),
            *body,
            opt_ty(want),
            span,
        ).0,
        tells_verdict(
            r,
            scalar_quote(
                quoting(*b, scope@, *old(ctx)),
                qstate(*old(ctx)),
                *body,
                opt_ty(want),
                span,
            ).1,
        ),
        same_but_quotes(*old(ctx), *final(ctx)),
{
    let kind = match check_node(ctx, b, body, scope) {
        Err(e) => {
            return Err(e);
        },
        Ok(k) => k,
    };
    let ghost s1 = qstate(*ctx);
    let is_predicate = as_predicate(b, &kind);
    let is_bool = match want {
        None => true,
        Some(Type::Var(_)) => is_predicate,
        Some(t) => has_con(t, b.bool),
    };
    if is_bool {
        if !is_predicate {
            return Err(
                unsupported_error(
                    "a quoted predicate must be a boolean expression".to_owned(),
                    body.span(),
                ),
            );
        }
        match want {
            Some(Type::Var(v)) => {
                let w = Type::Var(*v);
                let _ = unify(&mut ctx.vars, &w, &con0(b.bool));
                assert(qstate(*ctx) =~= (QState { table: ctx.table(), ..s1 }));
            },
            _ => {},
        }
        note_quote(ctx, span, quote_info(scope));
        return Ok(());
    }
    match want {
        None => Ok(()),
        Some(w) => {
            let accepts = match value_type(&kind) {
                None => false,
                Some(t) => {
                    let vt = ctx.deep_resolve(t);
                    match w {
                        Type::Var(_) => {
                            let _ = unify(&mut ctx.vars, w, &vt);
                            assert(qstate(*ctx) =~= (QState { table: ctx.table(), ..s1 }));
                            true
                        },
                        _ => same_value_type(&vt, w),
                    }
                },
            };
            if accepts {
                note_quote(ctx, span, quote_info(scope));
                Ok(())
            } else {
                let rendered = render_type_with(w, &ctx.tycon_decls);
                Err(
                    unsupported_error(
                        text2(
                            "a quoted ordering key must be a column or computed value of type ",
                            rendered.as_str(),
                        ),
                        body.span(),
                    ),
                )
            }
        },
    }
}

fn check_body(
    ctx: &mut InferCtx,
    b: &BuiltinTyCons,
    body: &Expr,
    scope: &Vec<QuoteParam>,
    want: Option<&Type>,
    span: Span,
) -> (r: Result<(), TypeError>)
    requires
        old(ctx).wf(),
        scope@.len() >= 1 || body_quote(
            quoting(*b, scope@, *old(ctx)),
            by_name(old(ctx).user_tycon_names@),
            qstate(*old(ctx)),
            *body,
            opt_ty(want),
            span,
        ).1 is Err,
        fits(
            old(ctx).table(),
            body_weight(
                old(ctx).env@,
                old(ctx).tycon_decls@,
                by_name(old(ctx).user_tycon_names@),
                *body,
            ),
        ),
    ensures
        final(ctx).wf(),
        qstate(*final(ctx)) == body_quote(
            quoting(*b, scope@, *old(ctx)),
            by_name(old(ctx).user_tycon_names@),
            qstate(*old(ctx)),
            *body,
            opt_ty(want),
            span,
        ).0,
        tells_verdict(
            r,
            body_quote(
                quoting(*b, scope@, *old(ctx)),
                by_name(old(ctx).user_tycon_names@),
                qstate(*old(ctx)),
                *body,
                opt_ty(want),
                span,
            ).1,
        ),
        same_but_quotes(*old(ctx), *final(ctx)),
{
    let e = peel_paren(body);
    assert(peeled(*e) == *e) by {
        peeled_twice(*body);
    }
    match e {
        Expr::Record { constructor, fields: _, span: _ } => {
            return check_named(ctx, b, e, constructor, scope, want, span);
        },
        _ => {},
    }
    let expected = match want {
        Some(w) => record_fields_of(&ctx.tycon_decls, w),
        None => None,
    };
    match expected {
        Some(fs) => match check_projection(ctx, b, body, scope, &fs, span) {
            Err(x) => Err(x),
            Ok(()) => Ok(()),
        },
        None => {
            if let Expr::RecordLit { fields: _, span: _ } = e {
                return Err(
                    unsupported_error(
                        "a quoted projection must name its result record, e.g. `Summary { name = row.name }`".to_owned(),
                        e.span(),
                    ),
                );
            }
            check_scalar(ctx, b, body, scope, want, span)
        },
    }
}

/// Nothing is left to peel off what was peeled.
pub proof fn peeled_twice(e: Expr)
    ensures
        peeled(peeled(e)) == peeled(e),
    decreases e,
{
    match e {
        Expr::Paren { inner, span } => peeled_twice(*inner),
        _ => {},
    }
}

/// Checks a lambda as a quote over the given entities, one for each parameter.
/// On success the lambda is noted as a quote, with its first parameter; otherwise
/// what is wrong is reported.
pub fn check_quote(
    ctx: &mut InferCtx,
    b: &BuiltinTyCons,
    lambda: &Expr,
    entities: &Vec<(TyConId, bool)>,
    expected_ret: Option<&Type>,
) -> (ok: bool)
    requires
        old(ctx).wf(),
        lambda matches Expr::Lambda { params, body, span } && params@.len() == 0
            && entities@.len() == 0 ==> quote_verdict(
            quoting(*b, Seq::empty(), *old(ctx)),
            by_name(old(ctx).user_tycon_names@),
            qstate(*old(ctx)),
            *lambda,
            entities@,
            opt_ty(expected_ret),
        ).1 is Err,
        fits(old(ctx).table(), quote_weight(*old(ctx), *lambda)),
    ensures
        final(ctx).wf(),
        ({
            let (st, v) = quote_verdict(
                quoting(*b, Seq::empty(), *old(ctx)),
                by_name(old(ctx).user_tycon_names@),
                qstate(*old(ctx)),
                *lambda,
                entities@,
                opt_ty(expected_ret),
            );
            &&& qstate(*final(ctx)) == st
            &&& ok == v is Ok
            &&& diags(final(ctx).errors@) == match v {
                Err(Some(d)) => diags(old(ctx).errors@).push(d),
                _ => diags(old(ctx).errors@),
            }
        }),
        lambda is Lambda && !ok ==> final(ctx).errors@.len() == old(ctx).errors@.len() + 1,
        ok ==> final(ctx).errors@.len() == old(ctx).errors@.len(),
        same_but_quotes((InferCtx { errors: final(ctx).errors, ..*old(ctx) }), *final(ctx)),
{
    let ghost q0 = quoting(*b, Seq::empty(), *ctx);
    match lambda {
        Expr::Lambda { params, body, span } => {
            let r = if params.len() != entities.len() {
                let n = decimal(entities.len() as u128);
                let m = decimal(params.len() as u128);
                let mut detail = text3(
                    "a quoted function over ",
                    n.as_str(),
                    " parameter(s) was written with ",
                );
                detail.append(m.as_str());
                Err(unsupported_error(detail, *span))
            } else {
                match make_scope(&ctx.tycon_decls, params, entities, *span) {
                    Err(e) => Err(e),
                    Ok(scope) => {
                        assert(quoting(*b, scope@, *ctx) == (Quoting {
                            scope: params_of(scope@),
                            ..q0
                        }));
                        match expected_ret {
                            Some(t) => {
                                let want = ctx.deep_resolve(t);
                                check_body(ctx, b, body, &scope, Some(&want), *span)
                            },
                            None => check_body(ctx, b, body, &scope, None, *span),
                        }
                    },
                }
            };
            match r {
                Ok(()) => true,
                Err(e) => {
                    let ghost st = qstate(*ctx);
                    ctx.errors.push(e);
                    assert(qstate(*ctx) == st);
                    false
                },
            }
        },
        _ => false,
    }
}

/// The name and the entity of the first parameter of an accepted quote.
pub open spec fn first_param(lambda: Expr, entities: Seq<(TyConId, bool)>) -> Info {
    Info {
        param_name: bound_name(lambda->Lambda_params@[0])->0,
        entity: entities[0].0,
        group: false,
    }
}

proof fn scope_first(
    tycons: Seq<TyConDecl>,
    ps: Seq<LambdaParam>,
    entities: Seq<(TyConId, bool)>,
    span: Span,
    k: nat,
)
    requires
        1 <= k <= ps.len(),
        ps.len() == entities.len(),
        scope_of(tycons, ps, entities, span, k) is Ok,
    ensures
        scope_of(tycons, ps, entities, span, k)->Ok_0.len() == k,
        (scope_of(tycons, ps, entities, span, k)->Ok_0)[0].name == bound_name(ps[0])->0,
        (scope_of(tycons, ps, entities, span, k)->Ok_0)[0].entity == entities[0].0,
    decreases k,
{
    if k > 1 {
        scope_first(tycons, ps, entities, span, (k - 1) as nat);
    } else {
        assert(scope_of(tycons, ps, entities, span, 0) == Ok::<Seq<ParamOf>, Diag>(Seq::empty()));
    }
}

/// An accepted lambda is noted as a quote, under its place and with its first
/// parameter; one that is not accepted leaves the notes as they are.
pub proof fn accepted_quotes_are_noted(
    q: Quoting,
    names: Map<Seq<char>, TyConId>,
    st: QState,
    lambda: Expr,
    entities: Seq<(TyConId, bool)>,
    expected_ret: Option<Ty>,
)
    ensures
        ({
            let (after, v) = quote_verdict(q, names, st, lambda, entities, expected_ret);
            &&& v is Ok && entities.len() >= 1 ==> after.quoted == st.quoted.insert(
                (span_of(lambda).start, span_of(lambda).end),
                first_param(lambda, entities),
            )
            &&& v is Err ==> after.quoted == st.quoted
        }),
{
    match lambda {
        Expr::Lambda { params, body, span } => {
            if params@.len() == entities.len() {
                match scope_of(q.tycons, params@, entities, span, params@.len()) {
                    Err(_) => {},
                    Ok(scope) => {
                        if entities.len() >= 1 {
                            scope_first(q.tycons, params@, entities, span, params@.len());
                        }
                        let q1 = Quoting { scope, ..q };
                        let want = match expected_ret {
                            Some(r) => Some(resolve(st.table, r)),
                            None => None,
                        };
                        let e = peeled(*body);
                        node_notes_nothing(q1, st, *body);
                        match want {
                            Some(w) => {
                                if let Some(fs) = fields_of(q.tycons, w) {
                                    projection_notes(q1, st, *body, fs, span);
                                }
                            },
                            None => {},
                        }
                        if let Some(target) = target_of(names, e) {
                            if let Some(fs) = columns_of(q.tycons, target) {
                                projection_notes(q1, st, e, fs, span);
                            }
                        }
                    },
                }
            }
        },
        _ => {},
    }
}

} // verus!

use vstd::prelude::*;

use crate::ast::{span_of, Block, Expr};
use crate::ctx::InferCtx;
use crate::diag::{clash_diag, desc, diag, diags, nowhere, tells_clash, Desc, Diag};
use crate::error::{TypeDesc, TypeError};
use crate::fundeps::slots_refine;
use crate::instantiate::with_slots;
use crate::qexpr::fits;
use crate::records::{also, grown, steady};
use crate::seeds::{app1, app2, con1, con2};
use crate::subst::{apply, apply_all};
use crate::table::{look, look_cap, resolve, resolve_idempotent, solved, Table};
use crate::types::{views, BuiltinTyCons, CapVid, Poly, Span, Ty, TyConId, TyVid, Type};
use crate::unify::{agrees, agrees_apply, refines_types, unified, unified_agree, unify};

verus! {

broadcast use {crate::types::group_views, crate::diag::diags_push};

/// `out` is the call that `lhs |> rhs` stands for: `rhs` applied to `lhs` after
/// its own arguments. Where `rhs` ends in `?`, that is applied to the whole.
pub open spec fn desugared(lhs: Expr, rhs: Expr, span: Span, out: Expr) -> bool {
    match rhs {
        Expr::Propagate { inner, span: at } => out == (Expr::Propagate {
            inner: Box::new(Expr::Pipe { lhs: Box::new(lhs), rhs: inner, span }),
            span: at,
        }),
        Expr::Call { callee, args, span: at } => {
            &&& out matches Expr::Call { callee: f, args: xs, span: s }
            &&& f == callee
            &&& xs@ == args@.push(lhs)
            &&& s == at
        },
        _ => {
            &&& out matches Expr::Call { callee: f, args: xs, span: s }
            &&& *f == rhs
            &&& xs@ == seq![lhs]
            &&& s == span
        },
    }
}

fn desugar(lhs: Expr, rhs: Expr, span: Span) -> (out: Expr)
    ensures
        desugared(lhs, rhs, span, out),
{
    match rhs {
        Expr::Propagate { inner, span: at } => Expr::Propagate {
            inner: Box::new(Expr::Pipe { lhs: Box::new(lhs), rhs: inner, span }),
            span: at,
        },
        Expr::Call { callee, args, span: at } => {
            let mut xs = args;
            xs.push(lhs);
            Expr::Call { callee, args: xs, span: at }
        },
        other => {
            let mut xs: Vec<Expr> = Vec::new();
            xs.push(lhs);
            Expr::Call { callee: Box::new(other), args: xs, span }
        },
    }
}

/// `out` is what inference gives for the call that `lhs |> rhs` stands for.
pub open spec fn piped<F: Fn(InferCtx, &Expr) -> (InferCtx, Type)>(
    infer: F,
    ctx: InferCtx,
    lhs: Expr,
    rhs: Expr,
    span: Span,
    out: (InferCtx, Type),
) -> bool {
    exists|e: Expr| #[trigger]
        desugared(lhs, rhs, span, e) && call_ensures(infer, (ctx, &e), out)
}

/// The type of `lhs |> rhs`.
#[must_use]
pub fn infer_pipe<F: Fn(InferCtx, &Expr) -> (InferCtx, Type)>(
    ctx: InferCtx,
    lhs: Expr,
    rhs: Expr,
    span: Span,
    infer: F,
) -> (r: (InferCtx, Type))
    requires
        forall|e: &Expr|
            desugared(lhs, rhs, span, *e) ==> #[trigger] call_requires(infer, (ctx, e)),
    ensures
        piped(infer, ctx, lhs, rhs, span, r),
{
    let e = desugar(lhs, rhs, span);
    infer(ctx, &e)
}

/// A diagnostic of unification moved to a place: a mismatch, a wrong number of
/// arguments and an infinite type. Others stay where they are.
pub open spec fn repoint(d: Diag, at: Span) -> Diag {
    match d {
        Diag::Mismatch { expected, found, span, hint } => Diag::Mismatch {
            expected,
            found,
            span: at,
            hint,
        },
        Diag::Arity { callee, expected, found, span, hint } => Diag::Arity {
            callee,
            expected,
            found,
            span: at,
            hint,
        },
        Diag::Occurs { var, ty, span } => Diag::Occurs { var, ty, span: at },
        _ => d,
    }
}

fn attach_span(e: TypeError, span: Span) -> (r: TypeError)
    ensures
        diag(r) == repoint(diag(e), span),
{
    match e {
        TypeError::TypeMismatch { expected, found, span: _, hint } => TypeError::TypeMismatch {
            expected,
            found,
            span,
            hint,
        },
        TypeError::ArityMismatch { callee, expected, found, span: _, hint } => TypeError::ArityMismatch {
            callee,
            expected,
            found,
            span,
            hint,
        },
        TypeError::OccursCheck { var, ty, span: _ } => TypeError::OccursCheck { var, ty, span },
        other => other,
    }
}

/// A variable with what is known of it; any other type as it is.
pub open spec fn shallow(tb: Table, t: Ty) -> Ty {
    match t {
        Ty::Var(v) => look(tb, v),
        _ => t,
    }
}

fn shallow_resolve(ctx: &InferCtx, t: &Type) -> (r: Type)
    ensures
        r@ == shallow(ctx.table(), t@),
{
    match t {
        Type::Var(_) => ctx.deep_resolve(t),
        _ => t.clone(),
    }
}

/// The table with `n` more variables.
pub open spec fn more_vars(tb: Table, n: nat) -> Table {
    Table { types: with_slots(tb.types, n), ..tb }
}

/// The variable that is allocated next but `k`.
pub open spec fn next_var(tb: Table, k: nat) -> Ty {
    Ty::Var(TyVid((tb.types.len() + k) as u32))
}

/// What `?` comes to on a value of type `inner`, where it propagates into
/// `target`.
pub open spec fn propagated(
    b: BuiltinTyCons,
    tb: Table,
    target: Option<Ty>,
    inner: Ty,
    span: Span,
) -> (Table, Ty, Option<Diag>) {
    match target {
        None => (
            tb,
            Ty::Error,
            Some(
                Diag::OutsideResult {
                    found: Desc::Ty(inner),
                    expected: Desc::Text("no enclosing Result/Option context"@),
                    span,
                },
            ),
        ),
        Some(t) => match shallow(tb, t) {
            Ty::Con(id, args) => if id == b.result {
                let a = next_var(tb, 0);
                let e = next_var(tb, 1);
                let (tc, clash) = unified(more_vars(tb, 2), inner, app2(b.result, a, e));
                match clash {
                    Some(x) => (tc, Ty::Error, Some(repoint(clash_diag(x, nowhere()), span))),
                    None => {
                        let want = if args.len() > 1 {
                            args[1]
                        } else {
                            Ty::Error
                        };
                        let (td, clash) = unified(tc, e, want);
                        match clash {
                            Some(x) => (
                                td,
                                Ty::Error,
                                Some(repoint(clash_diag(x, nowhere()), span)),
                            ),
                            None => (td, shallow(td, a), None),
                        }
                    },
                }
            } else if id == b.option {
                let a = next_var(tb, 0);
                let (tc, clash) = unified(more_vars(tb, 1), inner, app1(b.option, a));
                match clash {
                    Some(x) => (tc, Ty::Error, Some(repoint(clash_diag(x, nowhere()), span))),
                    None => (tc, shallow(tc, a), None),
                }
            } else {
                (tb, Ty::Error, Some(outside(inner, Ty::Con(id, args), span)))
            },
            other => (tb, Ty::Error, Some(outside(inner, other, span))),
        },
    }
}

/// `?` where what is around it is neither a result nor an option.
pub open spec fn outside(inner: Ty, target: Ty, span: Span) -> Diag {
    Diag::OutsideResult { found: Desc::Ty(inner), expected: Desc::Ty(target), span }
}

pub open spec fn opt_view(t: Option<Type>) -> Option<Ty> {
    match t {
        Some(x) => Some(x@),
        None => None,
    }
}

/// The type that `?` propagates into: that of the innermost `try` block, and
/// otherwise the return type of the function.
pub open spec fn target_of(ctx: InferCtx) -> Option<Ty> {
    match ctx.current_propagate_target {
        Some(t) => Some(t@),
        None => opt_view(ctx.current_fn_ret),
    }
}

fn propagate_target(ctx: &InferCtx) -> (r: Option<Type>)
    ensures
        opt_view(r) == target_of(*ctx),
{
    match &ctx.current_propagate_target {
        Some(t) => Some(t.clone()),
        None => match &ctx.current_fn_ret {
            Some(t) => Some(t.clone()),
            None => None,
        },
    }
}

fn push_repointed(ctx: &mut InferCtx, e: TypeError, span: Span) -> (r: Type)
    ensures
        r@ == Ty::Error,
        diags(final(ctx).errors@) == diags(old(ctx).errors@).push(repoint(diag(e), span)),
        *final(ctx) == (InferCtx { errors: final(ctx).errors, ..*old(ctx) }),
{
    ctx.errors.push(attach_span(e, span));
    Type::Error
}

fn fresh_type(ctx: &mut InferCtx) -> (r: Type)
    requires
        old(ctx).wf(),
        old(ctx).has_room(1),
    ensures
        final(ctx).wf(),
        r@ == next_var(old(ctx).table(), 0),
        final(ctx).table() == more_vars(old(ctx).table(), 1),
        *final(ctx) == (InferCtx { vars: final(ctx).vars, ..*old(ctx) }),
{
    let v = ctx.fresh_tyvid();
    assert(old(ctx).table().types.push(None) =~= with_slots(old(ctx).table().types, 1));
    Type::Var(v)
}

/// What a context holds of the outcome of `?`.
pub open spec fn holds_outcome(
    c: InferCtx,
    d: InferCtx,
    t: Ty,
    out: (Table, Ty, Option<Diag>),
) -> bool {
    &&& d.wf()
    &&& d.table() == out.0
    &&& t == out.1
    &&& diags(d.errors@) == also(diags(c.errors@), out.2)
    &&& d == (InferCtx { vars: d.vars, errors: d.errors, ..c })
}

fn propagate_result(
    ctx: &mut InferCtx,
    b: &BuiltinTyCons,
    args: &Vec<Type>,
    inner_ty: &Type,
    span: Span,
) -> (r: Type)
    requires
        old(ctx).wf(),
        old(ctx).has_room(2),
    ensures
        holds_outcome(
            *old(ctx),
            *final(ctx),
            r@,
            propagated(
                *b,
                old(ctx).table(),
                Some(Ty::Con(b.result, views(args@))),
                inner_ty@,
                span,
            ),
        ),
{
    let ghost tb = ctx.table();
    let alpha = fresh_type(ctx);
    let beta = fresh_type(ctx);
    assert(ctx.table().types =~= with_slots(tb.types, 2));
    assert(beta@ == next_var(tb, 1));
    let want = con2(b.result, alpha.clone(), beta.clone());
    match unify(&mut ctx.vars, inner_ty, &want) {
        Ok(()) => {
            let ghost tc = ctx.table();
            let err = if args.len() > 1 {
                assert(views(args@)[1] == args@[1]@);
                args[1].clone()
            } else {
                Type::Error
            };
            match unify(&mut ctx.vars, &beta, &err) {
                Ok(()) => shallow_resolve(ctx, &alpha),
                Err(e) => {
                    proof {
                        tells_clash(e, unified(tc, beta@, err@).1->0);
                    }
                    push_repointed(ctx, e, span)
                },
            }
        },
        Err(e) => {
            proof {
                tells_clash(e, unified(more_vars(tb, 2), inner_ty@, want@).1->0);
            }
            push_repointed(ctx, e, span)
        },
    }
}

fn propagate_option(ctx: &mut InferCtx, b: &BuiltinTyCons, inner_ty: &Type, span: Span) -> (r: Type)
    requires
        old(ctx).wf(),
        old(ctx).has_room(2),
    ensures
        forall|args: Seq<Ty>|
            b.option != b.result ==> holds_outcome(
                *old(ctx),
                *final(ctx),
                r@,
                #[trigger] propagated(
                    *b,
                    old(ctx).table(),
                    Some(Ty::Con(b.option, args)),
                    inner_ty@,
                    span,
                ),
            ),
{
    let ghost tb = ctx.table();
    let alpha = fresh_type(ctx);
    let want = con1(b.option, alpha.clone());
    match unify(&mut ctx.vars, inner_ty, &want) {
        Ok(()) => shallow_resolve(ctx, &alpha),
        Err(e) => {
            proof {
                tells_clash(e, unified(more_vars(tb, 1), inner_ty@, want@).1->0);
            }
            push_repointed(ctx, e, span)
        },
    }
}

fn propagate_outside(ctx: &mut InferCtx, inner_ty: &Type, expected: TypeDesc, span: Span) -> (r: Type)
    ensures
        r@ == Ty::Error,
        diags(final(ctx).errors@) == diags(old(ctx).errors@).push(
            Diag::OutsideResult {
                found: Desc::Ty(inner_ty@),
                expected: desc(expected),
                span,
            },
        ),
        *final(ctx) == (InferCtx { errors: final(ctx).errors, ..*old(ctx) }),
{
    ctx.errors.push(
        TypeError::PropagateOutsideResultOrOption {
            found_ty: TypeDesc::Ty(inner_ty.clone()),
            expected,
            span,
        },
    );
    Type::Error
}

/// The type of `?` on a value of a known type.
pub fn propagate_from(
    ctx: &mut InferCtx,
    b: &BuiltinTyCons,
    inner_ty: &Type,
    span: Span,
) -> (r: Type)
    requires
        old(ctx).wf(),
        old(ctx).has_room(2),
    ensures
        holds_outcome(
            *old(ctx),
            *final(ctx),
            r@,
            propagated(*b, old(ctx).table(), target_of(*old(ctx)), inner_ty@, span),
        ),
{
    match propagate_target(ctx) {
        Some(target) => {
            let resolved = shallow_resolve(ctx, &target);
            match &resolved {
                Type::Con(id, args) => {
                    assert(resolved@ == Ty::Con(*id, views(args@)));
                    if id.0 == b.result.0 {
                        propagate_result(ctx, b, args, inner_ty, span)
                    } else if id.0 == b.option.0 {
                        let r = propagate_option(ctx, b, inner_ty, span);
                        assert(propagated(
                            *b,
                            old(ctx).table(),
                            Some(Ty::Con(b.option, views(args@))),
                            inner_ty@,
                            span,
                        ) == propagated(
                            *b,
                            old(ctx).table(),
                            target_of(*old(ctx)),
                            inner_ty@,
                            span,
                        ));
                        r
                    } else {
                        propagate_outside(ctx, inner_ty, TypeDesc::Ty(resolved.clone()), span)
                    }
                },
                _ => propagate_outside(ctx, inner_ty, TypeDesc::Ty(resolved.clone()), span),
            }
        },
        None => propagate_outside(
            ctx,
            inner_ty,
            TypeDesc::Phrase("no enclosing Result/Option context"),
            span,
        ),
    }
}

/// `r` is what comes of `inner?`: inference gives the type of `inner`, and the
/// rest follows from that.
pub open spec fn propagates<F: Fn(InferCtx, &Expr) -> (InferCtx, Type)>(
    infer: F,
    b: BuiltinTyCons,
    ctx: InferCtx,
    inner: Expr,
    span: Span,
    r: (InferCtx, Type),
) -> bool {
    exists|out: (InferCtx, Type)| #[trigger]
        call_ensures(infer, (ctx, &inner), out) && holds_outcome(
            out.0,
            r.0,
            r.1@,
            propagated(b, out.0.table(), target_of(out.0), out.1@, span),
        )
}

/// The type of `inner?`.
#[must_use]
pub fn infer_propagate<F: Fn(InferCtx, &Expr) -> (InferCtx, Type)>(
    ctx: InferCtx,
    b: &BuiltinTyCons,
    inner: &Expr,
    span: Span,
    infer: F,
) -> (r: (InferCtx, Type))
    requires
        ctx.wf(),
        exists|cost: spec_fn(Expr) -> nat| #[trigger]
            steady(infer, ctx.env@, cost) && fits(ctx.table(), cost(*inner) + 2),
    ensures
        propagates(infer, *b, ctx, *inner, span, r),
        grown(ctx, r.0),
{
    let (c, inner_ty) = infer(ctx, inner);
    let mut d = c;
    let t = propagate_from(&mut d, b, &inner_ty, span);
    proof {
        assert(diags(c.errors@).is_prefix_of(diags(d.errors@)));
        assert(diags(ctx.errors@) =~= diags(d.errors@).take(ctx.errors@.len() as int));
    }
    (d, t)
}

/// Inference of blocks that can be relied on, as [`steady`] has it of values.
pub open spec fn steady_blocks<G: Fn(InferCtx, &Block) -> (InferCtx, Type)>(
    infer_block: G,
    env: Seq<Seq<(Seq<char>, Poly)>>,
    cost: spec_fn(Block) -> nat,
) -> bool {
    &&& forall|c: InferCtx, k: &Block|
        c.wf() && c.env@ == env && fits(c.table(), cost(*k)) ==> #[trigger] call_requires(
            infer_block,
            (c, k),
        )
    &&& forall|c: InferCtx, k: &Block, out: (InferCtx, Type)| #[trigger]
        call_ensures(infer_block, (c, k), out) && c.wf() && c.env@ == env && fits(
            c.table(),
            cost(*k),
        ) ==> {
            &&& out.0.wf()
            &&& out.0.env@ == env
            &&& diags(c.errors@).is_prefix_of(diags(out.0.errors@))
        }
}

/// `a` is `c` inside a `try` block: `?` propagates into a result of two new
/// variables.
pub open spec fn inside_try(c: InferCtx, a: InferCtx, b: BuiltinTyCons) -> bool {
    &&& a.wf()
    &&& a.table() == more_vars(c.table(), 2)
    &&& opt_view(a.current_propagate_target) == Some(try_type(c, b))
    &&& a == (InferCtx {
        vars: a.vars,
        current_propagate_target: a.current_propagate_target,
        ..c
    })
}

/// The type of a `try` block that is met in a context.
pub open spec fn try_type(c: InferCtx, b: BuiltinTyCons) -> Ty {
    app2(b.result, next_var(c.table(), 0), next_var(c.table(), 1))
}

/// `d` is `z` outside a `try` block that was met in `c` and whose block has
/// type `t`: what `?` propagated into before is back, and the type of the block
/// is that of the success.
pub open spec fn outside_try(c: InferCtx, z: InferCtx, d: InferCtx, t: Ty, span: Span) -> bool {
    let (tb, clash) = unified(z.table(), t, next_var(c.table(), 0));
    &&& d.wf()
    &&& d.table() == tb
    &&& d.current_propagate_target == c.current_propagate_target
    &&& diags(d.errors@) == also(
        diags(z.errors@),
        match clash {
            Some(x) => Some(repoint(clash_diag(x, nowhere()), span)),
            None => None,
        },
    )
    &&& d == (InferCtx {
        vars: d.vars,
        errors: d.errors,
        current_propagate_target: d.current_propagate_target,
        ..z
    })
}

/// `d` is `c` after a `try` block.
pub open spec fn tried<G: Fn(InferCtx, &Block) -> (InferCtx, Type)>(
    infer_block: G,
    b: BuiltinTyCons,
    c: InferCtx,
    d: InferCtx,
    block: Block,
    span: Span,
) -> bool {
    exists|a: InferCtx, out: (InferCtx, Type)| #[trigger]
        call_ensures(infer_block, (a, &block), out) && inside_try(c, a, b) && outside_try(
            c,
            out.0,
            d,
            out.1@,
            span,
        )
}

/// The type of a `try` block.
#[must_use]
pub fn infer_try<G: Fn(InferCtx, &Block) -> (InferCtx, Type)>(
    ctx: InferCtx,
    b: &BuiltinTyCons,
    block: &Block,
    span: Span,
    infer_block: G,
) -> (r: (InferCtx, Type))
    requires
        ctx.wf(),
        exists|cost: spec_fn(Block) -> nat| #[trigger]
            steady_blocks(infer_block, ctx.env@, cost) && fits(ctx.table(), cost(*block) + 2),
    ensures
        tried(infer_block, *b, ctx, r.0, *block, span),
        r.1@ == try_type(ctx, *b),
        r.0.current_propagate_target == ctx.current_propagate_target,
        grown(ctx, r.0),
{
    let ghost c0 = ctx;
    let mut ctx = ctx;
    let alpha = fresh_type(&mut ctx);
    let beta = fresh_type(&mut ctx);
    assert(ctx.table().types =~= with_slots(c0.table().types, 2));
    let try_ty = con2(b.result, alpha.clone(), beta);
    let saved = ctx.current_propagate_target.take();
    ctx.current_propagate_target = Some(try_ty.clone());
    let ghost a = ctx;
    assert(inside_try(c0, a, *b));
    let (z, block_ty) = infer_block(ctx, block);
    let mut d = z;
    d.current_propagate_target = saved;
    match unify(&mut d.vars, &block_ty, &alpha) {
        Ok(()) => {},
        Err(e) => {
            proof {
                tells_clash(e, unified(z.table(), block_ty@, alpha@).1->0);
            }
            d.errors.push(attach_span(e, span));
        },
    }
    assert(call_ensures(infer_block, (a, block), (z, block_ty)));
    assert(outside_try(c0, z, d, block_ty@, span));
    proof {
        assert(diags(z.errors@).is_prefix_of(diags(d.errors@)));
        assert(diags(c0.errors@) =~= diags(d.errors@).take(c0.errors@.len() as int));
    }
    (d, try_ty)
}

/// Unit, whatever its arguments.
pub open spec fn is_unit(t: Ty, unit: TyConId) -> bool {
    t matches Ty::Con(id, _) && id == unit
}

/// Whether a type is `Unit`.
#[must_use]
pub fn is_unit_type(ty: &Type, unit_id: TyConId) -> (r: bool)
    ensures
        r == is_unit(ty@, unit_id),
{
    match ty {
        Type::Con(id, _) => id.0 == unit_id.0,
        _ => false,
    }
}

/// Whether a statement binds a name, so that its value is not lost.
#[must_use]
pub fn is_binding_stmt(stmt: &Expr) -> (r: bool)
    ensures
        r == (stmt is Let || stmt is Var),
{
    match stmt {
        Expr::Let { .. } => true,
        Expr::Var { .. } => true,
        _ => false,
    }
}

/// What is said of a statement whose value is lost.
pub open spec fn discarded(b: BuiltinTyCons, stmt: Expr, t: Ty) -> Option<Diag> {
    if stmt is Let || stmt is Var || t is Error || is_unit(t, b.unit) {
        None
    } else {
        Some(Diag::Discarded { ty: Desc::Ty(t), span: span_of(stmt) })
    }
}

/// Reports a statement, other than the last of its block, whose value is lost.
pub fn check_discarded_result(ctx: &mut InferCtx, b: &BuiltinTyCons, stmt: &Expr, stmt_ty: &Type)
    ensures
        diags(final(ctx).errors@) == also(
            diags(old(ctx).errors@),
            discarded(*b, *stmt, resolve(old(ctx).table(), stmt_ty@)),
        ),
        *final(ctx) == (InferCtx { errors: final(ctx).errors, ..*old(ctx) }),
{
    if is_binding_stmt(stmt) {
        return;
    }
    let resolved = ctx.deep_resolve(stmt_ty);
    if let Type::Error = resolved {
        return;
    }
    if is_unit_type(&resolved, b.unit) {
        return;
    }
    ctx.errors.push(TypeError::DiscardedResult { ty: TypeDesc::Ty(resolved), span: stmt.span() });
}

/// Where `?` in a context of results gives a type, that is the type of the
/// success of what it stands on, and the failures are those of the context.
pub proof fn propagating_takes_success(
    b: BuiltinTyCons,
    tb: Table,
    args: Seq<Ty>,
    inner: Ty,
    span: Span,
)
    requires
        solved(tb),
        tb.types.len() + 2 <= u32::MAX,
        args.len() > 1,
        propagated(b, tb, Some(Ty::Con(b.result, args)), inner, span).2 is None,
    ensures
        ({
            let (tc, t, _) = propagated(b, tb, Some(Ty::Con(b.result, args)), inner, span);
            exists|e: Ty|
                #![trigger app2(b.result, t, e)]
                agrees(resolve(tc, inner), resolve(tc, app2(b.result, t, e))) && agrees(
                    resolve(tc, e),
                    resolve(tc, args[1]),
                )
        }),
{
    let a = next_var(tb, 0);
    let e = next_var(tb, 1);
    let t0 = more_vars(tb, 2);
    slots_refine(tb, 2);
    let want = app2(b.result, a, e);
    unified_agree(t0, inner, want);
    let t1 = unified(t0, inner, want).0;
    unified_agree(t1, e, args[1]);
    let t2 = unified(t1, e, args[1]).0;
    // What agrees in the first table agrees in the second.
    let f = |v: TyVid| look(t2, v);
    let g = |c: CapVid| look_cap(t2, c);
    agrees_apply(resolve(t1, inner), resolve(t1, want), f, g);
    refines_types(t1, t2, inner);
    refines_types(t1, t2, want);
    let t = shallow(t2, a);
    resolve_idempotent(t2, a);
    assert(resolve(t2, a) == t);
    assert(resolve(t2, t) == t);
    assert(resolve(t2, app2(b.result, t, e)) =~= resolve(t2, want)) by {
        let xs = seq![t, e];
        let ys = seq![a, e];
        assert(apply_all(xs, f, g) =~= apply_all(ys, f, g)) by {
            assert(apply(xs[0], f, g) == apply(ys[0], f, g));
        }
    }
}

} // verus!

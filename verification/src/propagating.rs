use vstd::prelude::*;

use crate::ast::{span_of, Expr, InterpPart};
use crate::ctx::InferCtx;
use crate::diag::{diags, Desc, Diag};
use crate::interp::{can_show, hole_diag, part_shown, ORDERING};
use crate::pipe_propagate::{
    desugared, discarded, inside_try, next_var, outside_try, propagated, shallow, target_of,
    try_type,
};
use crate::seeds::app1;
use crate::table::{look, resolve, solved, Table};
use crate::types::{BuiltinTyCons, Span, Ty, Type};
use crate::unify::{agrees, unified, unified_agree};

verus! {

/// `lhs |> f a b` is the call of `f` with `a`, `b` and then `lhs`, and `lhs |> f`
/// that of `f` with `lhs` alone. A `?` behind the callee is one on the whole.
pub proof fn pipes_are_calls(lhs: Expr, rhs: Expr, span: Span, out: Expr)
    requires
        desugared(lhs, rhs, span, out),
    ensures
        rhs matches Expr::Call { callee, args, span: at } ==> (out matches Expr::Call {
            callee: f,
            args: xs,
            span: s,
        } && f == callee && s == at && xs@.len() == args@.len() + 1 && xs@.last() == lhs && (forall|
            i: int,
        |
            0 <= i < args@.len() ==> #[trigger] xs@[i] == args@[i])),
        rhs matches Expr::Propagate { inner, span: at } ==> (out matches Expr::Propagate {
            inner: whole,
            span: s,
        } && s == at && (*whole matches Expr::Pipe { lhs: l, rhs: r, span: p } && *l == lhs && r
            == inner && p == span)),
        !(rhs is Call) && !(rhs is Propagate) ==> (out matches Expr::Call {
            callee: f,
            args: xs,
            span: s,
        } && *f == rhs && xs@.len() == 1 && xs@[0] == lhs && s == span),
{
}

/// `?` goes out of the innermost `try` block, and otherwise out of the function.
pub proof fn propagation_goes_outwards(c: InferCtx)
    ensures
        c.current_propagate_target matches Some(t) ==> target_of(c) == Some(t@),
        c.current_propagate_target is None && c.current_fn_ret is Some ==> target_of(c) == Some(
            c.current_fn_ret->0@,
        ),
        c.current_propagate_target is None && c.current_fn_ret is None ==> target_of(c) is None,
{
}

/// `?` where neither a result nor an option is around is reported, with the type
/// that it stands on.
pub proof fn propagation_needs_a_result(
    b: BuiltinTyCons,
    tb: Table,
    target: Option<Ty>,
    inner: Ty,
    span: Span,
)
    requires
        target matches Some(t) ==> {
            let known = match t {
                Ty::Var(v) => look(tb, v),
                _ => t,
            };
            known matches Ty::Con(id, _) ==> id != b.result && id != b.option
        },
    ensures
        ({
            let (tc, t, d) = propagated(b, tb, target, inner, span);
            &&& tc == tb
            &&& t == Ty::Error
            &&& d matches Some(Diag::OutsideResult { found, expected: _, span: at }) && found
                == Desc::Ty(inner) && at == span
        }),
{
}

/// `?` on an option in a context of options gives what the option holds.
pub proof fn propagating_takes_what_an_option_holds(
    b: BuiltinTyCons,
    tb: Table,
    args: Seq<Ty>,
    inner: Ty,
    span: Span,
)
    requires
        solved(tb),
        tb.types.len() + 1 <= u32::MAX,
        b.option != b.result,
        propagated(b, tb, Some(Ty::Con(b.option, args)), inner, span).2 is None,
    ensures
        ({
            let (tc, t, _) = propagated(b, tb, Some(Ty::Con(b.option, args)), inner, span);
            exists|a: Ty|
                #![trigger app1(b.option, a)]
                agrees(resolve(tc, inner), resolve(tc, app1(b.option, a))) && t == resolve(tc, a)
        }),
{
    let a = next_var(tb, 0);
    let t0 = crate::pipe_propagate::more_vars(tb, 1);
    crate::fundeps::slots_refine(tb, 1);
    let want = app1(b.option, a);
    unified_agree(t0, inner, want);
    let tc = unified(t0, inner, want).0;
    assert(shallow(tc, a) == resolve(tc, a));
    assert(agrees(resolve(tc, inner), resolve(tc, app1(b.option, a))));
}

/// Inside a `try` block `?` goes into a result of the block's own, and outside of
/// it where it went before. The type of the block is that of the success where
/// nothing is reported.
pub proof fn try_blocks_are_left_as_they_were_entered(
    c: InferCtx,
    a: InferCtx,
    z: InferCtx,
    d: InferCtx,
    b: BuiltinTyCons,
    t: Ty,
    span: Span,
)
    requires
        inside_try(c, a, b),
        outside_try(c, z, d, t, span),
        z.wf(),
    ensures
        a.current_propagate_target matches Some(x) && (x@ matches Ty::Con(id, args) && id
            == b.result && args.len() == 2 && args[0] is Var && args[1] is Var),
        d.current_propagate_target == c.current_propagate_target,
        diags(d.errors@) == diags(z.errors@) ==> agrees(
            resolve(d.table(), t),
            resolve(d.table(), try_type(c, b)->Con_1[0]),
        ),
{
    unified_agree(z.table(), t, next_var(c.table(), 0));
    if unified(z.table(), t, next_var(c.table(), 0)).1 is Some {
        assert(diags(d.errors@).len() == diags(z.errors@).len() + 1);
    }
}

/// A statement may be lost where it binds a name, is in error already or has
/// nothing to lose. Any other is reported, where it stands.
pub proof fn lost_values_are_reported(b: BuiltinTyCons, stmt: Expr, t: Ty)
    ensures
        discarded(b, stmt, t) is None <==> (stmt is Let || stmt is Var || t == Ty::Error || (
        t is Con && t->Con_0 == b.unit)),
        discarded(b, stmt, t) matches Some(d) ==> d == (Diag::Discarded {
            ty: Desc::Ty(t),
            span: span_of(stmt),
        }),
{
}

/// A hole of a text is reported where the value is known to be of a type without
/// an instance of `ToText`, and only then.
pub proof fn holes_can_be_shown(b: BuiltinTyCons, instances: Option<Set<u32>>, t: Ty, span: Span)
    ensures
        t is Var || t is Error ==> hole_diag(b, instances, t, span) is None,
        t is Con && instances is Some ==> (hole_diag(b, instances, t, span) is None
            <==> instances->0.contains((t->Con_0).0)),
        t is Con && instances is None ==> (hole_diag(b, instances, t, span) is None <==> (t->Con_0
            == b.int || t->Con_0 == b.float || t->Con_0 == b.bool || t->Con_0 == b.text || t->Con_0
            == b.timestamp || (t->Con_0).0 == ORDERING)),
        t is Fn || t is Tuple || t is Record || t is Rigid || t is Alias ==> hole_diag(
            b,
            instances,
            t,
            span,
        ) is Some,
        hole_diag(b, instances, t, span) matches Some(d) ==> (d matches Diag::NoInstance {
            class,
            ty,
            span: at,
            hint: _,
        } && class == "ToText"@ && ty == Desc::Ty(t) && at == span),
{
}

/// A part of a text that is plain changes nothing; a hole is looked at once, with
/// what is found of its type held against `ToText`.
pub proof fn parts_are_looked_at<F: Fn(InferCtx, &Expr) -> (InferCtx, Type)>(
    infer: F,
    b: BuiltinTyCons,
    instances: Option<Set<u32>>,
    c: InferCtx,
    d: InferCtx,
    part: InterpPart,
)
    requires
        part_shown(infer, b, instances, c, d, part),
    ensures
        part is Text ==> d == c,
        part matches InterpPart::Expr { expr, span } ==> exists|out: (InferCtx, Type)| #[trigger]
            call_ensures(infer, (c, &*expr), out) && d.env == out.0.env && (if can_show(
                b,
                instances,
                resolve(out.0.table(), out.1@),
            ) {
                diags(d.errors@) == diags(out.0.errors@)
            } else {
                diags(d.errors@).len() == diags(out.0.errors@).len() + 1
            }),
{
}

} // verus!

use rustc_hash::FxHashSet;
use vstd::prelude::*;

use crate::ast::{Expr, InterpPart};
use crate::ctx::InferCtx;
use crate::diag::{diags, Desc, Diag};
use crate::error::{TypeDesc, TypeError};
use crate::fx::contains_id;
use crate::qexpr::fits;
use crate::records::{also, grown, steady};
use crate::seeds::{app0, con0};
use crate::table::resolve;
use crate::types::{BuiltinTyCons, Span, Ty, TyConId, Type};

verus! {

broadcast use {crate::types::group_views, crate::diag::diags_push};

/// The slot of the built-in `Ordering` type.
pub const ORDERING: u32 = 15;

/// The types that can be shown without any instance being declared.
pub open spec fn shown_anyway(b: BuiltinTyCons, id: TyConId) -> bool {
    id == b.int || id == b.float || id == b.bool || id == b.text || id == b.timestamp || id
        == TyConId(ORDERING)
}

/// Whether a built-in type can be shown without any instance being declared.
fn builtin_has_to_text(b: &BuiltinTyCons, id: TyConId) -> (r: bool)
    ensures
        r == shown_anyway(*b, id),
{
    id.0 == b.int.0 || id.0 == b.float.0 || id.0 == b.bool.0 || id.0 == b.text.0 || id.0
        == b.timestamp.0 || id.0 == ORDERING
}

/// A value of type `t` can be shown: by the instances that are known, or where
/// none are, by the built-in ones. What is not known yet counts as shown.
pub open spec fn can_show(b: BuiltinTyCons, instances: Option<Set<u32>>, t: Ty) -> bool {
    match t {
        Ty::Error => true,
        Ty::Var(_) => true,
        Ty::Con(id, _) => match instances {
            Some(ids) => ids.contains(id.0),
            None => shown_anyway(b, id),
        },
        _ => false,
    }
}

/// What is said of a hole with a value that cannot be shown.
pub open spec fn hole_diag(
    b: BuiltinTyCons,
    instances: Option<Set<u32>>,
    t: Ty,
    span: Span,
) -> Option<Diag> {
    if can_show(b, instances, t) {
        None
    } else {
        Some(
            Diag::NoInstance {
                class: "ToText"@,
                ty: Desc::Ty(t),
                span,
                hint: "add `instance ToText T` or `deriving (ToText)` to the type"@,
            },
        )
    }
}

pub open spec fn ids_of(s: Option<&FxHashSet<u32>>) -> Option<Set<u32>> {
    match s {
        Some(ids) => Some(ids@),
        None => None,
    }
}

/// Reports a hole with a value that cannot be shown. The type is one with
/// everything known filled in.
fn check_hole_to_text(
    ctx: &mut InferCtx,
    b: &BuiltinTyCons,
    tr: &Type,
    span: Span,
    to_text_set: Option<&FxHashSet<u32>>,
)
    ensures
        diags(final(ctx).errors@) == also(
            diags(old(ctx).errors@),
            hole_diag(*b, ids_of(to_text_set), tr@, span),
        ),
        *final(ctx) == (InferCtx { errors: final(ctx).errors, ..*old(ctx) }),
{
    let shown = match tr {
        Type::Error => true,
        Type::Var(_) => true,
        Type::Con(id, _) => match to_text_set {
            Some(ids) => contains_id(ids, id.0),
            None => builtin_has_to_text(b, *id),
        },
        _ => false,
    };
    if !shown {
        ctx.errors.push(
            TypeError::NoInstance {
                class: "ToText".to_owned(),
                ty: TypeDesc::Ty(tr.clone()),
                span,
                fix_hint: "add `instance ToText T` or `deriving (ToText)` to the type".to_owned(),
            },
        );
    }
}

/// `d` is `c` after one part of an interpolated text was looked at.
pub open spec fn part_shown<F: Fn(InferCtx, &Expr) -> (InferCtx, Type)>(
    infer: F,
    b: BuiltinTyCons,
    instances: Option<Set<u32>>,
    c: InferCtx,
    d: InferCtx,
    part: InterpPart,
) -> bool {
    match part {
        InterpPart::Text { raw, span } => d == c,
        InterpPart::Expr { expr, span } => exists|out: (InferCtx, Type)| #[trigger]
            call_ensures(infer, (c, &*expr), out) && diags(d.errors@) == also(
                diags(out.0.errors@),
                hole_diag(b, instances, resolve(out.0.table(), out.1@), span),
            ) && d == (InferCtx { errors: d.errors, ..out.0 }),
    }
}

/// `d` is `c` after the first `k` parts of an interpolated text were looked at,
/// in order.
pub open spec fn parts_shown<F: Fn(InferCtx, &Expr) -> (InferCtx, Type)>(
    infer: F,
    b: BuiltinTyCons,
    instances: Option<Set<u32>>,
    c: InferCtx,
    d: InferCtx,
    parts: Seq<InterpPart>,
    k: nat,
) -> bool
    decreases k,
{
    if k == 0 || k > parts.len() {
        d == c
    } else {
        let part = parts[k - 1];
        exists|m: InferCtx| #[trigger]
            part_shown(infer, b, instances, m, d, part) && parts_shown(
                infer,
                b,
                instances,
                c,
                m,
                parts,
                (k - 1) as nat,
            )
    }
}

proof fn one_more_part<F: Fn(InferCtx, &Expr) -> (InferCtx, Type)>(
    infer: F,
    b: BuiltinTyCons,
    instances: Option<Set<u32>>,
    c: InferCtx,
    m: InferCtx,
    d: InferCtx,
    parts: Seq<InterpPart>,
    k: nat,
)
    requires
        k < parts.len(),
        parts_shown(infer, b, instances, c, m, parts, k),
        part_shown(infer, b, instances, m, d, parts[k as int]),
    ensures
        parts_shown(infer, b, instances, c, d, parts, (k + 1) as nat),
{
    assert(parts_shown(infer, b, instances, c, m, parts, (k + 1 - 1) as nat));
}

/// How many variables the parts of an interpolated text from `k` on may need,
/// where an expression may need as many as `cost` says.
pub open spec fn parts_cost(parts: Seq<InterpPart>, cost: spec_fn(Expr) -> nat, k: nat) -> nat
    decreases parts.len() - k,
{
    if k >= parts.len() {
        0
    } else {
        parts_cost(parts, cost, k + 1) + match parts[k as int] {
            InterpPart::Text { raw, span } => 0,
            InterpPart::Expr { expr, span } => cost(*expr),
        }
    }
}

/// The type of an interpolated text, which is text whatever its holes are. The
/// value of every hole must be one that can be shown.
#[must_use]
pub fn infer_interp<F: Fn(InferCtx, &Expr) -> (InferCtx, Type)>(
    ctx: InferCtx,
    b: &BuiltinTyCons,
    parts: &Vec<InterpPart>,
    _span: Span,
    to_text_set: Option<&FxHashSet<u32>>,
    infer: F,
) -> (r: (InferCtx, Type))
    requires
        ctx.wf(),
        exists|cost: spec_fn(Expr) -> nat| #[trigger]
            steady(infer, ctx.env@, cost) && fits(ctx.table(), parts_cost(parts@, cost, 0)),
    ensures
        parts_shown(infer, *b, ids_of(to_text_set), ctx, r.0, parts@, parts@.len()),
        r.1@ == app0(b.text),
        grown(ctx, r.0),
{
    let ghost c0 = ctx;
    let ghost ids = ids_of(to_text_set);
    let ghost cost = choose|cost: spec_fn(Expr) -> nat| #[trigger]
        steady(infer, c0.env@, cost) && fits(c0.table(), parts_cost(parts@, cost, 0));
    let mut ctx = ctx;
    let mut i: usize = 0;
    while i < parts.len()
        invariant
            i <= parts@.len(),
            ids == ids_of(to_text_set),
            steady(infer, c0.env@, cost),
            fits(ctx.table(), parts_cost(parts@, cost, i as nat)),
            grown(c0, ctx),
            parts_shown(infer, *b, ids, c0, ctx, parts@, i as nat),
        decreases parts@.len() - i,
    {
        let ghost m = ctx;
        match &parts[i] {
            InterpPart::Text { .. } => {},
            InterpPart::Expr { expr, span } => {
                let (c, t) = infer(ctx, expr);
                ctx = c;
                let tr = ctx.deep_resolve(&t);
                check_hole_to_text(&mut ctx, b, &tr, *span, to_text_set);
                assert(diags(m.errors@).is_prefix_of(diags(c.errors@)));
                assert(diags(c.errors@).is_prefix_of(diags(ctx.errors@)));
                assert(diags(c0.errors@) =~= diags(ctx.errors@).take(c0.errors@.len() as int));
            },
        }
        assert(part_shown(infer, *b, ids, m, ctx, parts@[i as int]));
        proof {
            one_more_part(infer, *b, ids, c0, m, ctx, parts@, i as nat);
        }
        i = i + 1;
    }
    (ctx, con0(b.text))
}

} // verus!

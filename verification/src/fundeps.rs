use vstd::prelude::*;

use crate::classes::{fundeps_of, ClassTable, FunDep, InstanceEntry, InstanceEnv};
use crate::ctx::InferCtx;
use crate::diag::{clash_diag, diag, diags, nowhere, tells_clash, Diag};
use crate::error::TypeError;
use crate::instantiate::{fresh_vars, instance, with_slots, Renaming};
use crate::records::{attach_span_pub, respan};
use crate::render::{flatten_join_spine, join_family, join_shape, leaf_views, spine};
use crate::table::{grow_solved, look, look_cap, resolve, solved, Table};
use crate::types::{
    views, BuiltinTyCons, CapRow, CapVid, CapabilitySet, ClassId, Constraint, Pred, Span, Ty,
    TyConDecl, TyConId, TyVid, Type,
};
use crate::unify::{
    refines, refines_refl, refines_trans, resolve_row, unified, unified_agree, unify,
};

verus! {

broadcast use {crate::types::group_views, crate::diag::diags_push};

/// A type that is not fully known: one with a variable in it, or with a shape
/// that fixes nothing, such as a record row or an error.
pub open spec fn is_open_type(t: Ty) -> bool
    decreases t,
{
    match t {
        Ty::Con(_, args) => any_open(args),
        Ty::Fn { params, ret, caps } => any_open(params) || is_open_type(*ret),
        Ty::Tuple(elems) => any_open(elems),
        Ty::Alias { name, body } => is_open_type(*body),
        _ => true,
    }
}

pub open spec fn any_open(ts: Seq<Ty>) -> bool
    decreases ts,
{
    exists|i: int| 0 <= i < ts.len() && is_open_type(#[trigger] ts[i])
}

/// Whether a type is not fully known.
fn type_contains_var(t: &Type) -> (r: bool)
    ensures
        r == is_open_type(t@),
    decreases t,
{
    match t {
        Type::Con(_, args) => any_contains_var(args),
        Type::Fn { params, ret, caps: _ } => {
            let a = any_contains_var(params);
            let b = type_contains_var(ret);
            a || b
        },
        Type::Tuple(elems) => any_contains_var(elems),
        Type::Alias { name: _, body } => type_contains_var(body),
        _ => true,
    }
}

fn any_contains_var(ts: &Vec<Type>) -> (r: bool)
    ensures
        r == any_open(views(ts@)),
    decreases ts,
{
    let mut i: usize = 0;
    while i < ts.len()
        invariant
            i <= ts@.len(),
            forall|k: int| 0 <= k < i ==> !is_open_type((#[trigger] ts@[k])@),
        decreases ts@.len() - i,
    {
        if type_contains_var(&ts[i]) {
            assert(is_open_type(views(ts@)[i as int]));
            return true;
        }
        i = i + 1;
    }
    assert forall|k: int| 0 <= k < views(ts@).len() implies !is_open_type(
        #[trigger] views(ts@)[k],
    ) by {
        assert(!is_open_type(ts@[k]@));
    }
    false
}

/// Whether a constructor stands for a composite join step.
pub open spec fn is_composite(tycons: Seq<TyConDecl>, id: TyConId) -> bool {
    id.0 < tycons.len() && (join_shape(tycons[id.0 as int].name@) matches Some(s) && s.2)
}

pub(crate) fn is_composite_join_tycon(tycons: &Vec<TyConDecl>, id: TyConId) -> (r: bool)
    ensures
        r == is_composite(tycons@, id),
{
    let at: usize = id.0 as usize;
    if at >= tycons.len() {
        return false;
    }
    match join_family(tycons[at].name.as_str()) {
        Some((_right, _source, composite)) => composite,
        None => false,
    }
}

/// A table of a join as a parameter type: `Option` of one that a row may lack.
pub open spec fn leaf_type(b: BuiltinTyCons, leaf: (Ty, bool)) -> Ty {
    if leaf.1 {
        Ty::Con(b.option, seq![leaf.0])
    } else {
        leaf.0
    }
}

/// The parameter types of a predicate over a composite join.
pub open spec fn join_leaves(b: BuiltinTyCons, tycons: Seq<TyConDecl>, t: Ty) -> Option<Seq<Ty>> {
    match t {
        Ty::Con(id, _) => if is_composite(tycons, id) {
            match spine(t, tycons, false, 0) {
                Some(ls) => Some(ls.map_values(|l: (Ty, bool)| leaf_type(b, l))),
                None => None,
            }
        } else {
            None
        },
        _ => None,
    }
}

fn join_entities(b: &BuiltinTyCons, tycons: &Vec<TyConDecl>, t: &Type) -> (r: Option<Vec<Type>>)
    ensures
        r is Some <==> join_leaves(*b, tycons@, t@) is Some,
        r matches Some(ls) ==> join_leaves(*b, tycons@, t@) == Some(views(ls@)),
{
    match t {
        Type::Con(id, args) => {
            assert(t@ == Ty::Con(*id, views(args@)));
            if !is_composite_join_tycon(tycons, *id) {
                return None;
            }
            let mut leaves: Vec<(&Type, bool)> = Vec::new();
            let ghost none = leaves@;
            if !flatten_join_spine(t, tycons, false, &mut leaves) {
                return None;
            }
            let ghost ls = spine(t@, tycons@, false, 0)->0;
            proof {
                assert(leaf_views(none) =~= Seq::empty());
                assert(leaf_views(leaves@) =~= ls);
            }
            let mut out: Vec<Type> = Vec::new();
            let mut i: usize = 0;
            while i < leaves.len()
                invariant
                    i <= leaves@.len(),
                    leaf_views(leaves@) == ls,
                    out@.len() == i,
                    forall|k: int| 0 <= k < i ==> (#[trigger] out@[k])@ == leaf_type(*b, ls[k]),
                decreases leaves@.len() - i,
            {
                assert(ls[i as int] == (leaves@[i as int].0@, leaves@[i as int].1));
                let leaf = leaves[i].0.clone();
                let ty = if leaves[i].1 {
                    let mut args: Vec<Type> = Vec::new();
                    args.push(leaf);
                    assert(views(args@) =~= seq![leaf@]);
                    Type::Con(b.option, args)
                } else {
                    leaf
                };
                out.push(ty);
                i = i + 1;
            }
            assert(views(out@) =~= ls.map_values(|l: (Ty, bool)| leaf_type(*b, l)));
            Some(out)
        },
        _ => None,
    }
}

/// The constructors at the given positions, where all of them are known.
pub open spec fn known_heads(rs: Seq<Ty>, ps: Seq<usize>) -> Option<Seq<(usize, TyConId)>>
    decreases ps.len(),
{
    if ps.len() == 0 {
        Some(Seq::empty())
    } else {
        match known_heads(rs, ps.drop_last()) {
            None => None,
            Some(before) => {
                let p = ps.last();
                if p < rs.len() && rs[p as int] is Con {
                    Some(before.push((p, rs[p as int]->Con_0)))
                } else {
                    None
                }
            },
        }
    }
}

/// An instance of the class whose head has the given constructors.
pub open spec fn fits_heads(e: InstanceEntry, class: ClassId, fixed: Seq<(usize, TyConId)>) -> bool {
    e.class == class && forall|k: int|
        0 <= k < fixed.len() ==> (#[trigger] fixed[k]).0 < e.key@.len()
            && e.key@[fixed[k].0 as int] == fixed[k].1
}

/// The positions of the instances that fit, among the first `n`.
pub open spec fn fitting(
    es: Seq<InstanceEntry>,
    class: ClassId,
    fixed: Seq<(usize, TyConId)>,
    n: nat,
) -> Seq<int>
    decreases n,
{
    if n == 0 || n > es.len() {
        Seq::empty()
    } else {
        let before = fitting(es, class, fixed, (n - 1) as nat);
        if fits_heads(es[n - 1], class, fixed) {
            before.push(n - 1)
        } else {
            before
        }
    }
}

/// The type at a position of an instance's head, with fresh variables.
pub open spec fn fresh_head(e: InstanceEntry, fresh: Seq<TyVid>, p: int) -> Ty {
    instance(e.head@[p]@, e.head_vars@, fresh, Seq::empty(), Seq::empty())
}

/// The table after tying an instance's head to the types that determine.
pub open spec fn tie_from(
    tb: Table,
    e: InstanceEntry,
    fresh: Seq<TyVid>,
    rs: Seq<Ty>,
    ps: Seq<usize>,
) -> Table
    decreases ps.len(),
{
    if ps.len() == 0 {
        tb
    } else {
        let before = tie_from(tb, e, fresh, rs, ps.drop_last());
        let p = ps.last() as int;
        if p < e.head@.len() && p < rs.len() {
            unified(before, fresh_head(e, fresh, p), rs[p]).0
        } else {
            before
        }
    }
}

/// The table after pinning the types that are determined, and the diagnostic
/// where one of them is something else.
pub open spec fn pin_to(
    tb: Table,
    e: InstanceEntry,
    fresh: Seq<TyVid>,
    tys: Seq<TyVid>,
    ps: Seq<usize>,
    span: Span,
) -> (Table, Option<Diag>)
    decreases ps.len(),
{
    if ps.len() == 0 {
        (tb, None)
    } else {
        let (before, d) = pin_to(tb, e, fresh, tys, ps.drop_last(), span);
        let p = ps.last() as int;
        if d is Some || p >= e.head@.len() {
            (before, d)
        } else {
            let to = resolve(before, fresh_head(e, fresh, p));
            if is_open_type(to) {
                (before, None)
            } else {
                let (after, clash) = unified(before, Ty::Var(tys[p]), to);
                match clash {
                    Some(c) => (after, Some(respan(clash_diag(c, nowhere()), span))),
                    None => (after, None),
                }
            }
        }
    }
}

/// What one functional dependency adds to what is known, for a constraint over
/// `tys` that stand for `rs`.
pub open spec fn improve_one(
    tb: Table,
    b: BuiltinTyCons,
    tycons: Seq<TyConDecl>,
    es: Seq<InstanceEntry>,
    class: ClassId,
    tys: Seq<TyVid>,
    rs: Seq<Ty>,
    fd: FunDep,
    span: Span,
) -> (Table, Option<Diag>) {
    match known_heads(rs, fd.from@) {
        None => (tb, None),
        Some(fixed) => {
            if fd.from@.len() == 1 && fd.to@.len() == 1 && join_leaves(
                b,
                tycons,
                rs[fd.from@[0] as int],
            ) is Some {
                let leaves = join_leaves(b, tycons, rs[fd.from@[0] as int])->0;
                let ret = TyVid(tb.types.len() as u32);
                let grown = Table { types: tb.types.push(None), ..tb };
                let want = Ty::Fn {
                    params: leaves,
                    ret: Box::new(Ty::Var(ret)),
                    caps: CapRow::Concrete(CapabilitySet(0)),
                };
                let (after, clash) = unified(grown, Ty::Var(tys[fd.to@[0] as int]), want);
                match clash {
                    Some(c) => (after, Some(respan(clash_diag(c, nowhere()), span))),
                    None => (after, None),
                }
            } else {
                let found = fitting(es, class, fixed, es.len());
                if found.len() != 1 {
                    (tb, None)
                } else {
                    let e = es[found[0]];
                    let n = e.head_vars@.len();
                    let fresh = fresh_vars(tb.types.len(), n);
                    let grown = Table { types: with_slots(tb.types, n), ..tb };
                    let tied = tie_from(grown, e, fresh, rs, fd.from@);
                    pin_to(tied, e, fresh, tys, fd.to@, span)
                }
            }
        },
    }
}

/// What the first `k` functional dependencies of a class add to what is known,
/// up to the first diagnostic.
pub open spec fn improved(
    tb: Table,
    b: BuiltinTyCons,
    tycons: Seq<TyConDecl>,
    es: Seq<InstanceEntry>,
    c: Pred,
    rs: Seq<Ty>,
    fds: Seq<FunDep>,
    k: nat,
    span: Span,
) -> (Table, Option<Diag>)
    decreases k,
{
    if k == 0 || k > fds.len() {
        (tb, None)
    } else {
        let (before, d) = improved(tb, b, tycons, es, c, rs, fds, (k - 1) as nat, span);
        if d is Some {
            (before, d)
        } else {
            improve_one(before, b, tycons, es, c.class, c.tys, rs, fds[k - 1], span)
        }
    }
}

/// The types that the variables of a constraint stand for.
pub open spec fn resolved_tys(tb: Table, tys: Seq<TyVid>) -> Seq<Ty> {
    tys.map_values(|v: TyVid| resolve(tb, Ty::Var(v)))
}

/// The longest list of head variables among the first `n` instances.
pub open spec fn widest(es: Seq<InstanceEntry>, n: nat) -> nat
    decreases n,
{
    if n == 0 || n > es.len() {
        0
    } else {
        let w = widest(es, (n - 1) as nat);
        if es[n - 1].head_vars@.len() > w {
            es[n - 1].head_vars@.len()
        } else {
            w
        }
    }
}

proof fn widest_bounds(es: Seq<InstanceEntry>, n: nat, i: int)
    requires
        0 <= i < n <= es.len(),
    ensures
        es[i].head_vars@.len() <= widest(es, n),
    decreases n,
{
    if i < n - 1 {
        widest_bounds(es, (n - 1) as nat, i);
    }
}

/// How many variables one functional dependency may need.
pub open spec fn fundep_cost(es: Seq<InstanceEntry>) -> nat {
    1 + widest(es, es.len())
}

/// The positions that a class's dependencies determine are positions of the
/// constraint.
pub open spec fn fundeps_fit(fds: Seq<FunDep>, c: Pred) -> bool {
    forall|i: int, k: int|
        0 <= i < fds.len() && 0 <= k < fds[i].to@.len() ==> (#[trigger] fds[i].to@[k])
            < c.tys.len()
}

fn known_heads_of(rs: &Vec<Type>, ps: &Vec<usize>) -> (r: Option<Vec<(usize, TyConId)>>)
    ensures
        r is Some <==> known_heads(views(rs@), ps@) is Some,
        r matches Some(h) ==> known_heads(views(rs@), ps@) == Some(h@),
{
    let mut out: Vec<(usize, TyConId)> = Vec::new();
    let mut i: usize = 0;
    assert(ps@.take(0) =~= Seq::empty());
    assert(out@ =~= Seq::empty());
    while i < ps.len()
        invariant
            i <= ps@.len(),
            known_heads(views(rs@), ps@.take(i as int)) == Some(out@),
        decreases ps@.len() - i,
    {
        let p: usize = ps[i];
        assert(ps@.take(i + 1).drop_last() =~= ps@.take(i as int));
        let ghost was = out@;
        let mut ok: bool = false;
        if p < rs.len() {
            assert(views(rs@)[p as int] == rs@[p as int]@);
            if let Type::Con(id, _) = &rs[p] {
                out.push((p, *id));
                ok = true;
            }
        }
        if !ok {
            proof {
                heads_prefix(views(rs@), ps@, (i + 1) as nat);
            }
            return None;
        }
        i = i + 1;
    }
    assert(ps@.take(i as int) =~= ps@);
    Some(out)
}

/// Where a prefix has an unknown head, the whole has.
proof fn heads_prefix(rs: Seq<Ty>, ps: Seq<usize>, k: nat)
    requires
        k <= ps.len(),
        known_heads(rs, ps.take(k as int)) is None,
    ensures
        known_heads(rs, ps) is None,
    decreases ps.len() - k,
{
    if k == ps.len() {
        assert(ps.take(k as int) =~= ps);
    } else {
        assert(ps.take((k + 1) as int).drop_last() =~= ps.take(k as int));
        heads_prefix(rs, ps, k + 1);
    }
}

fn fits(e: &InstanceEntry, class: ClassId, fixed: &Vec<(usize, TyConId)>) -> (r: bool)
    ensures
        r == fits_heads(*e, class, fixed@),
{
    if e.class.0 != class.0 {
        return false;
    }
    let mut k: usize = 0;
    while k < fixed.len()
        invariant
            k <= fixed@.len(),
            e.class == class,
            forall|j: int|
                0 <= j < k ==> (#[trigger] fixed@[j]).0 < e.key@.len()
                    && e.key@[fixed@[j].0 as int] == fixed@[j].1,
        decreases fixed@.len() - k,
    {
        let f = fixed[k];
        if f.0 >= e.key.len() || e.key[f.0].0 != (f.1).0 {
            assert(fixed@[k as int] == f);
            return false;
        }
        k = k + 1;
    }
    true
}

fn instances_matching(
    instances: &InstanceEnv,
    class: ClassId,
    fixed: &Vec<(usize, TyConId)>,
) -> (r: Vec<usize>)
    ensures
        r@.map_values(|i: usize| i as int) == fitting(
            instances.entries@,
            class,
            fixed@,
            instances.entries@.len(),
        ),
        forall|k: int| 0 <= k < r@.len() ==> (#[trigger] r@[k]) < instances.entries@.len(),
{
    let mut out: Vec<usize> = Vec::new();
    let mut i: usize = 0;
    let ghost as_int = |i: usize| i as int;
    assert(out@.map_values(as_int) =~= Seq::empty());
    while i < instances.entries.len()
        invariant
            i <= instances.entries@.len(),
            as_int == (|i: usize| i as int),
            out@.map_values(as_int) == fitting(instances.entries@, class, fixed@, i as nat),
            forall|k: int| 0 <= k < out@.len() ==> (#[trigger] out@[k]) < instances.entries@.len(),
        decreases instances.entries@.len() - i,
    {
        let ghost was = out@;
        if fits(&instances.entries[i], class, fixed) {
            out.push(i);
            assert(out@.map_values(as_int) =~= was.map_values(as_int).push(i as int));
        }
        i = i + 1;
    }
    out
}

/// Allocates a variable for each variable of an instance's head.
fn fresh_head_vars(ctx: &mut InferCtx, e: &InstanceEntry) -> (r: Renaming)
    requires
        old(ctx).wf(),
        old(ctx).has_room(e.head_vars@.len() as int),
    ensures
        final(ctx).wf(),
        r.wf(),
        r.vars@ == e.head_vars@,
        r.fresh@ == fresh_vars(old(ctx).table().types.len(), e.head_vars@.len()),
        r.caps@ == Seq::<CapVid>::empty(),
        r.cap_fresh@ == Seq::<CapVid>::empty(),
        final(ctx).table() == (Table {
            types: with_slots(old(ctx).table().types, e.head_vars@.len()),
            ..old(ctx).table()
        }),
        *final(ctx) == (InferCtx { vars: final(ctx).vars, ..*old(ctx) }),
{
    let ghost tb = ctx.table();
    let mut fresh: Vec<TyVid> = Vec::new();
    let mut i: usize = 0;
    assert(with_slots(tb.types, 0) =~= tb.types);
    while i < e.head_vars.len()
        invariant
            i <= e.head_vars@.len(),
            ctx.wf(),
            tb == old(ctx).table(),
            tb.types.len() + e.head_vars@.len() <= u32::MAX,
            fresh@ =~= fresh_vars(tb.types.len(), i as nat),
            ctx.table() == (Table { types: with_slots(tb.types, i as nat), ..tb }),
            *ctx == (InferCtx { vars: ctx.vars, ..*old(ctx) }),
        decreases e.head_vars@.len() - i,
    {
        fresh.push(ctx.fresh_tyvid());
        i = i + 1;
        assert(with_slots(tb.types, (i - 1) as nat).push(None) =~= with_slots(
            tb.types,
            i as nat,
        ));
    }
    let vars = e.head_vars.clone();
    assert(vars@ =~= e.head_vars@);
    let caps: Vec<CapVid> = Vec::new();
    let cap_fresh: Vec<CapVid> = Vec::new();
    Renaming { vars, fresh, caps, cap_fresh }
}

/// What the parts of improvement share: `r` renames the head of `e` to `fresh`.
pub open spec fn renames_head(r: Renaming, e: InstanceEntry, fresh: Seq<TyVid>) -> bool {
    &&& r.wf()
    &&& r.vars@ == e.head_vars@
    &&& r.fresh@ == fresh
    &&& r.caps@ == Seq::<CapVid>::empty()
    &&& r.cap_fresh@ == Seq::<CapVid>::empty()
}

fn tie(ctx: &mut InferCtx, e: &InstanceEntry, renaming: &Renaming, rs: &Vec<Type>, ps: &Vec<usize>)
    requires
        old(ctx).wf(),
        renames_head(*renaming, *e, renaming.fresh@),
    ensures
        final(ctx).wf(),
        final(ctx).table() == tie_from(
            old(ctx).table(),
            *e,
            renaming.fresh@,
            views(rs@),
            ps@,
        ),
        final(ctx).table().types.len() == old(ctx).table().types.len(),
        *final(ctx) == (InferCtx { vars: final(ctx).vars, ..*old(ctx) }),
{
    let ghost tb = ctx.table();
    let mut i: usize = 0;
    assert(ps@.take(0) =~= Seq::empty());
    while i < ps.len()
        invariant
            i <= ps@.len(),
            ctx.wf(),
            renames_head(*renaming, *e, renaming.fresh@),
            ctx.table() == tie_from(
                tb,
                *e,
                renaming.fresh@,
                views(rs@),
                ps@.take(i as int),
            ),
            ctx.table().types.len() == tb.types.len(),
            *ctx == (InferCtx { vars: ctx.vars, ..*old(ctx) }),
        decreases ps@.len() - i,
    {
        let p: usize = ps[i];
        assert(ps@.take(i + 1).drop_last() =~= ps@.take(i as int));
        if p < e.head.len() && p < rs.len() {
            let from = renaming.rename(&e.head[p]);
            assert(from@ == fresh_head(*e, renaming.fresh@, p as int));
            assert(views(rs@)[p as int] == rs@[p as int]@);
            proof {
                unified_agree(ctx.table(), from@, rs@[p as int]@);
            }
            let _ = unify(&mut ctx.vars, &from, &rs[p]);
        }
        i = i + 1;
    }
    assert(ps@.take(i as int) =~= ps@);
}

/// The error of unification, moved to a place.
pub open spec fn placed(r: Result<(), TypeError>, d: Option<Diag>) -> bool {
    match d {
        None => r is Ok,
        Some(x) => r matches Err(e) && diag(e) == x,
    }
}

fn unify_at(ctx: &mut InferCtx, a: &Type, b: &Type, span: Span) -> (r: Result<(), TypeError>)
    requires
        old(ctx).wf(),
    ensures
        final(ctx).wf(),
        final(ctx).table() == unified(old(ctx).table(), a@, b@).0,
        final(ctx).table().types.len() == old(ctx).table().types.len(),
        placed(
            r,
            match unified(old(ctx).table(), a@, b@).1 {
                Some(c) => Some(respan(clash_diag(c, nowhere()), span)),
                None => None,
            },
        ),
        *final(ctx) == (InferCtx { vars: final(ctx).vars, ..*old(ctx) }),
{
    let ghost tb = ctx.table();
    proof {
        unified_agree(tb, a@, b@);
    }
    match unify(&mut ctx.vars, a, b) {
        Ok(()) => Ok(()),
        Err(e) => {
            proof {
                tells_clash(e, unified(tb, a@, b@).1->0);
            }
            Err(attach_span_pub(e, span))
        },
    }
}

fn pin(
    ctx: &mut InferCtx,
    e: &InstanceEntry,
    renaming: &Renaming,
    tys: &Vec<TyVid>,
    ps: &Vec<usize>,
    span: Span,
) -> (r: Result<(), TypeError>)
    requires
        old(ctx).wf(),
        renames_head(*renaming, *e, renaming.fresh@),
        forall|k: int| 0 <= k < ps@.len() ==> (#[trigger] ps@[k]) < tys@.len(),
    ensures
        final(ctx).wf(),
        final(ctx).table() == pin_to(
            old(ctx).table(),
            *e,
            renaming.fresh@,
            tys@,
            ps@,
            span,
        ).0,
        placed(r, pin_to(old(ctx).table(), *e, renaming.fresh@, tys@, ps@, span).1),
        final(ctx).table().types.len() == old(ctx).table().types.len(),
        *final(ctx) == (InferCtx { vars: final(ctx).vars, ..*old(ctx) }),
{
    let ghost tb = ctx.table();
    let mut i: usize = 0;
    assert(ps@.take(0) =~= Seq::empty());
    while i < ps.len()
        invariant
            i <= ps@.len(),
            ctx.wf(),
            tb == old(ctx).table(),
            renames_head(*renaming, *e, renaming.fresh@),
            forall|k: int| 0 <= k < ps@.len() ==> (#[trigger] ps@[k]) < tys@.len(),
            pin_to(tb, *e, renaming.fresh@, tys@, ps@.take(i as int), span) == (
                ctx.table(),
                None::<Diag>,
            ),
            ctx.table().types.len() == tb.types.len(),
            *ctx == (InferCtx { vars: ctx.vars, ..*old(ctx) }),
        decreases ps@.len() - i,
    {
        let p: usize = ps[i];
        assert(ps@.take(i + 1).drop_last() =~= ps@.take(i as int));
        assert(ps@.take(i + 1).last() == p);
        if p < e.head.len() {
            let to = renaming.rename(&e.head[p]);
            assert(to@ == fresh_head(*e, renaming.fresh@, p as int));
            let to = ctx.deep_resolve(&to);
            if !type_contains_var(&to) {
                match unify_at(ctx, &Type::Var(tys[p]), &to, span) {
                    Ok(()) => {},
                    Err(err) => {
                        proof {
                            pinned_prefix(tb, *e, renaming.fresh@, tys@, ps@, span, (i + 1) as nat);
                        }
                        return Err(err);
                    },
                }
            }
        }
        i = i + 1;
    }
    assert(ps@.take(i as int) =~= ps@);
    Ok(())
}

/// The first diagnostic ends the pinning.
proof fn pinned_prefix(
    tb: Table,
    e: InstanceEntry,
    fresh: Seq<TyVid>,
    tys: Seq<TyVid>,
    ps: Seq<usize>,
    span: Span,
    k: nat,
)
    requires
        k <= ps.len(),
        pin_to(tb, e, fresh, tys, ps.take(k as int), span).1 is Some,
    ensures
        pin_to(tb, e, fresh, tys, ps, span) == pin_to(
            tb,
            e,
            fresh,
            tys,
            ps.take(k as int),
            span,
        ),
    decreases ps.len() - k,
{
    if k == ps.len() {
        assert(ps.take(k as int) =~= ps);
    } else {
        assert(ps.take((k + 1) as int).drop_last() =~= ps.take(k as int));
        pinned_prefix(tb, e, fresh, tys, ps, span, k + 1);
    }
}

fn improve_by(
    ctx: &mut InferCtx,
    b: &BuiltinTyCons,
    instances: &InstanceEnv,
    c: &Constraint,
    rs: &Vec<Type>,
    fd: &FunDep,
    span: Span,
) -> (r: Result<(), TypeError>)
    requires
        old(ctx).wf(),
        old(ctx).has_room(fundep_cost(instances.entries@) as int),
        forall|k: int| 0 <= k < fd.to@.len() ==> (#[trigger] fd.to@[k]) < c@.tys.len(),
    ensures
        final(ctx).wf(),
        final(ctx).table() == improve_one(
            old(ctx).table(),
            *b,
            old(ctx).tycon_decls@,
            instances.entries@,
            c.class,
            c@.tys,
            views(rs@),
            *fd,
            span,
        ).0,
        placed(
            r,
            improve_one(
                old(ctx).table(),
                *b,
                old(ctx).tycon_decls@,
                instances.entries@,
                c.class,
                c@.tys,
                views(rs@),
                *fd,
                span,
            ).1,
        ),
        final(ctx).table().types.len() <= old(ctx).table().types.len() + fundep_cost(
            instances.entries@,
        ),
        *final(ctx) == (InferCtx { vars: final(ctx).vars, ..*old(ctx) }),
{
    let ghost tb = ctx.table();
    let fixed = match known_heads_of(rs, &fd.from) {
        None => {
            return Ok(());
        },
        Some(h) => h,
    };
    if fd.from.len() == 1 && fd.to.len() == 1 {
        let at: usize = fd.from[0];
        let to: usize = fd.to[0];
        proof {
            assert(fd.from@.drop_last() =~= Seq::empty());
            assert(fd.from@.last() == at);
            assert(known_heads(views(rs@), fd.from@) is Some);
            assert(at < rs@.len());
            assert(views(rs@)[at as int] == rs@[at as int]@);
            assert(fd.to@[0] < c@.tys.len());
        }
        if let Some(leaves) = join_entities(b, &ctx.tycon_decls, &rs[at]) {
            let ret = ctx.fresh_tyvid();
            let out = Type::Var(ret);
            assert(out@ == Ty::Var(ret));
            let want = Type::Fn {
                params: leaves,
                ret: Box::new(out),
                caps: CapRow::Concrete(CapabilitySet::pure()),
            };
            assert(want@ == Ty::Fn {
                params: views(leaves@),
                ret: Box::new(Ty::Var(ret)),
                caps: CapRow::Concrete(CapabilitySet(0)),
            });
            return unify_at(ctx, &Type::Var(c.tys[to]), &want, span);
        }
    }
    let found = instances_matching(instances, c.class, &fixed);
    let ghost hits = fitting(instances.entries@, c.class, fixed@, instances.entries@.len());
    assert(found@.len() == hits.len());
    if found.len() != 1 {
        return Ok(());
    }
    let n: usize = found[0];
    assert(hits[0] == n as int);
    let e = &instances.entries[n];
    proof {
        widest_bounds(instances.entries@, instances.entries@.len(), n as int);
    }
    let renaming = fresh_head_vars(ctx, e);
    tie(ctx, e, &renaming, rs, &fd.from);
    pin(ctx, e, &renaming, &c.tys, &fd.to, span)
}

/// The types that the variables of a constraint stand for.
pub(crate) fn resolve_tys(ctx: &InferCtx, tys: &Vec<TyVid>) -> (r: Vec<Type>)
    ensures
        views(r@) == resolved_tys(ctx.table(), tys@),
{
    let mut out: Vec<Type> = Vec::new();
    let mut i: usize = 0;
    while i < tys.len()
        invariant
            i <= tys@.len(),
            out@.len() == i,
            forall|k: int|
                0 <= k < i ==> (#[trigger] out@[k])@ == resolve(ctx.table(), Ty::Var(tys@[k])),
        decreases tys@.len() - i,
    {
        out.push(ctx.deep_resolve(&Type::Var(tys[i])));
        i = i + 1;
    }
    assert(views(out@) =~= resolved_tys(ctx.table(), tys@));
    out
}

/// How many variables a constraint may need.
pub open spec fn pred_cost(es: Seq<InstanceEntry>, fds: Seq<FunDep>) -> nat {
    fds.len() * fundep_cost(es)
}

proof fn one_more(i: int, n: int, one: int)
    requires
        0 <= i < n,
        0 <= one,
    ensures
        (i + 1) * one == i * one + one,
        (i + 1) * one <= n * one,
{
    assert((i + 1) * one == i * one + one) by (nonlinear_arith);
    assert((i + 1) * one <= n * one) by (nonlinear_arith)
        requires
            i + 1 <= n,
            0 <= one,
    ;
}

fn improve_by_all(
    ctx: &mut InferCtx,
    b: &BuiltinTyCons,
    instances: &InstanceEnv,
    c: &Constraint,
    rs: &Vec<Type>,
    fds: &Vec<FunDep>,
    span: Span,
) -> (r: Result<(), TypeError>)
    requires
        old(ctx).wf(),
        old(ctx).has_room(pred_cost(instances.entries@, fds@) as int),
        fundeps_fit(fds@, c@),
    ensures
        final(ctx).wf(),
        final(ctx).table() == improved(
            old(ctx).table(),
            *b,
            old(ctx).tycon_decls@,
            instances.entries@,
            c@,
            views(rs@),
            fds@,
            fds@.len(),
            span,
        ).0,
        placed(
            r,
            improved(
                old(ctx).table(),
                *b,
                old(ctx).tycon_decls@,
                instances.entries@,
                c@,
                views(rs@),
                fds@,
                fds@.len(),
                span,
            ).1,
        ),
        final(ctx).table().types.len() <= old(ctx).table().types.len() + pred_cost(
            instances.entries@,
            fds@,
        ),
        *final(ctx) == (InferCtx { vars: final(ctx).vars, ..*old(ctx) }),
{
    let ghost tb = ctx.table();
    let ghost one = fundep_cost(instances.entries@) as int;
    let ghost tycons = ctx.tycon_decls@;
    let mut i: usize = 0;
    assert(0 * one == 0) by (nonlinear_arith);
    while i < fds.len()
        invariant
            i <= fds@.len(),
            one == fundep_cost(instances.entries@),
            ctx.wf(),
            tb == old(ctx).table(),
            tycons == old(ctx).tycon_decls@,
            fundeps_fit(fds@, c@),
            tb.types.len() + fds@.len() * one <= u32::MAX,
            ctx.table().types.len() <= tb.types.len() + i * one,
            ctx.table() == improved(
                tb,
                *b,
                tycons,
                instances.entries@,
                c@,
                views(rs@),
                fds@,
                i as nat,
                span,
            ).0,
            improved(
                tb,
                *b,
                tycons,
                instances.entries@,
                c@,
                views(rs@),
                fds@,
                i as nat,
                span,
            ).1 is None,
            *ctx == (InferCtx { vars: ctx.vars, ..*old(ctx) }),
        decreases fds@.len() - i,
    {
        proof {
            one_more(i as int, fds@.len() as int, one);
        }
        assert forall|k: int| 0 <= k < fds@[i as int].to@.len() implies (
        #[trigger] fds@[i as int].to@[k]) < c@.tys.len() by {}
        match improve_by(ctx, b, instances, c, rs, &fds[i], span) {
            Ok(()) => {},
            Err(e) => {
                proof {
                    improved_prefix(
                        tb,
                        *b,
                        tycons,
                        instances.entries@,
                        c@,
                        views(rs@),
                        fds@,
                        (i + 1) as nat,
                        span,
                    );
                }
                return Err(e);
            },
        }
        i = i + 1;
    }
    Ok(())
}

/// Fixes what the functional dependencies of its class determine of a
/// constraint: pins an open position and checks a known one. A disagreement is
/// reported, and is the reason for `true`.
pub(crate) fn improve_via_fundeps(
    ctx: &mut InferCtx,
    instances: &InstanceEnv,
    classes: &ClassTable,
    span: Span,
    c: &Constraint,
    b: &BuiltinTyCons,
) -> (stop: bool)
    requires
        old(ctx).wf(),
        old(ctx).has_room(
            pred_cost(instances.entries@, fundeps_of(classes.classes@, c.class)) as int,
        ),
        fundeps_fit(fundeps_of(classes.classes@, c.class), c@),
    ensures
        final(ctx).wf(),
        ({
            let fds = fundeps_of(classes.classes@, c.class);
            let (tb, d) = improved(
                old(ctx).table(),
                *b,
                old(ctx).tycon_decls@,
                instances.entries@,
                c@,
                resolved_tys(old(ctx).table(), c@.tys),
                fds,
                fds.len(),
                span,
            );
            &&& final(ctx).table() == tb
            &&& stop == d is Some
            &&& diags(final(ctx).errors@) == match d {
                Some(x) => diags(old(ctx).errors@).push(x),
                None => diags(old(ctx).errors@),
            }
        }),
        final(ctx).table().types.len() <= old(ctx).table().types.len() + pred_cost(
            instances.entries@,
            fundeps_of(classes.classes@, c.class),
        ),
        *final(ctx) == (InferCtx {
            vars: final(ctx).vars,
            errors: final(ctx).errors,
            ..*old(ctx)
        }),
{
    match classes.get(c.class) {
        None => {
            assert(0 * fundep_cost(instances.entries@) == 0) by (nonlinear_arith);
            false
        },
        Some(info) => {
            let rs = resolve_tys(ctx, &c.tys);
            match improve_by_all(ctx, b, instances, c, &rs, &info.fundeps, span) {
                Ok(()) => false,
                Err(e) => {
                    ctx.errors.push(e);
                    true
                },
            }
        },
    }
}

/// The first diagnostic ends the improvement.
proof fn improved_prefix(
    tb: Table,
    b: BuiltinTyCons,
    tycons: Seq<TyConDecl>,
    es: Seq<InstanceEntry>,
    c: Pred,
    rs: Seq<Ty>,
    fds: Seq<FunDep>,
    k: nat,
    span: Span,
)
    requires
        k <= fds.len(),
        improved(tb, b, tycons, es, c, rs, fds, k, span).1 is Some,
    ensures
        improved(tb, b, tycons, es, c, rs, fds, fds.len(), span) == improved(
            tb,
            b,
            tycons,
            es,
            c,
            rs,
            fds,
            k,
            span,
        ),
    decreases fds.len() - k,
{
    if k < fds.len() {
        improved_prefix(tb, b, tycons, es, c, rs, fds, k + 1, span);
    }
}

/// New variables take nothing away from what a table knows.
pub proof fn slots_refine(tb: Table, n: nat)
    requires
        solved(tb),
        tb.types.len() + n <= u32::MAX,
    ensures
        solved(more_slots(tb, n)),
        refines(tb, more_slots(tb, n)),
    decreases n,
{
    if n == 0 {
        assert(with_slots(tb.types, 0) =~= tb.types);
        refines_refl(tb);
    } else {
        let m = (n - 1) as nat;
        slots_refine(tb, m);
        let tc = more_slots(tb, m);
        let td = more_slots(tb, n);
        assert(with_slots(tb.types, m).push(None) =~= with_slots(tb.types, n));
        grow_solved(tc);
        refines_refl(tc);
        assert forall|v: TyVid| resolve(td, #[trigger] look(tc, v)) == look(td, v) by {
            assert(resolve(td, look(tc, v)) == resolve(tc, look(tc, v)));
        }
        assert forall|c: CapVid| resolve_row(td, #[trigger] look_cap(tc, c)) == look_cap(td, c) by {
            assert(resolve_row(tc, look_cap(tc, c)) == look_cap(tc, c));
        }
        refines_trans(tb, tc, td);
    }
}

/// A table with `n` more variables.
pub open spec fn more_slots(tb: Table, n: nat) -> Table {
    Table { types: with_slots(tb.types, n), ..tb }
}

/// `tc` is in order, knows what `tb` knows, and has at most `n` variables more.
pub open spec fn learned(tb: Table, tc: Table, n: nat) -> bool {
    solved(tc) && refines(tb, tc) && tc.types.len() <= tb.types.len() + n
}

/// Tying the head of an instance to types loses nothing that was known.
pub proof fn tie_learns(tb: Table, e: InstanceEntry, fresh: Seq<TyVid>, rs: Seq<Ty>, ps: Seq<usize>)
    requires
        solved(tb),
    ensures
        learned(tb, tie_from(tb, e, fresh, rs, ps), 0),
    decreases ps.len(),
{
    if ps.len() == 0 {
        refines_refl(tb);
    } else {
        tie_learns(tb, e, fresh, rs, ps.drop_last());
        let before = tie_from(tb, e, fresh, rs, ps.drop_last());
        let p = ps.last() as int;
        if p < e.head@.len() && p < rs.len() {
            unified_agree(before, fresh_head(e, fresh, p), rs[p]);
            refines_trans(tb, before, tie_from(tb, e, fresh, rs, ps));
        }
    }
}

proof fn pin_learns(
    tb: Table,
    e: InstanceEntry,
    fresh: Seq<TyVid>,
    tys: Seq<TyVid>,
    ps: Seq<usize>,
    span: Span,
)
    requires
        solved(tb),
    ensures
        learned(tb, pin_to(tb, e, fresh, tys, ps, span).0, 0),
    decreases ps.len(),
{
    if ps.len() == 0 {
        refines_refl(tb);
    } else {
        pin_learns(tb, e, fresh, tys, ps.drop_last(), span);
        let (before, d) = pin_to(tb, e, fresh, tys, ps.drop_last(), span);
        let p = ps.last() as int;
        if d is None && p < e.head@.len() {
            let to = resolve(before, fresh_head(e, fresh, p));
            unified_agree(before, Ty::Var(tys[p]), to);
            refines_trans(tb, before, unified(before, Ty::Var(tys[p]), to).0);
        }
    }
}

proof fn fitting_listed(
    es: Seq<InstanceEntry>,
    class: ClassId,
    fixed: Seq<(usize, TyConId)>,
    n: nat,
)
    requires
        n <= es.len(),
    ensures
        forall|i: int|
            0 <= i < fitting(es, class, fixed, n).len() ==> 0 <= #[trigger] fitting(
                es,
                class,
                fixed,
                n,
            )[i] < n,
    decreases n,
{
    if n > 0 {
        fitting_listed(es, class, fixed, (n - 1) as nat);
        let before = fitting(es, class, fixed, (n - 1) as nat);
        let after = fitting(es, class, fixed, n);
        assert forall|i: int| 0 <= i < after.len() implies 0 <= #[trigger] after[i] < n by {
            if i < before.len() {
                assert(after[i] == before[i]);
            }
        }
    }
}

proof fn one_learns(
    tb: Table,
    b: BuiltinTyCons,
    tycons: Seq<TyConDecl>,
    es: Seq<InstanceEntry>,
    class: ClassId,
    tys: Seq<TyVid>,
    rs: Seq<Ty>,
    fd: FunDep,
    span: Span,
)
    requires
        solved(tb),
        tb.types.len() + fundep_cost(es) <= u32::MAX,
    ensures
        learned(
            tb,
            improve_one(tb, b, tycons, es, class, tys, rs, fd, span).0,
            fundep_cost(es),
        ),
{
    refines_refl(tb);
    match known_heads(rs, fd.from@) {
        None => {},
        Some(fixed) => {
            if fd.from@.len() == 1 && fd.to@.len() == 1 && join_leaves(
                b,
                tycons,
                rs[fd.from@[0] as int],
            ) is Some {
                let leaves = join_leaves(b, tycons, rs[fd.from@[0] as int])->0;
                let grown = Table { types: tb.types.push(None), ..tb };
                let want = Ty::Fn {
                    params: leaves,
                    ret: Box::new(Ty::Var(TyVid(tb.types.len() as u32))),
                    caps: CapRow::Concrete(CapabilitySet(0)),
                };
                slots_refine(tb, 1);
                assert(with_slots(tb.types, 1) =~= tb.types.push(None));
                let v = Ty::Var(tys[fd.to@[0] as int]);
                unified_agree(grown, v, want);
                refines_trans(tb, grown, unified(grown, v, want).0);
            } else {
                let found = fitting(es, class, fixed, es.len());
                if found.len() == 1 {
                    fitting_listed(es, class, fixed, es.len());
                    let e = es[found[0]];
                    let n = e.head_vars@.len();
                    widest_bounds(es, es.len(), found[0]);
                    let fresh = fresh_vars(tb.types.len(), n);
                    let grown = more_slots(tb, n);
                    slots_refine(tb, n);
                    tie_learns(grown, e, fresh, rs, fd.from@);
                    let tied = tie_from(grown, e, fresh, rs, fd.from@);
                    pin_learns(tied, e, fresh, tys, fd.to@, span);
                    let after = pin_to(tied, e, fresh, tys, fd.to@, span).0;
                    refines_trans(tb, grown, tied);
                    refines_trans(tb, tied, after);
                }
            }
        },
    }
}

/// What the functional dependencies of a class add takes nothing away: what was
/// known before is known after.
pub proof fn improving_loses_nothing(
    tb: Table,
    b: BuiltinTyCons,
    tycons: Seq<TyConDecl>,
    es: Seq<InstanceEntry>,
    c: Pred,
    rs: Seq<Ty>,
    fds: Seq<FunDep>,
    k: nat,
    span: Span,
)
    requires
        solved(tb),
        k <= fds.len(),
        tb.types.len() + k * fundep_cost(es) <= u32::MAX,
    ensures
        learned(
            tb,
            improved(tb, b, tycons, es, c, rs, fds, k, span).0,
            k * fundep_cost(es),
        ),
    decreases k,
{
    if k == 0 {
        refines_refl(tb);
    } else {
        let m = (k - 1) as nat;
        one_more(m as int, k as int, fundep_cost(es) as int);
        improving_loses_nothing(tb, b, tycons, es, c, rs, fds, m, span);
        let (before, d) = improved(tb, b, tycons, es, c, rs, fds, m, span);
        if d is None {
            one_learns(before, b, tycons, es, c.class, c.tys, rs, fds[k - 1], span);
            refines_trans(
                tb,
                before,
                improve_one(before, b, tycons, es, c.class, c.tys, rs, fds[k - 1], span).0,
            );
        }
    }
}

} // verus!

use rustc_hash::FxHashSet;
use vstd::prelude::*;

use crate::classes::{ClassTable, InstanceEnv};
use crate::ctx::InferCtx;
use crate::diag::{diags, Diag};
use crate::fx::{insert_id, lists_keys, put_pairs};
use crate::instantiate::generalise_with_env;
use crate::plans::Plan;
use crate::solve::{
    ambiguous_element, initial, missing_in, plans_of, report_ambiguous_element_dicts, rules_of,
    solvable, solve_constraints, solved_to, solves, solving_only_adds, work_cost, Rules, Solver,
};
use crate::subst::occurs;
use crate::table::{resolve, Table};
use crate::types::{
    preds, views, BuiltinTyCons, ClassId, Constraint, Poly, Pred, Scheme, Span, Ty, TyConDecl,
    TyVid, Type,
};

verus! {

broadcast use {crate::types::group_views, crate::diag::diags_push};

/// What the constraints of a module are solved by.
#[derive(Clone, Copy)]
pub struct Registries<'a> {
    pub b: &'a BuiltinTyCons,
    pub classes: &'a ClassTable,
    pub instances: &'a InstanceEnv,
}

impl<'a> Registries<'a> {
    pub open spec fn wf(self) -> bool {
        self.instances.fn_arities.wf()
    }

    /// The rules for a component, with what its environment leaves open.
    pub open spec fn rules(self, tycons: Seq<TyConDecl>, outer: Set<u32>, span: Span) -> Rules {
        rules_of(*self.instances, *self.classes, tycons, outer, span, Some(self.b))
    }

    /// The rules as far as every component shares them.
    pub open spec fn common(self) -> Rules {
        self.rules(Seq::empty(), Set::empty(), Span { start: 0, end: 0 })
    }

    /// How many variables solving some constraints may need.
    pub open spec fn cost(self, cs: Seq<Constraint>) -> nat {
        work_cost(self.common(), preds(cs))
    }

    /// The constraints can be solved.
    pub open spec fn can_solve(self, cs: Seq<Constraint>) -> bool {
        forall|i: int| 0 <= i < cs.len() ==> solvable(self.common(), (#[trigger] cs[i])@)
    }
}

/// What solving costs does not depend on the component.
proof fn cost_is_common(r: Rules, q: Rules, work: Seq<Pred>)
    requires
        r.es == q.es,
        r.cs == q.cs,
    ensures
        work_cost(r, work) == work_cost(q, work),
    decreases work.len(),
{
    if work.len() > 0 {
        cost_is_common(r, q, work.drop_last());
    }
}

/// One of the types of a component leaves a variable open that its environment
/// does not.
pub open spec fn quantifies(tb: Table, tys: Seq<Ty>, outer: Set<u32>, v: u32) -> bool {
    !outer.contains(v) && exists|i: int|
        0 <= i < tys.len() && occurs(TyVid(v), resolve(tb, #[trigger] tys[i]))
}

/// A constraint is about one of the variables of a scheme.
pub open spec fn about(vars: Seq<TyVid>, c: Pred) -> bool {
    exists|i: int| 0 <= i < c.tys.len() && vars.contains(#[trigger] c.tys[i])
}

/// A scheme under those of the constraints that are about it.
pub open spec fn attached(p: Poly, kept: Seq<Pred>) -> Poly {
    Poly { constraints: kept.filter(|c: Pred| about(p.vars, c)), ..p }
}

fn has_var(vars: &Vec<TyVid>, v: TyVid) -> (r: bool)
    ensures
        r == vars@.contains(v),
{
    let mut i: usize = 0;
    while i < vars.len()
        invariant
            i <= vars@.len(),
            forall|k: int| 0 <= k < i ==> #[trigger] vars@[k] != v,
        decreases vars@.len() - i,
    {
        if vars[i].0 == v.0 {
            assert(vars@[i as int] == v);
            return true;
        }
        i = i + 1;
    }
    false
}

fn is_about(vars: &Vec<TyVid>, c: &Constraint) -> (r: bool)
    ensures
        r == about(vars@, c@),
{
    let mut i: usize = 0;
    while i < c.tys.len()
        invariant
            i <= c.tys@.len(),
            forall|k: int| 0 <= k < i ==> !vars@.contains(#[trigger] c.tys@[k]),
        decreases c.tys@.len() - i,
    {
        if has_var(vars, c.tys[i]) {
            assert(vars@.contains(c@.tys[i as int]));
            return true;
        }
        i = i + 1;
    }
    assert forall|k: int| 0 <= k < c@.tys.len() implies !vars@.contains(#[trigger] c@.tys[k]) by {
        assert(c@.tys[k] == c.tys@[k]);
    }
    false
}

/// Puts a scheme under those of the constraints that are about it.
#[must_use]
pub(crate) fn attach(scheme: Scheme, kept: &Vec<Constraint>) -> (r: Scheme)
    ensures
        r@ == attached(scheme@, preds(kept@)),
{
    let ghost p = scheme@;
    let ghost keep = |c: Pred| about(p.vars, c);
    let ghost all = preds(kept@);
    let mut out: Vec<Constraint> = Vec::new();
    let mut i: usize = 0;
    assert(all.take(0) =~= Seq::empty());
    assert(preds(out@) =~= Seq::<Pred>::empty());
    proof {
        reveal(Seq::filter);
    }
    while i < kept.len()
        invariant
            i <= kept@.len(),
            all == preds(kept@),
            p == scheme@,
            keep == (|c: Pred| about(p.vars, c)),
            preds(out@) == all.take(i as int).filter(keep),
        decreases kept@.len() - i,
    {
        let ghost was = out@;
        proof {
            reveal(Seq::filter);
            assert(all.take(i + 1).drop_last() =~= all.take(i as int));
            assert(all.take(i + 1).last() == kept@[i as int]@);
        }
        if is_about(&scheme.vars, &kept[i]) {
            out.push(kept[i].clone());
            assert(preds(out@) =~= preds(was).push(kept@[i as int]@));
        }
        i = i + 1;
    }
    assert(all.take(i as int) =~= all);
    let r = Scheme {
        vars: scheme.vars,
        cap_vars: scheme.cap_vars,
        ty: scheme.ty,
        constraints: out,
    };
    assert(r@ =~= attached(p, all));
    r
}

/// The variables that the types of a component leave open and that its
/// environment does not.
fn quantified(
    ctx: &InferCtx,
    fn_types: &Vec<Type>,
    outer: &FxHashSet<u32>,
    outer_caps: &FxHashSet<u32>,
) -> (r: FxHashSet<u32>)
    ensures
        forall|v: u32| #[trigger]
            r@.contains(v) <==> quantifies(ctx.table(), views(fn_types@), outer@, v),
{
    let ghost tb = ctx.table();
    let ghost tys = views(fn_types@);
    let mut out: FxHashSet<u32> = FxHashSet::default();
    let mut i: usize = 0;
    while i < fn_types.len()
        invariant
            i <= fn_types@.len(),
            tb == ctx.table(),
            tys == views(fn_types@),
            forall|v: u32| #[trigger]
                out@.contains(v) <==> !outer@.contains(v) && exists|k: int|
                    0 <= k < i && occurs(TyVid(v), resolve(tb, #[trigger] tys[k])),
        decreases fn_types@.len() - i,
    {
        let s = generalise_with_env(ctx, &fn_types[i], outer, outer_caps);
        let ghost was = out@;
        assert(tys[i as int] == fn_types@[i as int]@);
        let mut j: usize = 0;
        while j < s.vars.len()
            invariant
                j <= s.vars@.len(),
                forall|v: u32| #[trigger]
                    out@.contains(v) <==> was.contains(v) || exists|k: int|
                        0 <= k < j && #[trigger] s.vars@[k] == TyVid(v),
            decreases s.vars@.len() - j,
        {
            insert_id(&mut out, s.vars[j].0);
            j = j + 1;
        }
        assert forall|v: u32| #[trigger] out@.contains(v) <==> !outer@.contains(v) && exists|k: int|
            0 <= k < i + 1 && occurs(TyVid(v), resolve(tb, #[trigger] tys[k])) by {
            assert(s@.vars.contains(TyVid(v)) <==> occurs(TyVid(v), s@.ty) && !outer@.contains(v));
            if s@.vars.contains(TyVid(v)) {
                let k = choose|k: int| 0 <= k < s.vars@.len() && s.vars@[k] == TyVid(v);
                assert(s.vars@[k] == TyVid(v));
                assert(occurs(TyVid(v), resolve(tb, tys[i as int])));
            }
            if out@.contains(v) && !was.contains(v) {
                let k = choose|k: int| 0 <= k < s.vars@.len() && #[trigger] s.vars@[k] == TyVid(v);
                assert(s@.vars[k] == TyVid(v));
            }
            if was.contains(v) {
                let k = choose|k: int|
                    0 <= k < i && occurs(TyVid(v), resolve(tb, #[trigger] tys[k]));
                assert(occurs(TyVid(v), resolve(tb, tys[k])));
            }
        }
        i = i + 1;
    }
    assert(tys.len() == fn_types@.len());
    out
}

/// `d` is `c` with the deferred constraints of a component solved, those in
/// `kept` left to generalise over: the plans join those of the module, and
/// then the dictionaries are reported that nothing can give.
pub open spec fn constraints_solved(
    k: Registries,
    c: InferCtx,
    d: InferCtx,
    tys: Seq<Ty>,
    outer: Set<u32>,
    span: Span,
    kept: Seq<Pred>,
) -> bool {
    exists|plans: Map<(u32, u32), Plan>, ds: Seq<Diag>, ks: Seq<(u32, u32)>|
        #![trigger solved_to(k.rules(c.tycon_decls@, outer, span), initial(preds(c.deferred_constraints@), diags(c.errors@), c.table()), kept, plans, ds, d.table()), lists_keys(ks, plans)]
        {
            &&& solved_to(
                k.rules(c.tycon_decls@, outer, span),
                initial(preds(c.deferred_constraints@), diags(c.errors@), c.table()),
                kept,
                plans,
                ds,
                d.table(),
            )
            &&& lists_keys(ks, plans)
            &&& diags(d.errors@) == ds + missing_in(
                plans,
                ks,
                |v: u32| quantifies(d.table(), tys, outer, v) || outer.contains(v),
            ).map_values(|class: ClassId| ambiguous_element(k.classes.classes@, class, span))
            &&& plans_of(d.dict_resolution_accum@) == plans_of(
                c.dict_resolution_accum@,
            ).union_prefer_right(plans)
            &&& d.deferred_constraints@.len() == 0
            &&& d == (InferCtx {
                vars: d.vars,
                errors: d.errors,
                deferred_constraints: d.deferred_constraints,
                dict_resolution_accum: d.dict_resolution_accum,
                ..c
            })
        }
}

/// Solves the deferred constraints of a component. Gives the constraints to
/// generalise over.
#[must_use]
pub(crate) fn solve_component(
    ctx: &mut InferCtx,
    k: Registries,
    fn_types: &Vec<Type>,
    outer: &FxHashSet<u32>,
    outer_caps: &FxHashSet<u32>,
    span: Span,
) -> (kept: Vec<Constraint>)
    requires
        old(ctx).wf(),
        k.wf(),
        k.can_solve(old(ctx).deferred_constraints@),
        old(ctx).has_room(k.cost(old(ctx).deferred_constraints@) as int),
    ensures
        final(ctx).wf(),
        constraints_solved(
            k,
            *old(ctx),
            *final(ctx),
            views(fn_types@),
            outer@,
            span,
            preds(kept@),
        ),
        final(ctx).table().types.len() <= old(ctx).table().types.len() + k.cost(
            old(ctx).deferred_constraints@,
        ),
        diags(old(ctx).errors@).is_prefix_of(diags(final(ctx).errors@)),
{
    let ghost c = *ctx;
    let ghost r = k.rules(ctx.tycon_decls@, outer@, span);
    let ghost s0 = initial(preds(ctx.deferred_constraints@), diags(ctx.errors@), ctx.table());
    proof {
        cost_is_common(r, k.common(), preds(ctx.deferred_constraints@));
        assert forall|i: int| 0 <= i < c.deferred_constraints@.len() implies solvable(
            r,
            (#[trigger] c.deferred_constraints@[i])@,
        ) by {
            assert(solvable(k.common(), c.deferred_constraints@[i]@));
        }
    }
    let (kept, plans) = solve_constraints(ctx, k.instances, k.classes, outer, span, Some(k.b));
    let ghost solved = *ctx;
    let generalizable = quantified(ctx, fn_types, outer, outer_caps);
    report_ambiguous_element_dicts(ctx, k.classes, &plans, &generalizable, outer, span);
    let ghost made = plans@;
    let ghost old_plans = ctx.dict_resolution_accum@;
    put_pairs(&mut ctx.dict_resolution_accum, plans);
    proof {
        let ps = plans_of(made);
        let tys = views(fn_types@);
        let asked = |v: u32| generalizable@.contains(v) || outer@.contains(v);
        let known = |v: u32| quantifies(ctx.table(), tys, outer@, v) || outer@.contains(v);
        assert(asked =~= known);
        let ks = choose|ks: Seq<(u32, u32)>| #[trigger]
            lists_keys(ks, made) && diags(ctx.errors@) == diags(solved.errors@) + missing_in(
                ps,
                ks,
                asked,
            ).map_values(|class: ClassId| ambiguous_element(k.classes.classes@, class, span));
        assert(lists_keys(ks, ps)) by {
            assert forall|q: (u32, u32)| #[trigger] ks.contains(q) <==> ps.dom().contains(q) by {
                assert(made.dom().contains(q) <==> ps.dom().contains(q));
            }
        }
        assert(plans_of(ctx.dict_resolution_accum@) =~= plans_of(old_plans).union_prefer_right(ps));
        assert(solved_to(
            r,
            s0,
            preds(kept@),
            ps,
            diags(solved.errors@),
            ctx.table(),
        ));
        let t = choose|t: Solver| #[trigger]
            solves(r, s0, t) && t.retained == preds(kept@) && t.plans == ps && t.diags == diags(
                solved.errors@,
            ) && t.table == ctx.table();
        solving_only_adds(r, s0, t);
        let more = missing_in(ps, ks, known).map_values(
            |class: ClassId| ambiguous_element(k.classes.classes@, class, span),
        );
        assert(diags(c.errors@).is_prefix_of(diags(solved.errors@)));
        assert((diags(solved.errors@) + more).take(c.errors@.len() as int) =~= diags(
            solved.errors@,
        ).take(c.errors@.len() as int));
        assert(diags(ctx.errors@) == diags(solved.errors@) + more);
    }
    kept
}

/// A constraint that is kept is on every scheme that quantifies over one of its
/// variables, and on no other.
pub proof fn kept_constraints_are_attached(p: Poly, kept: Seq<Pred>, c: Pred)
    ensures
        attached(p, kept).constraints.contains(c) <==> kept.contains(c) && about(p.vars, c),
        attached(p, kept).vars == p.vars,
        attached(p, kept).ty == p.ty,
{
    filtered_are_those(kept, |x: Pred| about(p.vars, x), c);
}

proof fn filtered_are_those(s: Seq<Pred>, keep: spec_fn(Pred) -> bool, c: Pred)
    ensures
        s.filter(keep).contains(c) <==> s.contains(c) && keep(c),
    decreases s.len(),
{
    reveal(Seq::filter);
    if s.len() > 0 {
        let rest = s.drop_last();
        filtered_are_those(rest, keep, c);
        assert(s =~= rest.push(s.last()));
        assert(s.contains(c) <==> rest.contains(c) || s.last() == c) by {
            if rest.contains(c) {
                let i = choose|i: int| 0 <= i < rest.len() && rest[i] == c;
                assert(s[i] == c);
            }
            if s.contains(c) && s.last() != c {
                let i = choose|i: int| 0 <= i < s.len() && s[i] == c;
                assert(rest[i] == c);
            }
        }
        let kept = rest.filter(keep);
        assert(kept.push(s.last()).contains(c) <==> kept.contains(c) || s.last() == c) by {
            assert(kept.push(s.last())[kept.len() as int] == s.last());
            if kept.contains(c) {
                let i = choose|i: int| 0 <= i < kept.len() && kept[i] == c;
                assert(kept.push(s.last())[i] == c);
            }
            if kept.push(s.last()).contains(c) && s.last() != c {
                let i = choose|i: int|
                    0 <= i < kept.push(s.last()).len() && kept.push(s.last())[i] == c;
                assert(kept[i] == c);
            }
        }
    }
}

/// A scheme is left as it is where no constraint is kept.
pub proof fn nothing_kept_attaches_nothing(p: Poly)
    requires
        p.constraints.len() == 0,
    ensures
        attached(p, Seq::empty()) == p,
{
    reveal(Seq::filter);
    assert(attached(p, Seq::empty()) =~= p);
}

} // verus!

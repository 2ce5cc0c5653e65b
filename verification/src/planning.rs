use vstd::prelude::*;

use crate::classes::{find_instance, ClassInfo, FunDep, Inst, InstanceEntry};
use crate::diag::Diag;
use crate::fundeps::{
    any_open, fits_heads, fitting, fresh_head, improve_one, is_open_type, join_leaves, known_heads,
    more_slots, pin_to, slots_refine, tie_from, tie_learns,
};
use crate::instantiate::{fresh_vars, renamed, renamed_cap};
use crate::plans::{context_plans, ctx_len, fix_hint_text, plan_for, Plan};
use crate::render::spine;
use crate::solve::{flattened, missing_among, missing_elements, missing_in, multi_plans, Rules};
use crate::solving::{has_instance, instances_are_found};
use crate::subst::{apply_fixed, cap_occurs, occurs, occurs_any};
use crate::table::{look, look_cap, resolve, solved, Table};
use crate::types::{
    single, BuiltinTyCons, CapRow, CapVid, ClassId, Span, Ty, TyConDecl, TyConId, TyVid,
};
use crate::unify::{agrees, unified, unified_agree};

verus! {

/// The instance of a class for a constructor: the first that was declared.
pub open spec fn is_instance_for(
    es: Seq<InstanceEntry>,
    i: int,
    class: ClassId,
    id: TyConId,
) -> bool {
    &&& 0 <= i < es.len()
    &&& es[i].class == class
    &&& es[i].key@ == seq![id]
    &&& forall|j: int|
        0 <= j < i ==> !((#[trigger] es[j]).class == class && es[j].key@ == seq![id])
}

/// Everything that a type needs to be of a class has an instance: the type, and
/// each argument that the instance asks something of.
pub open spec fn can_plan(es: Seq<InstanceEntry>, class: ClassId, t: Ty) -> bool
    decreases t,
{
    match t {
        Ty::Con(id, args) => exists|i: int| #[trigger]
            is_instance_for(es, i, class, id) && forall|k: int|
                #![trigger es[i].info@.ctx[k]]
                0 <= k < es[i].info@.ctx.len() && k < es[i].info@.positions.len()
                    && es[i].info@.positions[k] < args.len() ==> can_plan(
                    es,
                    es[i].info@.ctx[k].class,
                    args[es[i].info@.positions[k] as int],
                ),
        _ => true,
    }
}

proof fn context_is_planned(
    es: Seq<InstanceEntry>,
    cs: Seq<ClassInfo>,
    span: Span,
    info: Inst,
    id: TyConId,
    args: Seq<Ty>,
    k: nat,
)
    requires
        k <= ctx_len(info),
    ensures
        context_plans(es, cs, span, info, Ty::Con(id, args), k).0.len() == k,
        forall|i: int|
            #![trigger info.ctx[i]]
            0 <= i < k && info.positions[i] < args.len() ==> context_plans(
                es,
                cs,
                span,
                info,
                Ty::Con(id, args),
                k,
            ).0[i] == plan_for(es, cs, span, info.ctx[i].class, args[info.positions[i] as int]).0,
        context_plans(es, cs, span, info, Ty::Con(id, args), k).1.len() == 0 <==> forall|i: int|
            #![trigger info.ctx[i]]
            0 <= i < k && info.positions[i] < args.len() ==> plan_for(
                es,
                cs,
                span,
                info.ctx[i].class,
                args[info.positions[i] as int],
            ).1.len() == 0,
    decreases k,
{
    if k > 0 {
        context_is_planned(es, cs, span, info, id, args, (k - 1) as nat);
        let before = context_plans(es, cs, span, info, Ty::Con(id, args), (k - 1) as nat);
        let after = context_plans(es, cs, span, info, Ty::Con(id, args), k);
        assert forall|i: int| #![trigger info.ctx[i]] 0 <= i < k - 1 implies after.0[i]
            == before.0[i] by {}
        let last = info.ctx[k - 1];
    }
}

/// The dictionary of a type that has a constructor is that of the instance for
/// the constructor. It is built from one dictionary for each constraint in the
/// instance's context, of the class of that constraint, for the argument of the
/// type at the position of that constraint.
pub proof fn dictionaries_are_of_instances(
    es: Seq<InstanceEntry>,
    cs: Seq<ClassInfo>,
    span: Span,
    class: ClassId,
    id: TyConId,
    args: Seq<Ty>,
    i: int,
)
    requires
        is_instance_for(es, i, class, id),
    ensures
        ({
            let info = es[i].info@;
            let (plan, ds) = plan_for(es, cs, span, class, Ty::Con(id, args));
            plan matches Plan::Static { class: c, info: n, tycon, extra, args: inner } && c == class
                && n == info && tycon == id && extra.len() == 0 && inner.len() == (
            if info.ctx.len() <= info.positions.len() {
                info.ctx.len()
            } else {
                info.positions.len()
            }) && forall|k: int|
                #![trigger info.ctx[k]]
                0 <= k < inner.len() && info.positions[k] < args.len() ==> inner[k] == plan_for(
                    es,
                    cs,
                    span,
                    info.ctx[k].class,
                    args[info.positions[k] as int],
                ).0
        }),
{
    instance_is_found(es, class, id, i);
    let info = es[i].info@;
    context_is_planned(es, cs, span, info, id, args, ctx_len(info));
}

proof fn instance_is_found(es: Seq<InstanceEntry>, class: ClassId, id: TyConId, i: int)
    requires
        is_instance_for(es, i, class, id),
    ensures
        find_instance(es, class, seq![id]) == Some(es[i]),
        forall|j: int| #[trigger] is_instance_for(es, j, class, id) ==> j == i,
{
    instances_are_found(es, class, seq![id]);
    assert(has_instance(es, class, seq![id]));
    let e = find_instance(es, class, seq![id])->0;
    let j = choose|j: int|
        0 <= j < es.len() && #[trigger] es[j] == e && forall|m: int|
            0 <= m < j ==> !((#[trigger] es[m]).class == class && es[m].key@ == seq![id]);
    assert(es[j] == e);
    assert(i == j);
}

/// A type that is not known yet has its dictionary handed in, for the variable
/// that it is.
pub proof fn open_dictionaries_are_handed_in(
    es: Seq<InstanceEntry>,
    cs: Seq<ClassInfo>,
    span: Span,
    class: ClassId,
    v: TyVid,
)
    ensures
        plan_for(es, cs, span, class, Ty::Var(v)) == (
            Plan::Forward(single(class, v)),
            Seq::<Diag>::empty(),
        ),
{
}

/// A dictionary can be built without a report where everything that it needs has
/// an instance, and only there.
pub proof fn missing_instances_are_reported(
    es: Seq<InstanceEntry>,
    cs: Seq<ClassInfo>,
    span: Span,
    class: ClassId,
    t: Ty,
)
    ensures
        plan_for(es, cs, span, class, t).1.len() == 0 <==> can_plan(es, class, t),
        t matches Ty::Con(id, _) ==> (!has_instance(es, class, seq![id]) ==> plan_for(
            es,
            cs,
            span,
            class,
            t,
        ).1.len() == 1 && (plan_for(es, cs, span, class, t).1[0] matches Diag::NoInstance {
            class: _,
            ty: _,
            span: at,
            hint: _,
        } && at == span)),
    decreases t,
{
    if let Ty::Con(id, args) = t {
        instances_are_found(es, class, seq![id]);
        if has_instance(es, class, seq![id]) {
            let e = find_instance(es, class, seq![id])->0;
            let i = choose|i: int|
                0 <= i < es.len() && #[trigger] es[i] == e && forall|j: int|
                    0 <= j < i ==> !((#[trigger] es[j]).class == class && es[j].key@ == seq![id]);
            assert(es[i] == e);
            assert(is_instance_for(es, i, class, id));
            instance_is_found(es, class, id, i);
            let info = es[i].info@;
            context_is_planned(es, cs, span, info, id, args, ctx_len(info));
            assert forall|k: int|
                #![trigger info.ctx[k]]
                0 <= k < ctx_len(info) && info.positions[k] < args.len() implies (plan_for(
                es,
                cs,
                span,
                info.ctx[k].class,
                args[info.positions[k] as int],
            ).1.len() == 0 <==> can_plan(
                es,
                info.ctx[k].class,
                args[info.positions[k] as int],
            )) by {
                missing_instances_are_reported(
                    es,
                    cs,
                    span,
                    info.ctx[k].class,
                    args[info.positions[k] as int],
                );
            }
        } else {
            assert forall|i: int| !#[trigger] is_instance_for(es, i, class, id) by {
                if is_instance_for(es, i, class, id) {
                    assert(es[i].class == class);
                }
            }
        }
    }
}

/// How many arguments a type of a head has: those of its constructor, or the
/// parameters of a function and its result.
pub open spec fn width(t: Ty) -> nat {
    match t {
        Ty::Con(_, args) => args.len(),
        Ty::Fn { params, ret: _, caps: _ } => params.len() + 1,
        _ => 0,
    }
}

/// How many arguments the types of a head before the `k`-th have.
pub open spec fn offset(rs: Seq<Ty>, k: nat) -> nat
    decreases k,
{
    if k == 0 || k > rs.len() {
        0
    } else {
        offset(rs, (k - 1) as nat) + width(rs[k - 1])
    }
}

proof fn offset_of_fewer(rs: Seq<Ty>, n: int, k: nat)
    requires
        k <= n <= rs.len(),
    ensures
        offset(rs.take(n), k) == offset(rs, k),
    decreases k,
{
    if k > 0 {
        offset_of_fewer(rs, n, (k - 1) as nat);
        assert(rs.take(n)[k - 1] == rs[k - 1]);
    }
}

/// The arguments of a head are counted through from its first type to its last:
/// an argument of one type stands behind all those of the types before it.
pub proof fn arguments_are_counted_through(rs: Seq<Ty>, k: int, j: int)
    ensures
        flattened(rs).len() == offset(rs, rs.len()),
        0 <= k < rs.len() ==> match rs[k] {
            Ty::Con(_, args) => 0 <= j < args.len() ==> offset(rs, k as nat) + j < flattened(
                rs,
            ).len() && flattened(rs)[offset(rs, k as nat) + j] == args[j],
            Ty::Fn { params, ret, caps: _ } => {
                &&& 0 <= j < params.len() ==> offset(rs, k as nat) + j < flattened(rs).len()
                    && flattened(rs)[offset(rs, k as nat) + j] == params[j]
                &&& offset(rs, k as nat) + params.len() < flattened(rs).len() && flattened(
                    rs,
                )[(offset(rs, k as nat) + params.len()) as int] == *ret
            },
            _ => true,
        },
    decreases rs.len(),
{
    if rs.len() > 0 {
        let before = rs.drop_last();
        arguments_are_counted_through(before, k, j);
        assert(before =~= rs.take(rs.len() - 1));
        offset_of_fewer(rs, rs.len() - 1, before.len());
        assert(rs.last() == rs[rs.len() - 1]);
        if 0 <= k < before.len() {
            offset_of_fewer(rs, rs.len() - 1, k as nat);
            assert(before[k] == rs[k]);
        }
    }
}

/// The dictionaries for the context of an instance over several types are those
/// for the arguments at the positions of the context, counted through the head;
/// the last position of all is that of the last argument.
pub proof fn contexts_go_by_their_positions(r: Rules, info: Inst, flat: Seq<Ty>, k: nat, i: int)
    requires
        k <= info.ctx.len(),
        k <= info.positions.len(),
        0 <= i < k,
    ensures
        multi_plans(r, info, flat, k).0.len() == k,
        info.positions[i] < flat.len() && info.positions[i] != usize::MAX ==> multi_plans(
            r,
            info,
            flat,
            k,
        ).0[i] == plan_for(
            r.es,
            r.cs,
            r.span,
            info.ctx[i].class,
            flat[info.positions[i] as int],
        ).0,
        info.positions[i] == usize::MAX && flat.len() > 0 ==> multi_plans(r, info, flat, k).0[i]
            == plan_for(r.es, r.cs, r.span, info.ctx[i].class, flat.last()).0,
        info.positions[i] < flat.len() && info.positions[i] != usize::MAX && !can_plan(
            r.es,
            info.ctx[i].class,
            flat[info.positions[i] as int],
        ) ==> multi_plans(r, info, flat, k).1.len() > 0,
    decreases k,
{
    if i < k - 1 {
        contexts_go_by_their_positions(r, info, flat, (k - 1) as nat, i);
    } else if k > 1 {
        contexts_go_by_their_positions(r, info, flat, (k - 1) as nat, 0);
    } else {
        assert(multi_plans(r, info, flat, 0).0.len() == 0);
    }
    let before = multi_plans(r, info, flat, (k - 1) as nat);
    assert(before.0.len() == k - 1);
    if info.positions[i] < flat.len() && info.positions[i] != usize::MAX {
        missing_instances_are_reported(
            r.es,
            r.cs,
            r.span,
            info.ctx[i].class,
            flat[info.positions[i] as int],
        );
    }
}

/// A dictionary of the class is to be handed in somewhere inside a plan, for types
/// none of which is known to be given.
pub open spec fn lacks(p: Plan, known: spec_fn(u32) -> bool, class: ClassId) -> bool
    decreases p,
{
    match p {
        Plan::Static { class: _, info: _, tycon: _, extra: _, args } => any_lacks(
            args,
            known,
            class,
        ),
        Plan::Forward(_) => false,
    }
}

pub open spec fn any_lacks(args: Seq<Plan>, known: spec_fn(u32) -> bool, class: ClassId) -> bool
    decreases args,
{
    exists|i: int|
        0 <= i < args.len() && match #[trigger] args[i] {
            Plan::Forward(c) => c.class == class && forall|k: int|
                0 <= k < c.tys.len() ==> !known((#[trigger] c.tys[k]).0),
            Plan::Static { .. } => lacks(args[i], known, class),
        }
}

proof fn missing_are_lacked(args: Seq<Plan>, known: spec_fn(u32) -> bool, class: ClassId)
    ensures
        missing_among(args, known).contains(class) <==> any_lacks(args, known, class),
    decreases args,
{
    if args.len() > 0 {
        let before = args.drop_last();
        missing_are_lacked(before, known, class);
        let n = args.len() - 1;
        let last = args[n];
        let m = missing_among(before, known);
        assert(any_lacks(before, known, class) ==> any_lacks(args, known, class)) by {
            if any_lacks(before, known, class) {
                let i = choose|i: int|
                    0 <= i < before.len() && match #[trigger] before[i] {
                        Plan::Forward(c) => c.class == class && forall|k: int|
                            0 <= k < c.tys.len() ==> !known((#[trigger] c.tys[k]).0),
                        Plan::Static { .. } => lacks(before[i], known, class),
                    };
                assert(args[i] == before[i]);
            }
        }
        match last {
            Plan::Forward(c) => {
                let there = m.push(c.class);
                assert(there[m.len() as int] == c.class);
                if m.contains(class) {
                    let i = choose|i: int| 0 <= i < m.len() && m[i] == class;
                    assert(there[i] == class);
                }
                if there.contains(class) && c.class != class {
                    let i = choose|i: int| 0 <= i < there.len() && there[i] == class;
                    assert(m[i] == class);
                }
            },
            Plan::Static { class: _, info: _, tycon: _, extra: _, args: inner } => {
                missing_are_lacked(inner, known, class);
                assert(lacks(last, known, class) <==> any_lacks(inner, known, class));
                joined_contains(m, missing_among(inner, known), class);
            },
        }
        if any_lacks(args, known, class) {
            let i = choose|i: int|
                0 <= i < args.len() && match #[trigger] args[i] {
                    Plan::Forward(c) => c.class == class && forall|k: int|
                        0 <= k < c.tys.len() ==> !known((#[trigger] c.tys[k]).0),
                    Plan::Static { .. } => lacks(args[i], known, class),
                };
            if i < n {
                assert(before[i] == args[i]);
                assert(any_lacks(before, known, class));
            }
        }
    }
}

proof fn joined_contains(a: Seq<ClassId>, b: Seq<ClassId>, class: ClassId)
    ensures
        (a + b).contains(class) <==> a.contains(class) || b.contains(class),
{
    if a.contains(class) {
        let i = choose|i: int| 0 <= i < a.len() && a[i] == class;
        assert((a + b)[i] == class);
    }
    if b.contains(class) {
        let i = choose|i: int| 0 <= i < b.len() && b[i] == class;
        assert((a + b)[a.len() + i] == class);
    }
    if (a + b).contains(class) {
        let i = choose|i: int| 0 <= i < (a + b).len() && (a + b)[i] == class;
        if i < a.len() {
            assert(a[i] == class);
        } else {
            assert(b[i - a.len()] == class);
        }
    }
}

/// The classes that are reported for a component are those of which one of its
/// plans lacks a dictionary.
pub proof fn lacking_dictionaries_are_reported(
    plans: Map<(u32, u32), Plan>,
    ks: Seq<(u32, u32)>,
    known: spec_fn(u32) -> bool,
    class: ClassId,
)
    ensures
        missing_in(plans, ks, known).contains(class) <==> exists|i: int|
            0 <= i < ks.len() && lacks(plans[#[trigger] ks[i]], known, class),
    decreases ks.len(),
{
    if ks.len() > 0 {
        let before = ks.drop_last();
        lacking_dictionaries_are_reported(plans, before, known, class);
        let last = plans[ks.last()];
        if let Plan::Static { class: _, info: _, tycon: _, extra: _, args } = last {
            missing_are_lacked(args, known, class);
        }
        joined_contains(missing_in(plans, before, known), missing_elements(last, known), class);
        assert(missing_elements(last, known).contains(class) <==> lacks(last, known, class));
        if exists|i: int| 0 <= i < before.len() && lacks(plans[#[trigger] before[i]], known, class) {
            let i = choose|i: int|
                0 <= i < before.len() && lacks(plans[#[trigger] before[i]], known, class);
            assert(ks[i] == before[i]);
        }
        assert(ks[ks.len() - 1] == ks.last());
        if exists|i: int| 0 <= i < ks.len() && lacks(plans[#[trigger] ks[i]], known, class) {
            let i = choose|i: int|
                0 <= i < ks.len() && lacks(plans[#[trigger] ks[i]], known, class);
            if i < before.len() {
                assert(before[i] == ks[i]);
            }
        }
    }
}

/// A dependency says something where every type that it goes by has a
/// constructor, and then goes by those constructors.
pub proof fn known_types_determine(rs: Seq<Ty>, ps: Seq<usize>)
    ensures
        known_heads(rs, ps) is Some <==> forall|k: int|
            0 <= k < ps.len() ==> (#[trigger] ps[k]) < rs.len() && rs[ps[k] as int] is Con,
        known_heads(rs, ps) matches Some(fixed) ==> fixed.len() == ps.len() && forall|k: int|
            0 <= k < ps.len() ==> (#[trigger] fixed[k]).0 == ps[k] && fixed[k].1
                == rs[ps[k] as int]->Con_0,
    decreases ps.len(),
{
    if ps.len() > 0 {
        let before = ps.drop_last();
        known_types_determine(rs, before);
        assert forall|k: int| 0 <= k < before.len() implies #[trigger] before[k] == ps[k] by {}
        if known_heads(rs, ps) is Some {
            assert forall|k: int| 0 <= k < ps.len() implies (#[trigger] ps[k]) < rs.len()
                && rs[ps[k] as int] is Con by {
                if k < before.len() {
                    assert(before[k] == ps[k]);
                } else {
                    assert(ps[k] == ps.last());
                }
            }
        } else if forall|k: int|
            0 <= k < ps.len() ==> (#[trigger] ps[k]) < rs.len() && rs[ps[k] as int] is Con {
            assert forall|k: int| 0 <= k < before.len() implies (#[trigger] before[k]) < rs.len()
                && rs[before[k] as int] is Con by {
                assert(before[k] == ps[k]);
            }
            assert(ps[ps.len() - 1] == ps.last());
        }
    }
}

proof fn fitting_are_those(
    es: Seq<InstanceEntry>,
    class: ClassId,
    fixed: Seq<(usize, TyConId)>,
    n: nat,
)
    requires
        n <= es.len(),
    ensures
        fitting(es, class, fixed, n).no_duplicates(),
        forall|i: int| #[trigger]
            fitting(es, class, fixed, n).contains(i) <==> 0 <= i < n && fits_heads(
                es[i],
                class,
                fixed,
            ),
    decreases n,
{
    if n > 0 {
        fitting_are_those(es, class, fixed, (n - 1) as nat);
        let before = fitting(es, class, fixed, (n - 1) as nat);
        let after = fitting(es, class, fixed, n);
        assert forall|i: int| #[trigger] after.contains(i) implies 0 <= i < n && fits_heads(
            es[i],
            class,
            fixed,
        ) by {
            let k = choose|k: int| 0 <= k < after.len() && after[k] == i;
            if k < before.len() {
                assert(before[k] == i);
                assert(before.contains(i));
            }
        }
        assert forall|i: int| 0 <= i < n && fits_heads(es[i], class, fixed) implies
            #[trigger] after.contains(i) by {
            if i < n - 1 {
                assert(before.contains(i));
                let k = choose|k: int| 0 <= k < before.len() && before[k] == i;
                assert(after[k] == i);
            } else {
                assert(after[before.len() as int] == i);
            }
        }
        if fits_heads(es[n - 1], class, fixed) {
            assert(!before.contains(n - 1));
            assert forall|i: int, j: int|
                0 <= i < after.len() && 0 <= j < after.len() && i != j implies after[i]
                != after[j] by {
                if i < before.len() {
                    assert(before.contains(before[i]));
                }
                if j < before.len() {
                    assert(before.contains(before[j]));
                }
            }
        }
    }
}

/// Nothing is learned from a dependency whose types are not all known, nor where
/// no instance fits, nor where two do.
pub proof fn nothing_is_guessed(
    tb: Table,
    b: BuiltinTyCons,
    tycons: Seq<TyConDecl>,
    es: Seq<InstanceEntry>,
    class: ClassId,
    tys: Seq<TyVid>,
    rs: Seq<Ty>,
    fd: FunDep,
    span: Span,
)
    requires
        (exists|k: int|
            0 <= k < fd.from@.len() && ((#[trigger] fd.from@[k]) >= rs.len()
                || rs[fd.from@[k] as int] !is Con)) || {
            &&& !(fd.from@.len() == 1 && fd.to@.len() == 1 && join_leaves(
                b,
                tycons,
                rs[fd.from@[0] as int],
            ) is Some)
            &&& known_heads(rs, fd.from@) matches Some(fixed) && ((forall|i: int|
                0 <= i < es.len() ==> !fits_heads(#[trigger] es[i], class, fixed)) || exists|
                i: int,
                j: int,
            |
                0 <= i < j < es.len() && fits_heads(#[trigger] es[i], class, fixed) && fits_heads(
                    #[trigger] es[j],
                    class,
                    fixed,
                ))
        },
    ensures
        improve_one(tb, b, tycons, es, class, tys, rs, fd, span) == (tb, None::<Diag>),
{
    known_types_determine(rs, fd.from@);
    if let Some(fixed) = known_heads(rs, fd.from@) {
        fitting_are_those(es, class, fixed, es.len());
        let found = fitting(es, class, fixed, es.len());
        if found.len() == 1 {
            assert(found.contains(found[0]));
            assert(fits_heads(es[found[0]], class, fixed));
            assert forall|i: int| 0 <= i < es.len() && fits_heads(#[trigger] es[i], class, fixed)
                implies i == found[0] by {
                assert(found.contains(i));
            }
        }
    }
}

proof fn closed_without_open(t: Ty, v: TyVid)
    requires
        !is_open_type(t),
    ensures
        !occurs(v, t),
    decreases t,
{
    match t {
        Ty::Con(_, args) => all_closed_without_open(args, v),
        Ty::Fn { params, ret, caps: _ } => {
            all_closed_without_open(params, v);
            closed_without_open(*ret, v);
        },
        Ty::Tuple(elems) => all_closed_without_open(elems, v),
        Ty::Alias { name: _, body } => closed_without_open(*body, v),
        _ => {},
    }
}

proof fn all_closed_without_open(ts: Seq<Ty>, v: TyVid)
    requires
        !any_open(ts),
    ensures
        !occurs_any(v, ts),
    decreases ts,
{
    assert forall|i: int| 0 <= i < ts.len() implies !occurs(v, #[trigger] ts[i]) by {
        assert(!is_open_type(ts[i]));
        closed_without_open(ts[i], v);
    }
}

/// Where one instance fits what is known, what it has at the position that the
/// dependency determines is the type there: the two agree from then on, or the
/// clash is reported.
pub proof fn one_instance_determines(
    tb: Table,
    b: BuiltinTyCons,
    tycons: Seq<TyConDecl>,
    es: Seq<InstanceEntry>,
    class: ClassId,
    tys: Seq<TyVid>,
    rs: Seq<Ty>,
    fd: FunDep,
    span: Span,
    fixed: Seq<(usize, TyConId)>,
    i: int,
    p: int,
)
    requires
        solved(tb),
        0 <= i < es.len(),
        tb.types.len() + es[i].head_vars@.len() <= u32::MAX,
        known_heads(rs, fd.from@) == Some(fixed),
        fits_heads(es[i], class, fixed),
        forall|j: int| 0 <= j < es.len() && fits_heads(#[trigger] es[j], class, fixed) ==> j == i,
        fd.to@.len() == 1,
        fd.to@[0] == p,
        p < es[i].head@.len(),
        fd.from@.len() == 1 ==> join_leaves(b, tycons, rs[fd.from@[0] as int]) is None,
        !is_open_type(es[i].head@[p]@),
        forall|c: CapVid| !cap_occurs(c, es[i].head@[p]@),
    ensures
        ({
            let (tc, d) = improve_one(tb, b, tycons, es, class, tys, rs, fd, span);
            d is None ==> solved(tc) && agrees(resolve(tc, Ty::Var(tys[p])), es[i].head@[p]@)
        }),
{
    fitting_are_those(es, class, fixed, es.len());
    let found = fitting(es, class, fixed, es.len());
    assert(found.contains(i));
    let k = choose|k: int| 0 <= k < found.len() && found[k] == i;
    if found.len() > 1 {
        let j = if k == 0 {
            found[1]
        } else {
            found[0]
        };
        assert(found.contains(j));
        assert(fits_heads(es[j], class, fixed));
        assert(false);
    }
    let e = es[i];
    let t = e.head@[p]@;
    let n = e.head_vars@.len();
    let fresh = fresh_vars(tb.types.len(), n);
    let grown = more_slots(tb, n);
    slots_refine(tb, n);
    tie_learns(grown, e, fresh, rs, fd.from@);
    let tied = tie_from(grown, e, fresh, rs, fd.from@);
    assert forall|v: TyVid| !occurs(v, t) by {
        closed_without_open(t, v);
    }
    apply_fixed(
        t,
        |v: TyVid| Ty::Var(renamed(e.head_vars@, fresh, v)),
        |c: CapVid| CapRow::Var(renamed_cap(Seq::empty(), Seq::empty(), c)),
    );
    assert(fresh_head(e, fresh, p) == t);
    apply_fixed(t, |v: TyVid| look(tied, v), |c: CapVid| look_cap(tied, c));
    let (after, clash) = unified(tied, Ty::Var(tys[p]), t);
    unified_agree(tied, Ty::Var(tys[p]), t);
    apply_fixed(t, |v: TyVid| look(after, v), |c: CapVid| look_cap(after, c));
    assert(fd.to@.drop_last().len() == 0);
    let none = fd.to@.drop_last();
    assert(pin_to(tied, e, fresh, tys, none, span) == (tied, None::<Diag>));
    assert(improve_one(tb, b, tycons, es, class, tys, rs, fd, span) == pin_to(
        tied,
        e,
        fresh,
        tys,
        fd.to@,
        span,
    ));
}

/// A predicate over a join takes one parameter for each of its tables: the type
/// of a row, or an option of one where a row may be missing.
pub proof fn joins_have_their_tables(b: BuiltinTyCons, tycons: Seq<TyConDecl>, t: Ty)
    requires
        join_leaves(b, tycons, t) is Some,
    ensures
        spine(t, tycons, false, 0) matches Some(ls) && join_leaves(b, tycons, t)->0.len()
            == ls.len() && forall|i: int|
            0 <= i < ls.len() ==> (#[trigger] join_leaves(b, tycons, t)->0[i]) == if ls[i].1 {
                Ty::Con(b.option, seq![ls[i].0])
            } else {
                ls[i].0
            },
{
}

/// The hint for a missing instance shows the instance to add, under the name of
/// its class.
pub proof fn hints_show_the_instance(class: Seq<char>, id: TyConId)
    requires
        class != "Eq"@ || id != TyConId(1),
    ensures
        fix_hint_text(class, id) == "add `instance "@ + class + " T` or add `deriving ("@ + class
            + ")` to the type declaration"@,
{
}

} // verus!

use rustc_hash::FxHashMap;
use vstd::prelude::*;

use crate::classes::{
    class_name, find_instance, ClassInfo, ClassTable, Inst, InstanceEntry, InstanceEnv,
    InstanceInfo,
};
use crate::diag::{diag, diags, Desc, Diag};
use crate::error::{TypeDesc, TypeError};
use crate::small::IdList;
use crate::text::{decimal, digits, same_text};
use crate::types::{single, views, ClassId, Constraint, Pred, Span, Ty, TyConId, TyVid, Type};

verus! {

broadcast use {crate::types::group_views, crate::diag::diags_push};

/// How a class constraint at a call site is satisfied.
#[derive(Debug)]
pub enum DictPlan {
    /// By a known instance.
    Static {
        class: ClassId,
        info: Box<InstanceInfo>,
        /// The first constructor of the head.
        tycon: TyConId,
        /// The further constructors of the head of a multi-parameter class.
        extra_head: IdList,
        /// The plans for the instance's own context, in its order.
        args: Vec<DictPlan>,
    },
    /// By a dictionary that the caller passes on.
    Forward(Constraint),
}

/// What a [`DictPlan`] denotes.
#[verifier::ext_equal]
pub enum Plan {
    Static { class: ClassId, info: Inst, tycon: TyConId, extra: Seq<u32>, args: Seq<Plan> },
    Forward(Pred),
}

impl DictPlan {
    pub open spec fn view(&self) -> Plan
        decreases self,
    {
        match self {
            DictPlan::Static { class, info, tycon, extra_head, args } => Plan::Static {
                class: *class,
                info: info@,
                tycon: *tycon,
                extra: extra_head@,
                args: plan_views(args@),
            },
            DictPlan::Forward(c) => Plan::Forward(c@),
        }
    }
}

pub open spec fn plan_views(ps: Seq<DictPlan>) -> Seq<Plan>
    decreases ps,
{
    Seq::new(
        ps.len(),
        |i: int|
            if 0 <= i < ps.len() {
                ps[i].view()
            } else {
                Plan::Forward(single(ClassId(0), TyVid(0)))
            },
    )
}

pub broadcast proof fn plan_views_len(ps: Seq<DictPlan>)
    ensures
        #[trigger] plan_views(ps).len() == ps.len(),
{
}

pub broadcast proof fn plan_views_index(ps: Seq<DictPlan>, i: int)
    requires
        0 <= i < ps.len(),
    ensures
        #[trigger] plan_views(ps)[i] == ps[i]@,
{
}

/// The plan of every constraint that was solved, by the raw ids of its class
/// and of its first variable.
pub type DictResolution = FxHashMap<(u32, u32), DictPlan>;

/// A constructor as a diagnostic names it.
pub open spec fn tycon_text(id: TyConId) -> Seq<char> {
    "TyConId("@ + digits(id.0 as nat) + ")"@
}

pub(crate) fn tycon_string(id: TyConId) -> (r: String)
    ensures
        r@ == tycon_text(id),
{
    let mut s = "TyConId(".to_owned();
    s.append(decimal(id.0 as u128).as_str());
    s.append(")");
    s
}

/// A variable as a diagnostic names it.
pub open spec fn var_text(v: TyVid) -> Seq<char> {
    "?"@ + digits(v.0 as nat)
}

pub(crate) fn var_string(v: TyVid) -> (r: String)
    ensures
        r@ == var_text(v),
{
    let mut s = "?".to_owned();
    s.append(decimal(v.0 as u128).as_str());
    s
}

/// What to do about a missing instance. Equality of floats is left out on
/// purpose, and the hint says so.
pub open spec fn fix_hint_text(class: Seq<char>, tycon: TyConId) -> Seq<char> {
    if class == "Eq"@ && tycon == TyConId(1) {
        "floating-point equality is a footgun (`0.1 + 0.2 ≠ 0.3`); `Eq Float` is intentionally omitted from the prelude. Use explicit comparison or `Crypto.constantTimeEq` for secrets."@
    } else {
        "add `instance "@ + class + " T` or add `deriving ("@ + class
            + ")` to the type declaration"@
    }
}

/// The hint of a missing-instance diagnostic for a class and a constructor.
pub fn build_fix_hint(class: &str, tycon: TyConId) -> (r: String)
    ensures
        r@ == fix_hint_text(class@, tycon),
{
    if same_text(class, "Eq") && tycon.0 == 1 {
        "floating-point equality is a footgun (`0.1 + 0.2 ≠ 0.3`); `Eq Float` is intentionally omitted from the prelude. Use explicit comparison or `Crypto.constantTimeEq` for secrets.".to_owned()
    } else {
        let mut s = "add `instance ".to_owned();
        s.append(class);
        s.append(" T` or add `deriving (");
        s.append(class);
        s.append(")` to the type declaration");
        s
    }
}

/// The diagnostic of a missing instance for a constructor.
pub open spec fn no_instance(
    cs: Seq<ClassInfo>,
    class: ClassId,
    tycon: TyConId,
    span: Span,
) -> Diag {
    Diag::NoInstance {
        class: class_name(cs, class),
        ty: Desc::Text(tycon_text(tycon)),
        span,
        hint: fix_hint_text(class_name(cs, class), tycon),
    }
}

pub(crate) fn no_instance_error(ct: &ClassTable, class: ClassId, tycon: TyConId, span: Span) -> (r: TypeError)
    ensures
        diag(r) == no_instance(ct.classes@, class, tycon, span),
{
    let name = ct.name_of(class);
    let fix_hint = build_fix_hint(name.as_str(), tycon);
    TypeError::NoInstance { class: name, ty: TypeDesc::Text(tycon_string(tycon)), span, fix_hint }
}

/// The plan that stands in where there is none.
pub open spec fn stand_in(class: ClassId) -> Plan {
    Plan::Forward(single(class, TyVid(0)))
}

/// The plan of a class for a resolved type, and the diagnostics on the way: a
/// missing instance leaves a stand-in and is reported.
pub open spec fn plan_for(
    es: Seq<InstanceEntry>,
    cs: Seq<ClassInfo>,
    span: Span,
    class: ClassId,
    t: Ty,
) -> (Plan, Seq<Diag>)
    decreases t, 1nat, 0nat,
{
    match t {
        Ty::Con(id, _) => match find_instance(es, class, seq![id]) {
            None => (stand_in(class), seq![no_instance(cs, class, id, span)]),
            Some(e) => {
                let (args, ds) = context_plans(es, cs, span, e.info@, t, ctx_len(e.info@));
                (
                    Plan::Static { class, info: e.info@, tycon: id, extra: Seq::empty(), args },
                    ds,
                )
            },
        },
        Ty::Var(v) => (Plan::Forward(single(class, v)), Seq::empty()),
        _ => (stand_in(class), Seq::empty()),
    }
}

/// How many constraints of an instance's context have a position.
pub open spec fn ctx_len(info: Inst) -> nat {
    if info.ctx.len() <= info.positions.len() {
        info.ctx.len()
    } else {
        info.positions.len()
    }
}

/// The plans for the first `k` constraints of an instance's context, for a
/// head of one resolved type: each for the type's argument at its position. A
/// function type has its parameters and then its result for arguments.
pub open spec fn context_plans(
    es: Seq<InstanceEntry>,
    cs: Seq<ClassInfo>,
    span: Span,
    info: Inst,
    t: Ty,
    k: nat,
) -> (Seq<Plan>, Seq<Diag>)
    decreases t, 0nat, k,
{
    if k == 0 || k > info.ctx.len() || k > info.positions.len() {
        (Seq::empty(), Seq::empty())
    } else {
        let (before, ds) = context_plans(es, cs, span, info, t, (k - 1) as nat);
        let class = info.ctx[k - 1].class;
        let pos = info.positions[k - 1] as int;
        let (p, more) = match t {
            Ty::Con(_, args) => if pos < args.len() {
                plan_for(es, cs, span, class, args[pos])
            } else {
                (stand_in(class), Seq::empty())
            },
            Ty::Fn { params, ret, caps } => if pos < params.len() {
                plan_for(es, cs, span, class, params[pos])
            } else if pos == params.len() {
                plan_for(es, cs, span, class, *ret)
            } else {
                (stand_in(class), Seq::empty())
            },
            _ => (stand_in(class), Seq::empty()),
        };
        (before.push(p), ds + more)
    }
}

pub(crate) fn push_plan(out: &mut Vec<DictPlan>, p: DictPlan)
    ensures
        plan_views(final(out)@) == plan_views(old(out)@).push(p@),
{
    out.push(p);
    assert(plan_views(out@) =~= plan_views(old(out)@).push(p@)) by {
        broadcast use {plan_views_len, plan_views_index};

        assert forall|i: int| 0 <= i < out@.len() implies plan_views(out@)[i] == plan_views(
            old(out)@,
        ).push(p@)[i] by {
            if i < old(out)@.len() {
                assert(plan_views(old(out)@)[i] == old(out)@[i]@);
            }
        }
    }
}

pub(crate) fn stand_in_plan(class: ClassId) -> (r: DictPlan)
    ensures
        r@ == stand_in(class),
{
    DictPlan::Forward(Constraint::single(class, TyVid(0)))
}

/// Resolves a class and a resolved type into a plan.
pub(crate) fn resolve_dict_plan(
    errors: &mut Vec<TypeError>,
    instances: &InstanceEnv,
    classes: &ClassTable,
    span: Span,
    class: ClassId,
    resolved: &Type,
) -> (r: DictPlan)
    ensures
        r@ == plan_for(instances.entries@, classes.classes@, span, class, resolved@).0,
        diags(final(errors)@) == diags(old(errors)@) + plan_for(
            instances.entries@,
            classes.classes@,
            span,
            class,
            resolved@,
        ).1,
    decreases resolved@, 1nat, 0nat,
{
    match resolved {
        Type::Con(id, _) => match instances.get(class, *id) {
            None => {
                errors.push(no_instance_error(classes, class, *id, span));
                assert(diags(errors@) =~= diags(old(errors)@) + seq![
                    no_instance(classes.classes@, class, *id, span),
                ]);
                stand_in_plan(class)
            },
            Some(e) => {
                let args = resolve_ctx_dict_args(
                    errors,
                    instances,
                    classes,
                    span,
                    &e.info,
                    resolved,
                );
                DictPlan::Static {
                    class,
                    info: Box::new(e.info.clone()),
                    tycon: *id,
                    extra_head: IdList::new(),
                    args,
                }
            },
        },
        Type::Var(v) => {
            assert(diags(errors@) =~= diags(old(errors)@) + Seq::empty());
            DictPlan::Forward(Constraint::single(class, *v))
        },
        _ => {
            assert(diags(errors@) =~= diags(old(errors)@) + Seq::empty());
            stand_in_plan(class)
        },
    }
}

/// Resolves the plans for the context of an instance whose head is one
/// resolved type.
pub(crate) fn resolve_ctx_dict_args(
    errors: &mut Vec<TypeError>,
    instances: &InstanceEnv,
    classes: &ClassTable,
    span: Span,
    info: &InstanceInfo,
    resolved: &Type,
) -> (r: Vec<DictPlan>)
    ensures
        (plan_views(r@), diags(final(errors)@)) == ({
            let (ps, ds) = context_plans(
                instances.entries@,
                classes.classes@,
                span,
                info@,
                resolved@,
                ctx_len(info@),
            );
            (ps, diags(old(errors)@) + ds)
        }),
    decreases resolved@, 0nat, ctx_len(info@) + 1,
{
    let mut out: Vec<DictPlan> = Vec::new();
    let mut k: usize = 0;
    let ghost all = info@;
    let ghost t = resolved@;
    assert(plan_views(out@) =~= Seq::empty());
    assert(diags(errors@) =~= diags(old(errors)@) + Seq::empty());
    while k < info.ctx_constraints.len() && k < info.head_var_positions.len()
        invariant
            k <= ctx_len(all),
            all == info@,
            t == resolved@,
            (plan_views(out@), diags(errors@)) == ({
                let (ps, ds) = context_plans(
                    instances.entries@,
                    classes.classes@,
                    span,
                    all,
                    t,
                    k as nat,
                );
                (ps, diags(old(errors)@) + ds)
            }),
        decreases ctx_len(all) - k,
    {
        let class = info.ctx_constraints[k].class;
        let pos: usize = info.head_var_positions[k];
        let ghost before = diags(errors@);
        assert(all.ctx[k as int] == info.ctx_constraints@[k as int]@);
        let p = match resolved {
            Type::Con(id, args) => {
                assert(t == Ty::Con(*id, views(args@)));
                if pos < args.len() {
                    assert(views(args@)[pos as int] == args@[pos as int]@);
                    resolve_dict_plan(errors, instances, classes, span, class, &args[pos])
                } else {
                    stand_in_plan(class)
                }
            },
            Type::Fn { params, ret, caps } => {
                assert(t == Ty::Fn { params: views(params@), ret: Box::new(ret@), caps: *caps });
                if pos < params.len() {
                    assert(views(params@)[pos as int] == params@[pos as int]@);
                    resolve_dict_plan(errors, instances, classes, span, class, &params[pos])
                } else if pos == params.len() {
                    resolve_dict_plan(errors, instances, classes, span, class, ret)
                } else {
                    stand_in_plan(class)
                }
            },
            _ => stand_in_plan(class),
        };
        push_plan(&mut out, p);
        proof {
            let (ps0, ds0) = context_plans(
                instances.entries@,
                classes.classes@,
                span,
                all,
                t,
                k as nat,
            );
            let (ps1, ds1) = context_plans(
                instances.entries@,
                classes.classes@,
                span,
                all,
                t,
                (k + 1) as nat,
            );
            assert(diags(errors@) =~= diags(old(errors)@) + ds1);
            assert(plan_views(out@) =~= ps1);
        }
        k = k + 1;
    }
    out
}

} // verus!
